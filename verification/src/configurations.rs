//! The configuration of one build: build type, language standard, sanitizer, output root.

use vstd::prelude::*;
use vstd::string::*;
use crate::text::same_text;

verus! {

/// Whether a build is made for debugging or for release.
#[derive(Debug, PartialEq, Eq, Structural, Clone, Copy)]
pub enum BuildType {
    Debug,
    Release,
}

/// The run-time checker that a debug build is instrumented for.
#[derive(Debug, PartialEq, Eq, Structural, Clone, Copy)]
pub enum Sanitizer {
    Address,
    Thread,
    Leak,
    Undefined,
}

/// The C++ language standard.
#[derive(Debug, PartialEq, Eq, Structural, Clone, Copy)]
pub enum CXXStandard {
    CXX98,
    CXX03,
    CXX11,
    CXX14,
    CXX17,
    CXX20,
}

/// The configuration of one invocation.
#[derive(Debug, PartialEq, Eq, Clone)]
pub struct BuildConfiguration {
    pub build_type: BuildType,
    pub cxx_standard: CXXStandard,
    pub sanitizer: Option<Sanitizer>,
    /// The build directory, placed under the directory of each target's sources.
    pub output_root: String,
}

/// The name of a build type; also the directory that keeps its output apart.
pub open spec fn build_type_name(build_type: BuildType) -> Seq<char> {
    match build_type {
        BuildType::Debug => "debug"@,
        BuildType::Release => "release"@,
    }
}

/// The build type that a name stands for.
pub open spec fn build_type_named(name: Seq<char>) -> Option<BuildType> {
    if name == "debug"@ {
        Some(BuildType::Debug)
    } else if name == "release"@ {
        Some(BuildType::Release)
    } else {
        None
    }
}

/// The name of a sanitizer, as the compiler takes it.
pub open spec fn sanitizer_name(sanitizer: Sanitizer) -> Seq<char> {
    match sanitizer {
        Sanitizer::Address => "address"@,
        Sanitizer::Thread => "thread"@,
        Sanitizer::Leak => "leak"@,
        Sanitizer::Undefined => "undefined"@,
    }
}

/// The sanitizer that a name stands for.
pub open spec fn sanitizer_named(name: Seq<char>) -> Option<Sanitizer> {
    if name == "address"@ {
        Some(Sanitizer::Address)
    } else if name == "thread"@ {
        Some(Sanitizer::Thread)
    } else if name == "leak"@ {
        Some(Sanitizer::Leak)
    } else if name == "undefined"@ {
        Some(Sanitizer::Undefined)
    } else {
        None
    }
}

/// The name of a language standard, in lower case.
pub open spec fn standard_name(standard: CXXStandard) -> Seq<char> {
    match standard {
        CXXStandard::CXX98 => "c++98"@,
        CXXStandard::CXX03 => "c++03"@,
        CXXStandard::CXX11 => "c++11"@,
        CXXStandard::CXX14 => "c++14"@,
        CXXStandard::CXX17 => "c++17"@,
        CXXStandard::CXX20 => "c++20"@,
    }
}

/// The language standard that a name in lower case stands for.
pub open spec fn standard_named(name: Seq<char>) -> Option<CXXStandard> {
    if name == "c++98"@ {
        Some(CXXStandard::CXX98)
    } else if name == "c++03"@ {
        Some(CXXStandard::CXX03)
    } else if name == "c++11"@ {
        Some(CXXStandard::CXX11)
    } else if name == "c++14"@ {
        Some(CXXStandard::CXX14)
    } else if name == "c++17"@ {
        Some(CXXStandard::CXX17)
    } else if name == "c++20"@ {
        Some(CXXStandard::CXX20)
    } else {
        None
    }
}

impl Default for BuildType {
    fn default() -> (r: BuildType)
        ensures
            r == BuildType::Debug,
    {
        BuildType::Debug
    }
}

impl Default for CXXStandard {
    fn default() -> (r: CXXStandard)
        ensures
            r == CXXStandard::CXX20,
    {
        CXXStandard::CXX20
    }
}

impl BuildType {
    /// The build type named `name`.
    pub fn parse(name: &str) -> (r: Option<BuildType>)
        ensures
            r == build_type_named(name@),
    {
        if same_text(name, "debug") {
            Some(BuildType::Debug)
        } else if same_text(name, "release") {
            Some(BuildType::Release)
        } else {
            None
        }
    }

    pub fn to_string(&self) -> (r: String)
        ensures
            r@ == build_type_name(*self),
    {
        match self {
            BuildType::Debug => String::from_str("debug"),
            BuildType::Release => String::from_str("release"),
        }
    }
}

impl Sanitizer {
    /// The sanitizer named `name`.
    pub fn parse(name: &str) -> (r: Option<Sanitizer>)
        ensures
            r == sanitizer_named(name@),
    {
        if same_text(name, "address") {
            Some(Sanitizer::Address)
        } else if same_text(name, "thread") {
            Some(Sanitizer::Thread)
        } else if same_text(name, "leak") {
            Some(Sanitizer::Leak)
        } else if same_text(name, "undefined") {
            Some(Sanitizer::Undefined)
        } else {
            None
        }
    }

    pub fn to_string(&self) -> (r: String)
        ensures
            r@ == sanitizer_name(*self),
    {
        match self {
            Sanitizer::Address => String::from_str("address"),
            Sanitizer::Thread => String::from_str("thread"),
            Sanitizer::Leak => String::from_str("leak"),
            Sanitizer::Undefined => String::from_str("undefined"),
        }
    }
}

impl CXXStandard {
    /// The language standard named `name`, in lower case.
    pub fn parse(name: &str) -> (r: Option<CXXStandard>)
        ensures
            r == standard_named(name@),
    {
        if same_text(name, "c++98") {
            Some(CXXStandard::CXX98)
        } else if same_text(name, "c++03") {
            Some(CXXStandard::CXX03)
        } else if same_text(name, "c++11") {
            Some(CXXStandard::CXX11)
        } else if same_text(name, "c++14") {
            Some(CXXStandard::CXX14)
        } else if same_text(name, "c++17") {
            Some(CXXStandard::CXX17)
        } else if same_text(name, "c++20") {
            Some(CXXStandard::CXX20)
        } else {
            None
        }
    }

    pub fn to_string(&self) -> (r: String)
        ensures
            r@ == standard_name(*self),
    {
        match self {
            CXXStandard::CXX98 => String::from_str("c++98"),
            CXXStandard::CXX03 => String::from_str("c++03"),
            CXXStandard::CXX11 => String::from_str("c++11"),
            CXXStandard::CXX14 => String::from_str("c++14"),
            CXXStandard::CXX17 => String::from_str("c++17"),
            CXXStandard::CXX20 => String::from_str("c++20"),
        }
    }
}

} // verus!
