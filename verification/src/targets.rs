//! Targets as a manifest declares them.

use vstd::prelude::*;
use vstd::string::*;

verus! {

/// How a library is linked.
#[derive(Debug, PartialEq, Eq, Structural, Clone, Copy)]
pub enum LibraryType {
    Static,
    Dynamic,
}

impl Default for LibraryType {
    fn default() -> (r: LibraryType)
        ensures
            r == LibraryType::Static,
    {
        LibraryType::Static
    }
}

/// How the headers of a dependency are searched.
#[derive(Debug, PartialEq, Eq, Structural, Clone, Copy)]
pub enum DependencySource {
    System,
    Include,
}

impl Default for DependencySource {
    fn default() -> (r: DependencySource)
        ensures
            r == DependencySource::Include,
    {
        DependencySource::Include
    }
}

/// Where a dependency lies and how its headers are searched.
#[derive(Debug, PartialEq, Eq, Clone)]
pub struct DependencyData {
    pub path: String,
    pub origin: DependencySource,
}

/// A named dependency of a target.
#[derive(Debug, PartialEq, Eq, Clone)]
pub struct Dependency {
    pub name: String,
    pub data: DependencyData,
}

/// Flags that a target adds to the compiler's command line.
#[derive(Debug, PartialEq, Eq, Clone)]
pub struct CompilerFlags {
    pub cxx_flags: Vec<String>,
    pub cpp_flags: Vec<String>,
    pub defines: Vec<String>,
}

/// What executables and libraries declare alike.
#[derive(Debug, PartialEq, Eq, Clone)]
pub struct RawCommonData {
    pub main: String,
    pub sources: Vec<String>,
    pub dependencies: Vec<Dependency>,
    pub compiler_flags: Option<CompilerFlags>,
}

/// The declaration of an executable.
#[derive(Debug, PartialEq, Eq, Clone)]
pub struct RawExecutableData {
    pub common_raw: RawCommonData,
}

/// The declaration of a library.
#[derive(Debug, PartialEq, Eq, Clone)]
pub struct RawLibraryData {
    pub common_raw: RawCommonData,
    pub lib_type: LibraryType,
}

/// An executable target.
#[derive(Debug, PartialEq, Eq, Clone)]
pub struct Executable {
    pub name: String,
    pub main: String,
    pub sources: Vec<String>,
    pub dependencies: Vec<Dependency>,
    pub compiler_flags: Option<CompilerFlags>,
}

/// A library target.
#[derive(Debug, PartialEq, Eq, Clone)]
pub struct Library {
    pub name: String,
    pub main: String,
    pub sources: Vec<String>,
    pub dependencies: Vec<Dependency>,
    pub compiler_flags: Option<CompilerFlags>,
    pub lib_type: LibraryType,
}

impl Dependency {
    /// The dependency `name` with a copy of `data`.
    pub fn new(name: &str, data: &DependencyData) -> (r: Dependency)
        ensures
            r.name@ == name@,
            r.data.path@ == data.path@,
            r.data.origin == data.origin,
    {
        Dependency {
            name: String::from_str(name),
            data: DependencyData { path: data.path.clone(), origin: data.origin },
        }
    }
}

impl Executable {
    /// The executable `name` as `raw` declares it.
    pub fn from_raw(name: &str, raw: RawExecutableData) -> (r: Executable)
        ensures
            r.name@ == name@,
            r.main == raw.common_raw.main,
            r.sources == raw.common_raw.sources,
            r.dependencies == raw.common_raw.dependencies,
            r.compiler_flags == raw.common_raw.compiler_flags,
    {
        Executable {
            name: String::from_str(name),
            main: raw.common_raw.main,
            sources: raw.common_raw.sources,
            dependencies: raw.common_raw.dependencies,
            compiler_flags: raw.common_raw.compiler_flags,
        }
    }
}

impl Library {
    /// The library `name` as `raw` declares it.
    pub fn from_raw(name: &str, raw: RawLibraryData) -> (r: Library)
        ensures
            r.name@ == name@,
            r.main == raw.common_raw.main,
            r.sources == raw.common_raw.sources,
            r.dependencies == raw.common_raw.dependencies,
            r.compiler_flags == raw.common_raw.compiler_flags,
            r.lib_type == raw.lib_type,
    {
        Library {
            name: String::from_str(name),
            main: raw.common_raw.main,
            sources: raw.common_raw.sources,
            dependencies: raw.common_raw.dependencies,
            compiler_flags: raw.common_raw.compiler_flags,
            lib_type: raw.lib_type,
        }
    }
}

} // verus!
