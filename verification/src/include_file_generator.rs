//! The shared fragments that every rule file includes: warnings, debug and
//! release flags, common flags, and the definitions taken from the toolchain.

use vstd::prelude::*;
use vstd::string::*;
use crate::compiler::Type;
use crate::configurations::{
    sanitizer_name, standard_name, standard_named, BuildConfiguration, CXXStandard,
};
use crate::output::GeneratedFile;
use crate::text::{ascii_lowercase, join, joined_with, lowered, same_text, texts};
use crate::toolchain::{Linker, StdLibCXX, Toolchain};
use crate::utility::{join_path, joined};

verus! {

pub const WARNINGS_HEAD: &'static str =
    "#Generated by IncludeFileGenerator.generate_warnings_mk. DO NOT EDIT.\n\ninclude ";

pub const WARNINGS_NOTES: &'static str = "\n\n\
#-Wall                     # Reasonable and standard\n\
#-Wextra                   # Warn if indentation implies blocks where blocks do not exist.\n\
#-Wmisleading-indentation  # Warn if if / else chain has duplicated conditions\n\
#-Wduplicated-cond         # Warn if if / else branches has duplicated conditions\n\
#-Wduplicated-branches     # warn the user if a variable declaration shadows one from a parent context\n\
#-Wshadow                  # warn the user if a class with virtual functions has a non-virtual destructor. This helps\n\
#-Wnon-virtual-dtor        # catch hard to track down memory errors\n\
#-Wold-style-cast          # warn for C-style casts\n\
#-Wcast-align              # warn for potential performance problem casts\n\
#-Wunused                  # warn on anything being unused\n\
#-Woverloaded-virtual      # warn if you overload (not override) a virtual function\n\
#-Wpedantic                # warn if non-standard C++ is used\n\
#-Wconversion              # warn on type conversions that may lose data\n\
#-Wsign-conversion         # warn on sign conversions\n\
#-Wnull-dereference        # warn if a null dereference is detected\n\
#-Wdouble-promotion        # warn if float is implicit promoted to double\n\
#-Wformat=2                # warn on security issues around functions that format output (ie printf)\n";

pub const DEBUG_HEAD: &'static str =
    "#Generated by IncludeFileGenerator.generate_debug_mk. DO NOT EDIT.\nCXXFLAGS += -g \\\n            -O0 \\\n            -gdwarf\n\n";

pub const DEBUG_NOTES: &'static str = "\n\n\
# When building with sanitizer options, certain linker options must be added.\n\
# For thread sanitizers, -fPIE and -pie will be added to linker and C++ flag options.\n\
# This is done to support address space layout randomization (ASLR).\n\
# PIE enables C++ code to be compiled and linked as position-independent code.\n\
# https://en.wikipedia.org/wiki/Address_space_layout_randomization\n";

pub const RELEASE_MK: &'static str =
    "#Generated by IncludeFileGenerator.generate_release_mk. DO NOT EDIT.\nCXXFLAGS += -O3\\\n            -DNDEBUG\n";

pub const DEFAULT_MK: &'static str = "\
# Automatic dependency generation: Makes GCC generate the dependencies needed for a cpp file\n\
# excluding system header files.\n\
CPPFLAGS +=-MMD\\\n           -MP\n\
\n\
# Additional CXX flags to be passed to the compiler\n\
CXXFLAGS += -pthread\\\n            -fPIC # Generate Position Independent code suitable for use in a shared library.\n\
\n\
# Additional AR flags being passed to the static library linker\n\
ARFLAGS = rs\n";

pub const DEFINES_HEAD: &'static str =
    "# Defines.mk\n# Contains a number of defines determined at configuration time.\n\n";

pub const DEFINES_COPY: &'static str =
    "\nCP := /usr/bin/cp\nCP_FORCE := -f\n\n# Select linker if any specified in the toolchain file\n";

pub const DEFINES_STDLIB: &'static str =
    "\n\n# Select stdlibc++ implementation based on toolchain file.\n# Will be empty if not specified.\nCXXFLAGS += ";

/// The name of a compiler's vendor.
pub open spec fn vendor_name(vendor: Type) -> Seq<char> {
    match vendor {
        Type::Gcc => "gcc"@,
        Type::Clang => "clang"@,
    }
}

/// The warnings that every vendor's compiler knows.
pub open spec fn common_warnings() -> Seq<Seq<char>> {
    seq![
        "-Wall"@,
        "-Wextra"@,
        "-Wshadow"@,
        "-Wnon-virtual-dtor"@,
        "-Wold-style-cast"@,
        "-Wcast-align"@,
        "-Wunused"@,
        "-Woverloaded-virtual"@,
        "-Wpedantic"@,
        "-Wconversion"@,
        "-Wsign-conversion"@,
        "-Wnull-dereference"@,
        "-Wdouble-promotion"@,
    ]
}

/// The warnings that only GCC knows.
pub open spec fn gcc_warnings() -> Seq<Seq<char>> {
    seq![
        "-Wmisleading-indentation"@,
        "-Wduplicated-cond"@,
        "-Wduplicated-branches"@,
        "-Wlogical-op"@,
        "-Wuseless-cast"@,
    ]
}

/// The warning flags for a vendor's compiler: the common ones, then the vendor's own.
pub open spec fn warning_flags(vendor: Type) -> Seq<Seq<char>> {
    match vendor {
        Type::Gcc => common_warnings() + gcc_warnings(),
        Type::Clang => common_warnings(),
    }
}

/// What follows `-fsanitize=` for the sanitizer named `name`: the name, and for
/// the thread sanitizer the flags that make a position-independent executable.
/// A name that names no sanitizer gives the empty argument.
pub open spec fn sanitizer_argument(name: Seq<char>) -> Seq<char> {
    if name == "address"@ {
        "address "@
    } else if name == "thread"@ {
        "thread -fPIE -pie "@
    } else if name == "leak"@ {
        "leak "@
    } else if name == "undefined"@ {
        "undefined "@
    } else {
        Seq::empty()
    }
}

/// The compiler's sanitizer flags for a stored argument.
pub open spec fn sanitizer_flags(argument: Option<Seq<char>>) -> Seq<char> {
    match argument {
        Some(a) => "-fsanitize="@ + a,
        None => Seq::empty(),
    }
}

/// The lines that add the sanitizer flags to the compiler's and to the linker's
/// flags; nothing where no sanitizer is set.
pub open spec fn sanitizer_section(argument: Option<Seq<char>>) -> Seq<char> {
    match argument {
        Some(a) => "CXXFLAGS += "@ + sanitizer_flags(argument) + "\n\nLDFLAGS += "@ + sanitizer_flags(argument),
        None => Seq::empty(),
    }
}

/// The flag that selects a stored language standard; the newest where none,
/// or none that is known, is stored.
pub open spec fn standard_flag(version: Option<Seq<char>>) -> Seq<char> {
    match version {
        Some(v) => match standard_named(v) {
            Some(standard) => "-std="@ + standard_name(standard),
            None => "-std=c++20"@,
        },
        None => "-std=c++20"@,
    }
}

/// The line that selects the linker.
pub open spec fn linker_selection(linker: Linker) -> Seq<char> {
    match linker {
        Linker::Gold => "LDFLAGS += -fuse-ld=gold"@,
        Linker::Ld => "LDFLAGS += -fuse-ld=ld"@,
        Linker::LLD => "LDFLAGS += -fuse-ld=lld"@,
        Linker::SystemDefault => "LDFLAGS += "@,
    }
}

/// The flag that selects the standard library; nothing for the default one.
pub open spec fn stdlib_selection(stdlib: StdLibCXX) -> Seq<char> {
    match stdlib {
        StdLibCXX::LibStdCXX => Seq::empty(),
        StdLibCXX::LibCXX => "-stdlib=libc++"@,
    }
}

/// The definitions of the compiler and of the archiver.
pub open spec fn toolchain_defines(compiler: Seq<char>, archiver: Seq<char>) -> Seq<char> {
    "# Toolchain definitions\n\nCXX := "@ + compiler + "\nAR := "@ + archiver + "\n"@
}

/// The text of the warnings fragment.
pub open spec fn warnings_mk(directory: Seq<char>, vendor: Type, version: Option<Seq<char>>) -> Seq<char> {
    WARNINGS_HEAD@ + directory + "/defines.mk\n\n# Warning flags generated for compiler type "@ + vendor_name(vendor)
        + "\nCXXFLAGS += \\\n"@ + joined_with(warning_flags(vendor), "\\\n"@) + "\n\nCXXFLAGS += "@ + standard_flag(
        version,
    ) + WARNINGS_NOTES@
}

/// The text of the debug fragment.
pub open spec fn debug_mk(sanitizers: Option<Seq<char>>) -> Seq<char> {
    DEBUG_HEAD@ + sanitizer_section(sanitizers) + DEBUG_NOTES@
}

/// The text of the fragment of definitions.
pub open spec fn defines_mk(compiler: Seq<char>, archiver: Seq<char>, linker: Linker, stdlib: StdLibCXX) -> Seq<char> {
    DEFINES_HEAD@ + toolchain_defines(compiler, archiver) + DEFINES_COPY@ + linker_selection(linker) + DEFINES_STDLIB@
        + stdlib_selection(stdlib) + "\n\n"@
}

/// The name of a vendor.
pub fn compiler_type_name(vendor: Type) -> (r: &'static str)
    ensures
        r@ == vendor_name(vendor),
{
    match vendor {
        Type::Gcc => "gcc",
        Type::Clang => "clang",
    }
}

/// The warning flags for a vendor's compiler.
pub fn warnings_for(vendor: Type) -> (r: Vec<String>)
    ensures
        texts(r@) == warning_flags(vendor),
{
    let mut flags: Vec<String> = Vec::new();
    flags.push(String::from_str("-Wall"));
    flags.push(String::from_str("-Wextra"));
    flags.push(String::from_str("-Wshadow"));
    flags.push(String::from_str("-Wnon-virtual-dtor"));
    flags.push(String::from_str("-Wold-style-cast"));
    flags.push(String::from_str("-Wcast-align"));
    flags.push(String::from_str("-Wunused"));
    flags.push(String::from_str("-Woverloaded-virtual"));
    flags.push(String::from_str("-Wpedantic"));
    flags.push(String::from_str("-Wconversion"));
    flags.push(String::from_str("-Wsign-conversion"));
    flags.push(String::from_str("-Wnull-dereference"));
    flags.push(String::from_str("-Wdouble-promotion"));
    assert(texts(flags@) =~= common_warnings());
    match vendor {
        Type::Gcc => {
            flags.push(String::from_str("-Wmisleading-indentation"));
            flags.push(String::from_str("-Wduplicated-cond"));
            flags.push(String::from_str("-Wduplicated-branches"));
            flags.push(String::from_str("-Wlogical-op"));
            flags.push(String::from_str("-Wuseless-cast"));
            assert(texts(flags@) =~= common_warnings() + gcc_warnings());
        },
        Type::Clang => {},
    }
    flags
}

/// Generates the shared fragments into one directory, for one toolchain.
pub struct IncludeFileGenerator<'generator> {
    output_directory: String,
    cpp_version: Option<String>,
    sanitizers: Option<String>,
    toolchain: &'generator Toolchain,
}

impl<'generator> IncludeFileGenerator<'generator> {
    /// The directory of the fragments.
    pub closed spec fn directory(&self) -> Seq<char> {
        self.output_directory@
    }

    /// The language standard stored, in lower case.
    pub closed spec fn version(&self) -> Option<Seq<char>> {
        match self.cpp_version {
            Some(v) => Some(v@),
            None => None,
        }
    }

    /// The sanitizer argument stored.
    pub closed spec fn sanitizers(&self) -> Option<Seq<char>> {
        match self.sanitizers {
            Some(s) => Some(s@),
            None => None,
        }
    }

    /// The toolchain that the fragments are generated for.
    pub closed spec fn toolchain(&self) -> Toolchain {
        *self.toolchain
    }

    /// A generator into `output_directory`, with no language standard and no sanitizer set.
    pub fn new(output_directory: &str, toolchain: &'generator Toolchain) -> (r: Self)
        ensures
            r.directory() == output_directory@,
            r.version() is None,
            r.sanitizers() is None,
            r.toolchain() == *toolchain,
    {
        IncludeFileGenerator {
            output_directory: String::from_str(output_directory),
            cpp_version: None,
            sanitizers: None,
            toolchain,
        }
    }

    /// A generator into `output_directory` with the language standard and the sanitizer of `configuration`.
    pub fn with_configuration(
        output_directory: &str,
        toolchain: &'generator Toolchain,
        configuration: &BuildConfiguration,
    ) -> (r: Self)
        ensures
            r.directory() == output_directory@,
            r.version() == Some(standard_name(configuration.cxx_standard)),
            r.sanitizers() == match configuration.sanitizer {
                Some(s) => Some(sanitizer_argument(sanitizer_name(s))),
                None => None,
            },
            r.toolchain() == *toolchain,
    {
        let mut generator = IncludeFileGenerator::new(output_directory, toolchain);
        generator.cpp_version = Some(configuration.cxx_standard.to_string());
        match configuration.sanitizer {
            Some(s) => {
                let name = s.to_string();
                generator.set_sanitizer(name.as_str());
            },
            None => {},
        }
        generator
    }

    /// What is stored under `key`: the language standard under `C++`, the
    /// sanitizer argument under `sanitizers`.
    pub fn args(&self, key: &str) -> (r: Option<String>)
        ensures
            match r {
                Some(value) => Some(value@) == if key@ == "C++"@ {
                    self.version()
                } else if key@ == "sanitizers"@ {
                    self.sanitizers()
                } else {
                    None
                },
                None => (if key@ == "C++"@ {
                    self.version()
                } else if key@ == "sanitizers"@ {
                    self.sanitizers()
                } else {
                    None
                }) is None,
            },
    {
        if same_text(key, "C++") {
            match &self.cpp_version {
                Some(v) => Some(v.clone()),
                None => None,
            }
        } else if same_text(key, "sanitizers") {
            match &self.sanitizers {
                Some(s) => Some(s.clone()),
                None => None,
            }
        } else {
            None
        }
    }

    /// The sanitizer flags of the compiler; nothing where no sanitizer is set.
    pub fn get_sanitizers(&self) -> (r: String)
        ensures
            r@ == sanitizer_flags(self.sanitizers()),
    {
        match &self.sanitizers {
            Some(s) => String::from_str("-fsanitize=").concat(s.as_str()),
            None => String::new(),
        }
    }

    pub fn print_build_directory(&self) -> (r: &str)
        ensures
            r@ == self.directory(),
    {
        self.output_directory.as_str()
    }

    /// The warning flags for the toolchain's compiler.
    pub fn warnings_from_compiler_type(&self) -> (r: Vec<String>)
        ensures
            texts(r@) == warning_flags(self.toolchain().cxx_compiler.vendor()),
    {
        warnings_for(*self.toolchain.cxx_compiler.compiler_type())
    }

    /// The flag that selects the toolchain's standard library.
    pub fn select_stdlib_impl(&self) -> (r: String)
        ensures
            r@ == stdlib_selection(self.toolchain().stdlib),
    {
        match self.toolchain.stdlib {
            StdLibCXX::LibStdCXX => String::new(),
            StdLibCXX::LibCXX => String::from_str("-stdlib=libc++"),
        }
    }

    /// The line that selects the toolchain's linker.
    pub fn generate_linker_selection(&self) -> (r: String)
        ensures
            r@ == linker_selection(self.toolchain().linker),
    {
        match self.toolchain.linker {
            Linker::Gold => String::from_str("LDFLAGS += -fuse-ld=gold"),
            Linker::Ld => String::from_str("LDFLAGS += -fuse-ld=ld"),
            Linker::LLD => String::from_str("LDFLAGS += -fuse-ld=lld"),
            Linker::SystemDefault => String::from_str("LDFLAGS += "),
        }
    }

    /// The text of `warnings.mk`.
    pub fn generate_warnings_mk(&self) -> (r: String)
        ensures
            r@ == warnings_mk(self.directory(), self.toolchain().cxx_compiler.vendor(), self.version()),
    {
        let warnings = join(&self.warnings_from_compiler_type(), "\\\n");
        let vendor = *self.toolchain.cxx_compiler.compiler_type();
        String::from_str(WARNINGS_HEAD).concat(self.output_directory.as_str()).concat(
            "/defines.mk\n\n# Warning flags generated for compiler type ",
        ).concat(compiler_type_name(vendor)).concat("\nCXXFLAGS += \\\n").concat(warnings.as_str()).concat(
            "\n\nCXXFLAGS += ",
        ).concat(self.print_cpp_version().as_str()).concat(WARNINGS_NOTES)
    }

    /// The text of `debug.mk`.
    pub fn generate_debug_mk(&self) -> (r: String)
        ensures
            r@ == debug_mk(self.sanitizers()),
    {
        String::from_str(DEBUG_HEAD).concat(self.generate_flags_sanitizer().as_str()).concat(DEBUG_NOTES)
    }

    /// The text of `release.mk`.
    pub fn generate_release_mk(&self) -> (r: String)
        ensures
            r@ == RELEASE_MK@,
    {
        String::from_str(RELEASE_MK)
    }

    /// The text of `default_make.mk`.
    pub fn generate_default_mk(&self) -> (r: String)
        ensures
            r@ == DEFAULT_MK@,
    {
        String::from_str(DEFAULT_MK)
    }

    /// The text of `defines.mk`.
    pub fn generate_defines_mk(&self) -> (r: String)
        ensures
            r@ == defines_mk(
                self.toolchain().cxx_compiler.exe(),
                self.toolchain().archiver.path@,
                self.toolchain().linker,
                self.toolchain().stdlib,
            ),
    {
        String::from_str(DEFINES_HEAD).concat(self.generate_toolchain_defines().as_str()).concat(DEFINES_COPY).concat(
            self.generate_linker_selection().as_str(),
        ).concat(DEFINES_STDLIB).concat(self.select_stdlib_impl().as_str()).concat("\n\n")
    }

    /// The definitions of the toolchain's compiler and archiver.
    pub fn generate_toolchain_defines(&self) -> (r: String)
        ensures
            r@ == toolchain_defines(self.toolchain().cxx_compiler.exe(), self.toolchain().archiver.path@),
    {
        let compiler = self.toolchain.cxx_compiler.to_string();
        String::from_str("# Toolchain definitions\n\nCXX := ").concat(compiler.as_str()).concat("\nAR := ").concat(
            self.toolchain.archiver.path.as_str(),
        ).concat("\n")
    }

    /// The five fragments, each with the path at which it is to be written:
    /// warnings, debug, common flags, definitions, release.
    pub fn generate_build_files(&self) -> (r: Vec<GeneratedFile>)
        ensures
            r.len() == 5,
            r@[0].path@ == joined(self.directory(), "warnings.mk"@),
            r@[0].content@ == warnings_mk(self.directory(), self.toolchain().cxx_compiler.vendor(), self.version()),
            r@[1].path@ == joined(self.directory(), "debug.mk"@),
            r@[1].content@ == debug_mk(self.sanitizers()),
            r@[2].path@ == joined(self.directory(), "default_make.mk"@),
            r@[2].content@ == DEFAULT_MK@,
            r@[3].path@ == joined(self.directory(), "defines.mk"@),
            r@[3].content@ == defines_mk(
                self.toolchain().cxx_compiler.exe(),
                self.toolchain().archiver.path@,
                self.toolchain().linker,
                self.toolchain().stdlib,
            ),
            r@[4].path@ == joined(self.directory(), "release.mk"@),
            r@[4].content@ == RELEASE_MK@,
    {
        let directory = self.output_directory.as_str();
        let mut files: Vec<GeneratedFile> = Vec::new();
        files.push(GeneratedFile { path: join_path(directory, "warnings.mk"), content: self.generate_warnings_mk() });
        files.push(GeneratedFile { path: join_path(directory, "debug.mk"), content: self.generate_debug_mk() });
        files.push(GeneratedFile { path: join_path(directory, "default_make.mk"), content: self.generate_default_mk() });
        files.push(GeneratedFile { path: join_path(directory, "defines.mk"), content: self.generate_defines_mk() });
        files.push(GeneratedFile { path: join_path(directory, "release.mk"), content: self.generate_release_mk() });
        files
    }

    /// Stores the language standard `version`, in lower case.
    pub fn add_cpp_version(&mut self, version: &str)
        ensures
            final(self).version() == Some(lowered(version@)),
            final(self).directory() == old(self).directory(),
            final(self).sanitizers() == old(self).sanitizers(),
            final(self).toolchain() == old(self).toolchain(),
    {
        self.cpp_version = Some(ascii_lowercase(version));
    }

    /// The flag that selects the stored language standard.
    pub fn print_cpp_version(&self) -> (r: String)
        ensures
            r@ == standard_flag(self.version()),
    {
        match &self.cpp_version {
            Some(v) => match CXXStandard::parse(v.as_str()) {
                Some(standard) => String::from_str("-std=").concat(standard.to_string().as_str()),
                None => String::from_str("-std=c++20"),
            },
            None => String::from_str("-std=c++20"),
        }
    }

    /// The lines that add the sanitizer flags to the compiler's and to the linker's flags.
    pub fn generate_flags_sanitizer(&self) -> (r: String)
        ensures
            r@ == sanitizer_section(self.sanitizers()),
    {
        match &self.sanitizers {
            Some(_) => {
                let flags = self.get_sanitizers();
                String::from_str("CXXFLAGS += ").concat(flags.as_str()).concat("\n\nLDFLAGS += ").concat(flags.as_str())
            },
            None => String::new(),
        }
    }

    /// Stores the argument for the sanitizer named `sanitizer`, in place of the
    /// one stored before. A name that names no sanitizer stores the empty argument.
    pub fn set_sanitizer(&mut self, sanitizer: &str)
        ensures
            final(self).sanitizers() == Some(sanitizer_argument(sanitizer@)),
            final(self).directory() == old(self).directory(),
            final(self).version() == old(self).version(),
            final(self).toolchain() == old(self).toolchain(),
    {
        if same_text(sanitizer, "address") {
            self.sanitizers = Some(String::from_str("address "));
        } else if same_text(sanitizer, "thread") {
            self.sanitizers = Some(String::from_str("thread -fPIE -pie "));
        } else if same_text(sanitizer, "leak") {
            self.sanitizers = Some(String::from_str("leak "));
        } else if same_text(sanitizer, "undefined") {
            self.sanitizers = Some(String::from_str("undefined "));
        } else {
            self.sanitizers = Some(String::new());
        }
    }
}

} // verus!
