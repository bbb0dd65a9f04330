//! The C++ compiler of a toolchain: its vendor, and the probe that validates it.

use vstd::prelude::*;
use vstd::string::*;
use crate::patterns::{indent, is_match, pattern_found};
use crate::text::is_space;
use crate::utility::{get_head_directory, head_of, join_path, joined};

verus! {

/// The vendor of a compiler.
#[derive(Debug, PartialEq, Eq, Structural, Clone, Copy)]
pub enum Type {
    Gcc,
    Clang,
}

/// Why no usable compiler was found.
#[derive(Debug, PartialEq, Eq, Clone)]
pub enum CompilerError {
    /// No compiler was configured, or the configured text names no executable.
    CXXEnvNotSet,
    /// The executable's name belongs to no known vendor.
    InvalidCompiler,
    /// The sample translation unit could not be written.
    FailedToCreateSample(String),
    /// The compiler could not be started.
    FailedToRunCompiler(String),
    /// The compiler refused the sample; holds what it wrote to standard error.
    FailedToCompileSample(String),
}

/// A `CompilerError` over character sequences.
pub ghost enum CompilerErrorView {
    CXXEnvNotSet,
    InvalidCompiler,
    FailedToCreateSample(Seq<char>),
    FailedToRunCompiler(Seq<char>),
    FailedToCompileSample(Seq<char>),
}

impl View for CompilerError {
    type V = CompilerErrorView;

    open spec fn view(&self) -> CompilerErrorView {
        match self {
            CompilerError::CXXEnvNotSet => CompilerErrorView::CXXEnvNotSet,
            CompilerError::InvalidCompiler => CompilerErrorView::InvalidCompiler,
            CompilerError::FailedToCreateSample(s) => CompilerErrorView::FailedToCreateSample(s@),
            CompilerError::FailedToRunCompiler(s) => CompilerErrorView::FailedToRunCompiler(s@),
            CompilerError::FailedToCompileSample(s) => CompilerErrorView::FailedToCompileSample(s@),
        }
    }
}

/// How the probe compilation went.
#[derive(Debug, PartialEq, Eq, Clone)]
pub enum ProbeOutcome {
    /// The sample could not be written; holds the cause.
    SampleNotCreated(String),
    /// The compiler could not be started; holds the cause.
    CompilerNotRun(String),
    /// The compiler ran and ended with this status and this standard error.
    Finished { success: bool, stderr: String },
}

/// A C++ compiler: its executable and its vendor.
#[derive(Debug, PartialEq, Eq, Clone)]
pub struct Compiler {
    compiler_exe: String,
    compiler_type: Type,
}

/// The regular expression that the names of GCC executables begin with.
pub open spec fn gcc_pattern() -> Seq<char> {
    "^g\\+\\+.*|^gcc.*"@
}

/// The regular expression that the names of Clang executables begin with.
pub open spec fn clang_pattern() -> Seq<char> {
    "^clang.*"@
}

/// The vendor that two pattern searches speak for: GCC is asked first.
/// A search that could not be made counts as no match.
pub open spec fn vendor_of(gcc: Option<bool>, clang: Option<bool>) -> Option<Type> {
    if gcc == Some(true) {
        Some(Type::Gcc)
    } else if clang == Some(true) {
        Some(Type::Clang)
    } else {
        None
    }
}

/// The vendor of the compiler configured as `cxx`, or why it has none.
pub open spec fn compiler_type_of(cxx: Option<Seq<char>>) -> Result<Type, CompilerErrorView> {
    match cxx {
        None => Err(CompilerErrorView::CXXEnvNotSet),
        Some(exe) => {
            let name = head_of(exe);
            if name.len() == 0 {
                Err(CompilerErrorView::CXXEnvNotSet)
            } else {
                match vendor_of(pattern_found(gcc_pattern(), name), pattern_found(clang_pattern(), name)) {
                    Some(t) => Ok(t),
                    None => Err(CompilerErrorView::InvalidCompiler),
                }
            }
        },
    }
}

/// The arguments of the probe compilation into `dir`.
pub open spec fn sample_compile_args(dir: Seq<char>) -> Seq<Seq<char>> {
    seq!["-I"@ + dir, "-o"@, joined(dir, "a.out"@)]
}

/// The sample translation unit: a `main` that returns success.
pub open spec fn sample_source() -> Seq<char> {
    "int main()\n{\n    return 0;\n}\n"@
}

/// The verdict on a probe compilation.
pub open spec fn probe_verdict(outcome: ProbeOutcome) -> Result<(), CompilerErrorView> {
    match outcome {
        ProbeOutcome::SampleNotCreated(cause) => Err(CompilerErrorView::FailedToCreateSample(cause@)),
        ProbeOutcome::CompilerNotRun(cause) => Err(CompilerErrorView::FailedToRunCompiler(cause@)),
        ProbeOutcome::Finished { success, stderr } => if success {
            Ok(())
        } else {
            Err(CompilerErrorView::FailedToCompileSample(stderr@))
        },
    }
}

/// Decides the vendor from the answers of the two pattern searches.
pub fn classify_vendor(gcc: Option<bool>, clang: Option<bool>) -> (r: Option<Type>)
    ensures
        r == vendor_of(gcc, clang),
{
    match gcc {
        Some(true) => Some(Type::Gcc),
        _ => match clang {
            Some(true) => Some(Type::Clang),
            _ => None,
        },
    }
}

/// The text of the sample translation unit.
pub fn create_sample_cpp_main() -> (r: String)
    ensures
        r@ == sample_source(),
{
    proof {
        reveal_strlit("return 0;");
        reveal_strlit("    ");
        reveal_strlit("int main()\n{\n");
        reveal_strlit("\n}\n");
        reveal_strlit("int main()\n{\n    return 0;\n}\n");
        assert(!is_space("return 0;"@[0]));
    }
    let body = indent("return 0;", "    ");
    let text = String::from_str("int main()\n{\n").concat(body.as_str()).concat("\n}\n");
    assert(text@ =~= sample_source());
    text
}

impl Compiler {
    pub closed spec fn exe(&self) -> Seq<char> {
        self.compiler_exe@
    }

    pub closed spec fn vendor(&self) -> Type {
        self.compiler_type
    }

    /// A compiler is valid when its vendor is the one its executable's name stands for.
    pub closed spec fn wf(&self) -> bool {
        compiler_type_of(Some(self.compiler_exe@)) == Ok::<Type, CompilerErrorView>(self.compiler_type)
    }

    /// Takes the configured compiler executable, `None` where none is configured.
    pub fn new(cxx: Option<&str>) -> (r: Result<Compiler, CompilerError>)
        ensures
            match r {
                Ok(c) => c.wf() && cxx is Some && c.exe() == cxx.unwrap()@
                    && compiler_type_of(Some(cxx.unwrap()@)) == Ok::<Type, CompilerErrorView>(c.vendor()),
                Err(e) => match cxx {
                    Some(exe) => compiler_type_of(Some(exe@)) == Err::<Type, CompilerErrorView>(e@),
                    None => e@ == CompilerErrorView::CXXEnvNotSet,
                },
            },
    {
        match cxx {
            None => Err(CompilerError::CXXEnvNotSet),
            Some(exe) => match Compiler::evaluate_compiler_type(exe) {
                Ok(t) => Ok(Compiler { compiler_exe: String::from_str(exe), compiler_type: t }),
                Err(e) => Err(e),
            },
        }
    }

    /// The vendor that the name of `compiler_exe` stands for.
    pub fn evaluate_compiler_type(compiler_exe: &str) -> (r: Result<Type, CompilerError>)
        ensures
            match r {
                Ok(t) => compiler_type_of(Some(compiler_exe@)) == Ok::<Type, CompilerErrorView>(t),
                Err(e) => compiler_type_of(Some(compiler_exe@)) == Err::<Type, CompilerErrorView>(e@),
            },
    {
        let name = get_head_directory(compiler_exe);
        if name.as_str().unicode_len() == 0 {
            return Err(CompilerError::CXXEnvNotSet);
        }
        let gcc = is_match("^g\\+\\+.*|^gcc.*", name.as_str());
        let clang = is_match("^clang.*", name.as_str());
        match classify_vendor(gcc, clang) {
            Some(t) => Ok(t),
            None => Err(CompilerError::InvalidCompiler),
        }
    }

    /// The verdict on the probe compilation: success, or the error that carries
    /// what the probe reported.
    pub fn evaluate(&self, outcome: ProbeOutcome) -> (r: Result<(), CompilerError>)
        ensures
            match r {
                Ok(()) => probe_verdict(outcome) == Ok::<(), CompilerErrorView>(()),
                Err(e) => probe_verdict(outcome) == Err::<(), CompilerErrorView>(e@),
            },
    {
        match outcome {
            ProbeOutcome::SampleNotCreated(cause) => Err(CompilerError::FailedToCreateSample(cause)),
            ProbeOutcome::CompilerNotRun(cause) => Err(CompilerError::FailedToRunCompiler(cause)),
            ProbeOutcome::Finished { success, stderr } => if success {
                Ok(())
            } else {
                Err(CompilerError::FailedToCompileSample(stderr))
            },
        }
    }

    /// The arguments that direct the probe compilation into `destination_dir`.
    pub fn create_sample_compile_args(&self, destination_dir: &str) -> (r: Vec<String>)
        ensures
            r@.map_values(|s: String| s@) == sample_compile_args(destination_dir@),
    {
        let mut args: Vec<String> = Vec::new();
        args.push(String::from_str("-I").concat(destination_dir));
        args.push(String::from_str("-o"));
        args.push(join_path(destination_dir, "a.out"));
        assert(args@.map_values(|s: String| s@) =~= sample_compile_args(destination_dir@));
        args
    }

    pub fn compiler_type(&self) -> (r: &Type)
        ensures
            *r == self.vendor(),
    {
        &self.compiler_type
    }

    /// The compiler's executable.
    pub fn to_string(&self) -> (r: String)
        ensures
            r@ == self.exe(),
    {
        self.compiler_exe.clone()
    }
}

/// What an error says to the user.
pub open spec fn compiler_error_message(e: CompilerErrorView) -> Seq<char> {
    match e {
        CompilerErrorView::CXXEnvNotSet =>
            "Environment variable CXX was not set. Please set it to a valid C++ compiler."@,
        CompilerErrorView::InvalidCompiler => "The compiler requested is an invalid compiler."@,
        CompilerErrorView::FailedToCreateSample(cause) => "Failed to create sample main.cpp for compiler assertion: "@
            + cause,
        CompilerErrorView::FailedToRunCompiler(cause) => "Failed to run the compiler: "@ + cause,
        CompilerErrorView::FailedToCompileSample(stderr) => "Failed to compile the sample: "@ + stderr,
    }
}

impl CompilerError {
    /// What the error says to the user.
    pub fn to_string(&self) -> (r: String)
        ensures
            r@ == compiler_error_message(self@),
    {
        match self {
            CompilerError::CXXEnvNotSet => String::from_str(
                "Environment variable CXX was not set. Please set it to a valid C++ compiler.",
            ),
            CompilerError::InvalidCompiler => String::from_str("The compiler requested is an invalid compiler."),
            CompilerError::FailedToCreateSample(cause) => String::from_str(
                "Failed to create sample main.cpp for compiler assertion: ",
            ).concat(cause.as_str()),
            CompilerError::FailedToRunCompiler(cause) => String::from_str("Failed to run the compiler: ").concat(
                cause.as_str(),
            ),
            CompilerError::FailedToCompileSample(stderr) => String::from_str("Failed to compile the sample: ").concat(
                stderr.as_str(),
            ),
        }
    }
}

} // verus!
