use mymake::compiler::{create_sample_cpp_main, Compiler, CompilerError, ProbeOutcome, Type};

#[test]
fn evaluate_compiler_fails_when_cxx_is_not_set() {
    let result = Compiler::new(Some(""));
    assert_eq!(
        result.unwrap_err().to_string(),
        "Environment variable CXX was not set. Please set it to a valid C++ compiler."
    );
}

#[test]
fn compiler_fails_when_no_executable_is_configured() {
    assert_eq!(Compiler::new(None), Err(CompilerError::CXXEnvNotSet));
}

#[test]
fn evaluate_compiler_type_gcc() {
    {
        let compiler = Compiler::new(Some("gcc-9")).unwrap();
        assert!(matches!(compiler.compiler_type(), &Type::Gcc));
    }
    {
        let compiler = Compiler::new(Some("gcc-11")).unwrap();
        assert!(matches!(compiler.compiler_type(), &Type::Gcc));
    }
}

#[test]
fn evaluate_compiler_type_clang() {
    {
        let compiler = Compiler::new(Some("clang-9")).unwrap();
        assert!(matches!(compiler.compiler_type(), &Type::Clang));
    }
    {
        let compiler = Compiler::new(Some("clang-11")).unwrap();
        assert!(matches!(compiler.compiler_type(), &Type::Clang));
    }
}

#[test]
fn compiler_type_goes_by_the_name_of_the_executable() {
    assert!(matches!(Compiler::new(Some("/usr/bin/g++")).unwrap().compiler_type(), &Type::Gcc));
    assert!(matches!(Compiler::new(Some("/opt/llvm/bin/clang++")).unwrap().compiler_type(), &Type::Clang));
    assert!(matches!(Compiler::new(Some("/usr/bin/gcc/")).unwrap().compiler_type(), &Type::Gcc));
    assert!(matches!(Compiler::new(Some("/usr/bin/clang-15/.")).unwrap().compiler_type(), &Type::Clang));
    assert_eq!(Compiler::new(Some("/")), Err(CompilerError::CXXEnvNotSet));
    assert_eq!(Compiler::new(Some("/usr/bin/gcc/..")), Err(CompilerError::CXXEnvNotSet));
    assert_eq!(Compiler::new(Some("/opt/gcc/bin/icc")), Err(CompilerError::InvalidCompiler));
    assert_eq!(Compiler::new(Some("my-gcc")), Err(CompilerError::InvalidCompiler));
    assert_eq!(Compiler::evaluate_compiler_type("/usr/bin/gcc-12"), Ok(Type::Gcc));
}

#[test]
fn compiler_keeps_its_executable() {
    let compiler = Compiler::new(Some("/usr/bin/g++")).unwrap();
    assert_eq!(compiler.to_string(), "/usr/bin/g++");
}

#[test]
fn sample_is_a_main_that_returns_success() {
    assert_eq!(create_sample_cpp_main(), "int main()\n{\n    return 0;\n}\n");
}

#[test]
fn sample_compile_args_point_into_the_test_directory() {
    let compiler = Compiler::new(Some("gcc")).unwrap();
    assert_eq!(
        compiler.create_sample_compile_args("/tmp/probe"),
        vec![String::from("-I/tmp/probe"), String::from("-o"), String::from("/tmp/probe/a.out")]
    );
}

#[test]
fn failed_probe_reports_what_the_compiler_wrote() {
    let compiler = Compiler::new(Some("gcc")).unwrap();
    let outcome = ProbeOutcome::Finished { success: false, stderr: String::from("main.cpp:1: error: boom") };
    let error = compiler.evaluate(outcome).unwrap_err();
    assert_eq!(error, CompilerError::FailedToCompileSample(String::from("main.cpp:1: error: boom")));
    assert_eq!(error.to_string(), "Failed to compile the sample: main.cpp:1: error: boom");
}

#[test]
fn probe_outcomes_map_to_their_errors() {
    let compiler = Compiler::new(Some("clang")).unwrap();
    assert_eq!(compiler.evaluate(ProbeOutcome::Finished { success: true, stderr: String::from("warning") }), Ok(()));
    assert_eq!(
        compiler.evaluate(ProbeOutcome::SampleNotCreated(String::from("denied"))),
        Err(CompilerError::FailedToCreateSample(String::from("denied")))
    );
    assert_eq!(
        compiler.evaluate(ProbeOutcome::CompilerNotRun(String::from("not found"))),
        Err(CompilerError::FailedToRunCompiler(String::from("not found")))
    );
    assert_eq!(CompilerError::InvalidCompiler.to_string(), "The compiler requested is an invalid compiler.");
}
