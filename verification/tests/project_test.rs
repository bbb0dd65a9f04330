use mymake::associated_files::ProbedPath;
use mymake::compiler::{Compiler, CompilerError, ProbeOutcome};
use mymake::configurations::{BuildConfiguration, BuildType, CXXStandard, Sanitizer};
use mymake::pkg_config::PkgConfigError;
use mymake::project::{generate, ProjectError};
use mymake::registry::{GenerationStatus, GraphError, RawRequirement, RawTargetDescription, TargetKind};
use mymake::targets::DependencySource;
use mymake::toolchain::{Archiver, Linker, StdLibCXX, Toolchain};

fn probed(outcome: ProbeOutcome) -> Result<Toolchain, CompilerError> {
    Toolchain::resolve(
        Compiler::new(Some("/usr/bin/g++")).unwrap(),
        outcome,
        Archiver { path: String::from("/usr/bin/ar") },
        Linker::LLD,
        StdLibCXX::LibStdCXX,
    )
}

fn validated() -> Result<Toolchain, CompilerError> {
    probed(ProbeOutcome::Finished { success: true, stderr: String::new() })
}

fn configuration(build_type: BuildType) -> BuildConfiguration {
    BuildConfiguration {
        build_type,
        cxx_standard: CXXStandard::CXX17,
        sanitizer: Some(Sanitizer::Thread),
        output_root: String::from(".build"),
    }
}

fn requirement(name: &str) -> RawRequirement {
    RawRequirement { name: name.to_string(), origin: DependencySource::Include, resolution: None }
}

fn target(name: &str, kind: TargetKind, requirements: Vec<RawRequirement>) -> RawTargetDescription {
    RawTargetDescription {
        name: name.to_string(),
        path: format!("/p/{}", name),
        include_directory: format!("/p/{}/include", name),
        kind,
        sources: vec![ProbedPath { path: format!("/p/{}/{}.cpp", name, name), exists: true }],
        cxx_flags_append: Vec::new(),
        cpp_flags_append: Vec::new(),
        defines: Vec::new(),
        requirements,
    }
}

fn diamond() -> Vec<RawTargetDescription> {
    vec![
        target("c", TargetKind::StaticLibrary, Vec::new()),
        target("a", TargetKind::StaticLibrary, vec![requirement("c")]),
        target("b", TargetKind::DynamicLibrary, vec![requirement("c")]),
        target("app", TargetKind::Executable, vec![requirement("a"), requirement("b")]),
        target("apart", TargetKind::Executable, Vec::new()),
    ]
}

#[test]
fn a_project_is_generated_from_its_root() {
    let debug = configuration(BuildType::Debug);
    let project = generate(validated(), diamond(), "app", &debug, "/p/.build/make_include").unwrap();
    let shared: Vec<&str> = project.shared.iter().map(|f| f.path.as_str()).collect();
    assert_eq!(
        shared,
        vec![
            "/p/.build/make_include/warnings.mk",
            "/p/.build/make_include/debug.mk",
            "/p/.build/make_include/default_make.mk",
            "/p/.build/make_include/defines.mk",
            "/p/.build/make_include/release.mk",
        ]
    );
    assert!(project.shared[0].content.contains("CXXFLAGS += -std=c++17\n"));
    assert!(project.shared[1].content.contains("CXXFLAGS += -fsanitize=thread -fPIE -pie \n"));
    assert!(project.shared[3].content.contains("CXX := /usr/bin/g++\n"));
    assert!(project.shared[3].content.contains("LDFLAGS += -fuse-ld=lld\n"));
    let targets: Vec<&str> = project.targets.iter().map(|f| f.file.path.as_str()).collect();
    assert_eq!(
        targets,
        vec![
            "/p/app/.build/debug/makefile",
            "/p/a/.build/debug/makefile",
            "/p/c/.build/debug/makefile",
            "/p/b/.build/debug/makefile",
        ]
    );
    assert!(project.targets[0].file.content.contains(" -g -O0 -gdwarf -fsanitize=thread -fPIE -pie -I/p/a/include -I/p/b/include "));
    assert!(project.targets[0].file.content.contains("\t/p/a/.build/debug/liba.a \\\n\t/p/b/.build/debug/libb.so\n"));
    for key in 0..4 {
        assert_eq!(project.registry.status(key), Some(GenerationStatus::Generated));
    }
    assert_eq!(project.registry.status(4), Some(GenerationStatus::NotGenerated));
}

#[test]
fn generating_twice_gives_the_same_files() {
    let release = configuration(BuildType::Release);
    let first = generate(validated(), diamond(), "app", &release, "/p/.build/make_include").unwrap();
    let second = generate(validated(), diamond(), "app", &release, "/p/.build/make_include").unwrap();
    assert_eq!(first, second);
    assert_eq!(first.shared, second.shared);
    assert_eq!(first.targets, second.targets);
}

#[test]
fn a_failed_probe_ends_the_invocation_with_what_the_compiler_wrote() {
    let debug = configuration(BuildType::Debug);
    let mut cyclic = diamond();
    cyclic[0].requirements.push(requirement("app"));
    let toolchain = probed(ProbeOutcome::Finished { success: false, stderr: String::from("fatal error: no such file") });
    let result = generate(toolchain, cyclic, "nowhere", &debug, "/p/.build/make_include");
    assert_eq!(
        result,
        Err(ProjectError::Toolchain(CompilerError::FailedToCompileSample(String::from("fatal error: no such file"))))
    );
}

#[test]
fn a_cycle_ends_the_invocation_without_files() {
    let debug = configuration(BuildType::Debug);
    let descriptions = vec![
        target("a", TargetKind::StaticLibrary, vec![requirement("b")]),
        target("b", TargetKind::StaticLibrary, vec![requirement("a")]),
    ];
    assert_eq!(
        generate(validated(), descriptions, "a", &debug, "/p/.build/make_include"),
        Err(ProjectError::Graph(GraphError::CyclicDependency(vec![String::from("a"), String::from("b")])))
    );
}

#[test]
fn a_failed_resolution_ends_the_invocation_without_files() {
    let debug = configuration(BuildType::Debug);
    let mut needs = requirement("ghost");
    needs.resolution = Some(Err(PkgConfigError::CouldNotLocateLibrary(String::from("ghost"))));
    let descriptions = vec![target("a", TargetKind::StaticLibrary, vec![needs])];
    assert_eq!(
        generate(validated(), descriptions, "a", &debug, "/p/.build/make_include"),
        Err(ProjectError::Graph(GraphError::RequirementResolutionFailed(
            String::from("ghost"),
            PkgConfigError::CouldNotLocateLibrary(String::from("ghost"))
        )))
    );
}

#[test]
fn a_root_that_is_no_target_is_refused() {
    let debug = configuration(BuildType::Debug);
    assert_eq!(
        generate(validated(), diamond(), "nowhere", &debug, "/p/.build/make_include"),
        Err(ProjectError::UnknownRoot(String::from("nowhere")))
    );
}

#[test]
fn a_toolchain_is_resolved_from_a_successful_probe() {
    let toolchain = validated().unwrap();
    assert_eq!(toolchain.cxx_compiler.to_string(), "/usr/bin/g++");
    assert_eq!(toolchain.archiver.path, "/usr/bin/ar");
    assert_eq!(toolchain.linker, Linker::LLD);
    assert_eq!(toolchain.stdlib, StdLibCXX::LibStdCXX);
    assert_eq!(
        probed(ProbeOutcome::CompilerNotRun(String::from("no such executable"))),
        Err(CompilerError::FailedToRunCompiler(String::from("no such executable")))
    );
}
