use mymake::associated_files::ProbedPath;
use mymake::compiler::Compiler;
use mymake::configurations::{BuildConfiguration, BuildType, CXXStandard, Sanitizer};
use mymake::generator::{
    flags_of_build_type, library_file_name_of, output_directory_of, GeneratorError, MmkGenerator,
};
use mymake::pkg_config::{PkgConfig, QueryAnswers, QueryOutcome};
use mymake::registry::{
    GenerationStatus, RawRequirement, RawTargetDescription, TargetKind, TargetRegistry,
};
use mymake::targets::DependencySource;
use mymake::toolchain::{Archiver, Linker, StdLibCXX, Toolchain};

const GCC_WARNINGS: &str = "-Wall -Wextra -Wshadow -Wnon-virtual-dtor -Wold-style-cast -Wcast-align -Wunused \
-Woverloaded-virtual -Wpedantic -Wconversion -Wsign-conversion -Wnull-dereference -Wdouble-promotion \
-Wmisleading-indentation -Wduplicated-cond -Wduplicated-branches -Wlogical-op -Wuseless-cast";

const CLANG_WARNINGS: &str = "-Wall -Wextra -Wshadow -Wnon-virtual-dtor -Wold-style-cast -Wcast-align -Wunused \
-Woverloaded-virtual -Wpedantic -Wconversion -Wsign-conversion -Wnull-dereference -Wdouble-promotion";

const PHONIES: &str = "\n# ----- DEFAULT PHONIES -----\n\n\
.SUFFIXES:         # We do not use suffixes on makefiles.\n\
.PHONY: all\n\
.PHONY: package\n\
.PHONY: install\n\
.PHONY: uninstall\n\
.PHONY: clean\n";

fn toolchain(cxx: &str) -> Toolchain {
    Toolchain {
        cxx_compiler: Compiler::new(Some(cxx)).unwrap(),
        archiver: Archiver { path: String::from("/usr/bin/ar") },
        linker: Linker::SystemDefault,
        stdlib: StdLibCXX::LibStdCXX,
    }
}

fn configuration(build_type: BuildType) -> BuildConfiguration {
    BuildConfiguration {
        build_type,
        cxx_standard: CXXStandard::CXX20,
        sanitizer: None,
        output_root: String::from(".build"),
    }
}

fn requirement(name: &str) -> RawRequirement {
    RawRequirement { name: name.to_string(), origin: DependencySource::Include, resolution: None }
}

fn target(name: &str, kind: TargetKind, sources: &[&str], requirements: Vec<RawRequirement>) -> RawTargetDescription {
    RawTargetDescription {
        name: name.to_string(),
        path: format!("/{}/src", name),
        include_directory: format!("/{}/include", name),
        kind,
        sources: sources.iter().map(|s| ProbedPath { path: format!("/{}/src/{}", name, s), exists: true }).collect(),
        cxx_flags_append: Vec::new(),
        cpp_flags_append: Vec::new(),
        defines: Vec::new(),
        requirements,
    }
}

fn header(shared: &str, build_type: &str) -> String {
    format!(
        "# Generated by MmkGenerator.generate_header(). DO NOT EDIT THIS FILE.\n\
         \n\
         # ----- INCLUDES -----\n\
         include {shared}/warnings.mk\n\
         include {shared}/default_make.mk\n\
         include {shared}/{build_type}.mk\n\
         {phonies}",
        shared = shared,
        build_type = build_type,
        phonies = PHONIES
    )
}

#[test]
fn generate_makefile_test() {
    let mut registry = TargetRegistry::build(vec![target(
        "main",
        TargetKind::Executable,
        &["filename.cpp", "ofilename.cpp"],
        Vec::new(),
    )])
    .unwrap();
    let tools = toolchain("gcc");
    let release = configuration(BuildType::Release);
    let gen = MmkGenerator::new(&tools, &release, "example/.build/make_include");
    assert!(gen.generate_makefiles(&mut registry, 0).is_ok());
}

#[test]
fn print_header_includes_test() {
    let registry = TargetRegistry::build(vec![target(
        "example",
        TargetKind::StaticLibrary,
        &["filename.cpp", "ofilename.cpp"],
        Vec::new(),
    )])
    .unwrap();
    let tools = toolchain("gcc");
    let release = configuration(BuildType::Release);
    let gen = MmkGenerator::new(&tools, &release, "example/.build/make_include");
    let actual = gen.print_header_includes(&registry, 0);
    let expected = format!(
        "sinclude {directory}/.build/release/filename.d\n\
         sinclude {directory}/.build/release/ofilename.d\n",
        directory = "/example/src"
    );
    assert_eq!(actual, expected);
}

#[test]
fn generate_header_test() {
    let tools = toolchain("gcc");
    let release = configuration(BuildType::Release);
    let gen = MmkGenerator::new(&tools, &release, "/p/.build/make_include");
    assert_eq!(gen.generate_header(), header("/p/.build/make_include", "release"));
}

#[test]
fn generate_header_test_with_debug() {
    let tools = toolchain("gcc");
    let debug = configuration(BuildType::Debug);
    let gen = MmkGenerator::new(&tools, &debug, "/p/.build/make_include");
    assert_eq!(gen.generate_header(), header("/p/.build/make_include", "debug"));
}

#[test]
fn generate_appending_flags_test_cxxflags() {
    let mut description = target("example", TargetKind::StaticLibrary, &[], Vec::new());
    description.cxx_flags_append = vec![String::from("-pthread")];
    let registry = TargetRegistry::build(vec![description]).unwrap();
    let tools = toolchain("gcc");
    let release = configuration(BuildType::Release);
    let gen = MmkGenerator::new(&tools, &release, "shared");
    assert_eq!(gen.generate_appending_flags(&registry, 0), "CXXFLAGS += -pthread\n");
}

#[test]
fn generate_appending_flags_test_cppflags() {
    let mut description = target("example", TargetKind::StaticLibrary, &[], Vec::new());
    description.cpp_flags_append = vec![String::from("-somesetting")];
    let registry = TargetRegistry::build(vec![description]).unwrap();
    let tools = toolchain("gcc");
    let release = configuration(BuildType::Release);
    let gen = MmkGenerator::new(&tools, &release, "shared");
    assert_eq!(gen.generate_appending_flags(&registry, 0), "CPPFLAGS += -somesetting\n");
}

#[test]
fn generate_appending_flags_test() {
    let mut description = target("example", TargetKind::StaticLibrary, &[], Vec::new());
    description.cxx_flags_append = vec![String::from("-pthread"), String::from("-O2")];
    description.cpp_flags_append = vec![String::from("-somesetting")];
    let registry = TargetRegistry::build(vec![description]).unwrap();
    let tools = toolchain("gcc");
    let release = configuration(BuildType::Release);
    let gen = MmkGenerator::new(&tools, &release, "shared");
    assert_eq!(
        gen.generate_appending_flags(&registry, 0),
        "CXXFLAGS += -pthread -O2\nCPPFLAGS += -somesetting\n"
    );
    let plain = TargetRegistry::build(vec![target("plain", TargetKind::StaticLibrary, &[], Vec::new())]).unwrap();
    assert_eq!(gen.generate_appending_flags(&plain, 0), "");
}

#[test]
fn generate_package_test() {
    let registry = TargetRegistry::build(vec![
        target("tmp", TargetKind::StaticLibrary, &["filename.cpp", "ofilename.cpp", "filename.h"], vec![requirement("dep")]),
        target("dep", TargetKind::StaticLibrary, &[], Vec::new()),
    ])
    .unwrap();
    let tools = toolchain("clang");
    let release = configuration(BuildType::Release);
    let gen = MmkGenerator::new(&tools, &release, "shared");
    let flags = format!("{} -O3 -DNDEBUG -I/dep/include", CLANG_WARNINGS);
    let expected = format!(
        "\n\
         #Generated by MmkGenerator.generate_rule_package(). \n\
         \n\
         {directory}/.build/release/libtmp.a: \\\n\
         \t{directory}/.build/release/filename.o \\\n\
         \t{directory}/.build/release/ofilename.o \\\n\
         \t/dep/src/.build/release/libdep.a\n\
         \t$(strip $(AR) $(ARFLAGS) $@ $?)\n\
         \n\
         {directory}/.build/release/filename.o: \\\n\
         \t{directory}/filename.cpp\n\
         \t$(strip $(CXX) $(CXXFLAGS) $(CPPFLAGS) {flags} $< -c -o $@)\n\
         \n\
         {directory}/.build/release/ofilename.o: \\\n\
         \t{directory}/ofilename.cpp\n\
         \t$(strip $(CXX) $(CXXFLAGS) $(CPPFLAGS) {flags} $< -c -o $@)\n\
         \n\
         sinclude {directory}/.build/release/filename.d\n\
         sinclude {directory}/.build/release/ofilename.d\n\
         \n",
        directory = "/tmp/src",
        flags = flags
    );
    assert_eq!(gen.generate_rule_package(&registry, 0), expected);
    assert_eq!(gen.print_library_name(&registry, 0), "/tmp/src/.build/release/libtmp.a");
}

#[test]
fn generate_executable_test() {
    let registry = TargetRegistry::build(vec![
        target("x", TargetKind::Executable, &["filename.cpp", "ofilename.cpp"], vec![requirement("dep"), requirement("tool")]),
        target("dep", TargetKind::DynamicLibrary, &[], Vec::new()),
        target("tool", TargetKind::Executable, &[], Vec::new()),
    ])
    .unwrap();
    let tools = toolchain("clang");
    let release = configuration(BuildType::Release);
    let gen = MmkGenerator::new(&tools, &release, "shared");
    let flags = format!("{} -O3 -DNDEBUG -I/dep/include -I/tool/include", CLANG_WARNINGS);
    let expected = format!(
        "\n\
         #Generated by MmkGenerator.generate_rule_executable(). \n\
         \n\
         .PHONY: x\n\
         x: \\\n\
         \t{directory}/.build/release/filename.o \\\n\
         \t{directory}/.build/release/ofilename.o \\\n\
         \t/dep/src/.build/release/libdep.so\n\
         \t$(strip $(CXX) $(CXXFLAGS) $(CPPFLAGS) $^ {flags} -lstdc++ $(LDFLAGS) -o $@)\n\
         \n\
         {directory}/.build/release/filename.o: \\\n\
         \t{directory}/filename.cpp\n\
         \t$(strip $(CXX) $(CXXFLAGS) $(CPPFLAGS) {flags} $< -c -o $@)\n\
         \n\
         {directory}/.build/release/ofilename.o: \\\n\
         \t{directory}/ofilename.cpp\n\
         \t$(strip $(CXX) $(CXXFLAGS) $(CPPFLAGS) {flags} $< -c -o $@)\n\
         \n\
         sinclude {directory}/.build/release/filename.d\n\
         sinclude {directory}/.build/release/ofilename.d\n\
         \n",
        directory = "/x/src",
        flags = flags
    );
    assert_eq!(gen.generate_rule_executable(&registry, 0), expected);
}

#[test]
fn a_shared_library_is_linked_not_archived() {
    let registry =
        TargetRegistry::build(vec![target("so", TargetKind::DynamicLibrary, &["a.cc"], Vec::new())]).unwrap();
    let mut tools = toolchain("clang");
    tools.stdlib = StdLibCXX::LibCXX;
    let release = configuration(BuildType::Release);
    let gen = MmkGenerator::new(&tools, &release, "shared");
    let flags = format!("{} -O3 -DNDEBUG", CLANG_WARNINGS);
    let expected = format!(
        "\n\
         #Generated by MmkGenerator.generate_rule_package(). \n\
         \n\
         /so/src/.build/release/libso.so: \\\n\
         \t/so/src/.build/release/a.o\n\
         \t$(strip $(CXX) -shared $(CXXFLAGS) $(CPPFLAGS) $^ {flags} -lc++ $(LDFLAGS) -o $@)\n\
         \n\
         /so/src/.build/release/a.o: \\\n\
         \t/so/src/a.cc\n\
         \t$(strip $(CXX) $(CXXFLAGS) $(CPPFLAGS) {flags} $< -c -o $@)\n\
         \n\
         sinclude /so/src/.build/release/a.d\n\
         \n",
        flags = flags
    );
    assert_eq!(gen.generate_rule_package(&registry, 0), expected);
    assert_eq!(gen.print_mandatory_libraries(), vec!["-lc++"]);
}

#[test]
fn a_target_without_sources_has_no_prerequisites() {
    let registry = TargetRegistry::build(vec![target("empty", TargetKind::StaticLibrary, &["only.h"], Vec::new())]).unwrap();
    let tools = toolchain("gcc");
    let debug = configuration(BuildType::Debug);
    let gen = MmkGenerator::new(&tools, &debug, "shared");
    assert_eq!(gen.print_prerequisites(&registry, 0), "");
    assert_eq!(gen.make_object_rule(&registry, 0), "");
    assert_eq!(gen.print_header_includes(&registry, 0), "");
    assert_eq!(gen.print_sources(&registry, 0), Vec::<String>::new());
    assert_eq!(
        gen.generate_rule_package(&registry, 0),
        "\n#Generated by MmkGenerator.generate_rule_package(). \n\n\
         /empty/src/.build/debug/libempty.a: \n\t$(strip $(AR) $(ARFLAGS) $@ $?)\n\n\n\n\n"
    );
}

#[test]
fn flags_stand_in_their_order() {
    let mut app = target("app", TargetKind::Executable, &["main.cpp"], vec![requirement("dep")]);
    app.cxx_flags_append = vec![String::from("-pthread")];
    let mut dep = target("dep", TargetKind::StaticLibrary, &["dep.cpp"], Vec::new());
    dep.include_directory = String::from("/dep/include");
    let registry = TargetRegistry::build(vec![app, dep]).unwrap();
    let tools = toolchain("gcc");
    let debug = configuration(BuildType::Debug);
    let gen = MmkGenerator::new(&tools, &debug, "shared");
    let flags = gen.compose_compile_flags(&registry, 0);
    let mut expected: Vec<String> = GCC_WARNINGS.split(' ').map(|s| s.to_string()).collect();
    expected.extend(["-g", "-O0", "-gdwarf", "-pthread", "-I/dep/include"].iter().map(|s| s.to_string()));
    assert_eq!(flags, expected);

    let line = gen.make_object_rule(&registry, 0);
    assert_eq!(
        line,
        format!(
            "/app/src/.build/debug/main.o: \\\n\t/app/src/main.cpp\n\t$(strip $(CXX) $(CXXFLAGS) $(CPPFLAGS) {} -g -O0 -gdwarf -pthread -I/dep/include $< -c -o $@)",
            GCC_WARNINGS
        )
    );
    let warnings = line.find("-Wall").unwrap();
    let build_type = line.find("-g -O0").unwrap();
    let declared = line.find("-pthread").unwrap();
    let search_path = line.find("-I/dep/include").unwrap();
    assert!(warnings < build_type && build_type < declared && declared < search_path);

    let mut link = expected.clone();
    link.push(String::from("-lstdc++"));
    assert_eq!(gen.compose_link_flags(&registry, 0), link);
}

#[test]
fn declared_flags_come_as_compiler_flags_preprocessor_flags_and_defines() {
    let mut description = target("a", TargetKind::StaticLibrary, &["a.cpp"], Vec::new());
    description.cxx_flags_append = vec![String::from("-O2")];
    description.cpp_flags_append = vec![String::from("-MD")];
    description.defines = vec![String::from("MYMACRO"), String::from("N=1")];
    let registry = TargetRegistry::build(vec![description]).unwrap();
    let tools = toolchain("clang");
    let release = configuration(BuildType::Release);
    let gen = MmkGenerator::new(&tools, &release, "shared");
    let flags = gen.compose_compile_flags(&registry, 0);
    assert_eq!(flags[13..], ["-O3", "-DNDEBUG", "-O2", "-MD", "-DMYMACRO", "-DN=1"]);
}

#[test]
fn external_requirements_follow_internal_ones() {
    let pkg_config = PkgConfig::from_path("pkg-config");
    let finished = |stdout: &str| QueryOutcome::Finished { success: true, stdout: stdout.to_string(), stderr: String::new() };
    let answers = QueryAnswers {
        compiler_flags: finished("-DZ_PREFIX\n"),
        include_flags: finished("-I/usr/include/z -I/opt/z\n"),
        library_names: finished("-lz\n"),
        library_paths: finished("-L/usr/lib\n"),
    };
    let resolved = pkg_config.find_target("zlib", answers, &vec![vec![Some(String::from("/usr/lib/libz.so"))]]).unwrap();
    let mut system = requirement("zlib");
    system.origin = DependencySource::System;
    system.resolution = Some(Ok(resolved.clone()));
    let mut plain = requirement("zlib2");
    plain.resolution = Some(Ok(resolved));
    let registry = TargetRegistry::build(vec![
        target("app", TargetKind::Executable, &["main.cpp"], vec![system, requirement("dep"), plain]),
        target("dep", TargetKind::StaticLibrary, &[], Vec::new()),
    ])
    .unwrap();
    let tools = toolchain("clang");
    let release = configuration(BuildType::Release);
    let gen = MmkGenerator::new(&tools, &release, "shared");
    assert_eq!(
        gen.print_dependencies(&registry, 0),
        vec![
            "-I/dep/include",
            "-isystem /usr/include/z",
            "-isystem /opt/z",
            "-DZ_PREFIX",
            "-I/usr/include/z",
            "-I/opt/z",
            "-DZ_PREFIX",
        ]
    );
    assert_eq!(gen.print_external_libraries(&registry, 0), vec!["/usr/lib/libz.so", "/usr/lib/libz.so"]);
    let link = gen.compose_link_flags(&registry, 0);
    assert_eq!(link[link.len() - 3..], ["/usr/lib/libz.so", "/usr/lib/libz.so", "-lstdc++"]);
    assert_eq!(
        gen.print_required_dependencies_libraries(&registry, 0),
        vec!["/dep/src/.build/release/libdep.a"]
    );
}

#[test]
fn build_type_flags_and_sanitizers() {
    assert_eq!(flags_of_build_type(BuildType::Release, None), vec!["-O3", "-DNDEBUG"]);
    assert_eq!(flags_of_build_type(BuildType::Release, Some(Sanitizer::Thread)), vec!["-O3", "-DNDEBUG"]);
    assert_eq!(flags_of_build_type(BuildType::Debug, None), vec!["-g", "-O0", "-gdwarf"]);
    assert_eq!(
        flags_of_build_type(BuildType::Debug, Some(Sanitizer::Thread)),
        vec!["-g", "-O0", "-gdwarf", "-fsanitize=thread", "-fPIE", "-pie"]
    );
    assert_eq!(
        flags_of_build_type(BuildType::Debug, Some(Sanitizer::Address)),
        vec!["-g", "-O0", "-gdwarf", "-fsanitize=address"]
    );
    assert_eq!(
        flags_of_build_type(BuildType::Debug, Some(Sanitizer::Leak)),
        vec!["-g", "-O0", "-gdwarf", "-fsanitize=leak"]
    );
    assert_eq!(
        flags_of_build_type(BuildType::Debug, Some(Sanitizer::Undefined)),
        vec!["-g", "-O0", "-gdwarf", "-fsanitize=undefined"]
    );
}

#[test]
fn debug_and_release_lie_apart() {
    assert_eq!(output_directory_of("/a/src", ".build", BuildType::Debug), "/a/src/.build/debug");
    assert_eq!(output_directory_of("/a/src", ".build", BuildType::Release), "/a/src/.build/release");
    assert_eq!(output_directory_of("/a/src", "/out", BuildType::Release), "/out/release");
    assert_eq!(library_file_name_of("a", TargetKind::StaticLibrary), "liba.a");
    assert_eq!(library_file_name_of("a", TargetKind::DynamicLibrary), "liba.so");

    let description = target("a", TargetKind::StaticLibrary, &["a.cpp"], Vec::new());
    let tools = toolchain("gcc");
    let debug = configuration(BuildType::Debug);
    let release = configuration(BuildType::Release);
    let mut registry = TargetRegistry::build(vec![description]).unwrap();
    let in_debug = MmkGenerator::new(&tools, &debug, "shared").generate_makefiles(&mut registry, 0).unwrap();
    registry.reset();
    let in_release = MmkGenerator::new(&tools, &release, "shared").generate_makefiles(&mut registry, 0).unwrap();
    assert_eq!(in_debug[0].file.path, "/a/src/.build/debug/makefile");
    assert_eq!(in_release[0].file.path, "/a/src/.build/release/makefile");
    assert!(in_debug[0].file.content.contains(" -g -O0 "));
    assert!(in_debug[0].file.content.contains("/a/src/.build/debug/a.o"));
    assert!(!in_debug[0].file.content.contains("/release/"));
    assert!(in_release[0].file.content.contains(" -O3 -DNDEBUG "));
    assert!(in_release[0].file.content.contains("/a/src/.build/release/a.o"));
    assert!(!in_release[0].file.content.contains("/debug/"));
}

#[test]
fn every_target_gets_one_rule_file() {
    let mut registry = TargetRegistry::build(vec![
        target("app", TargetKind::Executable, &["main.cpp"], vec![requirement("a"), requirement("b")]),
        target("a", TargetKind::StaticLibrary, &["a.cpp"], vec![requirement("c")]),
        target("b", TargetKind::StaticLibrary, &["b.cpp"], vec![requirement("c")]),
        target("c", TargetKind::StaticLibrary, &["c.cpp"], Vec::new()),
    ])
    .unwrap();
    let tools = toolchain("gcc");
    let debug = configuration(BuildType::Debug);
    let gen = MmkGenerator::new(&tools, &debug, "/app/.build/make_include");
    let files = gen.generate_makefiles(&mut registry, 0).unwrap();
    let names: Vec<&str> = files.iter().map(|f| f.name.as_str()).collect();
    assert_eq!(names, vec!["app", "a", "c", "b"]);
    let keys: Vec<usize> = files.iter().map(|f| f.key).collect();
    assert_eq!(keys, vec![0, 1, 3, 2]);
    assert_eq!(files.iter().filter(|f| f.file.path == "/c/src/.build/debug/makefile").count(), 1);
    for key in 0..4 {
        assert_eq!(registry.status(key), Some(GenerationStatus::Generated));
        assert_eq!(files.iter().find(|f| f.key == key).unwrap().file, gen.generate_makefile(&registry, key).file);
    }
    assert_eq!(gen.generate_makefiles(&mut registry, 0), Ok(Vec::new()));
    assert_eq!(files[0].file.content, format!(
        "{}{}",
        header("/app/.build/make_include", "debug"),
        gen.generate_rule_executable(&registry, 0)
    ));
}

#[test]
fn a_key_without_target_is_refused() {
    let mut registry = TargetRegistry::build(vec![target("a", TargetKind::StaticLibrary, &[], Vec::new())]).unwrap();
    let tools = toolchain("gcc");
    let debug = configuration(BuildType::Debug);
    let gen = MmkGenerator::new(&tools, &debug, "shared");
    assert_eq!(gen.generate_makefiles(&mut registry, 1), Err(GeneratorError::UnknownTarget(1)));
    assert_eq!(registry.status(0), Some(GenerationStatus::NotGenerated));
}

#[test]
fn a_write_failure_names_the_target() {
    let mut registry = TargetRegistry::build(vec![target("a", TargetKind::StaticLibrary, &[], Vec::new())]).unwrap();
    let tools = toolchain("gcc");
    let debug = configuration(BuildType::Debug);
    let files = MmkGenerator::new(&tools, &debug, "shared").generate_makefiles(&mut registry, 0).unwrap();
    assert_eq!(
        MmkGenerator::write_failure(&files[0], "disk full"),
        GeneratorError::WriteFailed {
            target: String::from("a"),
            path: String::from("/a/src/.build/debug/makefile"),
            cause: String::from("disk full"),
        }
    );
}
