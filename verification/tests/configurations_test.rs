use mymake::command_line::{BuildDirectory, ConfigurationOpts, ManifestDirectory};
use mymake::configurations::{BuildType, CXXStandard, Sanitizer};
use mymake::targets::{
    Dependency, DependencyData, DependencySource, Executable, Library, LibraryType, RawCommonData,
    RawExecutableData, RawLibraryData,
};

#[test]
fn build_types_have_names() {
    assert_eq!(BuildType::parse("debug"), Some(BuildType::Debug));
    assert_eq!(BuildType::parse("release"), Some(BuildType::Release));
    assert_eq!(BuildType::parse("Debug"), None);
    assert_eq!(BuildType::Debug.to_string(), "debug");
    assert_eq!(BuildType::Release.to_string(), "release");
    assert_eq!(BuildType::default(), BuildType::Debug);
}

#[test]
fn sanitizers_have_names() {
    for (name, sanitizer) in [
        ("address", Sanitizer::Address),
        ("thread", Sanitizer::Thread),
        ("leak", Sanitizer::Leak),
        ("undefined", Sanitizer::Undefined),
    ] {
        assert_eq!(Sanitizer::parse(name), Some(sanitizer));
        assert_eq!(sanitizer.to_string(), name);
    }
    assert_eq!(Sanitizer::parse("memory"), None);
}

#[test]
fn standards_have_names() {
    for (name, standard) in [
        ("c++98", CXXStandard::CXX98),
        ("c++03", CXXStandard::CXX03),
        ("c++11", CXXStandard::CXX11),
        ("c++14", CXXStandard::CXX14),
        ("c++17", CXXStandard::CXX17),
        ("c++20", CXXStandard::CXX20),
    ] {
        assert_eq!(CXXStandard::parse(name), Some(standard));
        assert_eq!(standard.to_string(), name);
    }
    assert_eq!(CXXStandard::parse("c++23"), None);
    assert_eq!(CXXStandard::default(), CXXStandard::CXX20);
}

#[test]
fn options_become_a_configuration() {
    let options = ConfigurationOpts {
        build_type: BuildType::Release,
        cxx_standard: CXXStandard::CXX17,
        sanitizer: Some(Sanitizer::Leak),
    };
    let configuration = options.configuration(".build");
    assert_eq!(configuration.build_type, BuildType::Release);
    assert_eq!(configuration.cxx_standard, CXXStandard::CXX17);
    assert_eq!(configuration.sanitizer, Some(Sanitizer::Leak));
    assert_eq!(configuration.output_root, ".build");
    let default = ConfigurationOpts::default();
    assert_eq!(default.build_type, BuildType::Debug);
    assert_eq!(default.cxx_standard, CXXStandard::CXX20);
    assert_eq!(default.sanitizer, None);
}

#[test]
fn directories_keep_their_paths() {
    let manifest = ManifestDirectory::new("/project");
    assert_eq!(manifest.as_path(), "/project");
    assert_eq!(manifest.to_string(), "/project");
    assert_eq!(BuildDirectory::new("/project/build").as_path(), "/project/build");
}

#[test]
fn dependency_copies_its_data() {
    let data = DependencyData { path: String::from("/dep"), origin: DependencySource::System };
    let dependency = Dependency::new("dep", &data);
    assert_eq!(dependency.name, "dep");
    assert_eq!(dependency.data, data);
    assert_eq!(DependencySource::default(), DependencySource::Include);
    assert_eq!(LibraryType::default(), LibraryType::Static);
}

#[test]
fn targets_take_what_their_declarations_hold() {
    let common = RawCommonData {
        main: String::from("main.cpp"),
        sources: vec![String::from("x.cpp")],
        dependencies: vec![Dependency::new(
            "dep",
            &DependencyData { path: String::from("/dep"), origin: DependencySource::Include },
        )],
        compiler_flags: None,
    };
    let executable = Executable::from_raw("x", RawExecutableData { common_raw: common.clone() });
    assert_eq!(executable.name, "x");
    assert_eq!(executable.main, "main.cpp");
    assert_eq!(executable.sources, common.sources);
    assert_eq!(executable.dependencies, common.dependencies);
    assert_eq!(executable.compiler_flags, None);
    let library = Library::from_raw("y", RawLibraryData { common_raw: common.clone(), lib_type: LibraryType::Dynamic });
    assert_eq!(library.name, "y");
    assert_eq!(library.lib_type, LibraryType::Dynamic);
    assert_eq!(library.sources, common.sources);
}
