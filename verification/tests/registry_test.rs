use mymake::associated_files::ProbedPath;
use mymake::pkg_config::{PkgConfig, PkgConfigError, QueryAnswers, QueryOutcome};
use mymake::registry::{
    GenerationStatus, GraphError, RawRequirement, RawTargetDescription, TargetKind, TargetRegistry,
};
use mymake::targets::DependencySource;

fn requirement(name: &str) -> RawRequirement {
    RawRequirement { name: name.to_string(), origin: DependencySource::Include, resolution: None }
}

fn library(name: &str, requirements: Vec<RawRequirement>) -> RawTargetDescription {
    RawTargetDescription {
        name: name.to_string(),
        path: format!("/project/{}", name),
        include_directory: format!("/project/{}/include", name),
        kind: TargetKind::StaticLibrary,
        sources: vec![ProbedPath { path: format!("/project/{}/{}.cpp", name, name), exists: true }],
        cxx_flags_append: Vec::new(),
        cpp_flags_append: Vec::new(),
        defines: Vec::new(),
        requirements,
    }
}

fn finished(stdout: &str) -> QueryOutcome {
    QueryOutcome::Finished { success: true, stdout: stdout.to_string(), stderr: String::new() }
}

#[test]
fn registry_holds_one_node_for_each_description() {
    let registry = TargetRegistry::build(vec![
        library("a", vec![requirement("c")]),
        library("b", vec![requirement("c")]),
        library("c", Vec::new()),
    ])
    .unwrap();
    assert_eq!(registry.len(), 3);
    assert_eq!(registry.get(0).unwrap().name, "a");
    assert_eq!(registry.get(2).unwrap().name, "c");
    assert!(registry.get(3).is_none());
    assert_eq!(registry.find("b"), Some(1));
    assert_eq!(registry.find("d"), None);
    assert_eq!(registry.status(1), Some(GenerationStatus::NotGenerated));
    assert_eq!(registry.status(3), None);
}

#[test]
fn two_targets_that_require_one_target_hold_the_same_key() {
    let registry = TargetRegistry::build(vec![
        library("a", vec![requirement("c")]),
        library("b", vec![requirement("c")]),
        library("c", Vec::new()),
    ])
    .unwrap();
    let a = registry.get(0).unwrap();
    let b = registry.get(1).unwrap();
    assert_eq!(a.internal.len(), 1);
    assert_eq!(b.internal.len(), 1);
    assert_eq!(a.internal[0].key, 2);
    assert_eq!(b.internal[0].key, 2);
    assert_eq!(a.internal[0].name, "c");
}

#[test]
fn the_order_of_the_declarations_does_not_matter() {
    let registry =
        TargetRegistry::build(vec![library("c", Vec::new()), library("a", vec![requirement("c")])]).unwrap();
    assert_eq!(registry.get(1).unwrap().internal[0].key, 0);
    let registry =
        TargetRegistry::build(vec![library("a", vec![requirement("c")]), library("c", Vec::new())]).unwrap();
    assert_eq!(registry.get(0).unwrap().internal[0].key, 1);
}

#[test]
fn targets_that_require_each_other_are_refused() {
    let result =
        TargetRegistry::build(vec![library("a", vec![requirement("b")]), library("b", vec![requirement("a")])]);
    assert_eq!(result, Err(GraphError::CyclicDependency(vec![String::from("a"), String::from("b")])));
    assert_eq!(result.unwrap_err().to_string(), "Dependency circulation: a -> b");
}

#[test]
fn a_target_that_requires_itself_is_refused() {
    let result = TargetRegistry::build(vec![library("c", Vec::new()), library("a", vec![requirement("a")])]);
    assert_eq!(result, Err(GraphError::CyclicDependency(vec![String::from("a")])));
}

#[test]
fn a_missing_source_file_is_refused() {
    let mut description = library("a", Vec::new());
    description.sources.push(ProbedPath { path: String::from("/project/a/gone.cpp"), exists: false });
    let result = TargetRegistry::build(vec![library("b", Vec::new()), description]);
    assert_eq!(result, Err(GraphError::MissingSourceFile(String::from("/project/a/gone.cpp"))));
    assert_eq!(result.unwrap_err().to_string(), "Source file /project/a/gone.cpp does not exist");
}

#[test]
fn a_file_that_is_neither_source_nor_header_is_refused() {
    let mut description = library("a", Vec::new());
    description.sources.push(ProbedPath { path: String::from("/project/a/tool.py"), exists: true });
    assert_eq!(
        TargetRegistry::build(vec![description]),
        Err(GraphError::UnclassifiableFile(String::from("/project/a/tool.py")))
    );
    let mut description = library("a", Vec::new());
    description.sources.push(ProbedPath { path: String::from("/project/a/README"), exists: true });
    assert_eq!(
        TargetRegistry::build(vec![description]),
        Err(GraphError::UnclassifiableFile(String::from("/project/a/README")))
    );
}

#[test]
fn sources_are_looked_at_before_requirements() {
    let mut description = library("a", vec![requirement("nowhere")]);
    description.sources.push(ProbedPath { path: String::from("/project/a/gone.cpp"), exists: false });
    assert_eq!(
        TargetRegistry::build(vec![description]),
        Err(GraphError::MissingSourceFile(String::from("/project/a/gone.cpp")))
    );
}

#[test]
fn a_requirement_that_is_neither_target_nor_package_is_refused() {
    let result = TargetRegistry::build(vec![library("a", vec![requirement("nowhere")])]);
    assert_eq!(result, Err(GraphError::UnresolvedRequirement(String::from("nowhere"))));
}

#[test]
fn a_resolved_package_becomes_an_external_requirement() {
    let pkg_config = PkgConfig::from_path("pkg-config");
    let answers = QueryAnswers {
        compiler_flags: finished("-DZ\n"),
        include_flags: finished("-I/usr/include/z\n"),
        library_names: finished("-lz\n"),
        library_paths: finished("-L/usr/lib\n"),
    };
    let target = pkg_config.find_target("zlib", answers, &vec![vec![Some(String::from("/usr/lib/libz.so"))]]).unwrap();
    let mut needs = requirement("zlib");
    needs.origin = DependencySource::System;
    needs.resolution = Some(Ok(target.clone()));
    let registry = TargetRegistry::build(vec![library("a", vec![needs, requirement("b")]), library("b", Vec::new())]).unwrap();
    let a = registry.get(0).unwrap();
    assert_eq!(a.internal.len(), 1);
    assert_eq!(a.external.len(), 1);
    assert_eq!(a.external[0].name, "zlib");
    assert_eq!(a.external[0].origin, DependencySource::System);
    assert_eq!(a.external[0].target, target);
}

#[test]
fn a_name_of_a_target_wins_over_a_package_of_that_name() {
    let mut needs = requirement("b");
    needs.resolution = Some(Err(PkgConfigError::CouldNotFindPkgConfig));
    let registry = TargetRegistry::build(vec![library("a", vec![needs]), library("b", Vec::new())]).unwrap();
    assert_eq!(registry.get(0).unwrap().internal[0].key, 1);
    assert!(registry.get(0).unwrap().external.is_empty());
}

#[test]
fn a_library_that_is_not_located_fails_the_construction() {
    let pkg_config = PkgConfig::from_path("pkg-config");
    let answers = QueryAnswers {
        compiler_flags: finished(""),
        include_flags: finished(""),
        library_names: finished("-lghost\n"),
        library_paths: finished("-L/usr/lib -L/opt/lib\n"),
    };
    let resolution = pkg_config.find_target("ghost", answers, &vec![vec![None, None]]);
    assert_eq!(resolution, Err(PkgConfigError::CouldNotLocateLibrary(String::from("ghost"))));
    let mut needs = requirement("ghost");
    needs.resolution = Some(resolution);
    let result = TargetRegistry::build(vec![library("a", vec![needs])]);
    assert_eq!(
        result,
        Err(GraphError::RequirementResolutionFailed(
            String::from("ghost"),
            PkgConfigError::CouldNotLocateLibrary(String::from("ghost"))
        ))
    );
    assert_eq!(
        result.unwrap_err().to_string(),
        "Failed to resolve requirement ghost: Failed to locate library ghost"
    );
}

#[test]
fn a_shared_target_is_generated_once() {
    let mut registry = TargetRegistry::build(vec![
        library("root", vec![requirement("a"), requirement("b")]),
        library("a", vec![requirement("c")]),
        library("b", vec![requirement("c")]),
        library("c", Vec::new()),
        library("apart", Vec::new()),
    ])
    .unwrap();
    let order = registry.mark_generated(0);
    assert_eq!(order, vec![0, 1, 3, 2]);
    for key in 0..4 {
        assert_eq!(registry.status(key), Some(GenerationStatus::Generated));
    }
    assert_eq!(registry.status(4), Some(GenerationStatus::NotGenerated));
    assert_eq!(registry.mark_generated(0), Vec::<usize>::new());
    assert_eq!(registry.mark_generated(3), Vec::<usize>::new());
    assert_eq!(registry.mark_generated(4), vec![4]);
}

#[test]
fn a_walk_passes_over_what_an_earlier_walk_generated() {
    let mut registry = TargetRegistry::build(vec![
        library("root", vec![requirement("a"), requirement("b")]),
        library("a", vec![requirement("c")]),
        library("b", vec![requirement("c")]),
        library("c", Vec::new()),
    ])
    .unwrap();
    assert_eq!(registry.mark_generated(1), vec![1, 3]);
    assert_eq!(registry.mark_generated(0), vec![0, 2]);
    registry.reset();
    assert_eq!(registry.status(3), Some(GenerationStatus::NotGenerated));
    assert_eq!(registry.mark_generated(2), vec![2, 3]);
}
