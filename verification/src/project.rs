//! One invocation from end to end: the validated toolchain first, then the
//! registry of the targets, then the shared fragments and the rule files.

use vstd::prelude::*;
use vstd::string::*;
use crate::compiler::CompilerError;
use crate::configurations::{sanitizer_name, standard_name, BuildConfiguration};
use crate::generator::{
    lemma_makefile_is_determined, makefile_path, makefile_text, same_description, same_targets,
    MmkGenerator, Setting, TargetFile,
};
use crate::graph::acyclic;
use crate::include_file_generator::{
    debug_mk, defines_mk, sanitizer_argument, warnings_mk, IncludeFileGenerator, DEFAULT_MK,
    RELEASE_MK,
};
use crate::output::GeneratedFile;
use crate::registry::{
    build_failure, declared_graph, describes, first_failure, key_of, lemma_key_of,
    lemma_walk_is_determined, names_of, same_requirements, traverse,
    GenerationStatus, GraphError, RawTargetDescription, TargetRegistry,
};
use crate::toolchain::Toolchain;
use crate::utility::joined;

verus! {

/// Why an invocation generated nothing.
#[derive(Debug, PartialEq, Eq, Clone)]
pub enum ProjectError {
    /// No validated toolchain: nothing else was looked at.
    Toolchain(CompilerError),
    /// No registry could be built of the descriptions.
    Graph(GraphError),
    /// No target bears the name of the root.
    UnknownRoot(String),
}

/// What an invocation generated.
#[derive(Debug, PartialEq, Eq, Clone)]
pub struct GeneratedProject {
    /// The shared fragments.
    pub shared: Vec<GeneratedFile>,
    /// The rule files, in the order of the walk from the root.
    pub targets: Vec<TargetFile>,
    /// The registry after the walk.
    pub registry: TargetRegistry,
}

/// The setting of the rule files for a toolchain and a configuration.
pub open spec fn setting_of(toolchain: Toolchain, configuration: BuildConfiguration, shared: Seq<char>) -> Setting {
    Setting {
        vendor: toolchain.cxx_compiler.vendor(),
        stdlib: toolchain.stdlib,
        build_type: configuration.build_type,
        sanitizer: configuration.sanitizer,
        output_root: configuration.output_root@,
        shared,
    }
}

/// `project` is what an invocation generates of these descriptions, from the
/// target named `root`, for this toolchain and this configuration.
pub open spec fn generated(
    tools: Toolchain,
    descriptions: Seq<RawTargetDescription>,
    root: Seq<char>,
    configuration: BuildConfiguration,
    shared_directory: Seq<char>,
    project: GeneratedProject,
) -> bool {
    let setting = setting_of(tools, configuration, shared_directory);
    let nodes = project.registry.nodes();
    let key = key_of(names_of(descriptions), root);
    let fresh = Seq::new(nodes.len(), |i: int| GenerationStatus::NotGenerated);
    let walk = traverse(nodes, project.registry.ranks(), fresh, key);
    let sanitizers = match configuration.sanitizer {
        Some(s) => Some(sanitizer_argument(sanitizer_name(s))),
        None => None,
    };
    &&& project.registry.wf()
    &&& nodes.len() == descriptions.len()
    &&& 0 <= key < nodes.len()
    &&& forall|i: int| 0 <= i < descriptions.len() ==> describes(#[trigger] nodes[i], names_of(descriptions), descriptions[i])
    &&& project.registry.statuses() == walk.1
    &&& walk.0.no_duplicates()
    &&& project.targets.len() == walk.0.len()
    &&& forall|i: int| 0 <= i < project.targets.len() ==> {
        let k = (#[trigger] project.targets@[i]).key;
        &&& k == walk.0[i]
        &&& k < nodes.len()
        &&& project.targets@[i].name@ == nodes[k as int].name@
        &&& project.targets@[i].file.path@ == makefile_path(nodes, k as int, setting)
        &&& project.targets@[i].file.content@ == makefile_text(nodes, k as int, setting)
    }
    &&& project.shared.len() == 5
    &&& project.shared@[0].path@ == joined(shared_directory, "warnings.mk"@)
    &&& project.shared@[0].content@ == warnings_mk(
        shared_directory,
        tools.cxx_compiler.vendor(),
        Some(standard_name(configuration.cxx_standard)),
    )
    &&& project.shared@[1].path@ == joined(shared_directory, "debug.mk"@)
    &&& project.shared@[1].content@ == debug_mk(sanitizers)
    &&& project.shared@[2].path@ == joined(shared_directory, "default_make.mk"@)
    &&& project.shared@[2].content@ == DEFAULT_MK@
    &&& project.shared@[3].path@ == joined(shared_directory, "defines.mk"@)
    &&& project.shared@[3].content@ == defines_mk(
        tools.cxx_compiler.exe(),
        tools.archiver.path@,
        tools.linker,
        tools.stdlib,
    )
    &&& project.shared@[4].path@ == joined(shared_directory, "release.mk"@)
    &&& project.shared@[4].content@ == RELEASE_MK@
}

/// Generates the files of a project: the shared fragments into
/// `shared_directory`, and the rule file of the target named `root` and of
/// every target that it requires, directly or not.
///
/// A toolchain that was not validated ends the invocation before the
/// descriptions are looked at. Descriptions of which no registry can be built
/// end it before any file is generated.
pub fn generate(
    toolchain: Result<Toolchain, CompilerError>,
    descriptions: Vec<RawTargetDescription>,
    root: &str,
    configuration: &BuildConfiguration,
    shared_directory: &str,
) -> (r: Result<GeneratedProject, ProjectError>)
    ensures
        r is Ok <==> toolchain is Ok && first_failure(descriptions@) is None && acyclic(declared_graph(descriptions@))
            && key_of(names_of(descriptions@), root@) >= 0,
        match r {
            Err(ProjectError::Toolchain(e)) => toolchain == Err::<Toolchain, CompilerError>(e),
            Err(ProjectError::Graph(e)) => toolchain is Ok && build_failure(descriptions@, e@),
            Err(ProjectError::UnknownRoot(name)) => {
                &&& toolchain is Ok
                &&& first_failure(descriptions@) is None
                &&& acyclic(declared_graph(descriptions@))
                &&& key_of(names_of(descriptions@), root@) < 0
                &&& name@ == root@
            },
            Ok(project) => toolchain is Ok && generated(toolchain->Ok_0, descriptions@, root@, *configuration, shared_directory@, project),
        },
{
    let tools = match toolchain {
        Ok(tools) => tools,
        Err(e) => {
            return Err(ProjectError::Toolchain(e));
        },
    };
    let mut registry = match TargetRegistry::build(descriptions) {
        Ok(registry) => registry,
        Err(e) => {
            return Err(ProjectError::Graph(e));
        },
    };
    proof {
        registry.lemma_wf();
        lemma_key_of(names_of(descriptions@), root@);
    }
    let key = match registry.find(root) {
        Some(key) => key,
        None => {
            proof {
                let k = key_of(names_of(descriptions@), root@);
                if k >= 0 {
                    assert(registry.nodes()[k].name@ == root@);
                }
            }
            return Err(ProjectError::UnknownRoot(String::from_str(root)));
        },
    };
    proof {
        let k = key_of(names_of(descriptions@), root@);
        if k < 0 {
            assert(names_of(descriptions@)[key as int] == registry.nodes()[key as int].name@);
        } else if k < key {
            assert(registry.nodes()[k].name@ == root@);
        } else if key < k {
            assert(names_of(descriptions@)[key as int] == registry.nodes()[key as int].name@);
        }
        assert(k == key);
        let fresh = Seq::new(registry.nodes().len(), |i: int| GenerationStatus::NotGenerated);
        assert(registry.statuses() =~= fresh);
    }
    let shared = IncludeFileGenerator::with_configuration(shared_directory, &tools, configuration).generate_build_files();
    let generator = MmkGenerator::new(&tools, configuration, shared_directory);
    let targets = match generator.generate_makefiles(&mut registry, key) {
        Ok(targets) => targets,
        Err(_) => {
            assert(false);
            return Err(ProjectError::UnknownRoot(String::from_str(root)));
        },
    };
    Ok(GeneratedProject { shared, targets, registry })
}

/// A rule file as the key of its target, its name, its path and its text.
pub open spec fn target_file_views(files: Seq<TargetFile>) -> Seq<(usize, Seq<char>, Seq<char>, Seq<char>)> {
    files.map_values(|f: TargetFile| (f.key, f.name@, f.file.path@, f.file.content@))
}

/// A file as its path and its text.
pub open spec fn file_views(files: Seq<GeneratedFile>) -> Seq<(Seq<char>, Seq<char>)> {
    files.map_values(|f: GeneratedFile| (f.path@, f.content@))
}

/// Generation is determined: whatever two invocations generate of the same
/// descriptions, from the same root, for the same toolchain and the same
/// configuration, holds the same files with the same text, in the same
/// order, and leaves the same targets generated.
pub proof fn lemma_generation_is_determined(
    tools: Toolchain,
    descriptions: Seq<RawTargetDescription>,
    root: Seq<char>,
    configuration: BuildConfiguration,
    shared_directory: Seq<char>,
    first: GeneratedProject,
    second: GeneratedProject,
)
    requires
        generated(tools, descriptions, root, configuration, shared_directory, first),
        generated(tools, descriptions, root, configuration, shared_directory, second),
    ensures
        file_views(first.shared@) == file_views(second.shared@),
        target_file_views(first.targets@) == target_file_views(second.targets@),
        first.registry.statuses() == second.registry.statuses(),
{
    let a = first.registry.nodes();
    let b = second.registry.nodes();
    let setting = setting_of(tools, configuration, shared_directory);
    let key = key_of(names_of(descriptions), root);
    first.registry.lemma_wf();
    second.registry.lemma_wf();
    assert forall|i: int| 0 <= i < a.len() implies same_description(#[trigger] a[i], b[i]) by {
        assert(describes(a[i], names_of(descriptions), descriptions[i]));
        assert(describes(b[i], names_of(descriptions), descriptions[i]));
    }
    assert(same_targets(a, b));
    assert(same_requirements(a, b));
    let fresh = Seq::new(a.len(), |i: int| GenerationStatus::NotGenerated);
    let fresh_b = Seq::new(b.len(), |i: int| GenerationStatus::NotGenerated);
    assert(fresh =~= fresh_b);
    lemma_walk_is_determined(a, first.registry.ranks(), b, second.registry.ranks(), fresh, key);
    let walk = traverse(a, first.registry.ranks(), fresh, key);
    assert forall|i: int| 0 <= i < first.targets.len() implies target_file_views(first.targets@)[i] == target_file_views(
        second.targets@,
    )[i] by {
        let k = first.targets@[i].key;
        assert(second.targets@[i].key == k);
        assert(same_description(a[k as int], b[k as int]));
        lemma_makefile_is_determined(a, b, k as int, setting);
    }
    assert(target_file_views(first.targets@) =~= target_file_views(second.targets@));
    assert(file_views(first.shared@) =~= file_views(second.shared@));
}

} // verus!
