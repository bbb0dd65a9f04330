//! The registry of build targets: one node per target, addressed by its key,
//! with the requirements between targets as edges of an acyclic graph.

use vstd::prelude::*;
use vstd::string::*;
use crate::associated_files::{
    source_file_of, AssociatedFileError, AssociatedFileErrorView, ProbedPath, SourceFile,
    SourceFileView, SourceFiles,
};
use crate::graph::{
    acyclic, is_cycle, lemma_ranked_is_acyclic, links, ranked, topological_ranks, well_formed,
};
use crate::pkg_config::{
    pkg_config_error_message, PkgConfigError, PkgConfigErrorView, PkgConfigTarget,
};
use crate::targets::DependencySource;
use crate::text::{join, joined_with, same_text, texts};

verus! {

/// What is built from a target.
#[derive(Debug, PartialEq, Eq, Structural, Clone, Copy)]
pub enum TargetKind {
    Executable,
    StaticLibrary,
    DynamicLibrary,
}

/// How far the generation of a target's rule file has come.
#[derive(Debug, PartialEq, Eq, Structural, Clone, Copy)]
pub enum GenerationStatus {
    NotGenerated,
    Generating,
    Generated,
}

/// A requirement as a target declares it: a name, and for a name that is no
/// target of the project, what the resolution of the package of that name gave.
#[derive(Debug, PartialEq, Eq, Clone)]
pub struct RawRequirement {
    pub name: String,
    pub origin: DependencySource,
    pub resolution: Option<Result<PkgConfigTarget, PkgConfigError>>,
}

/// A target as it is declared, with the answers to whether its sources exist.
#[derive(Debug, PartialEq, Eq, Clone)]
pub struct RawTargetDescription {
    pub name: String,
    /// The directory of the target's sources.
    pub path: String,
    /// The directory whose headers the target offers to those that require it.
    pub include_directory: String,
    pub kind: TargetKind,
    pub sources: Vec<ProbedPath>,
    pub cxx_flags_append: Vec<String>,
    pub cpp_flags_append: Vec<String>,
    pub defines: Vec<String>,
    pub requirements: Vec<RawRequirement>,
}

/// A requirement on another target of the registry, held as that target's key.
#[derive(Debug, PartialEq, Eq, Clone)]
pub struct InternalRequirement {
    pub key: usize,
    pub name: String,
    pub origin: DependencySource,
}

/// A requirement on a package outside the project, with its resolution.
#[derive(Debug, PartialEq, Eq, Clone)]
pub struct ExternalRequirement {
    pub name: String,
    pub origin: DependencySource,
    pub target: PkgConfigTarget,
}

/// A target of the registry.
#[derive(Debug, PartialEq, Eq, Clone)]
pub struct TargetNode {
    pub name: String,
    pub path: String,
    pub include_directory: String,
    pub kind: TargetKind,
    pub sources: SourceFiles,
    pub cxx_flags: Vec<String>,
    pub cpp_flags: Vec<String>,
    pub defines: Vec<String>,
    pub internal: Vec<InternalRequirement>,
    pub external: Vec<ExternalRequirement>,
}

/// Why no registry could be built.
#[derive(Debug, PartialEq, Eq, Clone)]
pub enum GraphError {
    /// A declared source file does not exist; holds its path.
    MissingSourceFile(String),
    /// A declared file is neither a source nor a header; holds its path.
    UnclassifiableFile(String),
    /// The package of this name could not be resolved; holds the name and the cause.
    RequirementResolutionFailed(String, PkgConfigError),
    /// The requirement of this name is no target, and no package was resolved for it.
    UnresolvedRequirement(String),
    /// Targets require each other in a circle; holds their names along the circle.
    CyclicDependency(Vec<String>),
}

/// A `GraphError` over character sequences.
pub ghost enum GraphErrorView {
    MissingSourceFile(Seq<char>),
    UnclassifiableFile(Seq<char>),
    RequirementResolutionFailed(Seq<char>, PkgConfigErrorView),
    UnresolvedRequirement(Seq<char>),
    CyclicDependency(Seq<Seq<char>>),
}

impl View for GraphError {
    type V = GraphErrorView;

    open spec fn view(&self) -> GraphErrorView {
        match self {
            GraphError::MissingSourceFile(p) => GraphErrorView::MissingSourceFile(p@),
            GraphError::UnclassifiableFile(p) => GraphErrorView::UnclassifiableFile(p@),
            GraphError::RequirementResolutionFailed(n, c) => GraphErrorView::RequirementResolutionFailed(n@, c@),
            GraphError::UnresolvedRequirement(n) => GraphErrorView::UnresolvedRequirement(n@),
            GraphError::CyclicDependency(names) => GraphErrorView::CyclicDependency(texts(names@)),
        }
    }
}

/// The first entry of `s` that holds something.
pub open spec fn first_some<T>(s: Seq<Option<T>>) -> Option<T>
    decreases s.len(),
{
    if s.len() == 0 {
        None
    } else if s[0] is Some {
        s[0]
    } else {
        first_some(s.drop_first())
    }
}

/// Entries that hold nothing do not count: the first that holds something from `k` on is the first of all.
pub proof fn lemma_first_some_skip<T>(s: Seq<Option<T>>, k: int)
    requires
        0 <= k <= s.len(),
        forall|i: int| 0 <= i < k ==> s[i] is None,
    ensures
        first_some(s) == first_some(s.skip(k)),
    decreases k,
{
    if k == 0 {
        assert(s.skip(0) =~= s);
    } else {
        assert(s[0] is None);
        let t = s.drop_first();
        assert forall|i: int| 0 <= i < k - 1 implies t[i] is None by {
            assert(t[i] == s[i + 1]);
        }
        lemma_first_some_skip(t, k - 1);
        assert(t.skip(k - 1) =~= s.skip(k));
    }
}

/// The key of the first of `names` that equals `name`, or -1 where none does.
pub open spec fn key_of(names: Seq<Seq<char>>, name: Seq<char>) -> int
    decreases names.len(),
{
    if names.len() == 0 {
        -1
    } else {
        let before = key_of(names.drop_last(), name);
        if before >= 0 {
            before
        } else if names.last() == name {
            names.len() - 1
        } else {
            -1
        }
    }
}

/// `key_of` names the first occurrence.
pub proof fn lemma_key_of(names: Seq<Seq<char>>, name: Seq<char>)
    ensures
        -1 <= key_of(names, name) < names.len(),
        key_of(names, name) >= 0 ==> names[key_of(names, name)] == name,
        forall|i: int| 0 <= i < names.len() && (i < key_of(names, name) || key_of(names, name) < 0) ==> names[i] != name,
    decreases names.len(),
{
    if names.len() > 0 {
        let t = names.drop_last();
        lemma_key_of(t, name);
        assert forall|i: int| 0 <= i < names.len() && (i < key_of(names, name) || key_of(names, name) < 0) implies names[i]
            != name by {
            if i < t.len() {
                assert(t[i] == names[i]);
            }
        }
    }
}

/// The names of the described targets, in order.
pub open spec fn names_of(descriptions: Seq<RawTargetDescription>) -> Seq<Seq<char>> {
    descriptions.map_values(|d: RawTargetDescription| d.name@)
}

/// Why a declared source cannot be taken, if it cannot.
pub open spec fn source_failure(source: ProbedPath) -> Option<GraphErrorView> {
    match source_file_of(source.path@, source.exists) {
        Ok(_) => None,
        Err(AssociatedFileErrorView::FileNotExisting(_)) => Some(GraphErrorView::MissingSourceFile(source.path@)),
        Err(_) => Some(GraphErrorView::UnclassifiableFile(source.path@)),
    }
}

/// Why a declared requirement cannot be met, if it cannot: it names no target,
/// and its package was not resolved, or resolved to an error.
pub open spec fn requirement_failure(names: Seq<Seq<char>>, raw: RawRequirement) -> Option<GraphErrorView> {
    if key_of(names, raw.name@) >= 0 {
        None
    } else {
        match raw.resolution {
            Some(Ok(_)) => None,
            Some(Err(cause)) => Some(GraphErrorView::RequirementResolutionFailed(raw.name@, cause@)),
            None => Some(GraphErrorView::UnresolvedRequirement(raw.name@)),
        }
    }
}

/// The first failure of a description: its sources are taken before its requirements.
pub open spec fn description_failure(names: Seq<Seq<char>>, d: RawTargetDescription) -> Option<GraphErrorView> {
    let of_sources = first_some(d.sources@.map_values(|s: ProbedPath| source_failure(s)));
    if of_sources is Some {
        of_sources
    } else {
        first_some(d.requirements@.map_values(|r: RawRequirement| requirement_failure(names, r)))
    }
}

/// The first failure among the descriptions, taken in order.
pub open spec fn first_failure(descriptions: Seq<RawTargetDescription>) -> Option<GraphErrorView> {
    first_some(
        descriptions.map_values(|d: RawTargetDescription| description_failure(names_of(descriptions), d)),
    )
}

/// The requirements among `raws` that name targets, in order, each with the key of its target.
pub open spec fn internal_of(names: Seq<Seq<char>>, raws: Seq<RawRequirement>) -> Seq<InternalRequirement>
    decreases raws.len(),
{
    if raws.len() == 0 {
        Seq::empty()
    } else {
        let before = internal_of(names, raws.drop_last());
        let raw = raws.last();
        if key_of(names, raw.name@) >= 0 {
            before.push(InternalRequirement { key: key_of(names, raw.name@) as usize, name: raw.name, origin: raw.origin })
        } else {
            before
        }
    }
}

/// The requirements among `raws` that name resolved packages, in order.
pub open spec fn external_of(names: Seq<Seq<char>>, raws: Seq<RawRequirement>) -> Seq<ExternalRequirement>
    decreases raws.len(),
{
    if raws.len() == 0 {
        Seq::empty()
    } else {
        let before = external_of(names, raws.drop_last());
        let raw = raws.last();
        if key_of(names, raw.name@) < 0 {
            match raw.resolution {
                Some(Ok(target)) => before.push(ExternalRequirement { name: raw.name, origin: raw.origin, target }),
                _ => before,
            }
        } else {
            before
        }
    }
}

/// The classified files of the declared sources, where none is refused.
pub open spec fn files_of(sources: Seq<ProbedPath>) -> Seq<SourceFileView> {
    sources.map_values(|s: ProbedPath| source_file_of(s.path@, s.exists)->Ok_0)
}

/// `node` is the target that `d` describes among targets of these names.
pub open spec fn describes(node: TargetNode, names: Seq<Seq<char>>, d: RawTargetDescription) -> bool {
    &&& node.name == d.name
    &&& node.path == d.path
    &&& node.include_directory == d.include_directory
    &&& node.kind == d.kind
    &&& node.sources@ == files_of(d.sources@)
    &&& node.cxx_flags == d.cxx_flags_append
    &&& node.cpp_flags == d.cpp_flags_append
    &&& node.defines == d.defines
    &&& node.internal@ == internal_of(names, d.requirements@)
    &&& node.external@ == external_of(names, d.requirements@)
}

/// The keys that the internal requirements of a node hold.
pub open spec fn keys_of(internal: Seq<InternalRequirement>) -> Seq<usize> {
    internal.map_values(|r: InternalRequirement| r.key)
}

/// The requirement graph of a list of nodes: an edge from each node to each target it requires.
pub open spec fn requirement_graph(nodes: Seq<TargetNode>) -> Seq<Seq<usize>> {
    nodes.map_values(|n: TargetNode| keys_of(n.internal@))
}

/// The key of the first of `names` that equals `name`.
pub fn find_key(names: &Vec<String>, name: &str) -> (r: Option<usize>)
    ensures
        match r {
            Some(k) => k < names.len() && k as int == key_of(texts(names@), name@),
            None => key_of(texts(names@), name@) == -1,
        },
{
    proof {
        lemma_key_of(texts(names@), name@);
    }
    let mut i: usize = 0;
    while i < names.len()
        invariant
            i <= names.len(),
            forall|j: int| 0 <= j < i ==> texts(names@)[j] != name@,
        decreases names.len() - i,
    {
        if same_text(names[i].as_str(), name) {
            proof {
                lemma_key_of(texts(names@), name@);
                assert(texts(names@)[i as int] == name@);
            }
            return Some(i);
        }
        assert(texts(names@)[i as int] == names@[i as int]@);
        i += 1;
    }
    None
}

/// Classifies the declared sources in order; the first that is refused decides the error.
pub fn classify_sources(sources: &Vec<ProbedPath>) -> (r: Result<SourceFiles, GraphError>)
    ensures
        match r {
            Ok(files) => {
                &&& first_some(sources@.map_values(|s: ProbedPath| source_failure(s))) is None
                &&& files@ == files_of(sources@)
            },
            Err(e) => first_some(sources@.map_values(|s: ProbedPath| source_failure(s))) == Some(e@),
        },
{
    let ghost failures = sources@.map_values(|s: ProbedPath| source_failure(s));
    let mut files = SourceFiles::new();
    let mut i: usize = 0;
    while i < sources.len()
        invariant
            i <= sources.len(),
            failures == sources@.map_values(|s: ProbedPath| source_failure(s)),
            forall|j: int| 0 <= j < i ==> failures[j] is None,
            files@ == files_of(sources@.take(i as int)),
        decreases sources.len() - i,
    {
        let source = &sources[i];
        match SourceFile::new(source.path.as_str(), source.exists) {
            Ok(file) => {
                files.push(file);
                proof {
                    assert(failures[i as int] is None);
                    assert(files@ =~= files_of(sources@.take(i + 1)));
                }
            },
            Err(e) => {
                let path = source.path.clone();
                let error = match e {
                    AssociatedFileError::FileNotExisting(_) => GraphError::MissingSourceFile(path),
                    _ => GraphError::UnclassifiableFile(path),
                };
                proof {
                    assert(failures[i as int] == Some(error@));
                    lemma_first_some_skip(failures, i as int);
                    assert(failures.skip(i as int)[0] == failures[i as int]);
                }
                return Err(error);
            },
        }
        i += 1;
    }
    proof {
        lemma_first_some_skip(failures, failures.len() as int);
        assert(sources@.take(sources.len() as int) =~= sources@);
    }
    Ok(files)
}

/// Resolves the declared requirements in order: a name of a target becomes an
/// internal requirement, a resolved package an external one. The first
/// requirement that is neither decides the error.
pub fn resolve_requirements(names: &Vec<String>, raws: Vec<RawRequirement>) -> (r: Result<
    (Vec<InternalRequirement>, Vec<ExternalRequirement>),
    GraphError,
>)
    ensures
        match r {
            Ok((internal, external)) => {
                &&& first_some(raws@.map_values(|q: RawRequirement| requirement_failure(texts(names@), q))) is None
                &&& internal@ == internal_of(texts(names@), raws@)
                &&& external@ == external_of(texts(names@), raws@)
                &&& forall|k: int| 0 <= k < internal.len() ==> (#[trigger] internal@[k]).key < names.len()
            },
            Err(e) => first_some(raws@.map_values(|q: RawRequirement| requirement_failure(texts(names@), q)))
                == Some(e@),
        },
{
    let ghost all = raws@;
    let ghost failures = all.map_values(|q: RawRequirement| requirement_failure(texts(names@), q));
    let mut internal: Vec<InternalRequirement> = Vec::new();
    let mut external: Vec<ExternalRequirement> = Vec::new();
    for raw in it: raws
        invariant
            it.seq() == all,
            failures == all.map_values(|q: RawRequirement| requirement_failure(texts(names@), q)),
            forall|j: int| 0 <= j < it.index() ==> failures[j] is None,
            internal@ == internal_of(texts(names@), all.take(it.index())),
            external@ == external_of(texts(names@), all.take(it.index())),
            forall|k: int| 0 <= k < internal.len() ==> (#[trigger] internal@[k]).key < names.len(),
    {
        let ghost i = it.index();
        proof {
            assert(all.take(i + 1).drop_last() =~= all.take(i));
            assert(all.take(i + 1).last() == raw);
        }
        let RawRequirement { name, origin, resolution } = raw;
        match find_key(names, name.as_str()) {
            Some(key) => {
                internal.push(InternalRequirement { key, name, origin });
                proof {
                    assert(failures[i] is None);
                }
            },
            None => match resolution {
                Some(Ok(target)) => {
                    external.push(ExternalRequirement { name, origin, target });
                    proof {
                        assert(failures[i] is None);
                    }
                },
                Some(Err(cause)) => {
                    let error = GraphError::RequirementResolutionFailed(name, cause);
                    proof {
                        assert(failures[i] == Some(error@));
                        lemma_first_some_skip(failures, i);
                        assert(failures.skip(i)[0] == failures[i]);
                    }
                    return Err(error);
                },
                None => {
                    let error = GraphError::UnresolvedRequirement(name);
                    proof {
                        assert(failures[i] == Some(error@));
                        lemma_first_some_skip(failures, i);
                        assert(failures.skip(i)[0] == failures[i]);
                    }
                    return Err(error);
                },
            },
        }
    }
    proof {
        lemma_first_some_skip(failures, failures.len() as int);
        assert(all.take(all.len() as int) =~= all);
    }
    Ok((internal, external))
}

/// The node that `d` describes among targets of these names, or the first failure of `d`.
pub fn describe(names: &Vec<String>, d: RawTargetDescription) -> (r: Result<TargetNode, GraphError>)
    ensures
        match r {
            Ok(node) => {
                &&& description_failure(texts(names@), d) is None
                &&& describes(node, texts(names@), d)
                &&& forall|k: int| 0 <= k < node.internal.len() ==> (#[trigger] node.internal@[k]).key < names.len()
            },
            Err(e) => description_failure(texts(names@), d) == Some(e@),
        },
{
    let RawTargetDescription {
        name,
        path,
        include_directory,
        kind,
        sources,
        cxx_flags_append,
        cpp_flags_append,
        defines,
        requirements,
    } = d;
    let files = match classify_sources(&sources) {
        Ok(files) => files,
        Err(e) => {
            return Err(e);
        },
    };
    match resolve_requirements(names, requirements) {
        Ok((internal, external)) => Ok(
            TargetNode {
                name,
                path,
                include_directory,
                kind,
                sources: files,
                cxx_flags: cxx_flags_append,
                cpp_flags: cpp_flags_append,
                defines,
                internal,
                external,
            },
        ),
        Err(e) => Err(e),
    }
}

/// The graph that the descriptions declare: an edge from each target to each
/// target that one of its requirements names.
pub open spec fn declared_graph(descriptions: Seq<RawTargetDescription>) -> Seq<Seq<usize>> {
    descriptions.map_values(
        |d: RawTargetDescription| keys_of(internal_of(names_of(descriptions), d.requirements@)),
    )
}

/// The names of the targets with the keys `keys`.
pub open spec fn names_at(names: Seq<Seq<char>>, keys: Seq<usize>) -> Seq<Seq<char>> {
    keys.map_values(|k: usize| names[k as int])
}

/// `e` is the error for descriptions of which no registry can be built: their
/// first failure, or, where none fails, the names along one circle of requirements.
pub open spec fn build_failure(descriptions: Seq<RawTargetDescription>, e: GraphErrorView) -> bool {
    match first_failure(descriptions) {
        Some(failure) => e == failure,
        None => exists|cycle: Seq<usize>|
            {
                &&& is_cycle(declared_graph(descriptions), cycle)
                &&& e == GraphErrorView::CyclicDependency(#[trigger] names_at(names_of(descriptions), cycle))
            },
    }
}

/// The registry: the targets of a project, each under its key, with the state
/// of the generation of each.
#[derive(Debug, PartialEq, Eq, Clone)]
pub struct TargetRegistry {
    nodes: Vec<TargetNode>,
    ranks: Vec<usize>,
    statuses: Vec<GenerationStatus>,
}

impl TargetRegistry {
    /// The targets, each at its key.
    pub closed spec fn nodes(&self) -> Seq<TargetNode> {
        self.nodes@
    }

    /// The rank of each target: above the ranks of all targets that it requires.
    pub closed spec fn ranks(&self) -> Seq<usize> {
        self.ranks@
    }

    /// The generation status of each target.
    pub closed spec fn statuses(&self) -> Seq<GenerationStatus> {
        self.statuses@
    }

    /// A registry is valid when every requirement leads to a target of strictly
    /// lower rank, no target is under generation, and every generated target has
    /// all that it requires generated.
    pub closed spec fn wf(&self) -> bool {
        &&& self.statuses@.len() == self.nodes@.len()
        &&& ranked(requirement_graph(self.nodes@), self.ranks@)
        &&& forall|w: int| 0 <= w < self.statuses@.len() ==> #[trigger] self.statuses@[w] != GenerationStatus::Generating
        &&& closed_under_requirements(self.nodes@, self.statuses@)
    }

    /// A valid registry has one rank and one status for each target, its
    /// requirements lead to targets of lower rank, and no target requires itself
    /// by whatever detour.
    pub proof fn lemma_wf(&self)
        requires
            self.wf(),
        ensures
            self.ranks().len() == self.nodes().len(),
            self.statuses().len() == self.nodes().len(),
            ranked(requirement_graph(self.nodes()), self.ranks()),
            acyclic(requirement_graph(self.nodes())),
            forall|u: int, e: int| 0 <= u < self.nodes().len() && 0 <= e < self.nodes()[u].internal.len() ==>
                (#[trigger] self.nodes()[u].internal@[e]).key < self.nodes().len()
                && self.ranks()[self.nodes()[u].internal@[e].key as int] < self.ranks()[u],
            forall|w: int| 0 <= w < self.statuses().len() ==> #[trigger] self.statuses()[w] != GenerationStatus::Generating,
            closed_under_requirements(self.nodes(), self.statuses()),
    {
        let g = requirement_graph(self.nodes@);
        lemma_ranked_is_acyclic(g, self.ranks@);
        assert forall|u: int, e: int| 0 <= u < self.nodes().len() && 0 <= e < self.nodes()[u].internal.len() implies
            (#[trigger] self.nodes()[u].internal@[e]).key < self.nodes().len()
            && self.ranks()[self.nodes()[u].internal@[e].key as int] < self.ranks()[u] by {
            assert(g[u][e] == self.nodes()[u].internal@[e].key);
        }
    }

    /// Builds the registry of the described targets.
    ///
    /// The descriptions are taken in order, and the first failure among them is
    /// the error. Where none fails, the registry is built unless targets require
    /// each other in a circle; then the error names the targets of one such circle.
    pub fn build(descriptions: Vec<RawTargetDescription>) -> (r: Result<TargetRegistry, GraphError>)
        ensures
            r is Ok <==> first_failure(descriptions@) is None && acyclic(declared_graph(descriptions@)),
            match r {
                Ok(registry) => {
                    &&& registry.wf()
                    &&& registry.nodes().len() == descriptions.len()
                    &&& forall|i: int| 0 <= i < descriptions.len() ==> describes(
                        #[trigger] registry.nodes()[i],
                        names_of(descriptions@),
                        descriptions@[i],
                    )
                    &&& forall|i: int| 0 <= i < descriptions.len() ==> #[trigger] registry.statuses()[i]
                        == GenerationStatus::NotGenerated
                    &&& requirement_graph(registry.nodes()) == declared_graph(descriptions@)
                },
                Err(e) => build_failure(descriptions@, e@),
            },
    {
        let ghost all = descriptions@;
        let mut names: Vec<String> = Vec::new();
        let mut i: usize = 0;
        while i < descriptions.len()
            invariant
                i <= descriptions.len(),
                all == descriptions@,
                names.len() == i,
                forall|j: int| 0 <= j < i ==> (#[trigger] names@[j])@ == all[j].name@,
            decreases descriptions.len() - i,
        {
            names.push(descriptions[i].name.clone());
            i += 1;
        }
        assert(texts(names@) =~= names_of(all));
        let ghost failures = all.map_values(|d: RawTargetDescription| description_failure(names_of(all), d));
        let mut nodes: Vec<TargetNode> = Vec::new();
        for d in it: descriptions
            invariant
                it.seq() == all,
                texts(names@) == names_of(all),
                names.len() == all.len(),
                failures == all.map_values(|d: RawTargetDescription| description_failure(names_of(all), d)),
                forall|j: int| 0 <= j < it.index() ==> failures[j] is None,
                nodes.len() == it.index(),
                forall|j: int| 0 <= j < it.index() ==> describes(#[trigger] nodes@[j], names_of(all), all[j]),
                forall|j: int, k: int| 0 <= j < nodes.len() && 0 <= k < nodes@[j].internal.len() ==>
                    (#[trigger] nodes@[j].internal@[k]).key < all.len(),
        {
            let ghost at = it.index();
            match describe(&names, d) {
                Ok(node) => {
                    nodes.push(node);
                    proof {
                        assert(failures[at] is None);
                    }
                },
                Err(e) => {
                    proof {
                        assert(failures[at] == Some(e@));
                        lemma_first_some_skip(failures, at);
                        assert(failures.skip(at)[0] == failures[at]);
                    }
                    return Err(e);
                },
            }
        }
        proof {
            lemma_first_some_skip(failures, failures.len() as int);
        }
        let n = nodes.len();
        let mut edges: Vec<Vec<usize>> = Vec::new();
        let mut statuses: Vec<GenerationStatus> = Vec::new();
        let mut u: usize = 0;
        while u < n
            invariant
                u <= n,
                n == nodes.len(),
                n == all.len(),
                edges.len() == u,
                statuses.len() == u,
                forall|j: int| 0 <= j < u ==> (#[trigger] edges@[j])@ == keys_of(nodes@[j].internal@),
                forall|j: int| 0 <= j < u ==> #[trigger] statuses@[j] == GenerationStatus::NotGenerated,
            decreases n - u,
        {
            let node = &nodes[u];
            let mut row: Vec<usize> = Vec::new();
            let mut k: usize = 0;
            while k < node.internal.len()
                invariant
                    k <= node.internal.len(),
                    row@ == keys_of(node.internal@.take(k as int)),
                decreases node.internal.len() - k,
            {
                row.push(node.internal[k].key);
                assert(row@ =~= keys_of(node.internal@.take(k + 1)));
                k += 1;
            }
            assert(node.internal@.take(node.internal.len() as int) =~= node.internal@);
            edges.push(row);
            statuses.push(GenerationStatus::NotGenerated);
            u += 1;
        }
        let ghost g = links(edges@);
        proof {
            assert(g =~= requirement_graph(nodes@));
            assert(g =~= declared_graph(all));
            assert(well_formed(g)) by {
                assert forall|a: int, e: int| 0 <= a < g.len() && 0 <= e < g[a].len() implies (#[trigger] g[a][e])
                    < g.len() by {
                    assert(g[a][e] == nodes@[a].internal@[e].key);
                }
            }
        }
        match topological_ranks(&edges) {
            Ok(ranks) => Ok(TargetRegistry { nodes, ranks, statuses }),
            Err(cycle) => {
                let mut cycle_names: Vec<String> = Vec::new();
                let mut c: usize = 0;
                while c < cycle.len()
                    invariant
                        c <= cycle.len(),
                        is_cycle(g, cycle@),
                        g.len() == names.len(),
                        cycle_names.len() == c,
                        forall|j: int| 0 <= j < c ==> (#[trigger] cycle_names@[j])@ == texts(names@)[cycle@[j] as int],
                    decreases cycle.len() - c,
                {
                    let key = cycle[c];
                    assert(key < g.len());
                    cycle_names.push(names[key].clone());
                    assert(texts(names@)[key as int] == names@[key as int]@);
                    c += 1;
                }
                proof {
                    assert(texts(cycle_names@) =~= names_at(names_of(all), cycle@));
                }
                Err(GraphError::CyclicDependency(cycle_names))
            },
        }
    }
}

/// The rank of the target `u`; 0 for a key that names no target.
pub open spec fn rank_of(ranks: Seq<usize>, u: int) -> int {
    if 0 <= u < ranks.len() {
        ranks[u] as int
    } else {
        0
    }
}

/// The number of internal requirements of the target `u`; 0 for a key that names no target.
pub open spec fn degree_of(nodes: Seq<TargetNode>, u: int) -> int {
    if 0 <= u < nodes.len() {
        nodes[u].internal.len() as int
    } else {
        0
    }
}

/// The walk from the target `u`: the keys of the targets that are generated, in
/// the order of their generation, and the statuses after the walk. A target
/// that is not `NotGenerated` is passed over. Any other is generated first and
/// then, in turn, each of the targets it requires.
pub open spec fn traverse(
    nodes: Seq<TargetNode>,
    ranks: Seq<usize>,
    statuses: Seq<GenerationStatus>,
    u: int,
) -> (Seq<usize>, Seq<GenerationStatus>)
    decreases rank_of(ranks, u), degree_of(nodes, u) + 1,
{
    if 0 <= u < nodes.len() && u < statuses.len() && statuses[u] == GenerationStatus::NotGenerated {
        let below = traverse_requirements(nodes, ranks, statuses.update(u, GenerationStatus::Generating), u, 0);
        (seq![u as usize] + below.0, below.1.update(u, GenerationStatus::Generated))
    } else {
        (Seq::empty(), statuses)
    }
}

/// The walk through the requirements of the target `u` from its requirement number `e` on.
pub open spec fn traverse_requirements(
    nodes: Seq<TargetNode>,
    ranks: Seq<usize>,
    statuses: Seq<GenerationStatus>,
    u: int,
    e: int,
) -> (Seq<usize>, Seq<GenerationStatus>)
    decreases rank_of(ranks, u), degree_of(nodes, u) - e,
{
    if 0 <= u < nodes.len() && 0 <= e < nodes[u].internal.len() {
        let v = nodes[u].internal@[e].key as int;
        let first = if rank_of(ranks, v) < rank_of(ranks, u) {
            traverse(nodes, ranks, statuses, v)
        } else {
            (Seq::<usize>::empty(), statuses)
        };
        let rest = traverse_requirements(nodes, ranks, first.1, u, e + 1);
        (first.0 + rest.0, rest.1)
    } else {
        (Seq::empty(), statuses)
    }
}

/// Every generated target has all the targets that it requires generated.
pub open spec fn closed_under_requirements(nodes: Seq<TargetNode>, statuses: Seq<GenerationStatus>) -> bool {
    forall|w: int, e: int|
        0 <= w < nodes.len() && 0 <= e < nodes[w].internal.len() && statuses[w] == GenerationStatus::Generated
            ==> statuses[(#[trigger] nodes[w].internal@[e]).key as int] == GenerationStatus::Generated
}

/// What holds of the statuses and of the keys generated so far, between any two steps of a walk.
spec fn walk_state(
    nodes: Seq<TargetNode>,
    ranks: Seq<usize>,
    statuses: Seq<GenerationStatus>,
    order: Seq<usize>,
) -> bool {
    &&& ranked(requirement_graph(nodes), ranks)
    &&& statuses.len() == nodes.len()
    &&& order.no_duplicates()
    &&& forall|i: int| 0 <= i < order.len() ==> (#[trigger] order[i]) < nodes.len() && statuses[order[i] as int]
        != GenerationStatus::NotGenerated
    &&& forall|w: int, e: int|
        0 <= w < nodes.len() && 0 <= e < nodes[w].internal.len() && statuses[w] == GenerationStatus::Generated
            ==> statuses[(#[trigger] nodes[w].internal@[e]).key as int] == GenerationStatus::Generated
}

/// How the statuses after a part of a walk stand to those before it.
spec fn walk_step(
    before: Seq<GenerationStatus>,
    after: Seq<GenerationStatus>,
    order_before: Seq<usize>,
    order_after: Seq<usize>,
) -> bool {
    &&& after.len() == before.len()
    &&& order_after.len() >= order_before.len()
    &&& order_after.take(order_before.len() as int) == order_before
    &&& forall|w: int| 0 <= w < before.len() ==> (#[trigger] before[w] == GenerationStatus::Generating <==> after[w]
        == GenerationStatus::Generating)
    &&& forall|w: int| 0 <= w < before.len() && before[w] == GenerationStatus::Generated ==> #[trigger] after[w]
        == GenerationStatus::Generated
    &&& forall|w: int| 0 <= w < before.len() && #[trigger] before[w] == GenerationStatus::NotGenerated && after[w]
        != GenerationStatus::NotGenerated ==> order_after.skip(order_before.len() as int).contains(w as usize)
    &&& forall|i: int| order_before.len() <= i < order_after.len() ==> before[(#[trigger] order_after[i]) as int]
        == GenerationStatus::NotGenerated && after[order_after[i] as int] == GenerationStatus::Generated
}

/// Generates the target `u` unless it is generated already, and before it returns
/// all that `u` requires. The keys of the generated targets are appended to `order`.
fn generate_from(
    nodes: &Vec<TargetNode>,
    Ghost(ranks): Ghost<Seq<usize>>,
    statuses: &mut Vec<GenerationStatus>,
    order: &mut Vec<usize>,
    u: usize,
)
    requires
        walk_state(nodes@, ranks, old(statuses)@, old(order)@),
        u < nodes.len(),
        forall|w: int| 0 <= w < nodes.len() && old(statuses)@[w] == GenerationStatus::Generating ==> ranks[w] > ranks[u as int],
    ensures
        walk_state(nodes@, ranks, final(statuses)@, final(order)@),
        walk_step(old(statuses)@, final(statuses)@, old(order)@, final(order)@),
        final(statuses)@[u as int] == GenerationStatus::Generated,
        final(order)@ == old(order)@ + traverse(nodes@, ranks, old(statuses)@, u as int).0,
        final(statuses)@ == traverse(nodes@, ranks, old(statuses)@, u as int).1,
    decreases ranks[u as int],
{
    let ghost statuses0 = statuses@;
    let ghost order0 = order@;
    let ghost g = requirement_graph(nodes@);
    match statuses[u] {
        GenerationStatus::Generated => {
            assert(order@ =~= order0 + Seq::<usize>::empty());
            assert(order@.take(order0.len() as int) =~= order0);
            return ;
        },
        GenerationStatus::Generating => {
            // A target under generation is never reached again: its rank lies above that of `u`.
            assert(false);
            return ;
        },
        GenerationStatus::NotGenerated => {},
    }
    statuses.set(u, GenerationStatus::Generating);
    order.push(u);
    let ghost statuses1 = statuses@;
    let ghost order1 = order@;
    proof {
        assert(order1.no_duplicates()) by {
            assert forall|i: int, j: int| 0 <= i < order1.len() && 0 <= j < order1.len() && i != j implies order1[i]
                != order1[j] by {
                if i < order0.len() {
                    assert(order1[i] == order0[i]);
                    assert(statuses0[order0[i] as int] != GenerationStatus::NotGenerated);
                }
                if j < order0.len() {
                    assert(order1[j] == order0[j]);
                    assert(statuses0[order0[j] as int] != GenerationStatus::NotGenerated);
                }
            }
        }
        assert forall|i: int| 0 <= i < order1.len() implies (#[trigger] order1[i]) < nodes.len() && statuses1[order1[i] as int]
            != GenerationStatus::NotGenerated by {
            if i < order0.len() {
                assert(order1[i] == order0[i]);
            }
        }
        assert forall|w: int, d: int|
            0 <= w < nodes.len() && 0 <= d < nodes@[w].internal.len() && statuses1[w] == GenerationStatus::Generated
            implies statuses1[(#[trigger] nodes@[w].internal@[d]).key as int] == GenerationStatus::Generated by {
            assert(g[w][d] == nodes@[w].internal@[d].key);
            assert(statuses0[w] == GenerationStatus::Generated);
            assert(statuses0[nodes@[w].internal@[d].key as int] == GenerationStatus::Generated);
        }
        assert(order1.take(order1.len() as int) =~= order1);
        assert(order1.skip(order1.len() as int) =~= Seq::<usize>::empty());
    }
    let degree = nodes[u].internal.len();
    let mut e: usize = 0;
    while e < degree
        invariant
            u < nodes.len(),
            degree == nodes@[u as int].internal.len(),
            e <= degree,
            g == requirement_graph(nodes@),
            statuses0 == old(statuses)@,
            order0 == old(order)@,
            statuses0.len() == nodes.len(),
            statuses0[u as int] == GenerationStatus::NotGenerated,
            order1 == order0.push(u),
            statuses1 == statuses0.update(u as int, GenerationStatus::Generating),
            walk_state(nodes@, ranks, statuses@, order@),
            walk_step(statuses1, statuses@, order1, order@),
            statuses@[u as int] == GenerationStatus::Generating,
            forall|w: int| 0 <= w < nodes.len() && statuses0[w] == GenerationStatus::Generating ==> ranks[w] > ranks[u as int],
            forall|d: int| 0 <= d < e ==> statuses@[(#[trigger] nodes@[u as int].internal@[d]).key as int]
                == GenerationStatus::Generated,
            traverse_requirements(nodes@, ranks, statuses1, u as int, 0).0 == order@.skip(order1.len() as int)
                + traverse_requirements(nodes@, ranks, statuses@, u as int, e as int).0,
            traverse_requirements(nodes@, ranks, statuses1, u as int, 0).1 == traverse_requirements(
                nodes@,
                ranks,
                statuses@,
                u as int,
                e as int,
            ).1,
        decreases degree - e,
    {
        let v = nodes[u].internal[e].key;
        let ghost statuses_before = statuses@;
        let ghost order_before = order@;
        proof {
            assert(g[u as int][e as int] == v);
            assert(v < nodes.len() && ranks[v as int] < ranks[u as int]);
            assert forall|w: int| 0 <= w < nodes.len() && statuses@[w] == GenerationStatus::Generating implies ranks[w]
                > ranks[v as int] by {
                if w != u {
                    assert(statuses1[w] == GenerationStatus::Generating);
                    assert(statuses0[w] == GenerationStatus::Generating);
                }
            }
        }
        generate_from(nodes, Ghost(ranks), statuses, order, v);
        proof {
            let step = traverse(nodes@, ranks, statuses_before, v as int);
            assert(order@.skip(order1.len() as int) =~= order_before.skip(order1.len() as int) + step.0);
            assert(order_before.skip(order1.len() as int) + (step.0 + traverse_requirements(
                nodes@,
                ranks,
                statuses@,
                u as int,
                e + 1,
            ).0) =~= order@.skip(order1.len() as int) + traverse_requirements(nodes@, ranks, statuses@, u as int, e + 1).0);
            assert forall|d: int| 0 <= d < e + 1 implies statuses@[(#[trigger] nodes@[u as int].internal@[d]).key as int]
                == GenerationStatus::Generated by {
                assert(g[u as int][d] == nodes@[u as int].internal@[d].key);
                if d < e {
                    assert(statuses_before[nodes@[u as int].internal@[d].key as int] == GenerationStatus::Generated);
                }
            }
            assert(order@.take(order1.len() as int) =~= order_before.take(order1.len() as int));
            assert forall|w: int| 0 <= w < statuses1.len() && #[trigger] statuses1[w] == GenerationStatus::NotGenerated
                && statuses@[w] != GenerationStatus::NotGenerated implies order@.skip(order1.len() as int).contains(
                w as usize,
            ) by {
                if statuses_before[w] != GenerationStatus::NotGenerated {
                    let k = choose|k: int| 0 <= k < order_before.skip(order1.len() as int).len() && order_before.skip(
                        order1.len() as int,
                    )[k] == w as usize;
                    assert(order@.skip(order1.len() as int)[k] == w as usize);
                } else {
                    let k = choose|k: int| 0 <= k < order@.skip(order_before.len() as int).len() && order@.skip(
                        order_before.len() as int,
                    )[k] == w as usize;
                    assert(order@.skip(order1.len() as int)[k + order_before.len() - order1.len()] == w as usize);
                }
            }
            assert forall|i: int| order1.len() <= i < order@.len() implies statuses1[(#[trigger] order@[i]) as int]
                == GenerationStatus::NotGenerated && statuses@[order@[i] as int] == GenerationStatus::Generated by {
                if i < order_before.len() {
                    assert(order@[i] == order_before[i]);
                    assert(order_before.take(order_before.len() as int)[i] == order_before[i]);
                } else {
                    assert(statuses_before[order@[i] as int] == GenerationStatus::NotGenerated);
                    assert(order@[i] != u);
                }
            }
        }
        e += 1;
    }
    let ghost statuses2 = statuses@;
    statuses.set(u, GenerationStatus::Generated);
    proof {
        let below = traverse_requirements(nodes@, ranks, statuses1, u as int, 0);
        assert(below.0 =~= order@.skip(order1.len() as int));
        assert(below.1 == statuses2);
        assert(order@ =~= order0 + (seq![u] + below.0)) by {
            assert(order@.take(order1.len() as int) == order1);
            assert(order@ =~= order1 + order@.skip(order1.len() as int));
        }
        assert(order@.take(order0.len() as int) =~= order0) by {
            assert(order@.take(order1.len() as int) == order1);
        }
        assert forall|w: int| 0 <= w < statuses0.len() && #[trigger] statuses0[w] == GenerationStatus::NotGenerated
            && statuses@[w] != GenerationStatus::NotGenerated implies order@.skip(order0.len() as int).contains(
            w as usize,
        ) by {
            if w == u {
                assert(order@.skip(order0.len() as int)[0] == u);
            } else {
                assert(statuses1[w] == GenerationStatus::NotGenerated);
                let k = choose|k: int| 0 <= k < order@.skip(order1.len() as int).len() && order@.skip(
                    order1.len() as int,
                )[k] == w as usize;
                assert(order@.skip(order0.len() as int)[k + 1] == w as usize);
            }
        }
        assert forall|i: int| order0.len() <= i < order@.len() implies statuses0[(#[trigger] order@[i]) as int]
            == GenerationStatus::NotGenerated && statuses@[order@[i] as int] == GenerationStatus::Generated by {
            if i == order0.len() {
                assert(order@.take(order1.len() as int)[i] == order1[i]);
                assert(order@[i] == u);
            } else {
                assert(statuses1[order@[i] as int] == GenerationStatus::NotGenerated);
            }
        }
        assert forall|w: int, d: int|
            0 <= w < nodes.len() && 0 <= d < nodes@[w].internal.len() && statuses@[w] == GenerationStatus::Generated
            implies statuses@[(#[trigger] nodes@[w].internal@[d]).key as int] == GenerationStatus::Generated by {
            let x = nodes@[w].internal@[d].key as int;
            assert(g[w][d] == nodes@[w].internal@[d].key);
            if w == u {
                assert(statuses2[x] == GenerationStatus::Generated);
            } else {
                assert(statuses2[w] == GenerationStatus::Generated);
                assert(statuses2[x] == GenerationStatus::Generated);
            }
        }
        assert forall|i: int| 0 <= i < order@.len() implies (#[trigger] order@[i]) < nodes.len() && statuses@[order@[i] as int]
            != GenerationStatus::NotGenerated by {
            assert(statuses2[order@[i] as int] != GenerationStatus::NotGenerated);
        }
        assert forall|w: int| 0 <= w < statuses0.len() implies (#[trigger] statuses0[w] == GenerationStatus::Generating
            <==> statuses@[w] == GenerationStatus::Generating) by {
            if w != u {
                assert(statuses1[w] == statuses0[w]);
                assert(statuses1[w] == GenerationStatus::Generating <==> statuses2[w] == GenerationStatus::Generating);
            }
        }
        assert forall|w: int| 0 <= w < statuses0.len() && statuses0[w] == GenerationStatus::Generated implies #[trigger] statuses@[w]
            == GenerationStatus::Generated by {
            assert(statuses1[w] == GenerationStatus::Generated);
            assert(statuses2[w] == GenerationStatus::Generated);
        }
    }
}

impl TargetRegistry {
    /// The number of targets.
    pub fn len(&self) -> (r: usize)
        ensures
            r == self.nodes().len(),
    {
        self.nodes.len()
    }

    /// The target under `key`, if there is one.
    pub fn get(&self, key: usize) -> (r: Option<&TargetNode>)
        ensures
            match r {
                Some(node) => key < self.nodes().len() && *node == self.nodes()[key as int],
                None => key >= self.nodes().len(),
            },
    {
        if key < self.nodes.len() {
            Some(&self.nodes[key])
        } else {
            None
        }
    }

    /// The generation status of the target under `key`, if there is one.
    pub fn status(&self, key: usize) -> (r: Option<GenerationStatus>)
        requires
            self.wf(),
        ensures
            match r {
                Some(status) => key < self.nodes().len() && status == self.statuses()[key as int],
                None => key >= self.nodes().len(),
            },
    {
        if key < self.statuses.len() {
            Some(self.statuses[key])
        } else {
            None
        }
    }

    /// The key of the first target named `name`.
    pub fn find(&self, name: &str) -> (r: Option<usize>)
        ensures
            match r {
                Some(key) => {
                    &&& key < self.nodes().len()
                    &&& self.nodes()[key as int].name@ == name@
                    &&& forall|j: int| 0 <= j < key ==> (#[trigger] self.nodes()[j]).name@ != name@
                },
                None => forall|j: int| 0 <= j < self.nodes().len() ==> (#[trigger] self.nodes()[j]).name@ != name@,
            },
    {
        let mut i: usize = 0;
        while i < self.nodes.len()
            invariant
                i <= self.nodes.len(),
                forall|j: int| 0 <= j < i ==> (#[trigger] self.nodes@[j]).name@ != name@,
            decreases self.nodes.len() - i,
        {
            if same_text(self.nodes[i].name.as_str(), name) {
                return Some(i);
            }
            i += 1;
        }
        None
    }

    /// Walks from the target `root` and marks as generated every target that the
    /// walk reaches and that was not generated before. Returns their keys in the
    /// order of the walk: each target before the targets it requires, and none twice.
    pub fn mark_generated(&mut self, root: usize) -> (order: Vec<usize>)
        requires
            old(self).wf(),
            root < old(self).nodes().len(),
        ensures
            final(self).wf(),
            final(self).nodes() == old(self).nodes(),
            final(self).ranks() == old(self).ranks(),
            order@ == traverse(old(self).nodes(), old(self).ranks(), old(self).statuses(), root as int).0,
            final(self).statuses() == traverse(old(self).nodes(), old(self).ranks(), old(self).statuses(), root as int).1,
            order@.no_duplicates(),
            final(self).statuses()[root as int] == GenerationStatus::Generated,
            forall|i: int| 0 <= i < order.len() ==> (#[trigger] order@[i]) < old(self).nodes().len()
                && old(self).statuses()[order@[i] as int] == GenerationStatus::NotGenerated
                && final(self).statuses()[order@[i] as int] == GenerationStatus::Generated,
            forall|w: int| 0 <= w < old(self).nodes().len() && !order@.contains(w as usize) ==>
                #[trigger] final(self).statuses()[w] == old(self).statuses()[w],
    {
        let mut order: Vec<usize> = Vec::new();
        let ghost statuses0 = self.statuses@;
        generate_from(&self.nodes, Ghost(self.ranks@), &mut self.statuses, &mut order, root);
        proof {
            let step = traverse(self.nodes@, self.ranks@, statuses0, root as int);
            assert(order@ =~= step.0);
            assert(order@.skip(0) =~= order@);
            assert forall|w: int| 0 <= w < self.nodes@.len() && !order@.contains(w as usize) implies #[trigger] self.statuses@[w]
                == statuses0[w] by {
                if statuses0[w] == GenerationStatus::NotGenerated && self.statuses@[w] != GenerationStatus::NotGenerated {
                    assert(order@.skip(0).contains(w as usize));
                }
            }
        }
        order
    }

    /// Marks every target as not generated.
    pub fn reset(&mut self)
        requires
            old(self).wf(),
        ensures
            final(self).wf(),
            final(self).nodes() == old(self).nodes(),
            final(self).ranks() == old(self).ranks(),
            forall|w: int| 0 <= w < final(self).nodes().len() ==> #[trigger] final(self).statuses()[w]
                == GenerationStatus::NotGenerated,
    {
        let n = self.statuses.len();
        let mut i: usize = 0;
        while i < n
            invariant
                i <= n,
                n == self.statuses.len(),
                n == self.nodes.len(),
                self.nodes == old(self).nodes,
                self.ranks == old(self).ranks,
                forall|w: int| 0 <= w < i ==> #[trigger] self.statuses@[w] == GenerationStatus::NotGenerated,
                forall|w: int| i <= w < n ==> #[trigger] self.statuses@[w] != GenerationStatus::Generating,
            decreases n - i,
        {
            self.statuses.set(i, GenerationStatus::NotGenerated);
            i += 1;
        }
    }
}

/// A target that is generated is passed over: a walk from it generates nothing
/// and leaves every status as it is.
pub proof fn lemma_generated_once(
    nodes: Seq<TargetNode>,
    ranks: Seq<usize>,
    statuses: Seq<GenerationStatus>,
    u: int,
)
    requires
        0 <= u < statuses.len(),
        statuses[u] == GenerationStatus::Generated,
    ensures
        traverse(nodes, ranks, statuses, u).0.len() == 0,
        traverse(nodes, ranks, statuses, u).1 == statuses,
{
}

/// What an error says to the user.
pub open spec fn graph_error_message(e: GraphErrorView) -> Seq<char> {
    match e {
        GraphErrorView::MissingSourceFile(path) => "Source file "@ + path + " does not exist"@,
        GraphErrorView::UnclassifiableFile(path) => "Could not specify file type: "@ + path,
        GraphErrorView::RequirementResolutionFailed(name, cause) => "Failed to resolve requirement "@ + name + ": "@
            + pkg_config_error_message(cause),
        GraphErrorView::UnresolvedRequirement(name) => "Requirement "@ + name
            + " is neither a target nor a resolved package"@,
        GraphErrorView::CyclicDependency(names) => "Dependency circulation: "@ + joined_with(names, " -> "@),
    }
}

impl GraphError {
    /// What the error says to the user.
    pub fn to_string(&self) -> (r: String)
        ensures
            r@ == graph_error_message(self@),
    {
        match self {
            GraphError::MissingSourceFile(path) => String::from_str("Source file ").concat(path.as_str()).concat(
                " does not exist",
            ),
            GraphError::UnclassifiableFile(path) => String::from_str("Could not specify file type: ").concat(
                path.as_str(),
            ),
            GraphError::RequirementResolutionFailed(name, cause) => String::from_str(
                "Failed to resolve requirement ",
            ).concat(name.as_str()).concat(": ").concat(cause.to_string().as_str()),
            GraphError::UnresolvedRequirement(name) => String::from_str("Requirement ").concat(name.as_str()).concat(
                " is neither a target nor a resolved package",
            ),
            GraphError::CyclicDependency(names) => String::from_str("Dependency circulation: ").concat(
                join(names, " -> ").as_str(),
            ),
        }
    }
}

/// Two lists of targets hold the same requirements between targets.
pub open spec fn same_requirements(a: Seq<TargetNode>, b: Seq<TargetNode>) -> bool {
    &&& a.len() == b.len()
    &&& forall|i: int| 0 <= i < a.len() ==> (#[trigger] a[i]).internal@ == b[i].internal@
}

/// A walk goes by the requirements alone: whatever ranks order the targets,
/// it generates the same targets in the same order.
pub proof fn lemma_walk_is_determined(
    a: Seq<TargetNode>,
    ranks_a: Seq<usize>,
    b: Seq<TargetNode>,
    ranks_b: Seq<usize>,
    statuses: Seq<GenerationStatus>,
    u: int,
)
    requires
        same_requirements(a, b),
        ranked(requirement_graph(a), ranks_a),
        ranked(requirement_graph(b), ranks_b),
    ensures
        traverse(a, ranks_a, statuses, u) == traverse(b, ranks_b, statuses, u),
    decreases rank_of(ranks_a, u), degree_of(a, u) + 1,
{
    if 0 <= u < a.len() && u < statuses.len() && statuses[u] == GenerationStatus::NotGenerated {
        lemma_walk_of_requirements_is_determined(
            a,
            ranks_a,
            b,
            ranks_b,
            statuses.update(u, GenerationStatus::Generating),
            u,
            0,
        );
    }
}

/// The walk through the requirements of one target goes by the requirements alone.
pub proof fn lemma_walk_of_requirements_is_determined(
    a: Seq<TargetNode>,
    ranks_a: Seq<usize>,
    b: Seq<TargetNode>,
    ranks_b: Seq<usize>,
    statuses: Seq<GenerationStatus>,
    u: int,
    e: int,
)
    requires
        same_requirements(a, b),
        ranked(requirement_graph(a), ranks_a),
        ranked(requirement_graph(b), ranks_b),
    ensures
        traverse_requirements(a, ranks_a, statuses, u, e) == traverse_requirements(b, ranks_b, statuses, u, e),
    decreases rank_of(ranks_a, u), degree_of(a, u) - e,
{
    if 0 <= u < a.len() && 0 <= e < a[u].internal.len() {
        assert(a[u].internal@ == b[u].internal@);
        let v = a[u].internal@[e].key as int;
        assert(requirement_graph(a)[u][e] == a[u].internal@[e].key);
        assert(requirement_graph(b)[u][e] == b[u].internal@[e].key);
        assert(rank_of(ranks_a, v) < rank_of(ranks_a, u));
        assert(rank_of(ranks_b, v) < rank_of(ranks_b, u));
        lemma_walk_is_determined(a, ranks_a, b, ranks_b, statuses, v);
        let first = traverse(a, ranks_a, statuses, v);
        lemma_walk_of_requirements_is_determined(a, ranks_a, b, ranks_b, first.1, u, e + 1);
    }
}

} // verus!
