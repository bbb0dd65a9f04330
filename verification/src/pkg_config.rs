//! Resolution of external libraries through the package-query helper.
//!
//! The helper is run, and directories are searched, outside this library.
//! What is decided from the answers is decided here.

use vstd::prelude::*;
use vstd::string::*;
use crate::targets::LibraryType;
use crate::text::{same_text, split_whitespace, strip_prefix, texts, without_prefix, words_of};
use crate::utility::{
    extension_of, file_extension, get_head_directory, head_of, join_path, joined, parent_directory,
    parent_of,
};

verus! {

/// Why an external library could not be resolved.
#[derive(Debug, PartialEq, Eq, Clone)]
pub enum PkgConfigError {
    /// The helper's executable was not found.
    CouldNotFindPkgConfig,
    /// The helper could not be started; holds the cause.
    FailedToRunPkgConfig(String),
    /// The helper ended with a failure; holds what it wrote to standard error.
    PkgConfigFailedWithError(String),
    /// The helper gave no version for the package.
    FailedToGetVersion(String),
    /// The named library lies in none of the search paths.
    CouldNotLocateLibrary(String),
}

/// A `PkgConfigError` over character sequences.
pub ghost enum PkgConfigErrorView {
    CouldNotFindPkgConfig,
    FailedToRunPkgConfig(Seq<char>),
    PkgConfigFailedWithError(Seq<char>),
    FailedToGetVersion(Seq<char>),
    CouldNotLocateLibrary(Seq<char>),
}

impl View for PkgConfigError {
    type V = PkgConfigErrorView;

    open spec fn view(&self) -> PkgConfigErrorView {
        match self {
            PkgConfigError::CouldNotFindPkgConfig => PkgConfigErrorView::CouldNotFindPkgConfig,
            PkgConfigError::FailedToRunPkgConfig(s) => PkgConfigErrorView::FailedToRunPkgConfig(s@),
            PkgConfigError::PkgConfigFailedWithError(s) => PkgConfigErrorView::PkgConfigFailedWithError(s@),
            PkgConfigError::FailedToGetVersion(s) => PkgConfigErrorView::FailedToGetVersion(s@),
            PkgConfigError::CouldNotLocateLibrary(s) => PkgConfigErrorView::CouldNotLocateLibrary(s@),
        }
    }
}

/// The four questions that are put to the helper about a package.
#[derive(Debug, PartialEq, Eq, Structural, Clone, Copy)]
pub enum Query {
    /// Compiler flags other than include paths.
    CompilerFlags,
    /// Include paths.
    IncludeFlags,
    /// Names of libraries.
    LibraryNames,
    /// Directories in which libraries are searched.
    LibraryPaths,
}

/// How one run of the helper went.
#[derive(Debug, PartialEq, Eq, Clone)]
pub enum QueryOutcome {
    /// The helper could not be started; holds the cause.
    NotRun(String),
    /// The helper ran and ended with this status and these outputs.
    Finished { success: bool, stdout: String, stderr: String },
}

/// The outcomes of the four queries about one package.
#[derive(Debug, PartialEq, Eq, Clone)]
pub struct QueryAnswers {
    pub compiler_flags: QueryOutcome,
    pub include_flags: QueryOutcome,
    pub library_names: QueryOutcome,
    pub library_paths: QueryOutcome,
}

/// The package-query helper: its executable and the search paths added to it.
#[derive(Debug, PartialEq, Eq, Clone)]
pub struct PkgConfig {
    path: String,
    search_paths: Vec<String>,
}

/// A library file by name and kind.
#[derive(Debug, PartialEq, Eq, Clone)]
pub struct PrintableLibrary {
    pub name: String,
    pub ty: LibraryType,
}

/// A located library: its file and the directory that holds it.
#[derive(Debug, PartialEq, Eq, Clone)]
pub struct PkgConfigLibrary {
    printable: PrintableLibrary,
    dir: String,
}

/// A `PkgConfigLibrary` over character sequences.
pub ghost struct PkgConfigLibraryView {
    pub name: Seq<char>,
    pub ty: LibraryType,
    pub dir: Seq<char>,
}

/// A resolved external package.
#[derive(Debug, PartialEq, Eq, Clone)]
pub struct PkgConfigTarget {
    pub target: String,
    pub include_directories: Vec<String>,
    pub cxx_flags: Vec<String>,
    pub library_paths: Vec<PkgConfigLibrary>,
}

/// The option that puts a query to the helper.
pub open spec fn query_option(query: Query) -> Seq<char> {
    match query {
        Query::CompilerFlags => "--cflags-only-other"@,
        Query::IncludeFlags => "--cflags-only-I"@,
        Query::LibraryNames => "--libs-only-l"@,
        Query::LibraryPaths => "--libs-only-L"@,
    }
}

/// What a run of the helper yields: its standard output where it succeeded,
/// else the error that carries what it reported.
pub open spec fn query_result(outcome: QueryOutcome) -> Result<Seq<char>, PkgConfigErrorView> {
    match outcome {
        QueryOutcome::NotRun(cause) => Err(PkgConfigErrorView::FailedToRunPkgConfig(cause@)),
        QueryOutcome::Finished { success, stdout, stderr } => if success {
            Ok(stdout@)
        } else {
            Err(PkgConfigErrorView::PkgConfigFailedWithError(stderr@))
        },
    }
}

/// The first failure among the four queries, in the order in which they are put.
pub open spec fn first_query_failure(answers: QueryAnswers) -> Option<PkgConfigErrorView> {
    if query_result(answers.compiler_flags) is Err {
        Some(query_result(answers.compiler_flags)->Err_0)
    } else if query_result(answers.include_flags) is Err {
        Some(query_result(answers.include_flags)->Err_0)
    } else if query_result(answers.library_names) is Err {
        Some(query_result(answers.library_names)->Err_0)
    } else if query_result(answers.library_paths) is Err {
        Some(query_result(answers.library_paths)->Err_0)
    } else {
        None
    }
}

/// The words of `output`, each without `prefix` where it begins with it.
pub open spec fn stripped_words(output: Seq<char>, prefix: Seq<char>) -> Seq<Seq<char>> {
    words_of(output).map_values(|w: Seq<char>| without_prefix(w, prefix))
}

/// The library names that a successful answer to `Query::LibraryNames` gives.
pub open spec fn library_names_of(answers: QueryAnswers) -> Seq<Seq<char>> {
    stripped_words(query_result(answers.library_names)->Ok_0, "-l"@)
}

/// The search paths that a successful answer to `Query::LibraryPaths` gives.
pub open spec fn search_paths_of(answers: QueryAnswers) -> Seq<Seq<char>> {
    stripped_words(query_result(answers.library_paths)->Ok_0, "-L"@)
}

/// The file names under which the library `library` may be stored:
/// the static archive first, then the shared object.
pub open spec fn possible_names(library: Seq<char>) -> Seq<Seq<char>> {
    seq!["lib"@ + library + ".a"@, "lib"@ + library + ".so"@]
}

/// The kind of library that a file's extension stands for: static unless it is a shared object.
pub open spec fn library_type_of(extension: Option<Seq<char>>) -> LibraryType {
    if extension == Some("so"@) {
        LibraryType::Dynamic
    } else {
        LibraryType::Static
    }
}

/// The library that the file `found` is, where it is a file of `library` in some directory.
pub open spec fn located(library: Seq<char>, found: Option<Seq<char>>) -> Option<PkgConfigLibraryView> {
    match found {
        None => None,
        Some(file) => if possible_names(library).contains(head_of(file)) && parent_of(file) is Some {
            Some(PkgConfigLibraryView {
                name: head_of(file),
                ty: library_type_of(extension_of(file)),
                dir: parent_of(file).unwrap(),
            })
        } else {
            None
        },
    }
}

/// What the search for library `i` in search path `j` found; nothing where no search is recorded.
pub open spec fn hit(hits: Seq<Vec<Option<String>>>, i: int, j: int) -> Option<Seq<char>> {
    if 0 <= i < hits.len() && 0 <= j < hits[i].len() {
        match hits[i][j] {
            Some(file) => Some(file@),
            None => None,
        }
    } else {
        None
    }
}

/// The library `library`, number `i` of its package, as the first search path
/// from `j` on below `n` holds it.
pub open spec fn first_located(library: Seq<char>, hits: Seq<Vec<Option<String>>>, i: int, j: int, n: int) -> Option<PkgConfigLibraryView>
    decreases n - j,
{
    if j >= n {
        None
    } else {
        match located(library, hit(hits, i, j)) {
            Some(lib) => Some(lib),
            None => first_located(library, hits, i, j + 1, n),
        }
    }
}

/// The arguments that put `query` about the package `target`.
pub fn query_arguments(target: &str, query: Query) -> (r: Vec<String>)
    ensures
        texts(r@) == seq![target@, query_option(query)],
{
    let option = match query {
        Query::CompilerFlags => "--cflags-only-other",
        Query::IncludeFlags => "--cflags-only-I",
        Query::LibraryNames => "--libs-only-l",
        Query::LibraryPaths => "--libs-only-L",
    };
    let mut args: Vec<String> = Vec::new();
    args.push(String::from_str(target));
    args.push(String::from_str(option));
    assert(texts(args@) =~= seq![target@, query_option(query)]);
    args
}

/// The words of `output`, each without `prefix` where it begins with it.
pub fn stripped_words_of(output: &str, prefix: &str) -> (r: Vec<String>)
    ensures
        texts(r@) == stripped_words(output@, prefix@),
{
    let words = split_whitespace(output);
    let mut out: Vec<String> = Vec::new();
    let mut i: usize = 0;
    while i < words.len()
        invariant
            i <= words.len(),
            out.len() == i,
            texts(words@) == words_of(output@),
            forall|k: int| 0 <= k < i ==> (#[trigger] out@[k])@ == without_prefix(words@[k]@, prefix@),
        decreases words.len() - i,
    {
        out.push(strip_prefix(words[i].as_str(), prefix));
        i += 1;
    }
    proof {
        assert forall|k: int| 0 <= k < out.len() implies texts(out@)[k] == stripped_words(output@, prefix@)[k] by {
            assert(texts(words@)[k] == words@[k]@);
        }
        assert(texts(out@) =~= stripped_words(output@, prefix@));
    }
    out
}

/// The file names under which the library `library` may be stored.
pub fn possible_lib_names(library: &str) -> (r: Vec<String>)
    ensures
        texts(r@) == possible_names(library@),
{
    let mut names: Vec<String> = Vec::new();
    names.push(String::from_str("lib").concat(library).concat(".a"));
    names.push(String::from_str("lib").concat(library).concat(".so"));
    assert(texts(names@) =~= possible_names(library@));
    names
}

impl View for PkgConfigLibrary {
    type V = PkgConfigLibraryView;

    closed spec fn view(&self) -> PkgConfigLibraryView {
        PkgConfigLibraryView { name: self.printable.name@, ty: self.printable.ty, dir: self.dir@ }
    }
}

impl PkgConfigLibrary {
    /// The file of the library.
    pub fn path(&self) -> (r: String)
        ensures
            r@ == joined(self@.dir, self@.name),
    {
        join_path(self.dir.as_str(), self.printable.name.as_str())
    }

    /// The name of the library's file.
    pub fn name(&self) -> (r: String)
        ensures
            r@ == self@.name,
    {
        self.printable.name.clone()
    }

    /// Whether the library is static or dynamic.
    pub fn library_type(&self) -> (r: LibraryType)
        ensures
            r == self@.ty,
    {
        self.printable.ty
    }

    /// Takes what the search for `library` in one directory found, and makes
    /// the library of it where the file bears one of the library's names.
    pub fn find(library: &str, found: Option<&str>) -> (r: Option<PkgConfigLibrary>)
        ensures
            match r {
                Some(lib) => located(library@, match found { Some(f) => Some(f@), None => None }) == Some(lib@),
                None => located(library@, match found { Some(f) => Some(f@), None => None }) is None,
            },
    {
        let file = match found {
            Some(f) => f,
            None => {
                return None;
            },
        };
        let name = get_head_directory(file);
        let names = possible_lib_names(library);
        let is_static = same_text(name.as_str(), names[0].as_str());
        let is_shared = same_text(name.as_str(), names[1].as_str());
        proof {
            let p = possible_names(library@);
            assert(texts(names@)[0] == names@[0]@);
            assert(texts(names@)[1] == names@[1]@);
            if is_static {
                assert(p[0] == head_of(file@));
            }
            if is_shared {
                assert(p[1] == head_of(file@));
            }
            if p.contains(head_of(file@)) {
                let k = choose|k: int| 0 <= k < p.len() && p[k] == head_of(file@);
                assert(k == 0 || k == 1);
            }
        }
        if !is_static && !is_shared {
            return None;
        }
        let dir = match parent_directory(file) {
            Some(d) => d,
            None => {
                return None;
            },
        };
        let ty = match file_extension(file) {
            Some(e) => if same_text(e.as_str(), "so") {
                LibraryType::Dynamic
            } else {
                LibraryType::Static
            },
            None => LibraryType::Static,
        };
        Some(PkgConfigLibrary { printable: PrintableLibrary { name, ty }, dir })
    }
}

impl PkgConfig {
    /// The helper's executable.
    pub closed spec fn exe(&self) -> Seq<char> {
        self.path@
    }

    /// The search paths added so far, oldest first.
    pub closed spec fn added_paths(&self) -> Seq<Seq<char>> {
        texts(self.search_paths@)
    }

    /// Takes the place where the helper's executable was found, if it was.
    pub fn new(found: Option<&str>) -> (r: Result<PkgConfig, PkgConfigError>)
        ensures
            match r {
                Ok(p) => found is Some && p.exe() == found.unwrap()@ && p.added_paths().len() == 0,
                Err(e) => found is None && e@ == PkgConfigErrorView::CouldNotFindPkgConfig,
            },
    {
        match found {
            Some(path) => Ok(PkgConfig::from_path(path)),
            None => Err(PkgConfigError::CouldNotFindPkgConfig),
        }
    }

    /// The helper at `path`, with no search path added.
    pub fn from_path(path: &str) -> (r: PkgConfig)
        ensures
            r.exe() == path@,
            r.added_paths().len() == 0,
    {
        PkgConfig { path: String::from_str(path), search_paths: Vec::new() }
    }

    /// Adds `path` behind the search paths added before.
    pub fn add_search_path(&mut self, path: &str)
        ensures
            final(self).exe() == old(self).exe(),
            final(self).added_paths() == old(self).added_paths().push(path@),
    {
        self.search_paths.push(String::from_str(path));
        assert(texts(self.search_paths@) =~= texts(old(self).search_paths@).push(path@));
    }

    /// The helper's executable.
    pub fn path(&self) -> (r: String)
        ensures
            r@ == self.exe(),
    {
        self.path.clone()
    }

    /// The search paths added so far, oldest first.
    pub fn search_paths(&self) -> (r: &Vec<String>)
        ensures
            texts(r@) == self.added_paths(),
    {
        &self.search_paths
    }

    /// What one run of the helper yields.
    pub fn run(&self, outcome: QueryOutcome) -> (r: Result<String, PkgConfigError>)
        ensures
            match r {
                Ok(stdout) => query_result(outcome) == Ok::<Seq<char>, PkgConfigErrorView>(stdout@),
                Err(e) => query_result(outcome) == Err::<Seq<char>, PkgConfigErrorView>(e@),
            },
    {
        match outcome {
            QueryOutcome::NotRun(cause) => Err(PkgConfigError::FailedToRunPkgConfig(cause)),
            QueryOutcome::Finished { success, stdout, stderr } => if success {
                Ok(stdout)
            } else {
                Err(PkgConfigError::PkgConfigFailedWithError(stderr))
            },
        }
    }

    /// The library `library`, number `i` of its package, as the first of the
    /// `n` search paths holds it.
    pub fn locate(library: &str, hits: &Vec<Vec<Option<String>>>, i: usize, n: usize) -> (r: Option<PkgConfigLibrary>)
        ensures
            match r {
                Some(lib) => first_located(library@, hits@, i as int, 0, n as int) == Some(lib@),
                None => first_located(library@, hits@, i as int, 0, n as int) is None,
            },
    {
        let mut j: usize = 0;
        while j < n
            invariant
                j <= n,
                first_located(library@, hits@, i as int, 0, n as int) == first_located(library@, hits@, i as int, j as int, n as int),
            decreases n - j,
        {
            let found: Option<&str> = if i < hits.len() && j < hits[i].len() {
                match &hits[i][j] {
                    Some(file) => Some(file.as_str()),
                    None => None,
                }
            } else {
                None
            };
            assert((match found { Some(f) => Some(f@), None => None }) == hit(hits@, i as int, j as int));
            match PkgConfigLibrary::find(library, found) {
                Some(lib) => {
                    return Some(lib);
                },
                None => {},
            }
            j += 1;
        }
        None
    }

    /// Resolves the package `target` from the answers to the four queries and from
    /// what the searches found: `hits[i][j]` is the file found for library name `i`
    /// in search path `j`.
    ///
    /// The first query that failed decides the error. Each library is taken from
    /// the first search path that holds it; the first library that no search path
    /// holds decides the error.
    pub fn find_target(&self, target: &str, answers: QueryAnswers, hits: &Vec<Vec<Option<String>>>) -> (r: Result<PkgConfigTarget, PkgConfigError>)
        ensures
            match r {
                Ok(t) => {
                    &&& first_query_failure(answers) is None
                    &&& t.target@ == target@
                    &&& texts(t.cxx_flags@) == words_of(query_result(answers.compiler_flags)->Ok_0)
                    &&& texts(t.include_directories@) == stripped_words(query_result(answers.include_flags)->Ok_0, "-I"@)
                    &&& t.library_paths.len() == library_names_of(answers).len()
                    &&& forall|i: int| 0 <= i < t.library_paths.len() ==>
                        first_located(library_names_of(answers)[i], hits@, i, 0, search_paths_of(answers).len() as int)
                            == Some((#[trigger] t.library_paths@[i])@)
                },
                Err(e) => {
                    ||| first_query_failure(answers) == Some(e@)
                    ||| {
                        &&& first_query_failure(answers) is None
                        &&& exists|k: int| {
                            &&& 0 <= k < library_names_of(answers).len()
                            &&& e@ == PkgConfigErrorView::CouldNotLocateLibrary(#[trigger] library_names_of(answers)[k])
                            &&& first_located(library_names_of(answers)[k], hits@, k, 0, search_paths_of(answers).len() as int) is None
                            &&& forall|i: int| 0 <= i < k ==>
                                (#[trigger] first_located(library_names_of(answers)[i], hits@, i, 0, search_paths_of(answers).len() as int)) is Some
                        }
                    }
                },
            },
    {
        let QueryAnswers { compiler_flags, include_flags, library_names, library_paths } = answers;
        let flags_output = match self.run(compiler_flags) {
            Ok(s) => s,
            Err(e) => {
                return Err(e);
            },
        };
        let include_output = match self.run(include_flags) {
            Ok(s) => s,
            Err(e) => {
                return Err(e);
            },
        };
        let names_output = match self.run(library_names) {
            Ok(s) => s,
            Err(e) => {
                return Err(e);
            },
        };
        let paths_output = match self.run(library_paths) {
            Ok(s) => s,
            Err(e) => {
                return Err(e);
            },
        };
        let cxx_flags = split_whitespace(flags_output.as_str());
        let include_directories = stripped_words_of(include_output.as_str(), "-I");
        let names = stripped_words_of(names_output.as_str(), "-l");
        let paths = stripped_words_of(paths_output.as_str(), "-L");
        let n = paths.len();
        let mut libraries: Vec<PkgConfigLibrary> = Vec::new();
        let mut i: usize = 0;
        while i < names.len()
            invariant
                i <= names.len(),
                libraries.len() == i,
                first_query_failure(answers) is None,
                n == search_paths_of(answers).len(),
                texts(names@) == library_names_of(answers),
                forall|k: int| 0 <= k < i ==>
                    first_located(library_names_of(answers)[k], hits@, k, 0, n as int) == Some((#[trigger] libraries@[k])@),
            decreases names.len() - i,
        {
            assert(texts(names@)[i as int] == names@[i as int]@);
            match PkgConfig::locate(names[i].as_str(), hits, i, n) {
                Some(lib) => libraries.push(lib),
                None => {
                    let missing = names[i].clone();
                    proof {
                        let k = i as int;
                        let names_seq = library_names_of(answers);
                        assert(missing@ == names_seq[k]);
                        assert(first_located(names_seq[k], hits@, k, 0, n as int) is None);
                        assert forall|m: int| 0 <= m < k implies (#[trigger] first_located(
                            names_seq[m],
                            hits@,
                            m,
                            0,
                            n as int,
                        )) is Some by {
                            assert(first_located(names_seq[m], hits@, m, 0, n as int) == Some(libraries@[m]@));
                        }
                        assert(names_seq.len() == names.len());
                    }
                    return Err(PkgConfigError::CouldNotLocateLibrary(missing));
                },
            }
            i += 1;
        }
        Ok(PkgConfigTarget {
            target: String::from_str(target),
            include_directories,
            cxx_flags,
            library_paths: libraries,
        })
    }
}

/// What an error says to the user.
pub open spec fn pkg_config_error_message(e: PkgConfigErrorView) -> Seq<char> {
    match e {
        PkgConfigErrorView::CouldNotFindPkgConfig => "Could not find pkg-config executable"@,
        PkgConfigErrorView::FailedToRunPkgConfig(_) => "Failed to run pkg-config"@,
        PkgConfigErrorView::PkgConfigFailedWithError(stderr) => "pkg-config failed with the following error:\n"@
            + stderr,
        PkgConfigErrorView::FailedToGetVersion(package) => "pkg-config failed to get version of package "@ + package,
        PkgConfigErrorView::CouldNotLocateLibrary(library) => "Failed to locate library "@ + library,
    }
}

impl PkgConfigError {
    /// What the error says to the user.
    pub fn to_string(&self) -> (r: String)
        ensures
            r@ == pkg_config_error_message(self@),
    {
        match self {
            PkgConfigError::CouldNotFindPkgConfig => String::from_str("Could not find pkg-config executable"),
            PkgConfigError::FailedToRunPkgConfig(_) => String::from_str("Failed to run pkg-config"),
            PkgConfigError::PkgConfigFailedWithError(stderr) => String::from_str(
                "pkg-config failed with the following error:\n",
            ).concat(stderr.as_str()),
            PkgConfigError::FailedToGetVersion(package) => String::from_str(
                "pkg-config failed to get version of package ",
            ).concat(package.as_str()),
            PkgConfigError::CouldNotLocateLibrary(library) => String::from_str("Failed to locate library ").concat(
                library.as_str(),
            ),
        }
    }
}

/// The query that follows `query` in the order in which the queries are put.
pub open spec fn following(query: Query) -> Option<Query> {
    match query {
        Query::CompilerFlags => Some(Query::IncludeFlags),
        Query::IncludeFlags => Some(Query::LibraryNames),
        Query::LibraryNames => Some(Query::LibraryPaths),
        Query::LibraryPaths => None,
    }
}

/// The query to put next: the first where none was put yet, the following one
/// where the last one succeeded, and none after a failure or after the last.
pub open spec fn query_after(previous: Option<(Query, QueryOutcome)>) -> Option<Query> {
    match previous {
        None => Some(Query::CompilerFlags),
        Some((query, outcome)) => if query_result(outcome) is Ok {
            following(query)
        } else {
            None
        },
    }
}

/// The first of `found` that holds a file.
pub open spec fn first_file(found: Seq<Option<String>>) -> Option<Seq<char>>
    decreases found.len(),
{
    if found.len() == 0 {
        None
    } else {
        match found[0] {
            Some(file) => Some(file@),
            None => first_file(found.drop_first()),
        }
    }
}

impl QueryOutcome {
    /// Whether the helper ran and ended with success.
    pub fn succeeded(&self) -> (r: bool)
        ensures
            r == query_result(*self) is Ok,
    {
        match self {
            QueryOutcome::NotRun(_) => false,
            QueryOutcome::Finished { success, stdout: _, stderr: _ } => *success,
        }
    }
}

/// The query to put next, given the last query and how it went.
pub fn next_query(previous: Option<(Query, &QueryOutcome)>) -> (r: Option<Query>)
    ensures
        r == query_after(
            match previous {
                Some((query, outcome)) => Some((query, *outcome)),
                None => None,
            },
        ),
{
    match previous {
        None => Some(Query::CompilerFlags),
        Some((query, outcome)) => if outcome.succeeded() {
            match query {
                Query::CompilerFlags => Some(Query::IncludeFlags),
                Query::IncludeFlags => Some(Query::LibraryNames),
                Query::LibraryNames => Some(Query::LibraryPaths),
                Query::LibraryPaths => None,
            }
        } else {
            None
        },
    }
}

/// What the search for a library in one directory found: `found[k]` is the
/// file found under the library's file name number `k`, and the first name
/// under which a file was found counts.
pub fn first_found(found: &Vec<Option<String>>) -> (r: Option<String>)
    ensures
        match r {
            Some(file) => first_file(found@) == Some(file@),
            None => first_file(found@) is None,
        },
{
    let mut i: usize = 0;
    assert(found@.skip(0) =~= found@);
    while i < found.len()
        invariant
            i <= found.len(),
            first_file(found@) == first_file(found@.skip(i as int)),
        decreases found.len() - i,
    {
        let ghost rest = found@.skip(i as int);
        assert(rest[0] == found@[i as int]);
        match &found[i] {
            Some(file) => {
                return Some(file.clone());
            },
            None => {},
        }
        assert(rest.drop_first() =~= found@.skip(i + 1));
        i += 1;
    }
    None
}

} // verus!
