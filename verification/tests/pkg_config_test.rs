use mymake::pkg_config::{
    first_found, next_query, possible_lib_names, query_arguments, stripped_words_of, PkgConfig,
    PkgConfigError, PkgConfigLibrary, Query, QueryAnswers, QueryOutcome,
};
use mymake::targets::LibraryType;

fn finished(stdout: &str) -> QueryOutcome {
    QueryOutcome::Finished { success: true, stdout: stdout.to_string(), stderr: String::new() }
}

fn failed(stderr: &str) -> QueryOutcome {
    QueryOutcome::Finished { success: false, stdout: String::new(), stderr: stderr.to_string() }
}

fn answers(flags: &str, includes: &str, names: &str, paths: &str) -> QueryAnswers {
    QueryAnswers {
        compiler_flags: finished(flags),
        include_flags: finished(includes),
        library_names: finished(names),
        library_paths: finished(paths),
    }
}

#[test]
fn helper_not_found_fails_at_once() {
    assert_eq!(PkgConfig::new(None), Err(PkgConfigError::CouldNotFindPkgConfig));
    let found = PkgConfig::new(Some("/usr/bin/pkg-config")).unwrap();
    assert_eq!(found.path(), "/usr/bin/pkg-config");
    assert_eq!(found, PkgConfig::from_path("/usr/bin/pkg-config"));
}

#[test]
fn search_paths_are_appended() {
    let mut pkg_config = PkgConfig::from_path("/usr/bin/pkg-config");
    assert!(pkg_config.search_paths().is_empty());
    pkg_config.add_search_path("/opt/one");
    pkg_config.add_search_path("/opt/two");
    assert_eq!(pkg_config.search_paths(), &vec![String::from("/opt/one"), String::from("/opt/two")]);
}

#[test]
fn the_four_queries_have_their_argument_forms() {
    assert_eq!(query_arguments("zlib", Query::CompilerFlags), vec!["zlib", "--cflags-only-other"]);
    assert_eq!(query_arguments("zlib", Query::IncludeFlags), vec!["zlib", "--cflags-only-I"]);
    assert_eq!(query_arguments("zlib", Query::LibraryNames), vec!["zlib", "--libs-only-l"]);
    assert_eq!(query_arguments("zlib", Query::LibraryPaths), vec!["zlib", "--libs-only-L"]);
}

#[test]
fn run_gives_standard_output_or_the_helpers_diagnostic() {
    let pkg_config = PkgConfig::from_path("pkg-config");
    assert_eq!(pkg_config.run(finished("-lz\n")), Ok(String::from("-lz\n")));
    assert_eq!(
        pkg_config.run(failed("Package foo was not found")),
        Err(PkgConfigError::PkgConfigFailedWithError(String::from("Package foo was not found")))
    );
    assert_eq!(
        pkg_config.run(QueryOutcome::NotRun(String::from("permission denied"))),
        Err(PkgConfigError::FailedToRunPkgConfig(String::from("permission denied")))
    );
}

#[test]
fn words_lose_their_option_letters() {
    assert_eq!(stripped_words_of("-lfoo -lbar\n", "-l"), vec!["foo", "bar"]);
    assert_eq!(stripped_words_of("-L/usr/lib  -L/opt/lib\n", "-L"), vec!["/usr/lib", "/opt/lib"]);
    assert_eq!(stripped_words_of("\n", "-l"), Vec::<String>::new());
}

#[test]
fn a_library_may_be_an_archive_or_a_shared_object() {
    assert_eq!(possible_lib_names("z"), vec!["libz.a", "libz.so"]);
}

#[test]
fn find_takes_a_file_that_bears_the_librarys_name() {
    let archive = PkgConfigLibrary::find("z", Some("/usr/lib/libz.a")).unwrap();
    assert_eq!(archive.path(), "/usr/lib/libz.a");
    assert_eq!(archive.name(), "libz.a");
    assert_eq!(archive.library_type(), LibraryType::Static);
    let shared = PkgConfigLibrary::find("z", Some("/usr/lib/x86_64/libz.so")).unwrap();
    assert_eq!(shared.path(), "/usr/lib/x86_64/libz.so");
    assert_eq!(shared.library_type(), LibraryType::Dynamic);
    assert_eq!(PkgConfigLibrary::find("z", None), None);
    assert_eq!(PkgConfigLibrary::find("z", Some("/usr/lib/libzz.a")), None);
    assert_eq!(PkgConfigLibrary::find("z", Some("/usr/lib/libz.so.1")), None);
}

#[test]
fn find_target_resolves_flags_includes_and_libraries() {
    let pkg_config = PkgConfig::from_path("pkg-config");
    let hits = vec![
        vec![None, Some(String::from("/opt/lib/libfoo.so"))],
        vec![Some(String::from("/usr/lib/libbar.a")), Some(String::from("/opt/lib/libbar.so"))],
    ];
    let target = pkg_config
        .find_target(
            "foo",
            answers("-pthread -DFOO=1\n", "-I/usr/include/foo -I/opt/include\n", "-lfoo -lbar\n", "-L/usr/lib -L/opt/lib\n"),
            &hits,
        )
        .unwrap();
    assert_eq!(target.target, "foo");
    assert_eq!(target.cxx_flags, vec!["-pthread", "-DFOO=1"]);
    assert_eq!(target.include_directories, vec!["/usr/include/foo", "/opt/include"]);
    assert_eq!(target.library_paths.len(), 2);
    assert_eq!(target.library_paths[0].path(), "/opt/lib/libfoo.so");
    assert_eq!(target.library_paths[0].library_type(), LibraryType::Dynamic);
    assert_eq!(target.library_paths[1].path(), "/usr/lib/libbar.a");
    assert_eq!(target.library_paths[1].library_type(), LibraryType::Static);
}

#[test]
fn find_target_fails_for_a_library_that_no_search_path_holds() {
    let pkg_config = PkgConfig::from_path("pkg-config");
    let hits = vec![vec![Some(String::from("/usr/lib/libfoo.a")), None], vec![None, None]];
    let result = pkg_config.find_target("foo", answers("", "", "-lfoo -lbar", "-L/usr/lib -L/opt/lib"), &hits);
    assert_eq!(result, Err(PkgConfigError::CouldNotLocateLibrary(String::from("bar"))));
    assert_eq!(result.unwrap_err().to_string(), "Failed to locate library bar");
}

#[test]
fn find_target_counts_a_search_that_was_not_made_as_not_found() {
    let pkg_config = PkgConfig::from_path("pkg-config");
    let result = pkg_config.find_target("foo", answers("", "", "-lfoo", "-L/usr/lib"), &Vec::new());
    assert_eq!(result, Err(PkgConfigError::CouldNotLocateLibrary(String::from("foo"))));
}

#[test]
fn find_target_without_libraries_needs_no_search() {
    let pkg_config = PkgConfig::from_path("pkg-config");
    let target = pkg_config.find_target("headers", answers("", "-I/usr/include/h", "", ""), &Vec::new()).unwrap();
    assert!(target.library_paths.is_empty());
    assert!(target.cxx_flags.is_empty());
    assert_eq!(target.include_directories, vec!["/usr/include/h"]);
}

#[test]
fn the_first_failed_query_decides() {
    let pkg_config = PkgConfig::from_path("pkg-config");
    let mut some = answers("", "", "-lfoo", "-L/usr/lib");
    some.include_flags = failed("no includes");
    some.library_paths = failed("no paths");
    assert_eq!(
        pkg_config.find_target("foo", some, &Vec::new()),
        Err(PkgConfigError::PkgConfigFailedWithError(String::from("no includes")))
    );
    let mut first = answers("", "", "", "");
    first.compiler_flags = QueryOutcome::NotRun(String::from("gone"));
    assert_eq!(
        pkg_config.find_target("foo", first, &Vec::new()),
        Err(PkgConfigError::FailedToRunPkgConfig(String::from("gone")))
    );
}

#[test]
fn pkg_config_errors_speak() {
    assert_eq!(PkgConfigError::CouldNotFindPkgConfig.to_string(), "Could not find pkg-config executable");
    assert_eq!(PkgConfigError::FailedToRunPkgConfig(String::from("x")).to_string(), "Failed to run pkg-config");
    assert_eq!(
        PkgConfigError::PkgConfigFailedWithError(String::from("boom")).to_string(),
        "pkg-config failed with the following error:\nboom"
    );
    assert_eq!(
        PkgConfigError::FailedToGetVersion(String::from("foo")).to_string(),
        "pkg-config failed to get version of package foo"
    );
}

#[test]
fn queries_are_put_in_turn_up_to_the_first_failure() {
    assert_eq!(next_query(None), Some(Query::CompilerFlags));
    let fine = finished("");
    assert_eq!(next_query(Some((Query::CompilerFlags, &fine))), Some(Query::IncludeFlags));
    assert_eq!(next_query(Some((Query::IncludeFlags, &fine))), Some(Query::LibraryNames));
    assert_eq!(next_query(Some((Query::LibraryNames, &fine))), Some(Query::LibraryPaths));
    assert_eq!(next_query(Some((Query::LibraryPaths, &fine))), None);
    assert_eq!(next_query(Some((Query::CompilerFlags, &failed("no")))), None);
    assert_eq!(next_query(Some((Query::IncludeFlags, &QueryOutcome::NotRun(String::from("x"))))), None);
    assert!(fine.succeeded());
    assert!(!failed("no").succeeded());
    assert!(!QueryOutcome::NotRun(String::new()).succeeded());
}

#[test]
fn the_first_name_under_which_a_file_was_found_counts() {
    assert_eq!(first_found(&vec![None, Some(String::from("/l/libz.so"))]), Some(String::from("/l/libz.so")));
    assert_eq!(
        first_found(&vec![Some(String::from("/l/libz.a")), Some(String::from("/l/libz.so"))]),
        Some(String::from("/l/libz.a"))
    );
    assert_eq!(first_found(&vec![None, None]), None);
    assert_eq!(first_found(&Vec::new()), None);
}
