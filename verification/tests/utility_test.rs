use mymake::utility::{
    file_extension, get_head_directory, get_include_directory_from_path,
    get_source_directory_from_path, is_source_directory, is_test_directory, join_path,
    parent_directory, replace_extension, FsError,
};

#[test]
fn get_source_directory_from_path_test() {
    let dir = String::from("/tmp/example");
    let source_dir = String::from("/tmp/example/src");
    assert_eq!(get_source_directory_from_path(&dir, true, false), source_dir);
}

#[test]
fn get_source_directory_from_path_no_source_directory_defaults_to_original_path_test() {
    let dir = String::from("/tmp/example");
    assert_eq!(get_source_directory_from_path(&dir, false, false), dir);
}

#[test]
fn get_include_directory_from_path_test() {
    let dir = String::from("/tmp/example");
    let include_dir = String::from("/tmp/example/include");
    let actual = get_include_directory_from_path(&dir, true, false);
    assert!(actual.is_ok());
    assert_eq!(actual.unwrap(), include_dir);
}

#[test]
fn get_include_directory_from_path_search_one_directory_up_test() {
    let dir = String::from("/tmp/example");
    let include_dir = String::from("/tmp/example/include");
    let actual = get_include_directory_from_path(&join_path(&dir, "src"), false, true);
    assert!(actual.is_ok());
    assert_eq!(actual.unwrap(), include_dir);
}

#[test]
fn get_include_directory_from_path_fails_test() {
    let dir = String::from("/tmp/example");
    let result = get_include_directory_from_path(&dir, false, false);
    assert!(result.is_err());
    assert_eq!(result, Err(FsError::IncludeDirectoryNotFound(dir)));
}

#[test]
fn source_directory_prefers_src_over_source() {
    assert_eq!(get_source_directory_from_path("/p", true, true), "/p/src");
    assert_eq!(get_source_directory_from_path("/p", false, true), "/p/source");
    assert_eq!(get_include_directory_from_path("/p", true, true), Ok(String::from("/p/include")));
    assert_eq!(get_include_directory_from_path("/", false, true), Err(FsError::IncludeDirectoryNotFound(String::from("/"))));
}

#[test]
fn is_source_directory_src_test() {
    let source_dir = String::from("/tmp/example/src");
    assert_eq!(is_source_directory(&source_dir), true);
}

#[test]
fn is_source_directory_source_test() {
    let source_dir = String::from("/tmp/example/source");
    assert_eq!(is_source_directory(&source_dir), true);
}

#[test]
fn is_source_directory_false_test() {
    let source_dir = String::from("/some/path/without/source/directory");
    assert_eq!(is_source_directory(&source_dir), false);
}

#[test]
fn is_test_directory_true_test() {
    let test_dir = String::from("/tmp/example/test");
    assert_eq!(is_test_directory(&test_dir), true);
}

#[test]
fn is_test_directory_false_test() {
    let test_dir = String::from("/some/path/without/test/directory");
    assert_eq!(is_test_directory(&test_dir), false);
}

#[test]
fn get_head_directory_gets_head_test() {
    let dir = String::from("some/path/to/strip/head");
    let expected = String::from("head");
    assert_eq!(get_head_directory(&dir), expected);
}

#[test]
fn head_of_a_bare_name_is_the_name() {
    assert_eq!(get_head_directory("head"), "head");
    assert_eq!(get_head_directory(""), "");
    assert_eq!(get_head_directory("dir/"), "dir");
    assert_eq!(get_head_directory("/usr/bin/"), "bin");
    assert_eq!(get_head_directory("tmp/foo.txt"), "foo.txt");
    assert_eq!(get_head_directory("foo.txt/."), "foo.txt");
    assert_eq!(get_head_directory("foo.txt/.//"), "foo.txt");
    assert_eq!(get_head_directory("foo.txt/.."), "");
    assert_eq!(get_head_directory("/"), "");
    assert_eq!(get_head_directory("."), "");
    assert_eq!(get_head_directory(".."), "");
    assert_eq!(get_head_directory("a//b"), "b");
}

#[test]
fn extension_follows_the_last_dot_of_the_last_component() {
    assert_eq!(file_extension("/a/b/file.cpp"), Some(String::from("cpp")));
    assert_eq!(file_extension("archive.tar.gz"), Some(String::from("gz")));
    assert_eq!(file_extension("/a.b/file"), None);
    assert_eq!(file_extension(".hidden"), None);
    assert_eq!(file_extension("name."), Some(String::new()));
    assert_eq!(file_extension(""), None);
    assert_eq!(file_extension(".."), None);
    assert_eq!(file_extension("a/b.tar.gz/"), Some(String::from("gz")));
    assert_eq!(file_extension("a.b/.."), None);
}

#[test]
fn parent_is_what_precedes_the_last_slash() {
    assert_eq!(parent_directory("sub/file.cpp"), Some(String::from("sub")));
    assert_eq!(parent_directory("file.cpp"), Some(String::new()));
    assert_eq!(parent_directory("/file.cpp"), Some(String::from("/")));
    assert_eq!(parent_directory("/"), None);
    assert_eq!(parent_directory(""), None);
    assert_eq!(parent_directory("/foo/bar"), Some(String::from("/foo")));
    assert_eq!(parent_directory("/foo"), Some(String::from("/")));
    assert_eq!(parent_directory("a/b/"), Some(String::from("a")));
    assert_eq!(parent_directory("a//b"), Some(String::from("a")));
    assert_eq!(parent_directory("a/./b"), Some(String::from("a")));
    assert_eq!(parent_directory("a/b/.."), Some(String::from("a/b")));
    assert_eq!(parent_directory("./b"), Some(String::from(".")));
    assert_eq!(parent_directory(".."), Some(String::new()));
    assert_eq!(parent_directory("//"), None);
    assert_eq!(parent_directory("/."), None);
}

#[test]
fn join_places_a_name_under_a_directory() {
    assert_eq!(join_path("/a/b", "c"), "/a/b/c");
    assert_eq!(join_path("/a/b/", "c"), "/a/b/c");
    assert_eq!(join_path("", "c"), "c");
    assert_eq!(join_path("/a/b", "/c"), "/c");
}

#[test]
fn replace_extension_swaps_or_adds() {
    assert_eq!(replace_extension("file.cpp", "o"), "file.o");
    assert_eq!(replace_extension("file", "o"), "file.o");
    assert_eq!(replace_extension("a.b.cc", "d"), "a.b.d");
    assert_eq!(replace_extension("dir/file.cpp/", "o"), "dir/file.o");
    assert_eq!(replace_extension("dir/file/", "o"), "dir/file.o");
    assert_eq!(replace_extension("dir/..", "o"), "dir/..");
}

const PATHS: [&str; 40] = [
    "", "/", "//", ".", "..", "./", "a", "a/", "a//", "/a", "/a/", "a/b", "a/b/", "a/./b", "a/b/.",
    "a/b/./", "a/b/..", "/.", "/..", "/./a", "./a", "../a", "a.b", ".a", "a.", "a..b", "a/.b",
    "a/b.c/", "a.b/..", "a//b//", "..a", "...", "a/...", "foo.txt/.//", "/usr/bin/gcc/",
    "/p/lib.mmk/", "./.", "a/./", "/a/b.tar.gz", "a b/c d.e f",
];

#[test]
fn paths_are_read_as_the_standard_library_reads_them() {
    for path in PATHS {
        let standard = std::path::Path::new(path);
        let name = standard.file_name().map(|n| n.to_str().unwrap().to_string()).unwrap_or_default();
        assert_eq!(get_head_directory(path), name, "last component of {:?}", path);
        let parent = standard.parent().map(|p| p.to_str().unwrap().to_string());
        assert_eq!(parent_directory(path), parent, "parent of {:?}", path);
        let extension = standard.extension().map(|e| e.to_str().unwrap().to_string());
        assert_eq!(file_extension(path), extension, "extension of {:?}", path);
    }
}

#[test]
fn paths_are_joined_as_the_standard_library_joins_them() {
    for dir in PATHS {
        for name in ["a", "a/b", "/a", "", "a.out"] {
            let joined = std::path::Path::new(dir).join(name).to_str().unwrap().to_string();
            assert_eq!(join_path(dir, name), joined, "{:?} under {:?}", name, dir);
        }
    }
}
