use mymake::associated_files::{AssociatedFileError, ProbedPath, SourceFile, SourceFiles};

#[test]
fn source_file_is_source_file_type() {
    let file = String::from("/tmp/test/file.cpp");
    let actual = SourceFile::new(&file, true).unwrap();
    assert!(actual.is_source());
    assert!(!actual.is_header());
    assert_eq!(actual.file(), file);
}

#[test]
fn header_file_is_header_file_type() {
    let file = String::from("/tmp/test/file.h");
    let actual = SourceFile::new(&file, true).unwrap();
    assert!(actual.is_header());
    assert!(!actual.is_source());
    assert_eq!(actual.file(), file);
}

#[test]
fn fails_to_recognize_file_type() {
    let file = String::from("/tmp/test/file.py");
    let actual = SourceFile::new(&file, true);
    assert_eq!(actual.unwrap_err(), AssociatedFileError::CouldNotSpecifyFileType(String::from("py")));
}

#[test]
fn missing_file_is_refused_before_its_extension_is_looked_at() {
    assert_eq!(
        SourceFile::new("/tmp/test/file.py", false).unwrap_err(),
        AssociatedFileError::FileNotExisting(String::from("/tmp/test/file.py"))
    );
    assert_eq!(
        SourceFile::new("/tmp/test/file.cpp", false).unwrap_err(),
        AssociatedFileError::FileNotExisting(String::from("/tmp/test/file.cpp"))
    );
}

#[test]
fn file_without_extension_is_refused() {
    assert_eq!(
        SourceFile::new("/tmp/test/Makefile", true).unwrap_err(),
        AssociatedFileError::NoFileExtension(String::from("/tmp/test/Makefile"))
    );
}

#[test]
fn every_known_extension_is_classified() {
    for name in ["a.cpp", "a.cc", "a.c"] {
        assert!(SourceFile::new(name, true).unwrap().is_source());
    }
    for name in ["a.h", "a.hpp"] {
        assert!(SourceFile::new(name, true).unwrap().is_header());
    }
}

#[test]
fn associated_file_errors_speak() {
    assert_eq!(
        AssociatedFileError::CouldNotSpecifyFileType(String::from("py")).to_string(),
        "Could not specify file type: py"
    );
    assert_eq!(
        AssociatedFileError::FileNotExisting(String::from("/a/b.cpp")).to_string(),
        "Source file \"/a/b.cpp\" does not exist"
    );
    assert_eq!(
        AssociatedFileError::NoFileExtension(String::from("/a/b")).to_string(),
        "Source file /a/b has no extension"
    );
}

#[test]
fn from_paths_keeps_the_order_and_stops_at_the_first_refusal() {
    let good = vec![
        ProbedPath { path: String::from("a.cpp"), exists: true },
        ProbedPath { path: String::from("a.h"), exists: true },
    ];
    let files = SourceFiles::from_paths(&good).unwrap();
    assert_eq!(files.len(), 2);
    assert!(files.iter()[0].is_source());
    assert!(files.iter()[1].is_header());

    let bad = vec![
        ProbedPath { path: String::from("a.cpp"), exists: true },
        ProbedPath { path: String::from("b.py"), exists: true },
        ProbedPath { path: String::from("c.cpp"), exists: false },
    ];
    assert_eq!(
        SourceFiles::from_paths(&bad).unwrap_err(),
        AssociatedFileError::CouldNotSpecifyFileType(String::from("py"))
    );
}

#[test]
fn source_files_grow_by_push() {
    let mut files = SourceFiles::new();
    assert_eq!(files.len(), 0);
    files.push(SourceFile::new("x.cc", true).unwrap());
    assert_eq!(files.len(), 1);
    assert_eq!(files.iter()[0].file(), "x.cc");
}
