use mymake::mmk_plain::{remove_comments, validate_file_path, Mmk, MyMakeError};

fn strings(items: &[&str]) -> Vec<String> {
    items.iter().map(|s| s.to_string()).collect()
}

const CONTENT: &str = "\
#This is a comment.
MMK_DEPEND:
   /home/fredrik/Documents/Tests/AStarPathFinder/PlanGenerator/test/

MMK_SOURCES:
   filename.cpp
   otherfilename.cpp

#This is a second comment.
MMK_EXECUTABLE:
   x\n";

#[test]
fn test_remove_comments() {
    let content = String::from(CONTENT);
    assert_eq!(
        remove_comments(&content),
        String::from(
            "
MMK_DEPEND:
   /home/fredrik/Documents/Tests/AStarPathFinder/PlanGenerator/test/

MMK_SOURCES:
   filename.cpp
   otherfilename.cpp


MMK_EXECUTABLE:
   x\n"
        )
    );
}

#[test]
fn test_parse_mmk_sources() {
    let mut mmk_content = Mmk::new();
    let content: String = String::from(
        "MMK_SOURCES:\n\
                                                filename.cpp\n\
                                                otherfilename.cpp\n",
    );
    mmk_content.parse(&content).unwrap();
    assert_eq!(mmk_content.find("MMK_SOURCES").unwrap(), &["filename.cpp", "otherfilename.cpp"]);
}

#[test]
fn test_parse_mmk_source() {
    let mut mmk_content = Mmk::new();
    let content: String = String::from(
        "MMK_SOURCES:\n\
                                                filename.cpp",
    );
    mmk_content.parse(&content).unwrap();
    assert_eq!(mmk_content.find("MMK_SOURCES").unwrap(), &["filename.cpp"]);
}

#[test]
fn test_parse_mmk_dependencies() {
    let mut mmk_content = Mmk::new();
    let content: String = String::from(
        "MMK_DEPEND:\n\
                                                /some/path/to/depend/on \n\
                                                /another/path/to/depend/on\n",
    );
    mmk_content.parse(&content).unwrap();
    assert_eq!(
        mmk_content.find("MMK_DEPEND").unwrap(),
        &["/some/path/to/depend/on", "/another/path/to/depend/on"]
    );
}

#[test]
fn test_multiple_keywords() {
    let mut mmk_content = Mmk::new();
    let content: String = String::from(
        "MMK_SOURCES:
                                                filename.cpp
                                                otherfilename.cpp
                                            
                                            MMK_DEPEND:
                                                /some/path/to/depend/on
                                                /another/path/
                                                         
                                            MMK_EXECUTABLE:
                                                main",
    );
    mmk_content.parse(&content).unwrap();
    assert_eq!(mmk_content.find("MMK_SOURCES").unwrap(), &["filename.cpp", "otherfilename.cpp"]);
    assert_eq!(mmk_content.find("MMK_DEPEND").unwrap(), &["/some/path/to/depend/on", "/another/path/"]);
    assert_eq!(mmk_content.find("MMK_EXECUTABLE").unwrap(), &["main"]);
}

#[test]
fn test_parse_mmk_no_valid_keyword() {
    let mut mmk_content = Mmk::new();
    let content: String = String::from(
        "MMK_DEPENDS:\n\
                                                /some/path/to/depend/on \n\
                                                /another/path/to/depend/on\n",
    );
    let result = mmk_content.parse(&content);
    assert!(result.is_err());
    assert_eq!(String::from("MMK_DEPENDS is not a valid keyword."), result.unwrap_err().to_string());
}

#[test]
fn plain_content_without_comments_is_read() {
    let mut mmk = Mmk::new();
    mmk.parse(CONTENT).unwrap();
    assert_eq!(
        mmk.find("MMK_DEPEND").unwrap(),
        &["/home/fredrik/Documents/Tests/AStarPathFinder/PlanGenerator/test/"]
    );
    assert_eq!(mmk.find("MMK_SOURCES").unwrap(), &["filename.cpp", "otherfilename.cpp"]);
    assert_eq!(mmk.find("MMK_EXECUTABLE").unwrap(), &["x"]);
    assert_eq!(mmk.data().len(), 3);
    assert!(!mmk.has_library_label());
}

#[test]
fn plain_keywords_are_taken_as_they_stand() {
    let mmk = Mmk::new();
    for keyword in [
        "MMK_DEPEND",
        "MMK_SOURCES",
        "MMK_HEADERS",
        "MMK_EXECUTABLE",
        "MMK_SYS_INCLUDE",
        "MMK_CXXFLAGS_APPEND",
        "MMK_CPPFLAGS_APPEND",
        "MMK_LIBRARY_LABEL",
    ] {
        assert_eq!(mmk.valid_keyword(keyword), Ok(()));
    }
    assert_eq!(
        mmk.valid_keyword("MMK_REQUIRE"),
        Err(MyMakeError::from("MMK_REQUIRE is not a valid keyword."))
    );
    assert_eq!(
        mmk.valid_keyword("MMK_SOURCES:"),
        Err(MyMakeError::from("MMK_SOURCES: is not a valid keyword."))
    );
}

#[test]
fn plain_arguments_are_listed_on_one_line() {
    let mut mmk = Mmk::new();
    mmk.insert("MMK_DEPEND", strings(&["/some/dependency", "/some/new/dependency"]));
    mmk.insert("MMK_SYS_INCLUDE", strings(&["/sys/one", "/sys/two"]));
    mmk.insert("MMK_EXECUTABLE", strings(&["x"]));
    mmk.insert("MMK_SOURCES", strings(&["filename.cpp", "sub/other.cc", "twice.cpp.cpp"]));
    mmk.insert("MMK_HEADERS", strings(&["a.h", "", "b.h"]));
    mmk.insert("MMK_LIBRARY_LABEL", strings(&["label"]));
    assert_eq!(mmk.to_string("MMK_DEPEND"), "-I/some/dependency -I/some/new/dependency");
    assert_eq!(mmk.to_string("MMK_SYS_INCLUDE"), "-isystem /sys/one -isystem /sys/two");
    assert_eq!(mmk.to_string("MMK_EXECUTABLE"), "x");
    assert_eq!(mmk.to_string("MMK_HEADERS"), "a.h");
    assert_eq!(mmk.to_string("MMK_CXXFLAGS_APPEND"), "");
    assert_eq!(mmk.sources_to_objects(), "filename.o sub/other.cc twice.o.o");
    assert_eq!(Mmk::new().sources_to_objects(), "");
    assert!(mmk.has_library_label());
}

#[test]
fn a_plain_keyword_has_one_entry() {
    let mut mmk = Mmk::new();
    mmk.insert("MMK_SOURCES", strings(&["old.cpp"]));
    mmk.insert("MMK_HEADERS", strings(&["a.h"]));
    mmk.insert("MMK_SOURCES", strings(&["new.cpp"]));
    assert_eq!(mmk.data().len(), 2);
    assert_eq!(mmk.find("MMK_SOURCES").unwrap(), &["new.cpp"]);
    assert_eq!(mmk.find("MMK_HEADERS").unwrap(), &["a.h"]);
    assert_eq!(mmk.find("MMK_EXECUTABLE"), None);
    let mut same = Mmk::new();
    same.insert("MMK_SOURCES", strings(&["new.cpp"]));
    same.insert("MMK_HEADERS", strings(&["a.h"]));
    assert_eq!(mmk, same);
    let mut twice = Mmk::new();
    twice.parse("MMK_SOURCES:\n a.cpp\n\nMMK_SOURCES:\n b.cpp\n").unwrap();
    assert_eq!(twice.data().len(), 1);
    assert_eq!(twice.find("MMK_SOURCES").unwrap(), &["b.cpp"]);
}

#[test]
fn plain_sources_lie_in_their_directories() {
    let mmk = Mmk::new();
    assert_eq!(mmk.source_file_path("sub/dir/file.cpp"), Some(String::from("sub/dir")));
    assert_eq!(mmk.source_file_path("file.cpp"), Some(String::new()));
    assert_eq!(mmk.source_file_path(""), None);
}

#[test]
fn plain_paths_are_valid_where_a_file_stands() {
    assert_eq!(validate_file_path("/project/run.mmk", true), Ok(String::from("/project/run.mmk")));
    let error = validate_file_path("/project/dir", false).unwrap_err();
    assert_eq!(error.to_string(), "Error: \"/project/dir\" is not a valid path!");
}
