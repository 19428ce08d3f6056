use ciana::config::get_compilation_database_path;
use ciana::paths::{absolute_to_relative, get_all_compile_source_file, relative_or_absolute};
use ciana::CianaError;

fn directory_named_by(contents: &str) -> String {
    get_compilation_database_path(Ok(String::from(contents))).unwrap()
}

#[test]
fn test_absolute_to_relative() {
    let input = String::from("/home/user/project/tmp/test.txt");
    let result = absolute_to_relative(&input, "/home/user/project");
    assert_eq!(result.as_str(), "tmp/test.txt");
}

#[test]
fn absolute_to_relative_leaves_other_paths_alone() {
    let input = String::from("/usr/include/stdio.h");
    assert_eq!(absolute_to_relative(&input, "/home/user/project"), "/usr/include/stdio.h");
    let input = String::from("/home/user/projects/a.c");
    assert_eq!(absolute_to_relative(&input, "/home/user/project"), "/home/user/projects/a.c");
    let input = String::from("src/a.c");
    assert_eq!(absolute_to_relative(&input, "/home/user/project"), "src/a.c");
}

#[test]
fn absolute_to_relative_takes_whole_components() {
    let input = String::from("/home/user/project/src/a.c");
    assert_eq!(absolute_to_relative(&input, "/home/user/project/"), "src/a.c");
    assert_eq!(absolute_to_relative(&input, "/home"), "user/project/src/a.c");
    assert_eq!(absolute_to_relative(&input, "/home/user/project/src/a.c"), "");
}

#[test]
fn relative_or_absolute_chooses() {
    let absolute = String::from("/a/b.c");
    assert_eq!(relative_or_absolute(Some(String::from("b.c")), &absolute), "b.c");
    assert_eq!(relative_or_absolute(None, &absolute), "/a/b.c");
}

#[test]
fn compile_set_in_its_order() {
    let listed = vec![
        String::from("/work/src/b.c"),
        String::from("/other/a.c"),
        String::from("/work/c.c"),
    ];
    let sources = get_all_compile_source_file(Some(&listed), Ok(String::from("/work"))).unwrap();
    assert_eq!(sources, vec!["src/b.c", "/other/a.c", "c.c"]);
    let none: Vec<String> = Vec::new();
    let sources = get_all_compile_source_file(Some(&none), Ok(String::from("/work"))).unwrap();
    assert_eq!(sources, Vec::<String>::new());
}

#[test]
fn compile_set_without_working_directory() {
    let listed = vec![String::from("/work/src/b.c")];
    let gone = std::io::Error::new(std::io::ErrorKind::NotFound, "gone");
    assert!(matches!(
        get_all_compile_source_file(Some(&listed), Err(gone)),
        Err(CianaError::IoError)
    ));
    let none: Vec<String> = Vec::new();
    let gone = std::io::Error::new(std::io::ErrorKind::NotFound, "gone");
    let sources = get_all_compile_source_file(Some(&none), Err(gone)).unwrap();
    assert_eq!(sources, Vec::<String>::new());
}

#[test]
fn compile_set_that_cannot_be_had() {
    match get_all_compile_source_file(None, Ok(String::from("/work"))) {
        Err(CianaError::Message(text)) => assert_eq!(text, "CompilationDatabase Open Error"),
        other => panic!("{:?}", other),
    }
    let gone = std::io::Error::new(std::io::ErrorKind::NotFound, "gone");
    match get_all_compile_source_file(None, Err(gone)) {
        Err(CianaError::Message(text)) => assert_eq!(text, "CompilationDatabase Open Error"),
        other => panic!("{:?}", other),
    }
}

#[test]
fn error_messages() {
    assert_eq!(CianaError::NoTarget.message(), "Can't find target");
    assert_eq!(CianaError::ConfigMissing.message(), "Can't find configuration");
    assert_eq!(CianaError::IoError.message(), "Io Error");
    assert_eq!(
        CianaError::Message(String::from("an instance of `Clang` already exists")).message(),
        "Clang Error an instance of `Clang` already exists"
    );
    assert_eq!(
        CianaError::Source(clang::SourceError::Unknown).message(),
        "clang::Source Error an unknown error occurred"
    );
    assert_eq!(
        CianaError::Source(clang::SourceError::Crash).message(),
        "clang::Source Error `libclang` crashed"
    );
}

#[test]
fn errors_from_what_went_wrong() {
    assert!(matches!(
        CianaError::from(String::from("text")),
        CianaError::Message(text) if text == "text"
    ));
    assert!(matches!(
        CianaError::from(clang::SourceError::AstDeserialization),
        CianaError::Source(clang::SourceError::AstDeserialization)
    ));
    let failure = std::io::Error::new(std::io::ErrorKind::NotFound, "gone");
    assert!(matches!(CianaError::from(failure), CianaError::IoError));
}

#[test]
fn configuration_names_the_database_directory() {
    assert_eq!(directory_named_by("build\n"), "build");
    assert_eq!(directory_named_by("  ./out/compile db \t\r\n"), "./out/compile db");
    assert_eq!(directory_named_by("build"), "build");
    assert_eq!(directory_named_by(""), "");
    assert_eq!(directory_named_by(" \n "), "");
    assert_eq!(directory_named_by("\u{a0}\u{3000}dir\u{2028}\u{85}"), "dir");
    assert_eq!(directory_named_by("\u{200b}dir"), "\u{200b}dir");
}

#[test]
fn configuration_that_cannot_be_read_is_missing() {
    let gone = std::io::Error::new(std::io::ErrorKind::NotFound, "gone");
    assert_eq!(get_compilation_database_path(Err(gone)), Err(CianaError::ConfigMissing));
    let denied = std::io::Error::new(std::io::ErrorKind::PermissionDenied, "denied");
    assert_eq!(get_compilation_database_path(Err(denied)), Err(CianaError::ConfigMissing));
}

#[test]
fn errors_compare_by_what_they_hold() {
    assert_eq!(CianaError::NoTarget, CianaError::NoTarget);
    assert_ne!(CianaError::NoTarget, CianaError::IoError);
    assert_ne!(CianaError::ConfigMissing, CianaError::IoError);
    assert_eq!(CianaError::Message(String::from("a")), CianaError::Message(String::from("a")));
    assert_ne!(CianaError::Message(String::from("a")), CianaError::Message(String::from("b")));
    assert_eq!(
        CianaError::Source(clang::SourceError::Crash),
        CianaError::Source(clang::SourceError::Crash)
    );
    assert_ne!(
        CianaError::Source(clang::SourceError::Crash),
        CianaError::Source(clang::SourceError::Unknown)
    );
}
