use find_files::entry::Directory;
use find_files::entry::FileEntry;
use find_files::entry::Node;
use find_files::entry::Probe;
use find_files::error::FindError;
use find_files::file_criteria::validate;
use find_files::file_criteria::FindCriteria;
use find_files::find;

fn file(directory: &str, name: &str, extension: Option<&str>, size: u64) -> Node {
    Node::File(FileEntry {
        name: name.as_bytes().to_vec(),
        extension: extension.map(|text| text.as_bytes().to_vec()),
        size: Some(size),
        path: Some(format!("{directory}/{name}")),
    })
}

fn directory(parent: &str, name: &str, content: Probe) -> Node {
    Node::Directory(Directory { path: Some(format!("{parent}/{name}")), content: Some(content) })
}

/// Five files: three at the top, two in `folder`; beside them an empty directory.
fn tests_files() -> Probe {
    Probe::Listing(vec![
        directory("tests_files", "empty", Probe::Listing(vec![])),
        file("tests_files", "file", None, 0),
        directory(
            "tests_files",
            "folder",
            Probe::Listing(vec![
                file("tests_files/folder", "file2.txt", Some("txt"), 40),
                file("tests_files/folder", "image2.png", Some("png"), 200_000),
            ]),
        ),
        file("tests_files", "image.png", Some("png"), 89534),
        file("tests_files", "notes.txt", Some("txt"), 12),
    ])
}

fn texts(paths: &[&str]) -> Vec<String> {
    paths.iter().map(|path| path.to_string()).collect()
}

#[test]
fn empty_directory() {
    let find_criteria: FindCriteria = FindCriteria::new();
    let result = find("tests_files/empty", Probe::Listing(vec![]), &find_criteria);
    assert!(result.is_ok());
    assert!(result.unwrap().is_empty());
}

#[test]
fn none_existing_path() {
    let find_criteria: FindCriteria = FindCriteria::new();
    let result = find("tests_files/empty2", Probe::Missing, &find_criteria);
    assert!(result.is_err());
    assert!(result.is_err());
    assert_eq!(result.unwrap_err().message(), "Path not found");
}

#[test]
fn path_is_a_file() {
    let find_criteria: FindCriteria = FindCriteria::new();
    let result = find("tests_files/file", Probe::NotADirectory, &find_criteria);
    assert!(result.is_err());
    assert_eq!(result.unwrap_err().message(), "Path is not a directory");
}

#[test]
fn validate_file_size_min_greater_than_max() {
    let find_criteria = FindCriteria::new().file_size_minimum(200).file_size_maximum(100);
    let result = validate(&find_criteria);
    assert!(result.is_err());
    assert_eq!(result.unwrap_err(), "Minimum file size cannot be greater than maximum file size");
}

#[test]
fn all_files() {
    let find_criteria: FindCriteria = FindCriteria::new();
    let result = find("tests_files", tests_files(), &find_criteria);
    assert!(result.is_ok());
    assert_eq!(result.unwrap().len(), 5);
}

#[test]
fn not_recursive_files() {
    let mut find_criteria: FindCriteria = FindCriteria::new();
    find_criteria = find_criteria.recursive(false);
    let result = find("tests_files", tests_files(), &find_criteria);
    assert!(result.is_ok());
    assert_eq!(result.unwrap().len(), 3);
}

#[test]
fn search_name() {
    let mut find_criteria: FindCriteria = FindCriteria::new();
    find_criteria = find_criteria.file_name(Vec::from("f"));
    let result = find("tests_files", tests_files(), &find_criteria);
    assert!(result.is_ok());
    assert_eq!(result.unwrap().len(), 2);
}

#[test]
fn search_png() {
    let mut find_criteria: FindCriteria = FindCriteria::new();
    find_criteria = find_criteria.file_extension(Vec::from("png"));
    let result = find("tests_files", tests_files(), &find_criteria);
    assert!(result.is_ok());
    assert_eq!(result.unwrap().len(), 2);
}

#[test]
fn search_size_min() {
    let mut find_criteria: FindCriteria = FindCriteria::new();
    find_criteria = find_criteria.file_size_minimum(89534);
    let result = find("tests_files", tests_files(), &find_criteria);
    assert!(result.is_ok());
    assert_eq!(result.unwrap().len(), 2);
}

#[test]
fn search_size_max() {
    let mut find_criteria: FindCriteria = FindCriteria::new();
    find_criteria = find_criteria.file_size_maximum(89534);
    let result = find("tests_files", tests_files(), &find_criteria);
    assert!(result.is_ok());
    assert_eq!(result.unwrap().len(), 4);
}

#[test]
fn search_multiple_criteria() {
    let mut find_criteria: FindCriteria = FindCriteria::new();
    find_criteria = find_criteria
        .file_name(Vec::from("image"))
        .file_extension(Vec::from("png"))
        .file_size_minimum(89)
        .file_size_maximum(100000);
    let result = find("tests_files", tests_files(), &find_criteria);
    assert!(result.is_ok());
    assert_eq!(result.unwrap().len(), 1);
}

#[test]
fn all_files_come_in_depth_first_order() {
    let result = find("tests_files", tests_files(), &FindCriteria::new());
    assert_eq!(
        result.unwrap(),
        texts(&[
            "tests_files/file",
            "tests_files/folder/file2.txt",
            "tests_files/folder/image2.png",
            "tests_files/image.png",
            "tests_files/notes.txt",
        ])
    );
}

#[test]
fn flat_search_gives_the_files_of_the_root_only() {
    let result = find("tests_files", tests_files(), &FindCriteria::new_with_recursive(false));
    assert_eq!(
        result.unwrap(),
        texts(&["tests_files/file", "tests_files/image.png", "tests_files/notes.txt"])
    );
}

#[test]
fn search_name_gives_the_names_that_hold_the_fragment() {
    let find_criteria = FindCriteria::new().file_name(Vec::from("f"));
    let result = find("tests_files", tests_files(), &find_criteria);
    assert_eq!(result.unwrap(), texts(&["tests_files/file", "tests_files/folder/file2.txt"]));
}

#[test]
fn search_png_gives_the_png_files() {
    let find_criteria = FindCriteria::new().file_extension(Vec::from("png"));
    let result = find("tests_files", tests_files(), &find_criteria);
    assert_eq!(
        result.unwrap(),
        texts(&["tests_files/folder/image2.png", "tests_files/image.png"])
    );
}

#[test]
fn search_multiple_criteria_gives_the_one_file_that_meets_all() {
    let find_criteria = FindCriteria::new()
        .file_name(Vec::from("image"))
        .file_extension(Vec::from("png"))
        .file_size_minimum(89)
        .file_size_maximum(100000);
    let result = find("tests_files", tests_files(), &find_criteria);
    assert_eq!(result.unwrap(), texts(&["tests_files/image.png"]));
}

#[test]
fn contradictory_criteria_fail_before_the_root_counts() {
    let find_criteria = FindCriteria::new().file_size_minimum(200).file_size_maximum(100);
    for root in [Probe::Missing, Probe::NotADirectory, Probe::Unreadable, tests_files()] {
        match find("tests_files", root, &find_criteria) {
            Err(FindError::InvalidCriteria(reason)) => {
                assert_eq!(reason, "Minimum file size cannot be greater than maximum file size");
            },
            other => panic!("unexpected result {other:?}"),
        }
    }
}

#[test]
fn root_errors_carry_the_path() {
    let find_criteria = FindCriteria::new().file_name(Vec::from("f"));
    assert!(matches!(
        find("nowhere", Probe::Missing, &find_criteria),
        Err(FindError::NotFound(path)) if path == "nowhere"
    ));
    assert!(matches!(
        find("some/file", Probe::NotADirectory, &find_criteria),
        Err(FindError::NotADirectory(path)) if path == "some/file"
    ));
    assert!(matches!(
        find("locked", Probe::Unreadable, &find_criteria),
        Err(FindError::Unreadable(path)) if path == "locked"
    ));
}

#[test]
fn failures_below_the_root_are_passed_over() {
    let root = Probe::Listing(vec![
        directory("root", "gone", Probe::Missing),
        file("root", "a", None, 1),
        directory("root", "link", Probe::NotADirectory),
        directory("root", "locked", Probe::Unreadable),
        Node::Directory(Directory { path: Some("root/unseen".to_string()), content: None }),
        file("root", "b", None, 2),
    ]);
    let result = find("root", root, &FindCriteria::new());
    assert_eq!(result.unwrap(), texts(&["root/a", "root/b"]));
}

#[test]
fn entries_that_are_no_files_or_have_no_text_path_are_passed_over() {
    let root = Probe::Listing(vec![
        Node::Unreadable,
        Node::Other,
        Node::File(FileEntry { name: vec![0xff, b'a'], extension: None, size: Some(3), path: None }),
        Node::Directory(Directory {
            path: None,
            content: Some(Probe::Listing(vec![file("root/?", "inner", None, 1)])),
        }),
        file("root", "kept", None, 4),
    ]);
    let result = find("root", root, &FindCriteria::new());
    assert_eq!(result.unwrap(), texts(&["root/kept"]));
}

#[test]
fn nested_directories_are_spliced_in_where_they_stand() {
    let root = Probe::Listing(vec![
        file("r", "1", None, 0),
        directory(
            "r",
            "d",
            Probe::Listing(vec![
                file("r/d", "2", None, 0),
                directory("r/d", "e", Probe::Listing(vec![file("r/d/e", "3", None, 0)])),
                file("r/d", "4", None, 0),
            ]),
        ),
        file("r", "5", None, 0),
    ]);
    let result = find("r", root, &FindCriteria::new());
    assert_eq!(result.unwrap(), texts(&["r/1", "r/d/2", "r/d/e/3", "r/d/4", "r/5"]));
}
