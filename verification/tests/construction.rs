use dirtree::directory::{Directory, DirectoryBuilder};
use dirtree::file::File;

fn f(name: &str, path: &str, size: u64) -> File {
    File::new(name.to_owned(), path.to_owned(), size)
}

#[test]
fn file_new_keeps_fields() {
    let file = f("notes.txt", "/home/notes.txt", 42);
    assert!(file.name == "notes.txt");
    assert!(file.path == "/home/notes.txt");
    assert!(file.size == 42);
}

#[test]
fn file_new_accepts_empty_text_and_zero_size() {
    let file = f("", "", 0);
    assert!(file.name.is_empty());
    assert!(file.path.is_empty());
    assert!(file.size == 0);
}

#[test]
fn directory_new_is_empty() {
    let d = Directory::new("a".to_owned(), "/a".to_owned());
    assert!(d.name() == "a");
    assert!(d.path() == "/a");
    assert!(d.files().is_empty());
    assert!(d.directories().is_empty());
}

#[test]
fn add_file_appends_in_order() {
    let mut d = Directory::new("a".to_owned(), "/a".to_owned());
    d.add_file(f("one", "/a/one", 1));
    d.add_file(f("two", "/a/two", 2));
    assert!(d.files().len() == 2);
    assert!(d.files()[0] == f("one", "/a/one", 1));
    assert!(d.files()[1] == f("two", "/a/two", 2));
}

#[test]
fn add_directory_appends_in_order() {
    let mut d = Directory::new("a".to_owned(), "/a".to_owned());
    d.add_directory(Directory::new("b".to_owned(), "/a/b".to_owned()));
    d.add_directory(Directory::new("c".to_owned(), "/a/c".to_owned()));
    assert!(d.directories().len() == 2);
    assert!(d.directories()[0].name() == "b");
    assert!(d.directories()[1].name() == "c");
}

#[test]
fn add_file_keeps_duplicates() {
    let mut d = Directory::new("a".to_owned(), "/a".to_owned());
    d.add_file(f("one", "/a/one", 1));
    d.add_file(f("one", "/a/one", 1));
    assert!(d.files().len() == 2);
}

#[test]
fn builder_matches_incremental_construction() {
    let built = DirectoryBuilder::new("a".to_owned(), "/a".to_owned())
        .add_file(f("one", "/a/one", 1))
        .add_file(f("two", "/a/two", 2))
        .add_directory(Directory::new("b".to_owned(), "/a/b".to_owned()))
        .build();

    let mut grown = Directory::new("a".to_owned(), "/a".to_owned());
    grown.add_file(f("one", "/a/one", 1));
    grown.add_file(f("two", "/a/two", 2));
    grown.add_directory(Directory::new("b".to_owned(), "/a/b".to_owned()));

    assert!(built == grown);
    assert!(built.files().len() == grown.files().len());
    assert!(built.files()[0] == grown.files()[0]);
    assert!(built.files()[1] == grown.files()[1]);
    assert!(built.directories().len() == grown.directories().len());
    assert!(built.directories()[0] == grown.directories()[0]);
}

#[test]
fn builder_add_files_replaces_wholesale() {
    let built = DirectoryBuilder::new("a".to_owned(), "/a".to_owned())
        .add_file(f("old", "/a/old", 9))
        .add_files(vec![f("one", "/a/one", 1), f("two", "/a/two", 2)])
        .build();
    assert!(built.files().len() == 2);
    assert!(built.files()[0] == f("one", "/a/one", 1));
    assert!(built.files()[1] == f("two", "/a/two", 2));
}

#[test]
fn builder_add_directories_replaces_wholesale() {
    let built = DirectoryBuilder::new("a".to_owned(), "/a".to_owned())
        .add_directory(Directory::new("old".to_owned(), "/a/old".to_owned()))
        .add_directories(vec![
            Directory::new("b".to_owned(), "/a/b".to_owned()),
            Directory::new("c".to_owned(), "/a/c".to_owned()),
        ])
        .build();
    assert!(built.directories().len() == 2);
    assert!(built.directories()[0].name() == "b");
    assert!(built.directories()[1].name() == "c");
}

#[test]
fn builder_build_keeps_identity() {
    let built = DirectoryBuilder::new("a".to_owned(), "/a".to_owned()).build();
    assert!(built.name() == "a");
    assert!(built.path() == "/a");
    assert!(built.files().is_empty());
    assert!(built.directories().is_empty());
}
