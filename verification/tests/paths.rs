use distill::path::{extension, file_stem, with_file_name};

#[test]
fn stems_drop_the_last_extension() {
    assert_eq!(file_stem("/a/b/book.tar.gz").as_deref(), Some("book.tar"));
    assert_eq!(file_stem("book").as_deref(), Some("book"));
    assert_eq!(file_stem(".bashrc").as_deref(), Some(".bashrc"));
    assert_eq!(file_stem("dir/").as_deref(), Some("dir"));
    assert_eq!(file_stem("/"), None);
    assert_eq!(file_stem(""), None);
    assert_eq!(file_stem("a/.."), None);
}

#[test]
fn extensions_follow_the_last_dot() {
    assert_eq!(extension("x/y.PDF").as_deref(), Some("PDF"));
    assert_eq!(extension("archive.tar.gz").as_deref(), Some("gz"));
    assert_eq!(extension(".hidden"), None);
    assert_eq!(extension("noext"), None);
    assert_eq!(extension("trailing."), Some(String::new()));
}

#[test]
fn file_names_are_replaced_in_place() {
    assert_eq!(with_file_name("/a/b/c.pdf", "d.txt"), "/a/b/d.txt");
    assert_eq!(with_file_name("c.pdf", "d.txt"), "d.txt");
    assert_eq!(with_file_name("/", "d.txt"), "/d.txt");
}
