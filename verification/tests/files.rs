use rupub::files::{book_name, epub_path, file_path, list_books};

#[test]
fn book_name_stops_at_first_dot() {
    assert_eq!(book_name("dune.epub"), "dune");
    assert_eq!(book_name("a.b.epub"), "a");
    assert_eq!(book_name("no_extension"), "no_extension");
    assert_eq!(book_name(".hidden"), "");
    assert_eq!(book_name(""), "");
    assert_eq!(book_name("résumé.epub"), "résumé");
}

#[test]
fn list_books_keeps_order_and_length() {
    let names = vec![
        "dune.epub".to_string(),
        "emma.epub".to_string(),
        "notes".to_string(),
    ];
    assert_eq!(list_books(&names), vec!["dune", "emma", "notes"]);
    assert!(list_books(&Vec::new()).is_empty());
}

#[test]
fn file_path_prefixes_the_books_directory() {
    assert_eq!(
        file_path("dune".to_string()),
        "~/workspaces/github/CodyBense/rupub/books/dune"
    );
}

#[test]
fn epub_path_names_the_epub_file() {
    assert_eq!(
        epub_path("dune"),
        "/home/cody/workspaces/github/CodyBense/rupub/books/dune.epub"
    );
}

#[test]
fn listed_title_opens_its_own_file() {
    let title = &list_books(&vec!["emma.epub".to_string()])[0];
    assert_eq!(
        epub_path(title),
        "/home/cody/workspaces/github/CodyBense/rupub/books/emma.epub"
    );
}
