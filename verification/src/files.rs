//! Where the books live, and how a book's file name becomes its title.
use vstd::prelude::*;

verus! {

/// `stem` is what comes before the first `.` of `file_name`: all of it when
/// it holds no `.`.
pub open spec fn is_first_segment(file_name: Seq<char>, stem: Seq<char>) -> bool {
    &&& stem.len() <= file_name.len()
    &&& stem == file_name.take(stem.len() as int)
    &&& forall|i: int| 0 <= i < stem.len() ==> #[trigger] stem[i] != '.'
    &&& (stem.len() == file_name.len() || file_name[stem.len() as int] == '.')
}

/// The part of a file name before its first `.` (the whole name when there
/// is none): `"dune.epub"` gives `"dune"`, `"a.b.epub"` gives `"a"`.
pub fn book_name(file_name: &str) -> (stem: String)
    ensures
        is_first_segment(file_name@, stem@),
{
    let ghost name = file_name@;
    let length = file_name.unicode_len();
    let mut count: usize = 0;
    let mut found = false;
    for c in it: file_name.chars()
        invariant
            it.seq() == name,
            name.len() == length,
            count <= it.index() <= name.len(),
            forall|i: int| 0 <= i < count ==> name[i] != '.',
            found ==> name[count as int] == '.' && count < name.len(),
            !found ==> count == it.index(),
    {
        if !found {
            if c == '.' {
                found = true;
            } else {
                count = count + 1;
            }
        }
    }
    let stem = file_name.substring_char(0, count);
    String::from_str(stem)
}

/// The titles of the books whose file names are given, in the same order:
/// each file name up to its first `.`.
pub fn list_books(file_names: &Vec<String>) -> (books: Vec<String>)
    ensures
        books.len() == file_names.len(),
        forall|i: int|
            0 <= i < file_names.len() ==> is_first_segment(
                #[trigger] file_names@[i]@,
                books@[i]@,
            ),
{
    let mut books: Vec<String> = Vec::new();
    for i in 0..file_names.len()
        invariant
            books.len() == i,
            forall|j: int|
                0 <= j < i ==> is_first_segment(#[trigger] file_names@[j]@, books@[j]@),
    {
        books.push(book_name(file_names[i].as_str()));
    }
    books
}

/// The directory that `file_path` puts in front of a book.
pub open spec fn books_dir() -> Seq<char> {
    "~/workspaces/github/CodyBense/rupub/books/"@
}

/// A book's path under the books directory.
pub fn file_path(book: String) -> (path: String)
    ensures
        path@ == books_dir() + book@,
{
    let dir = String::from_str("~/workspaces/github/CodyBense/rupub/books/");
    dir.concat(book.as_str())
}

/// The directory that holds the epub files that are opened.
pub open spec fn epub_dir() -> Seq<char> {
    "/home/cody/workspaces/github/CodyBense/rupub/books/"@
}

/// The file extension of a book.
pub open spec fn epub_extension() -> Seq<char> {
    ".epub"@
}

/// The epub file of the book with the given title.
pub fn epub_path(book: &str) -> (path: String)
    ensures
        path@ == epub_dir() + book@ + epub_extension(),
{
    let dir = String::from_str("/home/cody/workspaces/github/CodyBense/rupub/books/");
    dir.concat(book).concat(".epub")
}

/// A file name has one title: the part before its first `.` is unique.
pub proof fn lemma_first_segment_unique(file_name: Seq<char>, a: Seq<char>, b: Seq<char>)
    requires
        is_first_segment(file_name, a),
        is_first_segment(file_name, b),
    ensures
        a == b,
{
    if a.len() < b.len() {
        assert(b[a.len() as int] == file_name[a.len() as int]);
    } else if b.len() < a.len() {
        assert(a[b.len() as int] == file_name[b.len() as int]);
    }
    assert(a =~= b);
}

/// A book listed from the file `<title>.epub`, where the title holds no
/// `.`, gets that title, and is opened from a file of that same name in the
/// epub directory.
pub proof fn lemma_listed_title_opens_its_file(title: Seq<char>)
    requires
        forall|i: int| 0 <= i < title.len() ==> #[trigger] title[i] != '.',
    ensures
        is_first_segment(title + epub_extension(), title),
        epub_dir() + title + epub_extension() == epub_dir() + (title + epub_extension()),
{
    reveal_strlit(".epub");
    let file_name = title + epub_extension();
    assert(file_name.take(title.len() as int) =~= title);
    assert(file_name[title.len() as int] == '.');
    assert(epub_dir() + title + epub_extension() =~= epub_dir() + (title + epub_extension()));
}

} // verus!
