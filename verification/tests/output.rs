use dewey::book::{Book, Category, Format};
use dewey::output::{render_book, render_books_table, render_categories, render_count_line};

fn book() -> Book {
    Book {
        id: "1".into(),
        title: "Moby Dick".into(),
        authors: vec!["Herman Melville".into()],
        languages: vec![],
        published: Some(1851),
        description: None,
        categories: vec![],
        formats: vec![
            Format { format: "epub".into(), url: "https://x/1.epub".into(), size: None },
            Format { format: "txt".into(), url: "https://x/1.txt".into(), size: None },
        ],
    }
}

#[test]
fn table_has_header_and_rows() {
    let out = render_books_table(&vec![book()]);
    assert!(out.contains("TITLE"));
    assert!(out.contains("Moby Dick"));
    assert!(out.contains("Herman Melville"));
    assert!(out.contains("epub, txt"));
}

#[test]
fn empty_table_says_no_results() {
    assert_eq!(render_books_table(&vec![]), "no results\n");
}

#[test]
fn book_details_include_formats() {
    let out = render_book(&book());
    assert!(out.contains("Moby Dick"));
    assert!(out.contains("by Herman Melville"));
    assert!(out.contains("published 1851"));
    assert!(out.contains("  epub - https://x/1.epub"));
}

#[test]
fn categories_render_title_and_id() {
    let out = render_categories(&vec![Category { id: "c1".into(), title: "New Releases".into() }]);
    assert!(out.contains("New Releases - c1"));
    assert_eq!(render_categories(&vec![]), "no categories\n");
}

#[test]
fn count_line_shows_total_when_present() {
    assert_eq!(render_count_line(Some(42), 20), "showing 20 of 42\n");
    assert_eq!(render_count_line(None, 20), "20 shown\n");
}

#[test]
fn table_is_aligned_exactly() {
    let out = render_books_table(&vec![book()]);
    let expected = "\
TITLE      AUTHOR(S)        ID  FORMATS  \n\
-----      ---------        --  -------  \n\
Moby Dick  Herman Melville  1   epub, txt\n";
    assert_eq!(out, expected);
    let widths: Vec<usize> = out.lines().map(|l| l.len()).collect();
    assert!(widths.iter().all(|w| *w == widths[0]));
}

#[test]
fn table_widths_count_bytes_and_padding_counts_chars() {
    let mut b = book();
    b.title = "Ära".into();
    b.authors = vec![];
    b.formats = vec![];
    let out = render_books_table(&vec![b]);
    // "Ära" is 4 bytes but 3 characters: the TITLE column is 5 wide, so
    // "Ära" is padded with 2 spaces.
    let lines: Vec<&str> = out.lines().collect();
    assert_eq!(lines[0], "TITLE  AUTHOR(S)  ID  FORMATS");
    assert_eq!(lines[2], "Ära               1          ");
}

#[test]
fn book_without_authors_or_formats() {
    let b = Book {
        id: "9".into(),
        title: "T".into(),
        authors: vec![],
        languages: vec![],
        published: Some(-44),
        description: None,
        categories: vec![],
        formats: vec![],
    };
    assert_eq!(render_book(&b), "T\npublished -44\nformats:\n  (none)\n");
}
