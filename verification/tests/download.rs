use dewey::book::Book;
use dewey::download::{download_filename, fetch_to_file, fetch_step, resolve_dest, sanitize_component, FetchError};
use std::cell::RefCell;

fn book(title: &str, authors: &[&str]) -> Book {
    Book {
        id: "1".into(),
        title: title.into(),
        authors: authors.iter().map(|a| a.to_string()).collect(),
        languages: vec![],
        published: None,
        description: None,
        categories: vec![],
        formats: vec![],
    }
}

#[test]
fn filename_joins_title_and_authors() {
    assert_eq!(
        download_filename(&book("Moby Dick", &["Herman Melville"]), "epub"),
        "Moby Dick - Herman Melville.epub"
    );
    assert_eq!(
        download_filename(&book("Moby Dick", &["A", "B"]), "txt"),
        "Moby Dick - A, B.txt"
    );
    assert_eq!(download_filename(&book("Moby Dick", &[]), "txt"), "Moby Dick.txt");
}

#[test]
fn sanitize_replaces_illegal_chars_and_collapses_space() {
    assert_eq!(sanitize_component("A/B:C*"), "A-B-C-");
    assert_eq!(sanitize_component("  a   b  "), "a b");
    assert_eq!(sanitize_component("Moby Dick; Or, The Whale"), "Moby Dick; Or, The Whale");
}

#[test]
fn filename_sanitizes_author_segment() {
    assert_eq!(download_filename(&book("T", &["AC/DC"]), "epub"), "T - AC-DC.epub");
}

#[test]
fn filename_falls_back_to_untitled_for_empty_title() {
    assert_eq!(download_filename(&book("", &[]), "epub"), "untitled.epub");
    assert_eq!(download_filename(&book("", &["Author"]), "epub"), "untitled - Author.epub");
}

#[test]
fn sanitize_collapses_every_kind_of_whitespace() {
    assert_eq!(sanitize_component("\ta\n\r b\u{a0}\u{2003}c\t"), "a b c");
    assert_eq!(sanitize_component(" \t "), "");
    assert_eq!(sanitize_component("x<y>z|w?\"q\\r\0"), "x-y-z-w--q-r-");
}

#[test]
fn sanitize_is_idempotent_on_examples() {
    for s in ["  A/B  c ", "a\t\tb", "", "ÄÖ  ü", "x:y"] {
        let once = sanitize_component(s);
        assert_eq!(sanitize_component(&once), once);
    }
}

#[test]
fn filename_of_blank_title_is_untitled() {
    assert_eq!(download_filename(&book(" \t ", &["  "]), "txt"), "untitled - .txt");
}

#[test]
fn dest_is_joined_and_overwrite_needs_force() {
    assert_eq!(resolve_dest("/tmp/books", "x.epub", false, false).unwrap(), "/tmp/books/x.epub");
    let err = resolve_dest("/tmp/books", "x.epub", false, true).unwrap_err();
    assert_eq!(err.exit_code(), 3);
    assert_eq!(err.message(), "/tmp/books/x.epub already exists; use --force to overwrite");
    assert_eq!(resolve_dest("/tmp/books", "x.epub", true, true).unwrap(), "/tmp/books/x.epub");
    assert_eq!(resolve_dest("/tmp/books", "/abs.epub", false, false).unwrap(), "/abs.epub");
}

fn scripted(outcomes: Vec<Result<u64, FetchError>>) -> (RefCell<Vec<Result<u64, FetchError>>>, RefCell<Vec<(String, String, u8)>>) {
    let mut o = outcomes;
    o.reverse();
    (RefCell::new(o), RefCell::new(Vec::new()))
}

fn run(outcomes: Vec<Result<u64, FetchError>>) -> (Result<u64, dewey::errors::CliError>, usize) {
    let (queue, calls) = scripted(outcomes);
    let r = fetch_to_file("http://h/b.epub", "/d/out.epub", |u: &str, d: &str, attempt: u8| {
        calls.borrow_mut().push((u.to_string(), d.to_string(), attempt));
        queue.borrow_mut().pop().expect("no more scripted outcomes")
    });
    for (k, (u, d, attempt)) in calls.borrow().iter().enumerate() {
        assert_eq!(u, "http://h/b.epub");
        assert_eq!(d, "/d/out.epub");
        assert_eq!(*attempt as usize, k);
    }
    let n = calls.borrow().len();
    (r, n)
}

#[test]
fn fetch_success_on_first_attempt() {
    let (r, n) = run(vec![Ok(10)]);
    assert_eq!(r.unwrap(), 10);
    assert_eq!(n, 1);
}

#[test]
fn fetch_retries_once_after_server_error() {
    let (r, n) = run(vec![Err(FetchError::Status(503)), Ok(4)]);
    assert_eq!(r.unwrap(), 4);
    assert_eq!(n, 2);
}

#[test]
fn fetch_does_not_retry_client_error() {
    let (r, n) = run(vec![Err(FetchError::Status(404))]);
    let err = r.unwrap_err();
    assert_eq!(err.exit_code(), 3);
    assert_eq!(err.message(), "http status 404");
    assert_eq!(n, 1);
}

#[test]
fn fetch_retries_truncated_body_then_succeeds() {
    let (r, n) = run(vec![Err(FetchError::Body("unexpected eof".into())), Ok(4)]);
    assert_eq!(r.unwrap(), 4);
    assert_eq!(n, 2);
}

#[test]
fn fetch_gives_up_after_second_failure() {
    let (r, n) = run(vec![Err(FetchError::Body("eof".into())), Err(FetchError::Body("eof again".into()))]);
    let err = r.unwrap_err();
    assert_eq!(err.exit_code(), 3);
    assert_eq!(err.message(), "body read error: eof again");
    assert_eq!(n, 2);
    let (r, _) = run(vec![Err(FetchError::Status(500)), Err(FetchError::Status(502))]);
    assert_eq!(r.unwrap_err().message(), "http status 502");
    let (r, _) = run(vec![Err(FetchError::Transport("refused".into())), Err(FetchError::Transport("refused".into()))]);
    assert_eq!(r.unwrap_err().message(), "transport error: refused");
}

#[test]
fn fetch_never_retries_write_errors() {
    let (r, n) = run(vec![Err(FetchError::Io("disk full".into()))]);
    assert_eq!(r.unwrap_err().message(), "write error: disk full");
    assert_eq!(n, 1);
}

#[test]
fn fetch_step_decides_per_attempt() {
    assert!(fetch_step(true, Err(FetchError::Status(500))).is_none());
    assert_eq!(fetch_step(false, Err(FetchError::Status(500))).unwrap().unwrap_err().message(), "http status 500");
    assert!(fetch_step(true, Err(FetchError::Status(499))).is_some());
    assert_eq!(fetch_step(false, Ok(7)).unwrap().unwrap(), 7);
}

#[test]
fn filename_sanitizes_the_extension_too() {
    assert_eq!(download_filename(&book("T", &[]), "x/y"), "T.x-y");
    assert_eq!(download_filename(&book("T", &["A"]), "../../etc"), "T - A...-..-etc");
    assert_eq!(download_filename(&book("T", &[]), " e\\p  ub "), "T.e-p ub");
    for f in ["a/b", "..\\x", "c:d"] {
        let name = download_filename(&book("A/B", &["C\\D"]), f);
        assert!(!name.contains('/') && !name.contains('\\'), "got: {name}");
    }
}
