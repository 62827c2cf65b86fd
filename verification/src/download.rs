use vstd::prelude::*;
use crate::book::{extension_for, Book};
use crate::errors::CliError;
use crate::paths::{joined_path, path_join};
use crate::text::{decimal, push_decimal, chars_of, is_whitespace, is_ws, join, push_str, string_of, views, join_strings};

verus! {

/// Characters that may not stand in a filename component.
pub open spec fn illegal(c: char) -> bool {
    c == '/' || c == '\\' || c == '\0' || c == '<' || c == '>' || c == ':' || c == '"'
        || c == '|' || c == '?' || c == '*'
}

/// A character as it stands in a filename: an illegal one becomes '-'.
pub open spec fn file_char(c: char) -> char {
    if illegal(c) { '-' } else { c }
}

/// `s` with every run of whitespace turned into one space (none before the
/// first other character) and every illegal character turned into '-'.
pub open spec fn collapse(s: Seq<char>) -> Seq<char>
    decreases s.len(),
{
    if s.len() == 0 {
        Seq::empty()
    } else {
        let p = collapse(s.drop_last());
        let c = s.last();
        if is_ws(c) {
            if p.len() > 0 && p.last() != ' ' { p.push(' ') } else { p }
        } else {
            p.push(file_char(c))
        }
    }
}

/// The sanitized form of a filename component: `collapse(s)` without its
/// trailing space, if it has one (which is what trimming it removes).
pub open spec fn sanitized(s: Seq<char>) -> Seq<char> {
    let p = collapse(s);
    if p.len() > 0 && p.last() == ' ' { p.drop_last() } else { p }
}

/// A clean filename component: no illegal character, no whitespace but the
/// space, no two spaces in a row, and no space at either end.
pub open spec fn clean(t: Seq<char>) -> bool {
    &&& forall|i: int| 0 <= i < t.len() ==> !illegal(#[trigger] t[i])
    &&& forall|i: int| 0 <= i < t.len() ==> (#[trigger] t[i] == ' ' || !is_ws(t[i]))
    &&& forall|i: int| 0 <= i < t.len() - 1 ==> !(#[trigger] t[i] == ' ' && t[i + 1] == ' ')
    &&& (t.len() > 0 ==> t[0] != ' ' && t.last() != ' ')
}

proof fn lemma_collapse_shape(s: Seq<char>)
    ensures
        forall|i: int| 0 <= i < collapse(s).len() ==> !illegal(#[trigger] collapse(s)[i]),
        forall|i: int| 0 <= i < collapse(s).len() ==> (#[trigger] collapse(s)[i] == ' ' || !is_ws(collapse(s)[i])),
        forall|i: int| 0 <= i < collapse(s).len() - 1 ==> !(#[trigger] collapse(s)[i] == ' ' && collapse(s)[i + 1] == ' '),
        collapse(s).len() > 0 ==> collapse(s)[0] != ' ',
    decreases s.len(),
{
    if s.len() > 0 {
        lemma_collapse_shape(s.drop_last());
    }
}

proof fn lemma_collapse_fixed(t: Seq<char>)
    requires
        forall|i: int| 0 <= i < t.len() ==> !illegal(#[trigger] t[i]),
        forall|i: int| 0 <= i < t.len() ==> (#[trigger] t[i] == ' ' || !is_ws(t[i])),
        forall|i: int| 0 <= i < t.len() - 1 ==> !(#[trigger] t[i] == ' ' && t[i + 1] == ' '),
        t.len() > 0 ==> t[0] != ' ',
    ensures
        collapse(t) == t,
    decreases t.len(),
{
    if t.len() > 0 {
        let p = t.drop_last();
        assert forall|i: int| 0 <= i < p.len() - 1 implies !(#[trigger] p[i] == ' ' && p[i + 1] == ' ') by {
            assert(t[i] == p[i] && t[i + 1] == p[i + 1]);
        }
        lemma_collapse_fixed(p);
        if t.len() >= 2 {
            assert(t[t.len() - 2] == p.last());
        }
        assert(p.push(t.last()) == t);
    }
}

/// The sanitized form of any string is clean.
pub proof fn lemma_sanitized_clean(s: Seq<char>)
    ensures
        clean(sanitized(s)),
{
    lemma_collapse_shape(s);
    let p = collapse(s);
    let r = sanitized(s);
    if p.len() > 0 && p.last() == ' ' {
        assert forall|i: int| 0 <= i < r.len() implies !illegal(#[trigger] r[i]) by {
            assert(r[i] == p[i]);
        }
        assert forall|i: int| 0 <= i < r.len() implies (#[trigger] r[i] == ' ' || !is_ws(r[i])) by {
            assert(r[i] == p[i]);
        }
        assert forall|i: int| 0 <= i < r.len() - 1 implies !(#[trigger] r[i] == ' ' && r[i + 1] == ' ') by {
            assert(r[i] == p[i] && r[i + 1] == p[i + 1]);
        }
        if r.len() > 0 {
            assert(r.last() == p[p.len() - 2]);
            assert(!(p[p.len() - 2] == ' ' && p[p.len() - 1] == ' '));
        }
    }
}

/// Sanitizing is idempotent: a sanitized component sanitizes to itself.
pub proof fn lemma_sanitize_idempotent(s: Seq<char>)
    ensures
        sanitized(sanitized(s)) == sanitized(s),
{
    lemma_sanitized_clean(s);
    let r = sanitized(s);
    lemma_collapse_fixed(r);
}

/// Makes a string safe to use as one filename component: whitespace runs
/// collapse to one space, path separators and other characters that are
/// illegal in filenames become '-', and the ends are trimmed.
pub fn sanitize_component(s: &str) -> (r: String)
    ensures
        r@ == sanitized(s@),
        clean(r@),
{
    let v = chars_of(s);
    let n = v.len();
    let mut out: Vec<char> = Vec::new();
    let mut prev_space = false;
    for i in 0..n
        invariant
            n == v@.len(),
            v@ == s@,
            out@ == collapse(s@.take(i as int)),
            out@.len() > 0 ==> (out@.last() == ' ' <==> prev_space),
    {
        let ch = v[i];
        assert(s@.take(i + 1).drop_last() == s@.take(i as int));
        assert(s@.take(i + 1).last() == ch);
        if is_whitespace(ch) {
            if !prev_space && out.len() > 0 {
                out.push(' ');
            }
            prev_space = true;
        } else {
            prev_space = false;
            if ch == '/' || ch == '\\' || ch == '\0' || ch == '<' || ch == '>' || ch == ':'
                || ch == '"' || ch == '|' || ch == '?' || ch == '*' {
                out.push('-');
            } else {
                out.push(ch);
            }
        }
    }
    assert(s@.take(n as int) == s@);
    if out.len() > 0 && out[out.len() - 1] == ' ' {
        out.pop();
    }
    proof {
        lemma_sanitized_clean(s@);
    }
    string_of(&out)
}

/// The stem of a download's filename: the sanitized title, or "untitled"
/// when that is empty, followed by " - " and the sanitized, comma-joined
/// authors when there are any.
pub open spec fn filename_stem(title: Seq<char>, authors: Seq<Seq<char>>) -> Seq<char> {
    let t = sanitized(title);
    let t = if t.len() == 0 { "untitled"@ } else { t };
    if authors.len() == 0 {
        t
    } else {
        t + " - "@ + sanitized(join(authors, ", "@))
    }
}

/// The filename a book is downloaded to in the given format: the stem, a
/// dot, and the extension the format tag gives, sanitized like the stem.
pub open spec fn filename_for(title: Seq<char>, authors: Seq<Seq<char>>, format: Seq<char>) -> Seq<char> {
    filename_stem(title, authors) + seq!['.'] + sanitized(format)
}

/// The filename under which a book is saved in the given format:
/// "<title> - <authors>.<extension>", each part sanitized. The whole name
/// holds no path separator nor any other character illegal in filenames.
pub fn download_filename(book: &Book, format: &str) -> (name: String)
    ensures
        name@ == filename_for(book.title@, views(book.authors@), format@),
        filename_stem(book.title@, views(book.authors@)).len() > 0,
        forall|i: int| 0 <= i < name@.len() ==> !illegal(#[trigger] name@[i]),
{
    let title = sanitize_component(book.title.as_str());
    let mut name = if title.as_str().is_empty() {
        String::from_str("untitled")
    } else {
        title
    };
    proof {
        reveal_strlit("untitled");
        reveal_strlit(" - ");
    }
    let ghost stem_title = name@;
    assert(forall|i: int| 0 <= i < stem_title.len() ==> !illegal(#[trigger] stem_title[i]));
    if book.authors.len() > 0 {
        let joined = join_strings(&book.authors, ", ");
        let author = sanitize_component(joined.as_str());
        push_str(&mut name, " - ");
        push_str(&mut name, author.as_str());
        let ghost stem = name@;
        assert forall|i: int| 0 <= i < stem.len() implies !illegal(#[trigger] stem[i]) by {
            if i >= stem_title.len() + 3 {
                assert(stem[i] == author@[i - stem_title.len() - 3]);
            } else if i >= stem_title.len() {
                assert(stem[i] == " - "@[i - stem_title.len()]);
            } else {
                assert(stem[i] == stem_title[i]);
            }
        }
    }
    assert(name@ == filename_stem(book.title@, views(book.authors@)));
    let ghost stem = name@;
    let ext = sanitize_component(extension_for(format));
    push_str(&mut name, ".");
    push_str(&mut name, ext.as_str());
    proof {
        reveal_strlit(".");
        assert forall|i: int| 0 <= i < name@.len() implies !illegal(#[trigger] name@[i]) by {
            if i > stem.len() {
                assert(name@[i] == ext@[i - stem.len() - 1]);
            } else if i < stem.len() {
                assert(name@[i] == stem[i]);
            }
        }
    }
    name
}

/// The destination path for a download: `filename` inside `dir`. It is an
/// error to replace an existing file unless `force` is set; `exists` tells
/// whether the destination path already exists on disk.
pub fn resolve_dest(dir: &str, filename: &str, force: bool, exists: bool) -> (r: Result<String, CliError>)
    ensures
        exists && !force ==> (r matches Err(CliError::Network(m)) && m@ == joined_path(dir@, filename@)
            + " already exists; use --force to overwrite"@),
        !(exists && !force) ==> (r matches Ok(p) && p@ == joined_path(dir@, filename@)),
{
    let dest = path_join(dir, filename);
    if exists && !force {
        let mut m = dest;
        push_str(&mut m, " already exists; use --force to overwrite");
        return Err(CliError::Network(m));
    }
    Ok(dest)
}

/// How one download attempt ended, as the transfer reports it.
#[derive(Debug)]
pub enum FetchError {
    /// The server answered with this HTTP status.
    Status(u16),
    /// The request could not be sent or its answer not received.
    Transport(String),
    /// Reading the response body failed part way.
    Body(String),
    /// Writing the file failed.
    Io(String),
}

/// Whether an attempt's outcome calls for one more attempt: only the first
/// attempt is retried, and only after a server error (5xx), a transport
/// error or a body read error.
pub open spec fn retried(first: bool, o: Result<u64, FetchError>) -> bool {
    first && match o {
        Err(FetchError::Status(code)) => code >= 500,
        Err(FetchError::Transport(_)) => true,
        Err(FetchError::Body(_)) => true,
        _ => false,
    }
}

/// The message of the network error a failed attempt ends the download with.
pub open spec fn failure_text(e: FetchError) -> Seq<char> {
    match e {
        FetchError::Status(code) => "http status "@ + decimal(code as nat),
        FetchError::Transport(t) => "transport error: "@ + t@,
        FetchError::Body(b) => "body read error: "@ + b@,
        FetchError::Io(w) => "write error: "@ + w@,
    }
}

/// Whether `r` is what the download returns when it ends on outcome `o`.
pub open spec fn ends_with_outcome(r: Result<u64, CliError>, o: Result<u64, FetchError>) -> bool {
    match o {
        Ok(n) => r == Ok::<u64, CliError>(n),
        Err(e) => r matches Err(CliError::Network(m)) && m@ == failure_text(e),
    }
}

/// Decides what an attempt's outcome leads to: `None` when the download is
/// to be tried once more, otherwise the download's result.
pub fn fetch_step(first: bool, outcome: Result<u64, FetchError>) -> (step: Option<Result<u64, CliError>>)
    ensures
        retried(first, outcome) <==> step is None,
        step matches Some(r) ==> ends_with_outcome(r, outcome),
        outcome matches Err(FetchError::Transport(_)) && first ==> step is None,
        outcome matches Err(FetchError::Body(_)) && first ==> step is None,
        outcome matches Err(FetchError::Status(code)) ==> (first && code >= 500 <==> step is None),
        !first ==> step is Some,
        outcome matches Ok(n) ==> step == Some(Ok::<u64, CliError>(n)),
{
    match outcome {
        Ok(n) => Some(Ok(n)),
        Err(FetchError::Status(code)) => {
            if code >= 500 && first {
                None
            } else {
                let mut m = String::from_str("http status ");
                push_decimal(&mut m, code as u64);
                Some(Err(CliError::Network(m)))
            }
        },
        Err(FetchError::Transport(t)) => {
            if first {
                None
            } else {
                let mut m = String::from_str("transport error: ");
                push_str(&mut m, t.as_str());
                Some(Err(CliError::Network(m)))
            }
        },
        Err(FetchError::Body(b)) => {
            if first {
                None
            } else {
                let mut m = String::from_str("body read error: ");
                push_str(&mut m, b.as_str());
                Some(Err(CliError::Network(m)))
            }
        },
        Err(FetchError::Io(w)) => {
            let mut m = String::from_str("write error: ");
            push_str(&mut m, w.as_str());
            Some(Err(CliError::Network(m)))
        },
    }
}

/// The retry policy: a first attempt that fails on a transient error (a
/// server error, 5xx; a transport error such as a reset connection; or a
/// body cut short) is retried; a success, a client error or a write error
/// is final; and a retry is never retried.
pub proof fn lemma_retry_policy()
    ensures
        forall|t: String| #[trigger] retried(true, Err(FetchError::Transport(t))),
        forall|b: String| #[trigger] retried(true, Err(FetchError::Body(b))),
        forall|code: u16| #[trigger] retried(true, Err(FetchError::Status(code))) <==> code >= 500,
        forall|n: u64| !#[trigger] retried(true, Ok(n)),
        forall|w: String| !#[trigger] retried(true, Err(FetchError::Io(w))),
        forall|o: Result<u64, FetchError>| !#[trigger] retried(false, o),
{
}

/// A download whose first attempt fails on a transport error ends as its
/// retry does: for every transport error of attempt 0 and every outcome
/// of attempt 1, the result `fetch_to_file` promises is that of attempt 1.
pub proof fn lemma_transport_error_is_retried(t: String, o2: Result<u64, FetchError>, r: Result<u64, CliError>)
    requires
        ({
            let o1 = Err::<u64, FetchError>(FetchError::Transport(t));
            if retried(true, o1) { ends_with_outcome(r, o2) } else { ends_with_outcome(r, o1) }
        }),
    ensures
        ends_with_outcome(r, o2),
{
}

/// Downloads `url` to the file `dest`, attempting the transfer at most
/// twice. `fetch_once` makes one attempt; it is handed `url` and `dest`
/// unchanged, and the attempt's number: 0 for the first, 1 for the retry.
/// The retry is made exactly when the first attempt ends in a server error
/// (5xx), a transport error or a body read error, and the download then
/// ends as the retry does.
pub fn fetch_to_file<F>(url: &str, dest: &str, fetch_once: F) -> (r: Result<u64, CliError>)
    where
        F: Fn(&str, &str, u8) -> Result<u64, FetchError>,
    requires
        call_requires(fetch_once, (url, dest, 0u8)),
        call_requires(fetch_once, (url, dest, 1u8)),
    ensures
        exists|o1: Result<u64, FetchError>| {
            &&& call_ensures(fetch_once, (url, dest, 0u8), o1)
            &&& if retried(true, o1) {
                exists|o2: Result<u64, FetchError>| call_ensures(fetch_once, (url, dest, 1u8), o2)
                    && ends_with_outcome(r, o2)
            } else {
                ends_with_outcome(r, o1)
            }
        },
{
    let first = fetch_once(url, dest, 0);
    match fetch_step(true, first) {
        Some(r) => r,
        None => {
            let second = fetch_once(url, dest, 1);
            let ghost o2 = second;
            match fetch_step(false, second) {
                Some(r) => {
                    assert(ends_with_outcome(r, o2));
                    r
                },
                None => {
                    assert(false);
                    Err(CliError::Network(String::from_str("download failed")))
                },
            }
        },
    }
}

} // verus!
