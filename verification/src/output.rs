use vstd::prelude::*;
use crate::book::{Book, Category, Format};
use crate::text::{occurs_in, lemma_join_contains, lemma_occurs_in_context, chars_of, push_char, decimal, join, join_strings, push_decimal, push_signed_decimal, push_str, signed_decimal, views};

verus! {

/// The line that counts results: "showing <shown> of <total>" when the
/// module reported a total, else "<shown> shown".
pub open spec fn count_line(total: Option<u64>, shown: nat) -> Seq<char> {
    match total {
        Some(t) => "showing "@ + decimal(shown) + " of "@ + decimal(t as nat) + "\n"@,
        None => decimal(shown) + " shown\n"@,
    }
}

/// Renders the result count line.
pub fn render_count_line(total: Option<u64>, shown: usize) -> (s: String)
    ensures
        s@ == count_line(total, shown as nat),
{
    match total {
        Some(t) => {
            let mut s = String::from_str("showing ");
            push_decimal(&mut s, shown as u64);
            push_str(&mut s, " of ");
            push_decimal(&mut s, t);
            push_str(&mut s, "\n");
            s
        },
        None => {
            let mut s = String::new();
            push_decimal(&mut s, shown as u64);
            push_str(&mut s, " shown\n");
            s
        },
    }
}

/// The concatenation of a sequence of texts.
pub open spec fn concat(parts: Seq<Seq<char>>) -> Seq<char>
    decreases parts.len(),
{
    if parts.len() == 0 {
        Seq::empty()
    } else {
        concat(parts.drop_last()) + parts.last()
    }
}

/// One line of the category listing: "<title> - <id>".
pub open spec fn category_line(c: Category) -> Seq<char> {
    c.title@ + " - "@ + c.id@ + "\n"@
}

/// The category listing: one line per category, or "no categories".
pub open spec fn categories_text(cats: Seq<Category>) -> Seq<char> {
    if cats.len() == 0 {
        "no categories\n"@
    } else {
        concat(cats.map_values(|c: Category| category_line(c)))
    }
}

/// Renders the categories of a library.
pub fn render_categories(cats: &Vec<Category>) -> (s: String)
    ensures
        s@ == categories_text(cats@),
{
    if cats.len() == 0 {
        return String::from_str("no categories\n");
    }
    let ghost lines = cats@.map_values(|c: Category| category_line(c));
    let mut out = String::new();
    let n = cats.len();
    for i in 0..n
        invariant
            n == cats@.len(),
            lines == cats@.map_values(|c: Category| category_line(c)),
            out@ == concat(lines.take(i as int)),
    {
        assert(lines.take(i + 1).drop_last() == lines.take(i as int));
        let c = &cats[i];
        push_str(&mut out, c.title.as_str());
        push_str(&mut out, " - ");
        push_str(&mut out, c.id.as_str());
        push_str(&mut out, "\n");
        assert(out@ == concat(lines.take(i + 1)));
    }
    assert(lines.take(n as int) == lines);
    out
}

/// One line per format of a book: "  <format> - <url>".
pub open spec fn format_line(f: Format) -> Seq<char> {
    "  "@ + f.format@ + " - "@ + f.url@ + "\n"@
}

/// The details of one book: title, authors, year of publication and the
/// formats it can be downloaded in.
pub open spec fn book_text(b: Book) -> Seq<char> {
    b.title@ + "\n"@
        + (if b.authors@.len() > 0 { "by "@ + join(views(b.authors@), ", "@) + "\n"@ } else { Seq::empty() })
        + (match b.published { Some(p) => "published "@ + signed_decimal(p as int) + "\n"@, None => Seq::empty() })
        + "formats:\n"@
        + (if b.formats@.len() == 0 { "  (none)\n"@ } else { Seq::empty() })
        + concat(b.formats@.map_values(|f: Format| format_line(f)))
}

/// Renders the details of a book.
pub fn render_book(book: &Book) -> (s: String)
    ensures
        s@ == book_text(*book),
{
    let mut out = String::new();
    push_str(&mut out, book.title.as_str());
    push_str(&mut out, "\n");
    if book.authors.len() > 0 {
        push_str(&mut out, "by ");
        let a = join_strings(&book.authors, ", ");
        push_str(&mut out, a.as_str());
        push_str(&mut out, "\n");
    }
    if let Some(p) = book.published {
        push_str(&mut out, "published ");
        push_signed_decimal(&mut out, p);
        push_str(&mut out, "\n");
    }
    push_str(&mut out, "formats:\n");
    if book.formats.len() == 0 {
        push_str(&mut out, "  (none)\n");
    }
    let ghost head = out@;
    let ghost lines = book.formats@.map_values(|f: Format| format_line(f));
    let n = book.formats.len();
    for i in 0..n
        invariant
            n == book.formats@.len(),
            lines == book.formats@.map_values(|f: Format| format_line(f)),
            out@ == head + concat(lines.take(i as int)),
    {
        assert(lines.take(i + 1).drop_last() == lines.take(i as int));
        let f = &book.formats[i];
        push_str(&mut out, "  ");
        push_str(&mut out, f.format.as_str());
        push_str(&mut out, " - ");
        push_str(&mut out, f.url.as_str());
        push_str(&mut out, "\n");
        assert(out@ == head + concat(lines.take(i + 1)));
    }
    assert(lines.take(n as int) == lines);
    assert(out@ =~= book_text(*book));
    out
}

/// The length of a text in bytes, encoded as UTF-8.
pub open spec fn byte_len(s: Seq<char>) -> nat {
    vstd::utf8::encode_utf8(s).len()
}

/// `str::len`: the length of the string in bytes. Its documentation
/// states that this is the length of the string's UTF-8 encoding, which
/// for a string held in memory always fits in `usize`. (vstd's own
/// specification of `str::len` states only the length cast to `usize`,
/// which leaves open that it wrapped; the widths of the table need the
/// exact length.)
#[verifier::external_body]
fn utf8_len(s: &str) -> (n: usize)
    ensures
        n as nat == byte_len(s@),
{
    s.len()
}

/// The format tags of a book's formats.
pub open spec fn format_names(fs: Seq<Format>) -> Seq<Seq<char>> {
    fs.map_values(|f: Format| f.format@)
}

/// The four cells of a book's row: title, authors, id and formats.
pub open spec fn cells(b: Book) -> Seq<Seq<char>> {
    seq![b.title@, join(views(b.authors@), ", "@), b.id@, join(format_names(b.formats@), ", "@)]
}

/// The column headings.
pub open spec fn headings() -> Seq<Seq<char>> {
    seq!["TITLE"@, "AUTHOR(S)"@, "ID"@, "FORMATS"@]
}

/// The rule under the headings.
pub open spec fn rules() -> Seq<Seq<char>> {
    seq!["-----"@, "---------"@, "--"@, "-------"@]
}

/// The width of column `k`: the greatest byte length of its heading and of
/// its cells.
pub open spec fn col_width(books: Seq<Book>, k: int) -> nat
    decreases books.len(),
{
    if books.len() == 0 {
        byte_len(headings()[k])
    } else {
        let w = col_width(books.drop_last(), k);
        let c = byte_len(cells(books.last())[k]);
        if c > w { c } else { w }
    }
}

/// The widths of the four columns.
pub open spec fn widths(books: Seq<Book>) -> Seq<nat> {
    seq![col_width(books, 0), col_width(books, 1), col_width(books, 2), col_width(books, 3)]
}

/// `s` left-aligned in a field of `w` characters (as `{:<w$}` writes it).
pub open spec fn padded(s: Seq<char>, w: nat) -> Seq<char> {
    if s.len() < w { s + Seq::new((w - s.len()) as nat, |i: int| ' ') } else { s }
}

/// One line of the table: the four cells padded to their column widths,
/// two spaces apart.
pub open spec fn table_line(c: Seq<Seq<char>>, w: Seq<nat>) -> Seq<char> {
    padded(c[0], w[0]) + "  "@ + padded(c[1], w[1]) + "  "@ + padded(c[2], w[2]) + "  "@ + padded(c[3], w[3])
        + "\n"@
}

/// The lines of the table for the given books, in order.
pub open spec fn rows_text(books: Seq<Book>, w: Seq<nat>) -> Seq<char>
    decreases books.len(),
{
    if books.len() == 0 {
        Seq::empty()
    } else {
        rows_text(books.drop_last(), w) + table_line(cells(books.last()), w)
    }
}

/// The results table: a heading line, a rule, and one line per book; or
/// "no results" when there are no books.
pub open spec fn books_table(books: Seq<Book>) -> Seq<char> {
    if books.len() == 0 {
        "no results\n"@
    } else {
        table_line(headings(), widths(books)) + table_line(rules(), widths(books)) + rows_text(books, widths(books))
    }
}

proof fn lemma_col_width_bound(books: Seq<Book>, k: int)
    requires
        0 <= k < 4,
    ensures
        col_width(books, k) >= byte_len(headings()[k]),
        forall|j: int| 0 <= j < books.len() ==> col_width(books, k) >= byte_len(#[trigger] cells(books[j])[k]),
    decreases books.len(),
{
    if books.len() > 0 {
        let p = books.drop_last();
        lemma_col_width_bound(p, k);
        assert forall|j: int| 0 <= j < books.len() implies col_width(books, k) >= byte_len(#[trigger] cells(books[j])[k]) by {
            if j < p.len() {
                assert(books[j] == p[j]);
            }
        }
    }
}

proof fn lemma_ascii_byte_len(s: Seq<char>)
    requires
        vstd::utf8::is_ascii_chars(s),
    ensures
        byte_len(s) == s.len(),
{
    vstd::utf8::is_ascii_chars_encode_utf8(s);
}

/// Whether every cell of every row of the table is ASCII.
pub open spec fn ascii_cells(books: Seq<Book>) -> bool {
    forall|j: int, k: int| 0 <= j < books.len() && 0 <= k < 4 ==> vstd::utf8::is_ascii_chars(#[trigger] cells(books[j])[k])
}

/// The columns of the results table line up: when every cell is ASCII, the
/// heading, the rule and every row are padded to the same length, the sum
/// of the column widths and the separators.
pub proof fn lemma_table_aligned(books: Seq<Book>)
    requires
        ascii_cells(books),
    ensures
        ({
            let w = widths(books);
            let len = w[0] + w[1] + w[2] + w[3] + 7;
            &&& table_line(headings(), w).len() == len
            &&& table_line(rules(), w).len() == len
            &&& forall|j: int| 0 <= j < books.len() ==> (#[trigger] table_line(cells(books[j]), w)).len() == len
        }),
{
    reveal_strlit("TITLE");
    reveal_strlit("AUTHOR(S)");
    reveal_strlit("ID");
    reveal_strlit("FORMATS");
    reveal_strlit("-----");
    reveal_strlit("---------");
    reveal_strlit("--");
    reveal_strlit("-------");
    reveal_strlit("  ");
    reveal_strlit("\n");
    let w = widths(books);
    lemma_col_width_bound(books, 0);
    lemma_col_width_bound(books, 1);
    lemma_col_width_bound(books, 2);
    lemma_col_width_bound(books, 3);
    assert forall|k: int| 0 <= k < 4 implies #[trigger] headings()[k].len() <= w[k] by {
        lemma_ascii_byte_len(headings()[k]);
    }
    assert forall|k: int| 0 <= k < 4 implies #[trigger] rules()[k].len() <= w[k] by {
        lemma_ascii_byte_len(headings()[k]);
    }
    assert forall|j: int| 0 <= j < books.len() implies (#[trigger] table_line(cells(books[j]), w)).len() == w[0] + w[1] + w[2] + w[3] + 7 by {
        assert forall|k: int| 0 <= k < 4 implies #[trigger] cells(books[j])[k].len() <= w[k] by {
            lemma_ascii_byte_len(cells(books[j])[k]);
        }
    }
}

fn push_padded(out: &mut String, s: &str, w: usize)
    ensures
        final(out)@ == old(out)@ + padded(s@, w as nat),
{
    let n = chars_of(s).len();
    push_str(out, s);
    if n < w {
        let ghost base = out@;
        let k = w - n;
        for i in 0..k
            invariant
                out@ == base + Seq::new(i as nat, |j: int| ' '),
        {
            push_char(out, ' ');
            assert(out@ =~= base + Seq::new((i + 1) as nat, |j: int| ' '));
        }
    }
}

fn push_line(out: &mut String, c: &Vec<String>, w: &Vec<usize>)
    requires
        c@.len() == 4,
        w@.len() == 4,
    ensures
        final(out)@ == old(out)@ + table_line(views(c@), w@.map_values(|x: usize| x as nat)),
{
    let ghost base = out@;
    push_padded(out, c[0].as_str(), w[0]);
    push_str(out, "  ");
    push_padded(out, c[1].as_str(), w[1]);
    push_str(out, "  ");
    push_padded(out, c[2].as_str(), w[2]);
    push_str(out, "  ");
    push_padded(out, c[3].as_str(), w[3]);
    push_str(out, "\n");
    assert(out@ =~= base + table_line(views(c@), w@.map_values(|x: usize| x as nat)));
}

fn strings4(a: &str, b: &str, c: &str, d: &str) -> (v: Vec<String>)
    ensures
        v@.len() == 4,
        views(v@) == seq![a@, b@, c@, d@],
{
    let mut v: Vec<String> = Vec::new();
    v.push(String::from_str(a));
    v.push(String::from_str(b));
    v.push(String::from_str(c));
    v.push(String::from_str(d));
    assert(views(v@) =~= seq![a@, b@, c@, d@]);
    v
}

fn format_list(fs: &Vec<Format>) -> (s: String)
    ensures
        s@ == join(format_names(fs@), ", "@),
{
    let mut names: Vec<String> = Vec::new();
    let n = fs.len();
    for i in 0..n
        invariant
            n == fs@.len(),
            names@.len() == i,
            forall|j: int| 0 <= j < i ==> (#[trigger] names@[j])@ == fs@[j].format@,
    {
        names.push(fs[i].format.clone());
    }
    assert(views(names@) =~= format_names(fs@));
    join_strings(&names, ", ")
}

fn row_cells(b: &Book) -> (c: Vec<String>)
    ensures
        views(c@) == cells(*b),
{
    let authors = join_strings(&b.authors, ", ");
    let formats = format_list(&b.formats);
    strings4(b.title.as_str(), authors.as_str(), b.id.as_str(), formats.as_str())
}

/// Renders search or listing results as an aligned table.
pub fn render_books_table(books: &Vec<Book>) -> (s: String)
    ensures
        s@ == books_table(books@),
{
    if books.len() == 0 {
        return String::from_str("no results\n");
    }
    let n = books.len();
    let mut rows: Vec<Vec<String>> = Vec::new();
    for j in 0..n
        invariant
            n == books@.len(),
            rows@.len() == j,
            forall|i: int| 0 <= i < j ==> views((#[trigger] rows@[i])@) == cells(books@[i]),
    {
        rows.push(row_cells(&books[j]));
    }
    let heads = strings4("TITLE", "AUTHOR(S)", "ID", "FORMATS");
    let rule = strings4("-----", "---------", "--", "-------");
    let mut w: Vec<usize> = Vec::new();
    for k in 0..4usize
        invariant
            views(heads@) == headings(),
            heads@.len() == 4,
            w@.len() == k,
            forall|i: int| 0 <= i < k ==> (#[trigger] w@[i]) as nat == col_width(books@.take(0), i),
    {
        assert(views(heads@)[k as int] == heads@[k as int]@);
        w.push(utf8_len(heads[k].as_str()));
    }
    for j in 0..n
        invariant
            n == books@.len(),
            rows@.len() == n,
            forall|i: int| 0 <= i < n ==> views((#[trigger] rows@[i])@) == cells(books@[i]),
            w@.len() == 4,
            forall|i: int| 0 <= i < 4 ==> (#[trigger] w@[i]) as nat == col_width(books@.take(j as int), i),
    {
        assert(books@.take(j + 1).drop_last() == books@.take(j as int));
        assert(books@.take(j + 1).last() == books@[j as int]);
        let row = &rows[j];
        assert(views(row@) == cells(books@[j as int]));
        for k in 0..4usize
            invariant
                n == books@.len(),
                j < n,
                views(row@) == cells(books@[j as int]),
                row@.len() == 4,
                w@.len() == 4,
                books@.take(j + 1).drop_last() == books@.take(j as int),
                books@.take(j + 1).last() == books@[j as int],
                forall|i: int| 0 <= i < k ==> (#[trigger] w@[i]) as nat == col_width(books@.take(j + 1), i),
                forall|i: int| k <= i < 4 ==> (#[trigger] w@[i]) as nat == col_width(books@.take(j as int), i),
        {
            assert(row@[k as int]@ == cells(books@[j as int])[k as int]);
            let len = utf8_len(row[k].as_str());
            if len > w[k] {
                w.set(k, len);
            }
        }
    }
    assert(books@.take(n as int) == books@);
    assert(w@.map_values(|x: usize| x as nat) =~= widths(books@));
    let mut out = String::new();
    push_line(&mut out, &heads, &w);
    push_line(&mut out, &rule, &w);
    let ghost head = out@;
    for j in 0..n
        invariant
            n == books@.len(),
            rows@.len() == n,
            forall|i: int| 0 <= i < n ==> views((#[trigger] rows@[i])@) == cells(books@[i]),
            w@.len() == 4,
            w@.map_values(|x: usize| x as nat) == widths(books@),
            out@ == head + rows_text(books@.take(j as int), widths(books@)),
    {
        assert(books@.take(j + 1).drop_last() == books@.take(j as int));
        assert(books@.take(j + 1).last() == books@[j as int]);
        push_line(&mut out, &rows[j], &w);
        assert(out@ =~= head + rows_text(books@.take(j + 1), widths(books@)));
    }
    proof {
        reveal_strlit("TITLE");
        reveal_strlit("AUTHOR(S)");
        reveal_strlit("ID");
        reveal_strlit("FORMATS");
        reveal_strlit("-----");
        reveal_strlit("---------");
        reveal_strlit("--");
        reveal_strlit("-------");
    }
    assert(out@ =~= books_table(books@));
    out
}

/// The number of line feeds in a text.
pub open spec fn newlines(s: Seq<char>) -> nat
    decreases s.len(),
{
    if s.len() == 0 {
        0
    } else {
        newlines(s.drop_last()) + if s.last() == '\n' { 1nat } else { 0nat }
    }
}

/// Whether a text holds no line feed.
pub open spec fn no_newline(s: Seq<char>) -> bool {
    forall|i: int| 0 <= i < s.len() ==> s[i] != '\n'
}

/// Whether a text is one line: a line feed at its end and none before.
pub open spec fn one_line(s: Seq<char>) -> bool {
    s.len() > 0 && s.last() == '\n' && no_newline(s.drop_last())
}

proof fn lemma_newlines_add(a: Seq<char>, b: Seq<char>)
    ensures
        newlines(a + b) == newlines(a) + newlines(b),
    decreases b.len(),
{
    if b.len() == 0 {
        assert(a + b =~= a);
    } else {
        lemma_newlines_add(a, b.drop_last());
        assert((a + b).drop_last() =~= a + b.drop_last());
    }
}

proof fn lemma_newlines_none(s: Seq<char>)
    requires
        no_newline(s),
    ensures
        newlines(s) == 0,
    decreases s.len(),
{
    if s.len() > 0 {
        assert(no_newline(s.drop_last())) by {
            assert forall|i: int| 0 <= i < s.drop_last().len() implies s.drop_last()[i] != '\n' by {
                assert(s.drop_last()[i] == s[i]);
            }
        }
        lemma_newlines_none(s.drop_last());
    }
}

proof fn lemma_one_line_newlines(s: Seq<char>)
    requires
        one_line(s),
    ensures
        newlines(s) == 1,
{
    lemma_newlines_none(s.drop_last());
}

/// A text of no line feed followed by a line feed is one line.
proof fn lemma_line_of(body: Seq<char>)
    requires
        no_newline(body),
    ensures
        one_line(body + seq!['\n']),
{
    assert((body + seq!['\n']).drop_last() =~= body);
}

proof fn lemma_no_newline_add(a: Seq<char>, b: Seq<char>)
    requires
        no_newline(a),
        no_newline(b),
    ensures
        no_newline(a + b),
{
    assert forall|i: int| 0 <= i < (a + b).len() implies (a + b)[i] != '\n' by {
        if i < a.len() {
            assert((a + b)[i] == a[i]);
        } else {
            assert((a + b)[i] == b[i - a.len()]);
        }
    }
}

proof fn lemma_concat_add(a: Seq<Seq<char>>, b: Seq<Seq<char>>)
    ensures
        concat(a + b) == concat(a) + concat(b),
    decreases b.len(),
{
    if b.len() == 0 {
        assert(a + b =~= a);
        assert(concat(a) + concat(b) =~= concat(a));
    } else {
        lemma_concat_add(a, b.drop_last());
        assert((a + b).drop_last() =~= a + b.drop_last());
        assert((a + b).last() == b.last());
    }
}

/// A concatenation of lines has as many line feeds as it has lines.
proof fn lemma_concat_lines_count(ls: Seq<Seq<char>>)
    requires
        forall|i: int| 0 <= i < ls.len() ==> one_line(#[trigger] ls[i]),
    ensures
        newlines(concat(ls)) == ls.len(),
    decreases ls.len(),
{
    if ls.len() > 0 {
        let p = ls.drop_last();
        assert forall|i: int| 0 <= i < p.len() implies one_line(#[trigger] p[i]) by {
            assert(p[i] == ls[i]);
        }
        lemma_concat_lines_count(p);
        lemma_newlines_add(concat(p), ls.last());
        lemma_one_line_newlines(ls.last());
    }
}

proof fn lemma_concat_split(ls: Seq<Seq<char>>, k: int)
    requires
        0 <= k < ls.len(),
    ensures
        concat(ls) == concat(ls.take(k)) + ls[k] + concat(ls.skip(k + 1)),
{
    let a = ls.take(k);
    let b = ls.skip(k + 1);
    assert(ls =~= a + seq![ls[k]] + b);
    lemma_concat_add(a + seq![ls[k]], b);
    lemma_concat_add(a, seq![ls[k]]);
    lemma_concat_single(ls[k]);
}

/// In a concatenation of lines, line `k` is preceded by exactly `k` line
/// feeds and follows one.
proof fn lemma_concat_lines_at(ls: Seq<Seq<char>>, k: int)
    requires
        0 <= k < ls.len(),
        forall|i: int| 0 <= i < ls.len() ==> one_line(#[trigger] ls[i]),
    ensures
        concat(ls) == concat(ls.take(k)) + ls[k] + concat(ls.skip(k + 1)),
        newlines(concat(ls.take(k))) == k,
        k > 0 ==> concat(ls.take(k)).len() > 0 && concat(ls.take(k)).last() == '\n',
{
    let a = ls.take(k);
    lemma_concat_split(ls, k);
    assert forall|i: int| 0 <= i < a.len() implies one_line(#[trigger] a[i]) by {
        assert(a[i] == ls[i]);
    }
    lemma_concat_lines_count(a);
    if k > 0 {
        assert(a.drop_last() + seq![a.last()] =~= a);
        lemma_concat_add(a.drop_last(), seq![a.last()]);
        lemma_concat_single(a.last());
        assert(one_line(a.last()));
    }
}

/// Whether `line` stands in `text` as its line number `k` (counted from
/// 0): what precedes it holds exactly `k` line feeds and, unless `k` is 0,
/// ends with one.
pub open spec fn line_at(text: Seq<char>, line: Seq<char>, k: int) -> bool {
    exists|i: int| {
        &&& 0 <= i && i + line.len() <= text.len()
        &&& text.subrange(i, i + line.len()) == line
        &&& #[trigger] newlines(text.take(i)) == k
        &&& (k > 0 ==> i > 0 && text[i - 1] == '\n')
    }
}

/// Witnesses `line_at` from a split of the text.
proof fn lemma_line_at(text: Seq<char>, p: Seq<char>, line: Seq<char>, q: Seq<char>, k: int)
    requires
        text == p + line + q,
        newlines(p) == k,
        k > 0 ==> p.len() > 0 && p.last() == '\n',
    ensures
        line_at(text, line, k),
{
    let i = p.len() as int;
    assert(text.take(i) =~= p);
    assert(text.subrange(i, i + line.len()) =~= line);
    if k > 0 {
        assert(text[i - 1] == p.last());
    }
}

proof fn lemma_concat_single(x: Seq<char>)
    ensures
        concat(seq![x]) == x,
{
    assert(seq![x].drop_last() =~= Seq::<Seq<char>>::empty());
    assert(concat(Seq::<Seq<char>>::empty()) == Seq::<char>::empty());
    assert(Seq::<char>::empty() + x =~= x);
}

/// The category listing has one line per category, in order: as many
/// lines as categories, and line `k` is "<title> - <id>" of category `k`.
pub proof fn lemma_categories_one_line_each(cats: Seq<Category>)
    requires
        cats.len() > 0,
        forall|j: int| 0 <= j < cats.len() ==> no_newline((#[trigger] cats[j]).title@) && no_newline(cats[j].id@),
    ensures
        newlines(categories_text(cats)) == cats.len(),
        forall|k: int| 0 <= k < cats.len() ==> #[trigger] line_at(categories_text(cats),
            cats[k].title@ + " - "@ + cats[k].id@ + "\n"@, k),
{
    reveal_strlit(" - ");
    reveal_strlit("\n");
    let ls = cats.map_values(|c: Category| category_line(c));
    assert forall|i: int| 0 <= i < ls.len() implies one_line(#[trigger] ls[i]) by {
        let c = cats[i];
        assert(no_newline(" - "@));
        lemma_no_newline_add(c.title@, " - "@);
        lemma_no_newline_add(c.title@ + " - "@, c.id@);
        lemma_line_of(c.title@ + " - "@ + c.id@);
        assert(ls[i] == c.title@ + " - "@ + c.id@ + seq!['\n']);
    }
    lemma_concat_lines_count(ls);
    assert forall|k: int| 0 <= k < cats.len() implies #[trigger] line_at(categories_text(cats),
        cats[k].title@ + " - "@ + cats[k].id@ + "\n"@, k) by {
        lemma_concat_lines_at(ls, k);
        let p = concat(ls.take(k));
        let q = concat(ls.skip(k + 1));
        assert(ls[k] == cats[k].title@ + " - "@ + cats[k].id@ + "\n"@);
        assert(categories_text(cats) == p + (cats[k].title@ + " - "@ + cats[k].id@ + "\n"@) + q);
        lemma_line_at(categories_text(cats), p, cats[k].title@ + " - "@ + cats[k].id@ + "\n"@, q, k);
    }
}

proof fn lemma_padded_no_newline(c: Seq<char>, w: nat)
    requires
        no_newline(c),
    ensures
        no_newline(padded(c, w)),
{
    if c.len() < w {
        let sp = Seq::new((w - c.len()) as nat, |i: int| ' ');
        assert(no_newline(sp));
        lemma_no_newline_add(c, sp);
    }
}

/// A line of the table whose cells hold no line feed is one line.
proof fn lemma_table_line_one_line(c: Seq<Seq<char>>, w: Seq<nat>)
    requires
        c.len() == 4,
        w.len() == 4,
        forall|k: int| 0 <= k < 4 ==> no_newline(#[trigger] c[k]),
    ensures
        one_line(table_line(c, w)),
{
    reveal_strlit("  ");
    reveal_strlit("\n");
    let sep = "  "@;
    assert(no_newline(sep));
    lemma_padded_no_newline(c[0], w[0]);
    lemma_padded_no_newline(c[1], w[1]);
    lemma_padded_no_newline(c[2], w[2]);
    lemma_padded_no_newline(c[3], w[3]);
    let b1 = padded(c[0], w[0]) + sep;
    lemma_no_newline_add(padded(c[0], w[0]), sep);
    let b2 = b1 + padded(c[1], w[1]);
    lemma_no_newline_add(b1, padded(c[1], w[1]));
    let b3 = b2 + sep;
    lemma_no_newline_add(b2, sep);
    let b4 = b3 + padded(c[2], w[2]);
    lemma_no_newline_add(b3, padded(c[2], w[2]));
    let b5 = b4 + sep;
    lemma_no_newline_add(b4, sep);
    let b6 = b5 + padded(c[3], w[3]);
    lemma_no_newline_add(b5, padded(c[3], w[3]));
    lemma_line_of(b6);
    assert(table_line(c, w) == b6 + seq!['\n']);
}

/// The lines of the table rows, one per book.
pub open spec fn row_lines(books: Seq<Book>, w: Seq<nat>) -> Seq<Seq<char>> {
    books.map_values(|b: Book| table_line(cells(b), w))
}

proof fn lemma_rows_text_concat(books: Seq<Book>, w: Seq<nat>)
    ensures
        rows_text(books, w) == concat(row_lines(books, w)),
    decreases books.len(),
{
    if books.len() > 0 {
        lemma_rows_text_concat(books.drop_last(), w);
        assert(row_lines(books, w).drop_last() =~= row_lines(books.drop_last(), w));
    }
}

/// The results table has one row per book, in order: for `n` books whose
/// cells hold no line feed, it has `n + 2` lines, and line `k + 2` (after
/// the heading and the rule) is the row of book `k`, its cells padded to
/// the column widths.
pub proof fn lemma_table_one_row_per_book(books: Seq<Book>)
    requires
        books.len() > 0,
        forall|j: int, k: int| 0 <= j < books.len() && 0 <= k < 4 ==> no_newline(#[trigger] cells(books[j])[k]),
    ensures
        newlines(books_table(books)) == books.len() + 2,
        forall|k: int| 0 <= k < books.len() ==> #[trigger] line_at(books_table(books),
            table_line(cells(books[k]), widths(books)), k + 2),
{
    reveal_strlit("TITLE");
    reveal_strlit("AUTHOR(S)");
    reveal_strlit("ID");
    reveal_strlit("FORMATS");
    reveal_strlit("-----");
    reveal_strlit("---------");
    reveal_strlit("--");
    reveal_strlit("-------");
    let w = widths(books);
    let h = table_line(headings(), w);
    let r = table_line(rules(), w);
    let rows = row_lines(books, w);
    assert forall|k: int| 0 <= k < 4 implies no_newline(#[trigger] headings()[k]) by {}
    assert forall|k: int| 0 <= k < 4 implies no_newline(#[trigger] rules()[k]) by {}
    lemma_table_line_one_line(headings(), w);
    lemma_table_line_one_line(rules(), w);
    let ls = seq![h, r] + rows;
    assert forall|i: int| 0 <= i < ls.len() implies one_line(#[trigger] ls[i]) by {
        if i >= 2 {
            assert(ls[i] == rows[i - 2]);
            let b = books[i - 2];
            assert forall|k: int| 0 <= k < 4 implies no_newline(#[trigger] cells(b)[k]) by {
                assert(no_newline(cells(books[i - 2])[k]));
            }
            lemma_table_line_one_line(cells(b), w);
        }
    }
    lemma_rows_text_concat(books, w);
    lemma_concat_add(seq![h, r], rows);
    assert(concat(seq![h, r]) == h + r) by {
        assert(seq![h, r].drop_last() =~= seq![h]);
        lemma_concat_single(h);
    }
    assert(books_table(books) == concat(ls));
    lemma_concat_lines_count(ls);
    assert forall|k: int| 0 <= k < books.len() implies #[trigger] line_at(books_table(books),
        table_line(cells(books[k]), widths(books)), k + 2) by {
        lemma_concat_lines_at(ls, k + 2);
        assert(ls[k + 2] == table_line(cells(books[k]), w));
        lemma_line_at(books_table(books), concat(ls.take(k + 2)), ls[k + 2], concat(ls.skip(k + 3)), k + 2);
    }
}

/// The details of a book begin with its title on a line of its own, name
/// each of its authors on the next line ("by " and all the authors joined
/// with ", "), give the year of publication when it is known, and list
/// every format with its URL.
pub proof fn lemma_book_details(b: Book)
    ensures
        (b.title@ + "\n"@).is_prefix_of(book_text(b)),
        b.authors@.len() > 0 ==> (b.title@ + "\n"@ + "by "@ + join(views(b.authors@), ", "@) + "\n"@).is_prefix_of(
            book_text(b)),
        forall|k: int| 0 <= k < b.authors@.len() ==> #[trigger] occurs_in(b.authors@[k]@, book_text(b)),
        b.published matches Some(p) ==> occurs_in("published "@ + signed_decimal(p as int) + "\n"@, book_text(b)),
        forall|k: int| 0 <= k < b.formats@.len() ==> #[trigger] occurs_in(
            "  "@ + b.formats@[k].format@ + " - "@ + b.formats@[k].url@ + "\n"@, book_text(b)),
        b.formats@.len() == 0 ==> occurs_in("  (none)\n"@, book_text(b)),
{
    lemma_book_head(b);
    lemma_book_tail(b);
}

/// The parts of a book's details, in order.
spec fn book_parts(b: Book) -> (Seq<char>, Seq<char>, Seq<char>, Seq<char>, Seq<Seq<char>>) {
    (b.title@ + "\n"@,
    if b.authors@.len() > 0 { "by "@ + join(views(b.authors@), ", "@) + "\n"@ } else { Seq::empty() },
    match b.published { Some(p) => "published "@ + signed_decimal(p as int) + "\n"@, None => Seq::empty() },
    if b.formats@.len() == 0 { "  (none)\n"@ } else { Seq::empty() },
    b.formats@.map_values(|f: Format| format_line(f)))
}

#[verifier::spinoff_prover]
proof fn lemma_book_head(b: Book)
    ensures
        (b.title@ + "\n"@).is_prefix_of(book_text(b)),
        b.authors@.len() > 0 ==> (b.title@ + "\n"@ + "by "@ + join(views(b.authors@), ", "@) + "\n"@).is_prefix_of(
            book_text(b)),
        forall|k: int| 0 <= k < b.authors@.len() ==> #[trigger] occurs_in(b.authors@[k]@, book_text(b)),
{
    let (head, line, year, none, fl) = book_parts(b);
    let names = views(b.authors@);
    let t = book_text(b);
    let rest = year + "formats:\n"@ + none + concat(fl);
    assert(t =~= head + line + rest);
    assert(t.take(head.len() as int) =~= head);
    if b.authors@.len() > 0 {
        assert(t.take((head.len() + line.len()) as int) =~= head + line);
        assert forall|k: int| 0 <= k < b.authors@.len() implies #[trigger] occurs_in(b.authors@[k]@, t) by {
            lemma_join_contains(names, ", "@, k);
            assert(names[k] == b.authors@[k]@);
            lemma_occurs_in_context(names[k], join(names, ", "@), head + "by "@, "\n"@ + rest);
            assert(head + "by "@ + join(names, ", "@) + ("\n"@ + rest) =~= t);
        }
    }
}

#[verifier::spinoff_prover]
proof fn lemma_book_tail(b: Book)
    ensures
        b.published matches Some(p) ==> occurs_in("published "@ + signed_decimal(p as int) + "\n"@, book_text(b)),
        forall|k: int| 0 <= k < b.formats@.len() ==> #[trigger] occurs_in(
            "  "@ + b.formats@[k].format@ + " - "@ + b.formats@[k].url@ + "\n"@, book_text(b)),
        b.formats@.len() == 0 ==> occurs_in("  (none)\n"@, book_text(b)),
{
    let (head, line, year, none, fl) = book_parts(b);
    let t = book_text(b);
    let x = head + line;
    let pre = x + year + "formats:\n"@;
    assert(t =~= x + year + ("formats:\n"@ + none + concat(fl)));
    if b.published is Some {
        let i = x.len() as int;
        assert(t.subrange(i, i + year.len()) =~= year);
    }
    assert(t =~= pre + none + concat(fl));
    if b.formats@.len() == 0 {
        let i = pre.len() as int;
        assert(t.subrange(i, i + none.len()) =~= none);
    }
    assert forall|k: int| 0 <= k < b.formats@.len() implies #[trigger] occurs_in(
        "  "@ + b.formats@[k].format@ + " - "@ + b.formats@[k].url@ + "\n"@, t) by {
        lemma_concat_split(fl, k);
        let y = pre + none + concat(fl.take(k));
        let i = y.len() as int;
        assert(fl[k] == "  "@ + b.formats@[k].format@ + " - "@ + b.formats@[k].url@ + "\n"@);
        assert(t =~= y + fl[k] + concat(fl.skip(k + 1)));
        assert(t.subrange(i, i + fl[k].len()) =~= fl[k]);
    }
}

} // verus!
