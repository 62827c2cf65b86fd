use vstd::prelude::*;
use crate::errors::CliError;
use crate::paths::{final_component, last_segment, path_file_name};
use crate::text::{blank, chars_of, debug_quoted, debug_text, is_blank, list_text, listing, push_str, str_eq, views};

verus! {

/// A module's `manifest.toml`.
#[derive(Debug, Clone)]
pub struct Manifest {
    pub name: String,
    pub version: String,
    pub description: Option<String>,
    pub command: Vec<String>,
    pub capabilities: Vec<String>,
}

/// One directory found in the modules directory: its manifest when that
/// loaded and validated, else the reason it did not.
#[derive(Debug)]
pub struct ModuleEntry {
    pub name: String,
    pub dir: String,
    pub manifest: Option<Manifest>,
    pub error: Option<String>,
}

/// The capabilities a module may declare, one per protocol method.
pub open spec fn known_capability(c: Seq<char>) -> bool {
    c == "search"@ || c == "categories"@ || c == "list"@ || c == "book"@
}

/// A module name matches `^[a-z0-9-]+$`.
pub open spec fn valid_name(n: Seq<char>) -> bool {
    n.len() > 0 && forall|i: int| 0 <= i < n.len() ==> name_char(#[trigger] n[i])
}

pub open spec fn name_char(c: char) -> bool {
    ('a' <= c && c <= 'z') || ('0' <= c && c <= '9') || c == '-'
}

/// The first capability of the list that is not a known one, if any.
pub open spec fn first_unknown(caps: Seq<Seq<char>>) -> Option<Seq<char>>
    decreases caps.len(),
{
    if caps.len() == 0 {
        None
    } else if !known_capability(caps[0]) {
        Some(caps[0])
    } else {
        first_unknown(caps.drop_first())
    }
}

/// Why a manifest is invalid for a module directory named `dir_name`, or
/// `None` when it is valid. The checks run in this order: the name's form,
/// the name against the directory, the version, the command, the presence
/// of capabilities, and each capability in turn.
pub open spec fn manifest_problem(m: Manifest, dir_name: Seq<char>) -> Option<Seq<char>> {
    if !valid_name(m.name@) {
        Some("name must match ^[a-z0-9-]+$, got "@ + debug_text(m.name@))
    } else if m.name@ != dir_name {
        Some("manifest name "@ + debug_text(m.name@) + " does not match directory "@ + debug_text(dir_name))
    } else if blank(m.version@) {
        Some("version must be non-empty"@)
    } else if m.command@.len() == 0 {
        Some("command must be non-empty"@)
    } else if m.capabilities@.len() == 0 {
        Some("capabilities must be non-empty"@)
    } else {
        match first_unknown(views(m.capabilities@)) {
            Some(c) => Some("unknown capability "@ + debug_text(c) + " (allowed: search, categories, list, book)"@),
            None => None,
        }
    }
}

proof fn lemma_first_unknown_none(caps: Seq<Seq<char>>)
    ensures
        first_unknown(caps) is None <==> forall|i: int| 0 <= i < caps.len() ==> known_capability(#[trigger] caps[i]),
    decreases caps.len(),
{
    if caps.len() > 0 {
        lemma_first_unknown_none(caps.drop_first());
        if first_unknown(caps) is None {
            assert forall|i: int| 0 <= i < caps.len() implies known_capability(#[trigger] caps[i]) by {
                if i > 0 {
                    assert(caps[i] == caps.drop_first()[i - 1]);
                }
            }
        } else if known_capability(caps[0]) {
            let i = choose|i: int| 0 <= i < caps.drop_first().len() && !known_capability(#[trigger] caps.drop_first()[i]);
            assert(caps[i + 1] == caps.drop_first()[i]);
        }
    }
}

/// A valid manifest declares only known capabilities, at least one of them,
/// and a non-empty command.
pub proof fn lemma_valid_manifest(m: Manifest, dir_name: Seq<char>)
    requires
        manifest_problem(m, dir_name) is None,
    ensures
        valid_name(m.name@),
        m.name@ == dir_name,
        m.command@.len() > 0,
        m.capabilities@.len() > 0,
        forall|i: int| 0 <= i < m.capabilities@.len() ==> known_capability(#[trigger] m.capabilities@[i]@),
{
    lemma_first_unknown_none(views(m.capabilities@));
    assert forall|i: int| 0 <= i < m.capabilities@.len() implies known_capability(#[trigger] m.capabilities@[i]@) by {
        assert(views(m.capabilities@)[i] == m.capabilities@[i]@);
    }
}

fn is_name_char(c: char) -> (r: bool)
    ensures
        r == name_char(c),
{
    ('a' <= c && c <= 'z') || ('0' <= c && c <= '9') || c == '-'
}

fn is_valid_name(n: &str) -> (r: bool)
    ensures
        r == valid_name(n@),
{
    let v = chars_of(n);
    if v.len() == 0 {
        return false;
    }
    let len = v.len();
    for i in 0..len
        invariant
            len == v@.len(),
            v@ == n@,
            forall|j: int| 0 <= j < i ==> name_char(#[trigger] n@[j]),
    {
        if !is_name_char(v[i]) {
            return false;
        }
    }
    true
}

fn is_known_capability(c: &str) -> (r: bool)
    ensures
        r == known_capability(c@),
{
    str_eq(c, "search") || str_eq(c, "categories") || str_eq(c, "list") || str_eq(c, "book")
}

/// Checks a manifest against the name of the directory it was found in
/// (the last component of `dir`: for a path that does not end in '/' and
/// whose last segment is neither "." nor "..", that last segment).
pub fn validate(m: &Manifest, dir: &str) -> (r: Result<(), String>)
    ensures
        match manifest_problem(*m, final_component(dir@)) {
            Some(p) => r matches Err(e) && e@ == p,
            None => r is Ok,
        },
        last_segment(dir@).len() > 0 && last_segment(dir@) != seq!['.'] && last_segment(dir@) != seq!['.', '.']
            ==> match manifest_problem(*m, last_segment(dir@)) {
            Some(p) => r matches Err(e) && e@ == p,
            None => r is Ok,
        },
{
    let dir_name = path_file_name(dir);
    validate_named(m, dir_name.as_str())
}

/// Checks a manifest against the name of its module directory.
pub fn validate_named(m: &Manifest, dir_name: &str) -> (r: Result<(), String>)
    ensures
        match manifest_problem(*m, dir_name@) {
            Some(p) => r matches Err(e) && e@ == p,
            None => r is Ok,
        },
{
    if !is_valid_name(m.name.as_str()) {
        let mut e = String::from_str("name must match ^[a-z0-9-]+$, got ");
        let q = debug_quoted(m.name.as_str());
        push_str(&mut e, q.as_str());
        return Err(e);
    }
    if !str_eq(m.name.as_str(), dir_name) {
        let mut e = String::from_str("manifest name ");
        let q = debug_quoted(m.name.as_str());
        push_str(&mut e, q.as_str());
        push_str(&mut e, " does not match directory ");
        let d = debug_quoted(dir_name);
        push_str(&mut e, d.as_str());
        return Err(e);
    }
    if is_blank(m.version.as_str()) {
        return Err(String::from_str("version must be non-empty"));
    }
    if m.command.len() == 0 {
        return Err(String::from_str("command must be non-empty"));
    }
    if m.capabilities.len() == 0 {
        return Err(String::from_str("capabilities must be non-empty"));
    }
    let ghost caps = views(m.capabilities@);
    let n = m.capabilities.len();
    assert(caps.skip(0) == caps);
    for i in 0..n
        invariant
            n == m.capabilities@.len(),
            caps == views(m.capabilities@),
            valid_name(m.name@),
            m.name@ == dir_name@,
            !blank(m.version@),
            m.command@.len() > 0,
            first_unknown(caps) == first_unknown(caps.skip(i as int)),
    {
        assert(caps.skip(i as int).drop_first() == caps.skip(i + 1));
        assert(caps.skip(i as int)[0] == m.capabilities@[i as int]@);
        let c = &m.capabilities[i];
        if !is_known_capability(c.as_str()) {
            let mut e = String::from_str("unknown capability ");
            let q = debug_quoted(c.as_str());
            push_str(&mut e, q.as_str());
            push_str(&mut e, " (allowed: search, categories, list, book)");
            return Err(e);
        }
    }
    assert(caps.skip(n as int).len() == 0);
    Ok(())
}

/// Lexicographic order on texts, character by character (for UTF-8 text
/// the same order as comparing the encoded bytes).
pub open spec fn text_le(a: Seq<char>, b: Seq<char>) -> bool
    decreases a.len(),
{
    if a.len() == 0 {
        true
    } else if b.len() == 0 {
        false
    } else if a[0] != b[0] {
        a[0] < b[0]
    } else {
        text_le(a.drop_first(), b.drop_first())
    }
}

proof fn lemma_text_le_reflexive(a: Seq<char>)
    ensures
        text_le(a, a),
    decreases a.len(),
{
    if a.len() > 0 {
        lemma_text_le_reflexive(a.drop_first());
    }
}

proof fn lemma_text_le_total(a: Seq<char>, b: Seq<char>)
    ensures
        text_le(a, b) || text_le(b, a),
    decreases a.len(),
{
    if a.len() > 0 && b.len() > 0 && a[0] == b[0] {
        lemma_text_le_total(a.drop_first(), b.drop_first());
    }
}

proof fn lemma_text_le_transitive(a: Seq<char>, b: Seq<char>, c: Seq<char>)
    requires
        text_le(a, b),
        text_le(b, c),
    ensures
        text_le(a, c),
    decreases a.len(),
{
    if a.len() > 0 && b.len() > 0 && c.len() > 0 && a[0] == b[0] && b[0] == c[0] {
        lemma_text_le_transitive(a.drop_first(), b.drop_first(), c.drop_first());
    }
}

/// Whether the entry named `a` found at position `i` is listed before the
/// entry named `b` found at position `j`: by name, and by position among
/// equal names.
pub open spec fn listed_before(a: Seq<char>, i: int, b: Seq<char>, j: int) -> bool {
    (text_le(a, b) && a != b) || (a == b && i < j)
}

/// Whether `text_le(a, b)`.
fn text_le_exec(a: &str, b: &str) -> (r: bool)
    ensures
        r == text_le(a@, b@),
{
    let x = chars_of(a);
    let y = chars_of(b);
    let mut i: usize = 0;
    assert(a@.skip(0) == a@ && b@.skip(0) == b@);
    while i < x.len() && i < y.len()
        invariant
            x@ == a@,
            y@ == b@,
            i <= x@.len(),
            i <= y@.len(),
            text_le(a@, b@) == text_le(a@.skip(i as int), b@.skip(i as int)),
        decreases x@.len() - i,
    {
        assert(a@.skip(i as int).drop_first() == a@.skip(i + 1));
        assert(b@.skip(i as int).drop_first() == b@.skip(i + 1));
        assert(a@.skip(i as int)[0] == x@[i as int]);
        assert(b@.skip(i as int)[0] == y@[i as int]);
        if x[i] != y[i] {
            return x[i] < y[i];
        }
        i = i + 1;
    }
    i == x.len()
}

/// The order in which directory entries are taken: the positions of
/// `names`, sorted by name (stably, so equal names keep their order).
pub fn discovery_order(names: &Vec<String>) -> (order: Vec<usize>)
    ensures
        order@.len() == names@.len(),
        forall|i: int| 0 <= i < order@.len() ==> (#[trigger] order@[i]) < names@.len(),
        forall|i: int, j: int| 0 <= i < j < order@.len() ==> order@[i] != order@[j],
        forall|i: int, j: int| 0 <= i < j < order@.len() ==> #[trigger] listed_before(
            names@[order@[i] as int]@, order@[i] as int, names@[order@[j] as int]@, order@[j] as int),
{
    let n = names.len();
    let mut order: Vec<usize> = Vec::new();
    for k in 0..n
        invariant
            n == names@.len(),
            order@.len() == k,
            forall|i: int| 0 <= i < order@.len() ==> (#[trigger] order@[i]) < k,
            forall|i: int, j: int| 0 <= i < j < order@.len() ==> order@[i] != order@[j],
            forall|i: int, j: int| 0 <= i < j < order@.len() ==> #[trigger] listed_before(
                names@[order@[i] as int]@, order@[i] as int, names@[order@[j] as int]@, order@[j] as int),
    {
        let key = names[k].as_str();
        let mut p: usize = 0;
        while p < order.len() && text_le_exec(names[order[p]].as_str(), key)
            invariant
                n == names@.len(),
                k < n,
                key@ == names@[k as int]@,
                order@.len() == k,
                forall|i: int| 0 <= i < order@.len() ==> (#[trigger] order@[i]) < k,
                p <= order@.len(),
                forall|i: int| 0 <= i < p ==> text_le(names@[#[trigger] order@[i] as int]@, key@),
            decreases order@.len() - p,
        {
            p = p + 1;
        }
        let ghost old_order = order@;
        proof {
            if p < old_order.len() {
                lemma_text_le_total(names@[old_order[p as int] as int]@, key@);
                assert(text_le(key@, names@[old_order[p as int] as int]@));
                if names@[old_order[p as int] as int]@ == key@ {
                    lemma_text_le_reflexive(key@);
                }
            }
        }
        order.insert(p, k);
        assert(order@ == old_order.insert(p as int, k));
        assert forall|i: int, j: int| 0 <= i < j < order@.len() implies order@[i] != order@[j] by {
            if i != p && j != p {
                let ii = if i < p { i } else { i - 1 };
                let jj = if j < p { j } else { j - 1 };
                assert(order@[i] == old_order[ii]);
                assert(order@[j] == old_order[jj]);
            }
        }
        assert forall|i: int, j: int| 0 <= i < j < order@.len() implies #[trigger] listed_before(
            names@[order@[i] as int]@, order@[i] as int, names@[order@[j] as int]@, order@[j] as int) by {
            let ni = names@[order@[i] as int]@;
            let nj = names@[order@[j] as int]@;
            if i == p {
                // k goes before every entry after it
                let jj = j - 1;
                assert(order@[j] == old_order[jj]);
                let np = names@[old_order[p as int] as int]@;
                if jj > p {
                    assert(listed_before(np, old_order[p as int] as int, nj, old_order[jj] as int));
                    if np == nj {
                    } else {
                        lemma_text_le_transitive(key@, np, nj);
                    }
                    if key@ == nj {
                        lemma_text_le_reflexive(key@);
                        lemma_text_le_transitive(np, key@, nj);
                    }
                }
            } else if j == p {
                assert(order@[i] == old_order[i]);
            } else {
                let ii = if i < p { i } else { i - 1 };
                let jj = if j < p { j } else { j - 1 };
                assert(order@[i] == old_order[ii]);
                assert(order@[j] == old_order[jj]);
                assert(listed_before(names@[old_order[ii] as int]@, old_order[ii] as int, names@[old_order[jj] as int]@, old_order[jj] as int));
            }
        }
    }
    order
}

/// The names of the entries, in order.
pub open spec fn entry_names(entries: Seq<ModuleEntry>) -> Seq<Seq<char>> {
    entries.map_values(|e: ModuleEntry| e.name@)
}

/// The index of the first occurrence of `x` in `s`, or `s.len()` when there
/// is none.
pub open spec fn first_index(s: Seq<Seq<char>>, x: Seq<char>) -> nat
    decreases s.len(),
{
    if s.len() == 0 {
        0
    } else if s[0] == x {
        0
    } else {
        1 + first_index(s.drop_first(), x)
    }
}

/// `first_index` is the first position holding `x`, or the length when no
/// position does.
pub proof fn lemma_first_index(s: Seq<Seq<char>>, x: Seq<char>)
    ensures
        first_index(s, x) <= s.len(),
        forall|j: int| 0 <= j < first_index(s, x) ==> s[j] != x,
        first_index(s, x) < s.len() ==> s[first_index(s, x) as int] == x,
    decreases s.len(),
{
    if s.len() > 0 && s[0] != x {
        lemma_first_index(s.drop_first(), x);
        assert forall|j: int| 0 <= j < first_index(s, x) implies s[j] != x by {
            if j > 0 {
                assert(s[j] == s.drop_first()[j - 1]);
            }
        }
    }
}

proof fn lemma_first_index_at(s: Seq<Seq<char>>, x: Seq<char>, i: int)
    requires
        0 <= i <= s.len(),
        forall|j: int| 0 <= j < i ==> s[j] != x,
        i < s.len() ==> s[i] == x,
    ensures
        first_index(s, x) == i,
    decreases i,
{
    if i > 0 {
        assert forall|j: int| 0 <= j < i - 1 implies s.drop_first()[j] != x by {
            assert(s.drop_first()[j] == s[j + 1]);
        }
        lemma_first_index_at(s.drop_first(), x, i - 1);
    }
}

/// Why a broken entry is broken.
pub open spec fn broken_reason(e: ModuleEntry) -> Seq<char> {
    match e.error {
        Some(m) => m@,
        None => "invalid manifest"@,
    }
}

/// The names of the entries, as a list for a message: "(none)" when there
/// are none.
pub fn installed_names(entries: &Vec<ModuleEntry>) -> (r: String)
    ensures
        r@ == listing(entry_names(entries@)),
{
    if entries.len() == 0 {
        return String::from_str("(none)");
    }
    let mut names: Vec<String> = Vec::new();
    let n = entries.len();
    for i in 0..n
        invariant
            n == entries@.len(),
            names@.len() == i,
            forall|j: int| 0 <= j < i ==> (#[trigger] names@[j])@ == entries@[j].name@,
    {
        names.push(entries[i].name.clone());
    }
    assert(views(names@) =~= entry_names(entries@));
    list_text(&names)
}

/// Which entry the module named `name` resolves to, or the exit code and
/// message of the error: the first entry of that name; a usage error when
/// there is none, a configuration error when its manifest is broken.
pub open spec fn resolution(entries: Seq<ModuleEntry>, name: Seq<char>) -> Result<int, (int, Seq<char>)> {
    let i = first_index(entry_names(entries), name);
    if i == entries.len() {
        Err((1, "unknown module "@ + debug_text(name) + "; installed: "@ + listing(entry_names(entries))))
    } else if entries[i as int].manifest is None {
        Err((4, "module "@ + debug_text(name) + " is broken: "@ + broken_reason(entries[i as int])))
    } else {
        Ok(i as int)
    }
}

/// A module name resolves to the first entry that bears it, and only to an
/// entry whose manifest loaded; an unknown name is a usage error (exit 1)
/// and a broken module a configuration error (exit 4).
pub proof fn lemma_resolution(entries: Seq<ModuleEntry>, name: Seq<char>)
    ensures
        resolution(entries, name) matches Ok(i) ==> {
            &&& 0 <= i < entries.len()
            &&& entries[i].name@ == name
            &&& entries[i].manifest is Some
            &&& forall|j: int| 0 <= j < i ==> (#[trigger] entries[j]).name@ != name
        },
        resolution(entries, name) matches Err((code, _)) ==> {
            ||| code == 1 && forall|j: int| 0 <= j < entries.len() ==> (#[trigger] entries[j]).name@ != name
            ||| code == 4 && exists|j: int| 0 <= j < entries.len() && (#[trigger] entries[j]).name@ == name
                && entries[j].manifest is None
        },
{
    let names = entry_names(entries);
    lemma_first_index(names, name);
    let i = first_index(names, name);
    assert forall|j: int| 0 <= j < i && j < entries.len() implies (#[trigger] entries[j]).name@ != name by {
        assert(names[j] == entries[j].name@);
    }
    if i < entries.len() {
        assert(names[i as int] == entries[i as int].name@);
    }
}

/// Whether `r` is an error with the given exit code and message.
pub open spec fn fails_with<T>(r: Result<T, CliError>, code: int, text: Seq<char>) -> bool {
    r matches Err(e) && e.code_of() == code && e.text() == text
}

/// The index of the entry the module named `name` resolves to.
pub fn locate_module(entries: &Vec<ModuleEntry>, name: &str) -> (r: Result<usize, CliError>)
    ensures
        match resolution(entries@, name@) {
            Ok(i) => r matches Ok(j) && j as int == i,
            Err((code, text)) => fails_with(r, code, text),
        },
        r matches Ok(i) ==> i < entries@.len() && entries@[i as int].manifest is Some,
{
    let ghost names = entry_names(entries@);
    let n = entries.len();
    let mut i: usize = 0;
    while i < n
        invariant
            n == entries@.len(),
            names == entry_names(entries@),
            0 <= i <= n,
            forall|j: int| 0 <= j < i ==> names[j] != name@,
        decreases n - i,
    {
        if str_eq(entries[i].name.as_str(), name) {
            proof {
                lemma_first_index_at(names, name@, i as int);
            }
            let e = &entries[i];
            if e.manifest.is_none() {
                let mut m = String::from_str("module ");
                let q = debug_quoted(name);
                push_str(&mut m, q.as_str());
                push_str(&mut m, " is broken: ");
                match &e.error {
                    Some(reason) => push_str(&mut m, reason.as_str()),
                    None => push_str(&mut m, "invalid manifest"),
                }
                return Err(CliError::Config(m));
            }
            return Ok(i);
        }
        i = i + 1;
    }
    proof {
        lemma_first_index_at(names, name@, n as int);
    }
    let mut m = String::from_str("unknown module ");
    let q = debug_quoted(name);
    push_str(&mut m, q.as_str());
    push_str(&mut m, "; installed: ");
    let list = installed_names(entries);
    push_str(&mut m, list.as_str());
    Err(CliError::Usage(m))
}

/// Finds the module named `name` among the discovered entries: the first
/// entry of that name. It is a usage error when there is none, and a
/// configuration error when that entry's manifest is broken.
pub fn resolve_module<'a>(entries: &'a Vec<ModuleEntry>, name: &str) -> (r: Result<&'a ModuleEntry, CliError>)
    ensures
        match resolution(entries@, name@) {
            Ok(i) => r matches Ok(e) && *e == entries@[i],
            Err((code, text)) => fails_with(r, code, text),
        },
{
    match locate_module(entries, name) {
        Ok(i) => Ok(&entries[i]),
        Err(e) => Err(e),
    }
}

} // verus!
