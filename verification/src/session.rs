use vstd::prelude::*;
use crate::book::{Book, BooksResponse, Format};
use crate::cli::Command;
use crate::config::{expanded, opt_text, Config};
use crate::discovery::{broken_reason, entry_names, fails_with, locate_module, resolution, Manifest, ModuleEntry};
use crate::download::{download_filename, filename_for};
use crate::errors::CliError;
use crate::module::jsonrpc::{Param, ParamValue};
use crate::module::ModuleHost;
use crate::output::{books_table, count_line, format_names, render_books_table, render_count_line};
use crate::paths::{joined_path, path_join};
use crate::text::{blank, debug_quoted, debug_text, decimal, is_blank, join, join_strings, list_text, listing, push_decimal, push_str, str_eq, views};

verus! {

/// The view of an optional string.
pub open spec fn opt_view(o: Option<String>) -> Option<Seq<char>> {
    match o {
        Some(s) => Some(s@),
        None => None,
    }
}

/// A result limit must lie between 1 and 200.
pub open spec fn limit_ok(limit: u16) -> bool {
    1 <= limit && limit <= 200
}

/// Checks a `--limit` value.
pub fn validate_limit(limit: u16) -> (r: Result<u16, CliError>)
    ensures
        limit_ok(limit) ==> r == Ok::<u16, CliError>(limit),
        !limit_ok(limit) ==> fails_with(r, 1, "--limit must be between 1 and 200"@),
{
    if limit == 0 || limit > 200 {
        return Err(CliError::Usage(String::from_str("--limit must be between 1 and 200")));
    }
    Ok(limit)
}

/// Which module is selected: the `--module` flag, else the configured
/// default; the index of its entry, or the error.
pub open spec fn module_index(entries: Seq<ModuleEntry>, flag: Option<Seq<char>>, default: Option<Seq<char>>) -> Result<int, (int, Seq<char>)> {
    match flag {
        Some(n) => resolution(entries, n),
        None => match default {
            Some(n) => resolution(entries, n),
            None => Err((1, "no module selected; pass --module or set default_module in config (installed: "@
                + listing(entry_names(entries)) + ")"@)),
        },
    }
}

/// The index of the entry of the selected module.
pub fn select_module(entries: &Vec<ModuleEntry>, flag: &Option<String>, cfg: &Config) -> (r: Result<usize, CliError>)
    ensures
        match module_index(entries@, opt_view(*flag), opt_view(cfg.default_module)) {
            Ok(i) => r matches Ok(j) && j as int == i,
            Err((code, text)) => fails_with(r, code, text),
        },
        r matches Ok(i) ==> i < entries@.len() && entries@[i as int].manifest is Some,
{
    let name = match flag {
        Some(n) => n,
        None => match &cfg.default_module {
            Some(n) => n,
            None => {
                let mut m = String::from_str(
                    "no module selected; pass --module or set default_module in config (installed: ",
                );
                let list = crate::discovery::installed_names(entries);
                push_str(&mut m, list.as_str());
                push_str(&mut m, ")");
                return Err(CliError::Usage(m));
            },
        },
    };
    locate_module(entries, name.as_str())
}

/// The entry of the selected module: the one `--module` names, else the
/// configured default. It is a usage error when neither is given.
pub fn resolve<'a>(entries: &'a Vec<ModuleEntry>, flag: Option<String>, cfg: &Config) -> (r: Result<&'a ModuleEntry, CliError>)
    ensures
        match module_index(entries@, opt_view(flag), opt_view(cfg.default_module)) {
            Ok(i) => r matches Ok(e) && *e == entries@[i],
            Err((code, text)) => fails_with(r, code, text),
        },
{
    match select_module(entries, &flag, cfg) {
        Ok(i) => Ok(&entries[i]),
        Err(e) => Err(e),
    }
}

/// Why a module may not be called for `method`: it does not declare the
/// capability. `None` when it does.
pub open spec fn capability_problem(e: ModuleEntry, method: Seq<char>) -> Option<Seq<char>> {
    match e.manifest {
        Some(m) => if views(m.capabilities@).contains(method) {
            None
        } else {
            Some("module "@ + e.name@ + " does not support "@ + method + " (capabilities: "@
                + listing(views(m.capabilities@)) + ")"@)
        },
        None => None,
    }
}

/// Refuses to call a module for a method it does not declare as a
/// capability.
pub fn require_capability(entry: &ModuleEntry, method: &str) -> (r: Result<(), CliError>)
    requires
        entry.manifest is Some,
    ensures
        match capability_problem(*entry, method@) {
            Some(t) => fails_with(r, 1, t),
            None => r is Ok,
        },
{
    let m = match &entry.manifest {
        Some(m) => m,
        None => {
            return Ok(());
        },
    };
    let ghost caps = views(m.capabilities@);
    let n = m.capabilities.len();
    for i in 0..n
        invariant
            n == m.capabilities@.len(),
            caps == views(m.capabilities@),
            entry.manifest == Some(*m),
            forall|j: int| 0 <= j < i ==> caps[j] != method@,
    {
        if str_eq(m.capabilities[i].as_str(), method) {
            assert(caps[i as int] == m.capabilities@[i as int]@);
            assert(caps[i as int] == method@);
            assert(caps.contains(method@));
            return Ok(());
        }
    }
    assert(!caps.contains(method@));
    let mut e = String::from_str("module ");
    push_str(&mut e, entry.name.as_str());
    push_str(&mut e, " does not support ");
    push_str(&mut e, method);
    push_str(&mut e, " (capabilities: ");
    let list = list_text(&m.capabilities);
    push_str(&mut e, list.as_str());
    push_str(&mut e, ")");
    Err(CliError::Usage(e))
}

/// A parameter value as the contracts see it.
pub ghost enum ArgView {
    Text(Seq<char>),
    Number(nat),
}

/// A parameter as the contracts see it: its key and value.
pub open spec fn param_view(p: Param) -> (Seq<char>, ArgView) {
    (p.key@, match p.value {
        ParamValue::Str(s) => ArgView::Text(s@),
        ParamValue::Num(n) => ArgView::Number(n as nat),
    })
}

/// The views of a list of parameters.
pub open spec fn params_view(ps: Seq<Param>) -> Seq<(Seq<char>, ArgView)> {
    ps.map_values(|p: Param| param_view(p))
}

/// One call to a module: the index of its entry, the method, and the
/// parameters, keys in ascending order (as the JSON object carries them).
#[derive(Debug)]
pub struct ModuleCall {
    pub module: usize,
    pub method: String,
    pub params: Vec<Param>,
}

/// What a command comes to once checked.
#[derive(Debug)]
pub enum Plan {
    /// Print the installed modules.
    ListModules,
    /// Install the module in this directory.
    Install { module_dir: String, force: bool },
    /// Call a module.
    Call(ModuleCall),
}

/// A plan as the contracts see it.
pub ghost enum PlanView {
    ListModules,
    Install(Seq<char>, bool),
    Call(int, Seq<char>, Seq<(Seq<char>, ArgView)>),
}

/// The view of a plan.
pub open spec fn plan_view(p: Plan) -> PlanView {
    match p {
        Plan::ListModules => PlanView::ListModules,
        Plan::Install { module_dir, force } => PlanView::Install(module_dir@, force),
        Plan::Call(c) => PlanView::Call(c.module as int, c.method@, params_view(c.params@)),
    }
}

/// A call to the selected module for `method`, when it declares that
/// capability.
pub open spec fn call_plan(
    entries: Seq<ModuleEntry>,
    flag: Option<Seq<char>>,
    cfg: Config,
    method: Seq<char>,
    params: Seq<(Seq<char>, ArgView)>,
) -> Result<PlanView, (int, Seq<char>)> {
    match module_index(entries, flag, opt_view(cfg.default_module)) {
        Err(e) => Err(e),
        Ok(i) => match capability_problem(entries[i], method) {
            Some(t) => Err((1, t)),
            None => Ok(PlanView::Call(i, method, params)),
        },
    }
}

/// What a command comes to: the plan, or the exit code and message of the
/// error that refuses it. Checks run in the order the command line states
/// them: empty query or category, then the limit, then the module, then
/// its capability.
pub open spec fn planned(cmd: Command, entries: Seq<ModuleEntry>, cfg: Config) -> Result<PlanView, (int, Seq<char>)> {
    match cmd {
        Command::Modules => Ok(PlanView::ListModules),
        Command::Install { module_dir, force } => Ok(PlanView::Install(module_dir@, force)),
        Command::Search { query, module, limit, json } => if blank(query@) {
            Err((1, "search query must not be empty"@))
        } else if !limit_ok(limit) {
            Err((1, "--limit must be between 1 and 200"@))
        } else {
            call_plan(entries, opt_view(module), cfg, "search"@,
                seq![("limit"@, ArgView::Number(limit as nat)), ("query"@, ArgView::Text(query@))])
        },
        Command::Categories { module } => call_plan(entries, opt_view(module), cfg, "categories"@, Seq::empty()),
        Command::List { category, module, limit } => if blank(category@) {
            Err((1, "--category must not be empty"@))
        } else if !limit_ok(limit) {
            Err((1, "--limit must be between 1 and 200"@))
        } else {
            call_plan(entries, opt_view(module), cfg, "list"@,
                seq![("category"@, ArgView::Text(category@)), ("limit"@, ArgView::Number(limit as nat))])
        },
        Command::Show { book_id, module } => call_plan(entries, opt_view(module), cfg, "book"@,
            seq![("id"@, ArgView::Text(book_id@))]),
        Command::Download { book_id, format, module, dir, force } => call_plan(entries, opt_view(module), cfg,
            "book"@, seq![("id"@, ArgView::Text(book_id@))]),
    }
}

/// A call planned for a command carries the command's arguments: a search
/// sends its query and its (validated) limit, a listing its category and
/// its limit, `show` and `download` the book's id; and no other command is
/// planned as a call.
pub proof fn lemma_call_carries_arguments(cmd: Command, entries: Seq<ModuleEntry>, cfg: Config)
    ensures
        planned(cmd, entries, cfg) matches Ok(PlanView::Call(i, m, ps)) ==> match cmd {
            Command::Search { query, limit, .. } => m == "search"@ && limit_ok(limit)
                && ps.contains(("limit"@, ArgView::Number(limit as nat)))
                && ps.contains(("query"@, ArgView::Text(query@))),
            Command::List { category, limit, .. } => m == "list"@ && limit_ok(limit)
                && ps.contains(("limit"@, ArgView::Number(limit as nat)))
                && ps.contains(("category"@, ArgView::Text(category@))),
            Command::Show { book_id, .. } => m == "book"@ && ps.contains(("id"@, ArgView::Text(book_id@))),
            Command::Download { book_id, .. } => m == "book"@ && ps.contains(("id"@, ArgView::Text(book_id@))),
            Command::Categories { .. } => m == "categories"@,
            _ => false,
        },
{
    match planned(cmd, entries, cfg) {
        Ok(PlanView::Call(i, m, ps)) => {
            match cmd {
                Command::Search { query, limit, .. } => {
                    assert(ps[0] == ("limit"@, ArgView::Number(limit as nat)));
                    assert(ps[1] == ("query"@, ArgView::Text(query@)));
                },
                Command::List { category, limit, .. } => {
                    assert(ps[0] == ("category"@, ArgView::Text(category@)));
                    assert(ps[1] == ("limit"@, ArgView::Number(limit as nat)));
                },
                Command::Show { book_id, .. } => {
                    assert(ps[0] == ("id"@, ArgView::Text(book_id@)));
                },
                Command::Download { book_id, .. } => {
                    assert(ps[0] == ("id"@, ArgView::Text(book_id@)));
                },
                _ => {},
            }
        },
        _ => {},
    }
}

fn text_param(key: &str, value: &String) -> (p: Param)
    ensures
        param_view(p) == (key@, ArgView::Text(value@)),
{
    Param { key: String::from_str(key), value: ParamValue::Str(value.clone()) }
}

fn number_param(key: &str, value: u16) -> (p: Param)
    ensures
        param_view(p) == (key@, ArgView::Number(value as nat)),
{
    Param { key: String::from_str(key), value: ParamValue::Num(value as u64) }
}

fn make_call(
    entries: &Vec<ModuleEntry>,
    module: &Option<String>,
    cfg: &Config,
    method: &str,
    params: Vec<Param>,
) -> (r: Result<Plan, CliError>)
    ensures
        match call_plan(entries@, opt_view(*module), *cfg, method@, params_view(params@)) {
            Ok(v) => r matches Ok(p) && plan_view(p) == v,
            Err((code, text)) => fails_with(r, code, text),
        },
        r matches Ok(Plan::Call(c)) ==> (c.module < entries@.len()
            && (entries@[c.module as int].manifest matches Some(m)
            && views(m.capabilities@).contains(c.method@))),
{
    let i = match select_module(entries, module, cfg) {
        Ok(i) => i,
        Err(e) => {
            return Err(e);
        },
    };
    match require_capability(&entries[i], method) {
        Ok(()) => {},
        Err(e) => {
            return Err(e);
        },
    }
    Ok(Plan::Call(ModuleCall { module: i, method: String::from_str(method), params }))
}

/// Checks a command against the installed modules and the configuration,
/// and says what it comes to. The host only calls a module for a method
/// the module declares as a capability.
pub fn plan_command(cmd: &Command, entries: &Vec<ModuleEntry>, cfg: &Config) -> (r: Result<Plan, CliError>)
    ensures
        match planned(*cmd, entries@, *cfg) {
            Ok(v) => r matches Ok(p) && plan_view(p) == v,
            Err((code, text)) => fails_with(r, code, text),
        },
        r matches Ok(Plan::Call(c)) ==> (c.module < entries@.len()
            && (entries@[c.module as int].manifest matches Some(m)
            && views(m.capabilities@).contains(c.method@))),
{
    let r = match cmd {
        Command::Modules => Ok(Plan::ListModules),
        Command::Install { module_dir, force } => Ok(Plan::Install { module_dir: module_dir.clone(), force: *force }),
        Command::Search { query, module, limit, json } => {
            if is_blank(query.as_str()) {
                return Err(CliError::Usage(String::from_str("search query must not be empty")));
            }
            let limit = match validate_limit(*limit) {
                Ok(l) => l,
                Err(e) => {
                    return Err(e);
                },
            };
            let mut params: Vec<Param> = Vec::new();
            params.push(number_param("limit", limit));
            params.push(text_param("query", query));
            assert(params_view(params@) =~= seq![("limit"@, ArgView::Number(limit as nat)), ("query"@, ArgView::Text(query@))]);
            make_call(entries, module, cfg, "search", params)
        },
        Command::Categories { module } => {
            let params: Vec<Param> = Vec::new();
            assert(params_view(params@) =~= Seq::empty());
            make_call(entries, module, cfg, "categories", params)
        },
        Command::List { category, module, limit } => {
            if is_blank(category.as_str()) {
                return Err(CliError::Usage(String::from_str("--category must not be empty")));
            }
            let limit = match validate_limit(*limit) {
                Ok(l) => l,
                Err(e) => {
                    return Err(e);
                },
            };
            let mut params: Vec<Param> = Vec::new();
            params.push(text_param("category", category));
            params.push(number_param("limit", limit));
            assert(params_view(params@) =~= seq![("category"@, ArgView::Text(category@)), ("limit"@, ArgView::Number(limit as nat))]);
            make_call(entries, module, cfg, "list", params)
        },
        Command::Show { book_id, module } => {
            let mut params: Vec<Param> = Vec::new();
            params.push(text_param("id", book_id));
            assert(params_view(params@) =~= seq![("id"@, ArgView::Text(book_id@))]);
            make_call(entries, module, cfg, "book", params)
        },
        Command::Download { book_id, format, module, dir, force } => {
            let mut params: Vec<Param> = Vec::new();
            params.push(text_param("id", book_id));
            assert(params_view(params@) =~= seq![("id"@, ArgView::Text(book_id@))]);
            make_call(entries, module, cfg, "book", params)
        },
    };
    r
}

/// The host for a resolved module entry, running its manifest command in
/// the entry's directory. `program_in_dir` tells whether the command's
/// first element names a file in that directory.
pub fn host_for(entry: &ModuleEntry, program_in_dir: bool) -> (h: ModuleHost)
    requires
        entry.manifest matches Some(m) && m.command@.len() > 0,
    ensures
        h.module_name() == entry.name@,
        entry.manifest matches Some(m) && h.argv() == crate::module::resolved_command(views(m.command@), entry.dir@, program_in_dir),
        h.dir() == entry.dir@,
{
    match &entry.manifest {
        Some(m) => ModuleHost::new(entry.name.clone(), &m.command, entry.dir.clone(), program_in_dir),
        None => {
            assert(false);
            ModuleHost::new(entry.name.clone(), &Vec::new(), entry.dir.clone(), program_in_dir)
        },
    }
}

/// The index of the first format of the list with the given tag, or the
/// length of the list when there is none.
pub open spec fn first_format(fs: Seq<Format>, tag: Seq<char>) -> nat
    decreases fs.len(),
{
    if fs.len() == 0 {
        0
    } else if fs[0].format@ == tag {
        0
    } else {
        1 + first_format(fs.drop_first(), tag)
    }
}

proof fn lemma_first_format_at(fs: Seq<Format>, tag: Seq<char>, i: int)
    requires
        0 <= i <= fs.len(),
        forall|j: int| 0 <= j < i ==> fs[j].format@ != tag,
        i < fs.len() ==> fs[i].format@ == tag,
    ensures
        first_format(fs, tag) == i,
    decreases i,
{
    if i > 0 {
        assert forall|j: int| 0 <= j < i - 1 implies fs.drop_first()[j].format@ != tag by {
            assert(fs.drop_first()[j] == fs[j + 1]);
        }
        lemma_first_format_at(fs.drop_first(), tag, i - 1);
    }
}

/// Where a download goes and what it fetches.
#[derive(Debug)]
pub struct DownloadPlan {
    pub url: String,
    pub dest_dir: String,
    pub filename: String,
}

/// The directory a download goes to: `--dir` when given, else the
/// configured download directory (with "~" expanded), else ".".
pub open spec fn download_dir_for(dir: Option<Seq<char>>, cfg: Config, home: Option<Seq<char>>) -> Seq<char> {
    match dir {
        Some(d) => d,
        None => match cfg.download_dir {
            Some(d) => expanded(d@, home),
            None => "."@,
        },
    }
}

/// Plans the download of `book` in `format`: the URL of the book's first
/// format with that tag, the destination directory and the filename. It is
/// a usage error when the book has no such format.
pub fn plan_download(book: &Book, format: &str, dir: Option<String>, cfg: &Config, home: Option<&str>) -> (r: Result<DownloadPlan, CliError>)
    ensures
        ({
            let i = first_format(book.formats@, format@);
            if i == book.formats@.len() {
                fails_with(r, 1, "book "@ + book.id@ + " has no format "@ + debug_text(format@) + "; available: "@
                    + listing(format_names(book.formats@)))
            } else {
                r matches Ok(p) && p.url@ == book.formats@[i as int].url@
                    && p.dest_dir@ == download_dir_for(opt_view(dir), *cfg, opt_text(home))
                    && p.filename@ == filename_for(book.title@, views(book.authors@), format@)
            }
        }),
{
    let n = book.formats.len();
    let mut i: usize = 0;
    while i < n
        invariant
            n == book.formats@.len(),
            0 <= i <= n,
            forall|j: int| 0 <= j < i ==> book.formats@[j].format@ != format@,
        ensures
            0 <= i <= n,
            forall|j: int| 0 <= j < i ==> book.formats@[j].format@ != format@,
            i < n ==> book.formats@[i as int].format@ == format@,
        decreases n - i,
    {
        if str_eq(book.formats[i].format.as_str(), format) {
            break;
        }
        i = i + 1;
    }
    proof {
        lemma_first_format_at(book.formats@, format@, i as int);
    }
    if i == n {
        let mut names: Vec<String> = Vec::new();
        for k in 0..n
            invariant
                n == book.formats@.len(),
                names@.len() == k,
                forall|j: int| 0 <= j < k ==> (#[trigger] names@[j])@ == book.formats@[j].format@,
        {
            names.push(book.formats[k].format.clone());
        }
        assert(views(names@) =~= format_names(book.formats@));
        let mut m = String::from_str("book ");
        push_str(&mut m, book.id.as_str());
        push_str(&mut m, " has no format ");
        let q = debug_quoted(format);
        push_str(&mut m, q.as_str());
        push_str(&mut m, "; available: ");
        let list = list_text(&names);
        push_str(&mut m, list.as_str());
        return Err(CliError::Usage(m));
    }
    let url = book.formats[i].url.clone();
    let dest_dir = match dir {
        Some(d) => d,
        None => match cfg.expanded_download_dir(home) {
            Some(d) => d,
            None => String::from_str("."),
        },
    };
    let filename = download_filename(book, format);
    Ok(DownloadPlan { url, dest_dir, filename })
}

/// The listing of search or category results: the table and the count.
pub open spec fn listing_text(resp: BooksResponse) -> Seq<char> {
    books_table(resp.books@) + count_line(resp.total, resp.books@.len())
}

/// Renders search or listing results: the table, then the count line.
pub fn render_listing(resp: &BooksResponse) -> (s: String)
    ensures
        s@ == listing_text(*resp),
{
    let mut s = render_books_table(&resp.books);
    let c = render_count_line(resp.total, resp.books.len());
    push_str(&mut s, c.as_str());
    s
}

/// One line of the module list: "<name> v<version> - <description>
/// [<capabilities>]", or "<dir name> - BROKEN: <reason>".
pub open spec fn entry_line(e: ModuleEntry) -> Seq<char> {
    match e.manifest {
        Some(m) => m.name@ + " v"@ + m.version@ + " - "@
            + (match m.description { Some(d) => d@, None => Seq::empty() }) + " ["@
            + join(views(m.capabilities@), ", "@) + "]\n"@,
        None => e.name@ + " - BROKEN: "@ + broken_reason(e) + "\n"@,
    }
}

/// The module list: one line per entry, or "no modules installed".
pub open spec fn entries_text(es: Seq<ModuleEntry>) -> Seq<char>
    decreases es.len(),
{
    if es.len() == 0 {
        "no modules installed\n"@
    } else {
        entry_lines(es)
    }
}

/// The lines of the module list, in order.
pub open spec fn entry_lines(es: Seq<ModuleEntry>) -> Seq<char>
    decreases es.len(),
{
    if es.len() == 0 {
        Seq::empty()
    } else {
        entry_lines(es.drop_last()) + entry_line(es.last())
    }
}

/// Renders the installed modules, broken ones included.
pub fn render_entries(entries: &Vec<ModuleEntry>) -> (s: String)
    ensures
        s@ == entries_text(entries@),
{
    if entries.len() == 0 {
        return String::from_str("no modules installed\n");
    }
    let mut out = String::new();
    let n = entries.len();
    for i in 0..n
        invariant
            n == entries@.len(),
            out@ == entry_lines(entries@.take(i as int)),
    {
        assert(entries@.take(i + 1).drop_last() == entries@.take(i as int));
        assert(entries@.take(i + 1).last() == entries@[i as int]);
        let e = &entries[i];
        let ghost before = out@;
        match &e.manifest {
            Some(m) => {
                push_str(&mut out, m.name.as_str());
                push_str(&mut out, " v");
                push_str(&mut out, m.version.as_str());
                push_str(&mut out, " - ");
                match &m.description {
                    Some(d) => push_str(&mut out, d.as_str()),
                    None => {},
                }
                push_str(&mut out, " [");
                let caps = join_strings(&m.capabilities, ", ");
                push_str(&mut out, caps.as_str());
                push_str(&mut out, "]\n");
            },
            None => {
                push_str(&mut out, e.name.as_str());
                push_str(&mut out, " - BROKEN: ");
                match &e.error {
                    Some(r) => push_str(&mut out, r.as_str()),
                    None => push_str(&mut out, "invalid manifest"),
                }
                push_str(&mut out, "\n");
            },
        }
        assert(out@ =~= before + entry_line(entries@[i as int]));
    }
    assert(entries@.take(n as int) == entries@);
    out
}

/// The module directory an install copies into: "<modules dir>/<name>",
/// for the manifest loaded from the source directory. It is a configuration
/// error when that manifest did not load or validate.
pub fn install_target(mods_dir: &str, loaded: &Result<Manifest, String>) -> (r: Result<String, CliError>)
    ensures
        match loaded {
            Ok(m) => r matches Ok(t) && t@ == joined_path(mods_dir@, m.name@),
            Err(e) => fails_with(r, 4, "cannot install: "@ + e@),
        },
{
    match loaded {
        Ok(m) => Ok(path_join(mods_dir, m.name.as_str())),
        Err(e) => {
            let mut s = String::from_str("cannot install: ");
            push_str(&mut s, e.as_str());
            Err(CliError::Config(s))
        },
    }
}

/// Decides an install into a target that `exists` or not: refused without
/// `force` when a module of that name is installed; otherwise whether the
/// old copy must be removed first (so the new one mirrors the source).
pub fn check_install(name: &str, exists: bool, force: bool) -> (r: Result<bool, CliError>)
    ensures
        exists && !force ==> fails_with(r, 1, "module "@ + name@ + " already installed; use --force to overwrite"@),
        !(exists && !force) ==> r == Ok::<bool, CliError>(exists),
{
    if exists && !force {
        let mut s = String::from_str("module ");
        push_str(&mut s, name);
        push_str(&mut s, " already installed; use --force to overwrite");
        return Err(CliError::Usage(s));
    }
    Ok(exists)
}

/// The line reporting a finished download.
pub fn downloaded_message(bytes: u64, dest: &str) -> (s: String)
    ensures
        s@ == "downloaded "@ + decimal(bytes as nat) + " bytes to "@ + dest@ + "\n"@,
{
    let mut s = String::from_str("downloaded ");
    push_decimal(&mut s, bytes);
    push_str(&mut s, " bytes to ");
    push_str(&mut s, dest);
    push_str(&mut s, "\n");
    s
}

/// The line reporting a finished install.
pub fn installed_message(name: &str, source: &str) -> (s: String)
    ensures
        s@ == "installed module "@ + name@ + " from "@ + source@ + "\n"@,
{
    let mut s = String::from_str("installed module ");
    push_str(&mut s, name);
    push_str(&mut s, " from ");
    push_str(&mut s, source);
    push_str(&mut s, "\n");
    s
}

} // verus!
