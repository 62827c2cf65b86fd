use dewey::book::{Book, BooksResponse, Format};
use dewey::cli::Command;
use dewey::config::Config;
use dewey::discovery::{Manifest, ModuleEntry};
use dewey::module::jsonrpc::ParamValue;
use dewey::session::{
    check_install, downloaded_message, install_target, installed_message, plan_command, plan_download,
    render_entries, render_listing, require_capability, resolve, validate_limit, Plan,
};

fn entry(name: &str, caps: &[&str]) -> ModuleEntry {
    ModuleEntry {
        name: name.into(),
        dir: format!("/mods/{name}"),
        manifest: Some(Manifest {
            name: name.into(),
            version: "0.1.0".into(),
            description: Some("Fake".into()),
            command: vec!["python3".into(), "module.py".into()],
            capabilities: caps.iter().map(|c| c.to_string()).collect(),
        }),
        error: None,
    }
}

fn entries() -> Vec<ModuleEntry> {
    vec![
        ModuleEntry { name: "broken".into(), dir: "/mods/broken".into(), manifest: None, error: None },
        entry("fake", &["search", "categories", "list", "book"]),
        entry("gutenberg", &["search", "book"]),
    ]
}

fn none() -> Config {
    Config { default_module: None, download_dir: None }
}

fn search(q: &str, module: Option<&str>, limit: u16) -> Command {
    Command::Search { query: q.into(), module: module.map(|m| m.to_string()), limit, json: false }
}

#[test]
fn search_plans_a_call_with_sorted_params() {
    let es = entries();
    match plan_command(&search("moby dick", Some("fake"), 5), &es, &none()).unwrap() {
        Plan::Call(c) => {
            assert_eq!(c.module, 1);
            assert_eq!(c.method, "search");
            assert_eq!(c.params.len(), 2);
            assert_eq!(c.params[0].key, "limit");
            assert!(matches!(c.params[0].value, ParamValue::Num(5)));
            assert_eq!(c.params[1].key, "query");
            assert!(matches!(&c.params[1].value, ParamValue::Str(q) if q == "moby dick"));
        }
        _ => panic!("expected a call"),
    }
}

#[test]
fn empty_query_is_usage_error() {
    let err = plan_command(&search(" ", Some("fake"), 5), &entries(), &none()).unwrap_err();
    assert_eq!(err.exit_code(), 1);
    assert_eq!(err.message(), "search query must not be empty");
}

#[test]
fn limit_must_be_in_range() {
    assert_eq!(plan_command(&search("x", Some("fake"), 0), &entries(), &none()).unwrap_err().exit_code(), 1);
    assert_eq!(plan_command(&search("x", Some("fake"), 201), &entries(), &none()).unwrap_err().exit_code(), 1);
    assert!(plan_command(&search("x", Some("fake"), 200), &entries(), &none()).is_ok());
    assert_eq!(validate_limit(1).unwrap(), 1);
    assert_eq!(validate_limit(0).unwrap_err().message(), "--limit must be between 1 and 200");
}

#[test]
fn list_requires_category() {
    let cmd = Command::List { category: "".into(), module: Some("fake".into()), limit: 20 };
    let err = plan_command(&cmd, &entries(), &none()).unwrap_err();
    assert_eq!(err.exit_code(), 1);
    assert_eq!(err.message(), "--category must not be empty");
}

#[test]
fn unknown_module_is_usage_error() {
    assert_eq!(plan_command(&search("x", Some("nope"), 20), &entries(), &none()).unwrap_err().exit_code(), 1);
}

#[test]
fn broken_module_is_config_error() {
    assert_eq!(plan_command(&search("x", Some("broken"), 20), &entries(), &none()).unwrap_err().exit_code(), 4);
}

#[test]
fn no_module_selected_is_usage_error() {
    let err = plan_command(&search("x", None, 20), &entries(), &none()).unwrap_err();
    assert_eq!(err.exit_code(), 1);
    assert_eq!(
        err.message(),
        "no module selected; pass --module or set default_module in config (installed: broken, fake, gutenberg)"
    );
}

#[test]
fn default_module_comes_from_config() {
    let cfg = Config { default_module: Some("gutenberg".into()), download_dir: None };
    match plan_command(&search("x", None, 20), &entries(), &cfg).unwrap() {
        Plan::Call(c) => assert_eq!(c.module, 2),
        _ => panic!("expected a call"),
    }
    assert_eq!(resolve(&entries(), None, &cfg).unwrap().name, "gutenberg");
    assert_eq!(resolve(&entries(), Some("fake".into()), &cfg).unwrap().name, "fake");
}

#[test]
fn undeclared_capability_is_refused() {
    let cmd = Command::Categories { module: Some("gutenberg".into()) };
    let err = plan_command(&cmd, &entries(), &none()).unwrap_err();
    assert_eq!(err.exit_code(), 1);
    assert_eq!(err.message(), "module gutenberg does not support categories (capabilities: search, book)");
    assert!(require_capability(&entries()[2], "book").is_ok());
}

#[test]
fn show_and_download_call_book() {
    for cmd in [
        Command::Show { book_id: "2701".into(), module: Some("gutenberg".into()) },
        Command::Download {
            book_id: "2701".into(),
            format: "epub".into(),
            module: Some("gutenberg".into()),
            dir: None,
            force: false,
        },
    ] {
        match plan_command(&cmd, &entries(), &none()).unwrap() {
            Plan::Call(c) => {
                assert_eq!(c.method, "book");
                assert_eq!(c.params[0].key, "id");
                assert!(matches!(&c.params[0].value, ParamValue::Str(id) if id == "2701"));
            }
            _ => panic!("expected a call"),
        }
    }
}

#[test]
fn modules_and_install_need_no_module() {
    assert!(matches!(plan_command(&Command::Modules, &vec![], &none()).unwrap(), Plan::ListModules));
    let cmd = Command::Install { module_dir: "./m".into(), force: true };
    assert!(matches!(plan_command(&cmd, &vec![], &none()).unwrap(), Plan::Install { force: true, .. }));
}

fn moby() -> Book {
    Book {
        id: "2701".into(),
        title: "Moby Dick".into(),
        authors: vec!["Herman Melville".into()],
        languages: vec![],
        published: None,
        description: None,
        categories: vec![],
        formats: vec![
            Format { format: "epub".into(), url: "https://x/1.epub".into(), size: None },
            Format { format: "txt".into(), url: "https://x/1.txt".into(), size: None },
        ],
    }
}

#[test]
fn download_unknown_format_is_usage_error() {
    let err = plan_download(&moby(), "pdf", None, &none(), None).unwrap_err();
    assert_eq!(err.exit_code(), 1);
    assert!(err.message().contains("no format"));
    assert_eq!(err.message(), "book 2701 has no format \"pdf\"; available: epub, txt");
    let mut b = moby();
    b.formats = vec![];
    assert_eq!(
        plan_download(&b, "pdf", None, &none(), None).unwrap_err().message(),
        "book 2701 has no format \"pdf\"; available: (none)"
    );
}

#[test]
fn download_plan_picks_url_dir_and_name() {
    let p = plan_download(&moby(), "txt", None, &none(), None).unwrap();
    assert_eq!(p.url, "https://x/1.txt");
    assert_eq!(p.dest_dir, ".");
    assert_eq!(p.filename, "Moby Dick - Herman Melville.txt");
    let cfg = Config { default_module: None, download_dir: Some("~/Books".into()) };
    assert_eq!(plan_download(&moby(), "epub", None, &cfg, Some("/home/r")).unwrap().dest_dir, "/home/r/Books");
    assert_eq!(plan_download(&moby(), "epub", Some("/out".into()), &cfg, Some("/home/r")).unwrap().dest_dir, "/out");
}

#[test]
fn listing_and_messages() {
    let resp = BooksResponse { books: vec![moby()], total: Some(42) };
    let out = render_listing(&resp);
    assert!(out.contains("Moby Dick"));
    assert!(out.ends_with("showing 1 of 42\n"));
    assert_eq!(downloaded_message(10, "./a.epub"), "downloaded 10 bytes to ./a.epub\n");
    assert_eq!(installed_message("fake", "./fake"), "installed module fake from ./fake\n");
}

#[test]
fn modules_lists_entries_and_broken() {
    let out = render_entries(&entries());
    assert!(out.contains("fake v0.1.0"), "got: {out}");
    assert!(out.contains("BROKEN"), "got: {out}");
    assert_eq!(
        out,
        "broken - BROKEN: invalid manifest\nfake v0.1.0 - Fake [search, categories, list, book]\ngutenberg v0.1.0 - Fake [search, book]\n"
    );
    assert_eq!(render_entries(&vec![]), "no modules installed\n");
}

#[test]
fn install_guards_overwrite() {
    let loaded: Result<Manifest, String> = Ok(entries()[1].manifest.clone().unwrap());
    assert_eq!(install_target("/mods", &loaded).unwrap(), "/mods/fake");
    let failed: Result<Manifest, String> = Err("cannot read manifest.toml: not found".into());
    let err = install_target("/mods", &failed).unwrap_err();
    assert_eq!(err.exit_code(), 4);
    assert_eq!(err.message(), "cannot install: cannot read manifest.toml: not found");
    let err = check_install("fake", true, false).unwrap_err();
    assert_eq!(err.exit_code(), 1);
    assert_eq!(err.message(), "module fake already installed; use --force to overwrite");
    assert_eq!(check_install("fake", true, true).unwrap(), true);
    assert_eq!(check_install("fake", false, false).unwrap(), false);
}

#[test]
fn host_for_runs_manifest_command_in_module_dir() {
    let es = entries();
    let h = dewey::session::host_for(&es[1], false);
    assert_eq!(h.name, "fake");
    assert_eq!(h.command(), &vec!["python3".to_string(), "/mods/fake/module.py".to_string()]);
    assert_eq!(h.cwd(), "/mods/fake");
}
