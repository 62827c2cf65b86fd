use dewey::book::{Book, BooksResponse, Format};
use dewey::cli::Command;
use dewey::config::Config;
use dewey::discovery::{Manifest, ModuleEntry};
use dewey::module::jsonrpc::encode_request;
use dewey::module::{exchange_result, Exchange};
use dewey::module::jsonrpc::Response;
use dewey::session::{plan_command, render_listing, Plan};
use serde_json::Value;

fn fake_entry() -> ModuleEntry {
    ModuleEntry {
        name: "fake".into(),
        dir: "/fixtures/fake".into(),
        manifest: Some(Manifest {
            name: "fake".into(),
            version: "0.1.0".into(),
            description: None,
            command: vec!["python3".into(), "fake.py".into()],
            capabilities: vec!["search".into(), "categories".into(), "list".into(), "book".into()],
        }),
        error: None,
    }
}

/// The fake module's answer to a search, as it writes it.
const FAKE_RESULT: &str = r#"{"books":[{"id":"1","title":"Fake Book","authors":["Fake Author"],"formats":[{"format":"epub","url":"http://127.0.0.1:1/fake.epub"}]}],"total":1}"#;

fn books_from(result: &str) -> BooksResponse {
    let v: Value = serde_json::from_str(result).unwrap();
    let books = v["books"]
        .as_array()
        .unwrap()
        .iter()
        .map(|b| Book {
            id: b["id"].as_str().unwrap().into(),
            title: b["title"].as_str().unwrap().into(),
            authors: b["authors"].as_array().unwrap().iter().map(|a| a.as_str().unwrap().to_string()).collect(),
            languages: vec![],
            published: None,
            description: None,
            categories: vec![],
            formats: b["formats"]
                .as_array()
                .unwrap()
                .iter()
                .map(|f| Format {
                    format: f["format"].as_str().unwrap().into(),
                    url: f["url"].as_str().unwrap().into(),
                    size: None,
                })
                .collect(),
        })
        .collect();
    BooksResponse { books, total: v["total"].as_u64() }
}

#[test]
fn search_renders_table() {
    let entries = vec![fake_entry()];
    let cmd = Command::Search { query: "fake".into(), module: Some("fake".into()), limit: 5, json: false };
    let call = match plan_command(&cmd, &entries, &Config { default_module: None, download_dir: None }).unwrap() {
        Plan::Call(c) => c,
        _ => panic!("expected a call"),
    };
    let line = encode_request(1, &call.method, &call.params);
    assert_eq!(
        line,
        "{\"jsonrpc\":\"2.0\",\"id\":1,\"method\":\"search\",\"params\":{\"limit\":5,\"query\":\"fake\"}}\n"
    );
    let reply = Exchange::Reply(Ok(Response {
        jsonrpc: "2.0".into(),
        id: 1,
        result: Some(FAKE_RESULT.into()),
        error: None,
    }));
    let result = exchange_result("fake", reply).unwrap();
    let text = render_listing(&books_from(&result));
    assert!(text.contains("Fake Book"), "got: {text}");
    assert!(text.contains("Fake Author"), "got: {text}");
}
