use dewey::module::jsonrpc::{Response, RpcError};
use dewey::module::{exchange_result, resolve_command, Exchange, ModuleHost};

fn reply(result: Option<&str>, error: Option<(i64, &str)>) -> Exchange {
    Exchange::Reply(Ok(Response {
        jsonrpc: "2.0".into(),
        id: 1,
        result: result.map(|r| r.to_string()),
        error: error.map(|(code, message)| RpcError { code, message: message.into() }),
    }))
}

#[test]
fn exchange_returns_result_value() {
    assert_eq!(exchange_result("fake", reply(Some("{\"ok\":true}"), None)).unwrap(), "{\"ok\":true}");
}

#[test]
fn exchange_surfaces_module_error() {
    let err = exchange_result("fake", reply(Some("{}"), Some((-32000, "boom")))).unwrap_err();
    assert_eq!(err.exit_code(), 2);
    assert_eq!(err.message(), "module fake: boom (code -32000)");
}

#[test]
fn exchange_without_response_is_module_error() {
    let err = exchange_result("fake", Exchange::Closed).unwrap_err();
    assert_eq!(err.exit_code(), 2);
    assert!(err.message().contains("exited without a response"));
}

#[test]
fn exchange_timeout_is_module_error() {
    let err = exchange_result("fake", Exchange::TimedOut(1)).unwrap_err();
    assert_eq!(err.exit_code(), 2);
    assert_eq!(err.message(), "module fake: timed out after 1s");
}

#[test]
fn exchange_invalid_response_is_protocol_error() {
    let err = exchange_result("fake", Exchange::Reply(Err("expected value at line 1 column 1".into()))).unwrap_err();
    assert_eq!(err.exit_code(), 2);
    assert!(err.message().contains("module protocol"));
    assert_eq!(err.message(), "module fake: module protocol: expected value at line 1 column 1");
}

#[test]
fn exchange_with_neither_result_nor_error() {
    let err = exchange_result("fake", reply(None, None)).unwrap_err();
    assert_eq!(err.exit_code(), 2);
    assert!(err.message().contains("neither result nor error"));
    let err = exchange_result("fake", Exchange::ReadFailed("broken pipe".into())).unwrap_err();
    assert_eq!(err.message(), "module fake: read error: broken pipe");
}

#[test]
fn command_resolves_against_module_dir() {
    let cmd = vec!["python3".to_string(), "module.py".to_string(), "/etc/x".to_string()];
    assert_eq!(resolve_command(&cmd, "/mods/fake", false), vec!["python3", "/mods/fake/module.py", "/etc/x"]);
    assert_eq!(resolve_command(&cmd, "/mods/fake", true)[0], "/mods/fake/python3");
    let cmd = vec!["bin/run".to_string()];
    assert_eq!(resolve_command(&cmd, "/mods/fake", false), vec!["/mods/fake/bin/run"]);
    let host = ModuleHost::new("fake".into(), &vec!["python3".into(), "m.py".into()], "/mods/fake".into(), false);
    assert_eq!(host.command(), &vec!["python3".to_string(), "/mods/fake/m.py".to_string()]);
    assert_eq!(host.cwd(), "/mods/fake");
    assert_eq!(host.name, "fake");
    assert_eq!(host.name(), "fake");
}

#[test]
fn command_program_with_a_directory_part_is_local() {
    let cmd = vec!["./run".to_string(), "a/b".to_string()];
    assert_eq!(resolve_command(&cmd, "/m", false), vec!["/m/./run", "/m/a/b"]);
    let cmd = vec!["../shared/run".to_string()];
    assert_eq!(resolve_command(&cmd, "/m", false), vec!["/m/../shared/run"]);
}
