use dewey::module::jsonrpc::{encode_request, Param, ParamValue};
use serde_json::Value;

#[test]
fn encode_request_is_single_ndjson_line() {
    let params = vec![Param { key: "query".into(), value: ParamValue::Str("dune".into()) }];
    let line = encode_request(7, "search", &params);
    assert!(line.ends_with('\n'));
    let req: Value = serde_json::from_str(line.trim_end()).unwrap();
    assert_eq!(req["jsonrpc"], "2.0");
    assert_eq!(req["id"], 7);
    assert_eq!(req["method"], "search");
    assert_eq!(req["params"], serde_json::from_str::<Value>(r#"{"query": "dune"}"#).unwrap());
}

#[test]
fn encode_request_exact_text() {
    let params = vec![
        Param { key: "limit".into(), value: ParamValue::Num(5) },
        Param { key: "query".into(), value: ParamValue::Str("moby \"dick\"\n".into()) },
    ];
    let line = encode_request(1, "search", &params);
    assert_eq!(
        line,
        "{\"jsonrpc\":\"2.0\",\"id\":1,\"method\":\"search\",\"params\":{\"limit\":5,\"query\":\"moby \\\"dick\\\"\\n\"}}\n"
    );
    assert_eq!(line.matches('\n').count(), 1);
    assert_eq!(encode_request(12345678901234, "categories", &vec![]),
        "{\"jsonrpc\":\"2.0\",\"id\":12345678901234,\"method\":\"categories\",\"params\":{}}\n");
}

#[test]
fn encode_request_escapes_controls_as_serde_json_does() {
    let params = vec![Param { key: "q".into(), value: ParamValue::Str("a\u{1}b\tc\\d\u{8}\u{c}\r/é".into()) }];
    let line = encode_request(2, "search", &params);
    assert_eq!(
        line,
        "{\"jsonrpc\":\"2.0\",\"id\":2,\"method\":\"search\",\"params\":{\"q\":\"a\\u0001b\\tc\\\\d\\b\\f\\r/é\"}}\n"
    );
    let req: Value = serde_json::from_str(line.trim_end()).unwrap();
    assert_eq!(req["params"]["q"], "a\u{1}b\tc\\d\u{8}\u{c}\r/é");
}
