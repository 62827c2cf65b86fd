use vstd::prelude::*;
use crate::text::{decimal, join, push_decimal, push_str};

verus! {

#[verifier::external_type_specification]
#[verifier::external_body]
pub struct ExJsonError(serde_json::Error);

/// The lowercase hexadecimal digit for `d < 16`.
pub open spec fn hex_digit(d: nat) -> char {
    if d == 0 { '0' }
    else if d == 1 { '1' }
    else if d == 2 { '2' }
    else if d == 3 { '3' }
    else if d == 4 { '4' }
    else if d == 5 { '5' }
    else if d == 6 { '6' }
    else if d == 7 { '7' }
    else if d == 8 { '8' }
    else if d == 9 { '9' }
    else if d == 10 { 'a' }
    else if d == 11 { 'b' }
    else if d == 12 { 'c' }
    else if d == 13 { 'd' }
    else if d == 14 { 'e' }
    else { 'f' }
}

/// How `serde_json` writes one character inside a string literal: the
/// quote and the backslash after a backslash; backspace, tab, line feed,
/// form feed and carriage return as `\b`, `\t`, `\n`, `\f`, `\r`; the other
/// characters below U+0020 as `\u00` and two lowercase hex digits; every
/// other character as it is.
pub open spec fn json_escape(c: char) -> Seq<char> {
    if c == '"' {
        seq!['\\', '"']
    } else if c == '\\' {
        seq!['\\', '\\']
    } else if c == '\u{8}' {
        seq!['\\', 'b']
    } else if c == '\t' {
        seq!['\\', 't']
    } else if c == '\n' {
        seq!['\\', 'n']
    } else if c == '\u{c}' {
        seq!['\\', 'f']
    } else if c == '\r' {
        seq!['\\', 'r']
    } else if (c as u32) < 0x20 {
        seq!['\\', 'u', '0', '0', hex_digit((c as u32 / 16) as nat), hex_digit((c as u32 % 16) as nat)]
    } else {
        seq![c]
    }
}

/// The characters of `s`, each escaped as `serde_json` writes it.
pub open spec fn json_chars(s: Seq<char>) -> Seq<char>
    decreases s.len(),
{
    if s.len() == 0 {
        Seq::empty()
    } else {
        json_chars(s.drop_last()) + json_escape(s.last())
    }
}

/// The JSON string literal `serde_json` writes for `s`.
pub open spec fn json_string(s: Seq<char>) -> Seq<char> {
    seq!['"'] + json_chars(s) + seq!['"']
}

/// `serde_json::to_string(s)` for a string slice. Its source
/// (`format_escaped_str`, the `ESCAPE` table and
/// `CompactFormatter::write_char_escape`) writes a quote, then each
/// character of `s` as `json_escape` gives it, then a quote; it writes into
/// a `Vec`, which cannot fail, and the text is valid UTF-8.
#[verifier::external_body]
pub(crate) fn json_quote(s: &str) -> (r: Result<String, serde_json::Error>)
    ensures
        r is Ok,
        r matches Ok(t) ==> t@ == json_string(s@),
{
    serde_json::to_string(s)
}

/// Every character `json_escape` writes is at least U+0020.
proof fn lemma_json_chars_single_line(s: Seq<char>)
    ensures
        single_line(json_chars(s)),
    decreases s.len(),
{
    if s.len() > 0 {
        lemma_json_chars_single_line(s.drop_last());
        let p = json_chars(s.drop_last());
        let e = json_escape(s.last());
        let c = s.last();
        assert(single_line(e)) by {
            if c == '"' || c == '\\' || c == '\u{8}' || c == '\t' || c == '\n' || c == '\u{c}' || c == '\r' {
                assert(e.len() == 2 && e[0] == '\\' && (e[1] as u32) >= 0x20);
            } else if (c as u32) < 0x20 {
                let hi = hex_digit((c as u32 / 16) as nat);
                let lo = hex_digit((c as u32 % 16) as nat);
                assert(e == seq!['\\', 'u', '0', '0', hi, lo]);
                assert((hi as u32) >= 0x20 && (lo as u32) >= 0x20);
            } else {
                assert(e == seq![c]);
                
                assert((c as u32) >= 0x20);
            }
        }
        assert forall|i: int| 0 <= i < json_chars(s).len() implies (#[trigger] json_chars(s)[i]) as u32 >= 0x20 by {
            if i < p.len() {
                assert(json_chars(s)[i] == p[i]);
            } else {
                assert(json_chars(s)[i] == e[i - p.len()]);
            }
        }
    }
}

/// A scalar parameter value of a request.
#[derive(Debug, Clone)]
pub enum ParamValue {
    Str(String),
    Num(u64),
}

/// One named parameter of a request.
#[derive(Debug, Clone)]
pub struct Param {
    pub key: String,
    pub value: ParamValue,
}

/// A JSON-RPC 2.0 request as the host sends it.
#[derive(Debug)]
pub struct Request {
    pub jsonrpc: String,
    pub id: u64,
    pub method: String,
    pub params: Option<Vec<Param>>,
}

/// A JSON-RPC 2.0 response as a module sends it; `result` holds the JSON
/// text of the result value.
#[derive(Debug)]
pub struct Response {
    pub jsonrpc: String,
    pub id: u64,
    pub result: Option<String>,
    pub error: Option<RpcError>,
}

/// The error member of a response.
#[derive(Debug)]
pub struct RpcError {
    pub code: i64,
    pub message: String,
}

/// The JSON text of a parameter value.
pub open spec fn value_json(v: ParamValue) -> Seq<char> {
    match v {
        ParamValue::Str(s) => json_string(s@),
        ParamValue::Num(n) => decimal(n as nat),
    }
}

/// The JSON text of one member of the parameter object.
pub open spec fn member_json(p: Param) -> Seq<char> {
    json_string(p.key@) + seq![':'] + value_json(p.value)
}

/// The JSON object of the parameters, members in the given order.
pub open spec fn params_json(ps: Seq<Param>) -> Seq<char> {
    seq!['{'] + join(members_json(ps), seq![',']) + seq!['}']
}

/// The JSON text of each member, in order.
pub open spec fn members_json(ps: Seq<Param>) -> Seq<Seq<char>> {
    ps.map_values(|p: Param| member_json(p))
}

/// The request line for a call: one compact JSON object followed by a
/// line feed.
pub open spec fn request_line(id: u64, method: Seq<char>, ps: Seq<Param>) -> Seq<char> {
    "{\"jsonrpc\":\"2.0\",\"id\":"@ + decimal(id as nat) + ",\"method\":"@ + json_string(method)
        + ",\"params\":"@ + params_json(ps) + seq!['}', '\n']
}

/// No character of `s` is below U+0020: in particular `s` holds no line feed.
pub open spec fn single_line(s: Seq<char>) -> bool {
    forall|i: int| 0 <= i < s.len() ==> (#[trigger] s[i]) as u32 >= 0x20
}

fn push_json_string(out: &mut String, s: &str)
    requires
        single_line(old(out)@),
    ensures
        final(out)@ == old(out)@ + json_string(s@),
        single_line(final(out)@),
{
    proof {
        lemma_json_chars_single_line(s@);
    }
    match json_quote(s) {
        Ok(t) => {
            let ghost before = out@;
            push_str(out, t.as_str());
            assert forall|i: int| 0 <= i < out@.len() implies (#[trigger] out@[i]) as u32 >= 0x20 by {
                if i >= before.len() {
                    let k = i - before.len();
                    assert(out@[i] == t@[k]);
                    if k > 0 && k < t@.len() - 1 {
                        assert(t@[k] == json_chars(s@)[k - 1]);
                    }
                } else {
                    assert(out@[i] == before[i]);
                }
            }
        },
        Err(_) => {
            assert(false);
        },
    }
}

proof fn lemma_decimal_single_line(n: nat)
    ensures
        single_line(decimal(n)),
    decreases n,
{
    if n >= 10 {
        lemma_decimal_single_line(n / 10);
        let d = decimal(n / 10);
        assert forall|i: int| 0 <= i < decimal(n).len() implies (#[trigger] decimal(n)[i]) as u32 >= 0x20 by {
            if i < d.len() {
                assert(decimal(n)[i] == d[i]);
            }
        }
    }
}

fn push_text(out: &mut String, t: &str)
    requires
        single_line(old(out)@),
        single_line(t@),
    ensures
        final(out)@ == old(out)@ + t@,
        single_line(final(out)@),
{
    let ghost before = out@;
    push_str(out, t);
    assert forall|i: int| 0 <= i < out@.len() implies (#[trigger] out@[i]) as u32 >= 0x20 by {
        if i >= before.len() {
            assert(out@[i] == t@[i - before.len()]);
        } else {
            assert(out@[i] == before[i]);
        }
    }
}

fn push_number(out: &mut String, n: u64)
    requires
        single_line(old(out)@),
    ensures
        final(out)@ == old(out)@ + decimal(n as nat),
        single_line(final(out)@),
{
    let ghost before = out@;
    push_decimal(out, n);
    proof {
        lemma_decimal_single_line(n as nat);
    }
    assert forall|i: int| 0 <= i < out@.len() implies (#[trigger] out@[i]) as u32 >= 0x20 by {
        if i >= before.len() {
            assert(out@[i] == decimal(n as nat)[i - before.len()]);
        } else {
            assert(out@[i] == before[i]);
        }
    }
}

/// Encodes a request as one NDJSON line: the compact JSON object
/// `{"jsonrpc":"2.0","id":..,"method":..,"params":{..}}` and a line feed.
/// The line holds no other line feed.
pub fn encode_request(id: u64, method: &str, params: &Vec<Param>) -> (line: String)
    ensures
        line@ == request_line(id, method@, params@),
        line@.len() > 0,
        line@.last() == '\n',
        single_line(line@.drop_last()),
{
    proof {
        reveal_strlit("{\"jsonrpc\":\"2.0\",\"id\":");
        reveal_strlit(",\"method\":");
        reveal_strlit(",\"params\":");
        reveal_strlit("{");
        reveal_strlit(":");
        reveal_strlit(",");
        reveal_strlit("}");
    }
    let mut out = String::new();
    push_text(&mut out, "{\"jsonrpc\":\"2.0\",\"id\":");
    push_number(&mut out, id);
    push_text(&mut out, ",\"method\":");
    push_json_string(&mut out, method);
    push_text(&mut out, ",\"params\":");
    let ghost head = out@;
    assert(head == "{\"jsonrpc\":\"2.0\",\"id\":"@ + decimal(id as nat) + ",\"method\":"@ + json_string(method@)
        + ",\"params\":"@);
    let ghost members = members_json(params@);
    push_text(&mut out, "{");
    let n = params.len();
    for i in 0..n
        invariant
            n == params@.len(),
            members == members_json(params@),
            out@ == head + seq!['{'] + join(members.take(i as int), seq![',']),
            single_line(out@),
    {
        proof {
            reveal_strlit(":");
            reveal_strlit(",");
        }
        assert(members.take(i + 1).drop_last() == members.take(i as int));
        if i > 0 {
            push_text(&mut out, ",");
        }
        let p = &params[i];
        push_json_string(&mut out, p.key.as_str());
        push_text(&mut out, ":");
        match &p.value {
            ParamValue::Str(s) => push_json_string(&mut out, s.as_str()),
            ParamValue::Num(v) => push_number(&mut out, *v),
        }
        assert(members.take(i + 1).last() == member_json(params@[i as int]));
    }
    assert(members.take(n as int) == members);
    assert(out@ == head + seq!['{'] + join(members, seq![',']));
    push_text(&mut out, "}");
    assert(out@ == head + seq!['{'] + join(members, seq![',']) + seq!['}']);
    assert(out@ == head + params_json(params@));
    push_text(&mut out, "}");
    let ghost body = out@;
    push_char_line_end(&mut out);
    assert(out@.drop_last() == body);
    assert(out@ == head + params_json(params@) + seq!['}'] + seq!['\n']);
    assert(out@ =~= request_line(id, method@, params@));
    out
}

fn push_char_line_end(out: &mut String)
    ensures
        final(out)@ == old(out)@ + seq!['\n'],
{
    crate::text::push_char(out, '\n');
}

} // verus!
