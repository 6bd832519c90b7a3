//! JSON-RPC 2.0 framing: reading requests and writing responses.
//!
//! Responses are written as `serde_json` writes its objects: compact, with
//! the members in the order of their keys.
use vstd::prelude::*;
use crate::json::{
    as_str_value, as_u64_value, decimal, decimal_text, get_member, json_as_str, json_as_u64, json_get,
    json_normalized, json_quoted, json_text, normalize_json, numbers_read, parse_json, quote_json, signed_decimal, to_json_text,
    write_signed_decimal, JsonValue,
};
use crate::types::JsonRpcRequest;
use vstd::string::StrSliceExecFns;

verus! {

/// The text views of an optional string.
pub open spec fn opt_view(o: Option<String>) -> Option<Seq<char>> {
    match o {
        Some(s) => Some(s@),
        None => None,
    }
}

/// A JSON string for `Some`, `null` for `None`.
pub open spec fn nullable_string(t: Option<Seq<char>>) -> Seq<char> {
    match t {
        Some(s) => json_quoted(s),
        None => "null"@,
    }
}

/// The text of a successful response to the request `id`, whose result is
/// the JSON text `result`.
pub open spec fn ok_response_text(id: Option<Seq<char>>, result: Seq<char>) -> Seq<char> {
    "{\"id\":"@ + nullable_string(id) + ",\"jsonrpc\":\"2.0\",\"result\":"@ + result + "}"@
}

/// The text of an error response to the request `id`.
pub open spec fn error_response_text(id: Option<Seq<char>>, code: int, message: Seq<char>) -> Seq<
    char,
> {
    "{\"error\":{\"code\":"@ + signed_decimal(code) + ",\"message\":"@ + json_quoted(message)
        + "},\"id\":"@ + nullable_string(id) + ",\"jsonrpc\":\"2.0\"}"@
}

/// The JSON text that a success response carries for `result_json`: the
/// text as `serde_json` writes it back, or `null` where it is not JSON.
pub open spec fn result_or_null(result_json: Seq<char>) -> Seq<char> {
    match json_normalized(result_json) {
        Ok(t) => t,
        Err(_) => "null"@,
    }
}

/// The id of a request: its `id` member where that is a string, or the
/// decimal text of it where it is a non-negative integer.
pub open spec fn request_id_of(request: JsonValue) -> Option<Seq<char>> {
    match json_as_str(json_get(request, "id"@)) {
        Some(s) => Some(s),
        None => match json_as_u64(json_get(request, "id"@)) {
            Some(n) => Some(decimal(n as nat)),
            None => None,
        },
    }
}

/// Appends a JSON string for `Some`, `null` for `None`.
pub fn write_nullable_string(t: &Option<String>, out: &mut String)
    ensures
        final(out)@ == old(out)@ + nullable_string(opt_view(*t)),
{
    match t {
        Some(s) => {
            let q = quote_json(s.as_str());
            out.append(q.as_str());
        },
        None => out.append("null"),
    }
}

/// The text of a successful response to the request `id` whose result is
/// the JSON text `result`.
pub fn ok_response(id: &Option<String>, result: &str) -> (r: String)
    ensures
        r@ == ok_response_text(opt_view(*id), result@),
{
    let mut out = String::new();
    out.append("{\"id\":");
    write_nullable_string(id, &mut out);
    out.append(",\"jsonrpc\":\"2.0\",\"result\":");
    out.append(result);
    out.append("}");
    assert(out@ =~= ok_response_text(opt_view(*id), result@));
    out
}

/// The text of an error response to the request `id`.
pub fn error_response(id: &Option<String>, code: i32, message: &str) -> (r: String)
    ensures
        r@ == error_response_text(opt_view(*id), code as int, message@),
{
    let mut out = String::new();
    out.append("{\"error\":{\"code\":");
    write_signed_decimal(code, &mut out);
    out.append(",\"message\":");
    let q = quote_json(message);
    out.append(q.as_str());
    out.append("},\"id\":");
    write_nullable_string(id, &mut out);
    out.append(",\"jsonrpc\":\"2.0\"}");
    assert(out@ =~= error_response_text(opt_view(*id), code as int, message@));
    out
}

/// Writes a JSON-RPC success response for the request `id`; `result_json`
/// is carried as `serde_json` writes it back, or as `null` where it is not JSON.
pub fn jsonrpc_ok(id: Option<String>, result_json: String) -> (r: String)
    ensures
        r@ == ok_response_text(opt_view(id), result_or_null(result_json@)),
{
    match normalize_json(result_json.as_str()) {
        Ok(t) => ok_response(&id, t.as_str()),
        Err(_) => ok_response(&id, "null"),
    }
}

/// Writes a JSON-RPC error response for the request `id`.
pub fn jsonrpc_error(id: Option<String>, code: i32, message: String) -> (r: String)
    ensures
        r@ == error_response_text(opt_view(id), code as int, message@),
{
    error_response(&id, code, message.as_str())
}

/// The id of `request` (see [`request_id_of`]).
pub fn request_id(request: &JsonValue) -> (r: Option<String>)
    ensures
        opt_view(r) == request_id_of(*request),
{
    let id = get_member(request, "id");
    match as_str_value(id) {
        Some(s) => Some(String::from_str(s)),
        None => match as_u64_value(id) {
            Some(n) => Some(decimal_text(n)),
            None => None,
        },
    }
}

/// The text of `v`'s string member `key`, or `default` where it has none.
pub open spec fn str_member_or(v: JsonValue, key: Seq<char>, default: Seq<char>) -> Seq<char> {
    match json_as_str(json_get(v, key)) {
        Some(s) => s,
        None => default,
    }
}

/// `r` is what reading the JSON-RPC request `request` gives: `jsonrpc`
/// defaults to `2.0` and `method` to the empty text where they are not
/// strings; `id` is read by [`request_id`]; `params` is the JSON text of the
/// member, if any.
pub open spec fn reads_request(r: JsonRpcRequest, request: JsonValue) -> bool {
    &&& r.jsonrpc@ == str_member_or(request, "jsonrpc"@, "2.0"@)
    &&& opt_view(r.id) == request_id_of(request)
    &&& r.method@ == str_member_or(request, "method"@, ""@)
    &&& opt_view(r.params) == match json_get(request, "params"@) {
        Some(p) => Some(json_text(p)),
        None => None,
    }
}

/// Reads a JSON-RPC request from a parsed JSON document (see [`reads_request`]).
pub fn read_jsonrpc(request: &JsonValue) -> (r: JsonRpcRequest)
    ensures
        reads_request(r, *request),
{
    let jsonrpc = match as_str_value(get_member(request, "jsonrpc")) {
        Some(s) => String::from_str(s),
        None => String::from_str("2.0"),
    };
    let method = match as_str_value(get_member(request, "method")) {
        Some(s) => String::from_str(s),
        None => String::from_str(""),
    };
    let params = match get_member(request, "params") {
        Some(p) => Some(to_json_text(p)),
        None => None,
    };
    JsonRpcRequest { jsonrpc, id: request_id(request), method, params }
}

/// Parses `raw` as JSON and reads a JSON-RPC request from it; where `raw`
/// is not JSON, the error is the parse error's message.
pub fn parse_jsonrpc(raw: &str) -> (r: Result<JsonRpcRequest, String>)
    ensures
        match r {
            Ok(req) => exists|v: JsonValue|
                json_normalized(raw@) == Ok::<Seq<char>, Seq<char>>(#[trigger] json_text(v))
                    && numbers_read(v) && reads_request(req, v),
            Err(e) => json_normalized(raw@) == Err::<Seq<char>, Seq<char>>(e@),
        },
        json_normalized(raw@) is Ok <==> r is Ok,
{
    match parse_json(raw) {
        Ok(v) => Ok(read_jsonrpc(&v)),
        Err(e) => Err(e),
    }
}

/// Whether `response` is an error response: those written here begin with
/// `{"error":`, successes with `{"id":`.
pub fn response_is_error(response: &str) -> (r: bool)
    ensures
        forall|id: Option<Seq<char>>, code: int, message: Seq<char>|
            response@ == #[trigger] error_response_text(id, code, message) ==> r,
        forall|id: Option<Seq<char>>, result: Seq<char>|
            response@ == #[trigger] ok_response_text(id, result) ==> !r,
{
    let r = response.unicode_len() > 2 && response.get_char(2) == 'e';
    proof {
        reveal_strlit("{\"error\":{\"code\":");
        reveal_strlit("{\"id\":");
        assert forall|id: Option<Seq<char>>, code: int, message: Seq<char>|
            response@ == #[trigger] error_response_text(id, code, message) implies r by {
            let head = "{\"error\":{\"code\":"@;
            assert(head[2] == 'e');
            assert(response@[2] == head[2]);
        }
        assert forall|id: Option<Seq<char>>, result: Seq<char>|
            response@ == #[trigger] ok_response_text(id, result) implies !r by {
            let head = "{\"id\":"@;
            assert(head[2] == 'i');
            assert(response@[2] == head[2]);
        }
    }
    r
}

}
