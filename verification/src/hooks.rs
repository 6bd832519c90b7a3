//! The lifecycle hooks that run around every request: which of them run
//! after a request is answered, and what they are told of the request.
use vstd::prelude::*;
use crate::json::{json_normalized, json_text, numbers_read, JsonValue};
use crate::rpc::{
    error_response_text, ok_response_text, parse_jsonrpc, request_id_of, response_is_error,
    str_member_or,
};

verus! {

/// A lifecycle event that hooks can be added for.
#[derive(PartialEq, Eq, Structural)]
pub enum HookEvent {
    /// Before a request is handled.
    PreRequest,
    /// After the response is written.
    PostResponse,
    /// After the response is written, where it is an error.
    OnError,
}

/// The hooks that run once a request is answered with `response`, in
/// order: the post-response hooks, then the error hooks where the response
/// is an error.
pub fn hooks_after(response: &str) -> (r: Vec<HookEvent>)
    ensures
        forall|id: Option<Seq<char>>, code: int, message: Seq<char>|
            response@ == #[trigger] error_response_text(id, code, message) ==> r@ == seq![
                HookEvent::PostResponse,
                HookEvent::OnError,
            ],
        forall|id: Option<Seq<char>>, result: Seq<char>|
            response@ == #[trigger] ok_response_text(id, result) ==> r@ == seq![
                HookEvent::PostResponse,
            ],
{
    let mut r: Vec<HookEvent> = Vec::new();
    r.push(HookEvent::PostResponse);
    if response_is_error(response) {
        r.push(HookEvent::OnError);
    }
    r
}

/// The request id and method that hooks are told of for the raw request
/// text `raw_request`: those that the request reads as (see
/// [`crate::rpc::reads_request`]), an id that it does not have read as the empty text;
/// both empty where the text is not JSON.
pub fn hook_subject(raw_request: &str) -> (r: (String, String))
    ensures
        json_normalized(raw_request@) is Err ==> r.0@ == Seq::<char>::empty() && r.1@
            == Seq::<char>::empty(),
        json_normalized(raw_request@) is Ok ==> exists|v: JsonValue|
            json_normalized(raw_request@) == Ok::<Seq<char>, Seq<char>>(#[trigger] json_text(v))
                && numbers_read(v) && r.0@ == match request_id_of(v) {
                Some(id) => id,
                None => Seq::<char>::empty(),
            } && r.1@ == str_member_or(v, "method"@, ""@),
{
    match parse_jsonrpc(raw_request) {
        Ok(request) => {
            let id = match request.id {
                Some(id) => id,
                None => String::new(),
            };
            (id, request.method)
        },
        Err(_) => (String::new(), String::new()),
    }
}

}
