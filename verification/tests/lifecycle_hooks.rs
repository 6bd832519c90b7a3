use mcpjs::hooks::{hook_subject, hooks_after, HookEvent};
use mcpjs::rpc::{jsonrpc_error, jsonrpc_ok};

#[test]
fn hooks_after_a_success() {
    let r = hooks_after(&jsonrpc_ok(Some("1".to_string()), "{}".to_string()));
    assert!(matches!(r.as_slice(), [HookEvent::PostResponse]));
}

#[test]
fn hooks_after_an_error() {
    let r = hooks_after(&jsonrpc_error(None, -32601, "Method not found: x".to_string()));
    assert!(matches!(r.as_slice(), [HookEvent::PostResponse, HookEvent::OnError]));
}

#[test]
fn hooks_are_told_the_request() {
    assert_eq!(
        hook_subject("{\"id\":7,\"method\":\"tools/list\"}"),
        ("7".to_string(), "tools/list".to_string())
    );
    assert_eq!(hook_subject("{\"id\":\"a\"}"), ("a".to_string(), String::new()));
    assert_eq!(hook_subject("{\"method\":\"ping\"}"), (String::new(), "ping".to_string()));
    assert_eq!(hook_subject("{oops"), (String::new(), String::new()));
}
