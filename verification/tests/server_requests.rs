fn j(text: &str) -> serde_json::Value {
    serde_json::from_str(text).unwrap()
}

use mcpjs::dispatch::{finish_prompt_get, finish_resource_read, finish_tool_call, RequestStep};
use mcpjs::registry::Registry;
use mcpjs::server::McpServer;
use mcpjs::types::{
    image_content, resource_content, text_content, PluginOptions, PromptSchema, ResourceSchema,
    ServerOptions, ToolSchema,
};

fn plan(s: &McpServer, reg: &Registry, text: &str) -> RequestStep {
    s.handle_request(reg, text).unwrap()
}

fn server() -> McpServer {
    McpServer::new(ServerOptions {
        name: "my-server".to_string(),
        version: "1.0.0".to_string(),
        description: Some("My server".to_string()),
        log_level: None,
    })
}

fn respond(step: RequestStep) -> serde_json::Value {
    match step {
        RequestStep::Respond(t) => serde_json::from_str(&t).unwrap(),
        _ => panic!("expected a response"),
    }
}

fn weather_tool() -> ToolSchema {
    ToolSchema {
        name: "get_weather".to_string(),
        description: Some("Get current weather for a city".to_string()),
        input_schema: "{\"type\":\"object\",\"properties\":{\"city\":{\"type\":\"string\"}}}"
            .to_string(),
    }
}

#[test]
fn new_server_is_empty() {
    let reg = Registry::new();
    let s = server();
    assert!(s.list_tools(&reg).is_empty());
    assert!(s.list_resources(&reg).is_empty());
    assert!(s.list_prompts(&reg).is_empty());
    assert!(s.plugins().is_empty());
    assert_eq!(s.get_decorator("db".to_string()), None);
}

#[test]
fn registered_tool_is_listed_once() {
    let mut reg = Registry::new();
    let mut s = server();
    s.tool(&mut reg, "get_weather".to_string(), weather_tool());
    s.tool(&mut reg, "get_weather".to_string(), weather_tool());
    s.tool(&mut reg, "search".to_string(), weather_tool());
    let mut tools = s.list_tools(&reg);
    tools.sort();
    assert_eq!(tools, vec!["get_weather".to_string(), "search".to_string()]);
}

#[test]
fn decorator_reads_back_last_value() {
    let mut s = server();
    s.decorate("db".to_string(), "one".to_string());
    s.decorate("db".to_string(), "two".to_string());
    s.decorate("cache".to_string(), "c".to_string());
    assert_eq!(s.get_decorator("db".to_string()), Some("two".to_string()));
    assert_eq!(s.get_decorator("cache".to_string()), Some("c".to_string()));
    assert_eq!(s.get_decorator("none".to_string()), None);
}

#[test]
fn plugins_are_recorded_with_options() {
    let mut s = server();
    s.register("cache".to_string(), Some(PluginOptions { name: "cache".to_string(), version: Some("1.2".to_string()) }));
    s.register("auth".to_string(), None);
    s.register("log".to_string(), Some(PluginOptions { name: "log".to_string(), version: None }));
    assert_eq!(
        s.plugins(),
        &vec![
            "cache:{\"name\":\"cache\",\"version\":\"1.2\"}".to_string(),
            "auth:{}".to_string(),
            "log:{\"name\":\"log\",\"version\":null}".to_string(),
        ]
    );
    let expected = serde_json::to_string(&j(r#"{"name": "cache", "version": "1.2"}"#)).unwrap();
    assert!(s.plugins()[0].ends_with(&expected));
}

#[test]
fn ping_answers_pong() {
    let reg = Registry::new();
    let s = server();
    let r = respond(plan(&s, &reg, "{\"jsonrpc\":\"2.0\",\"id\":3,\"method\":\"ping\"}"));
    assert_eq!(r, j(r#"{"jsonrpc":"2.0","id":"3","result":{"status":"pong"}}"#));
}

#[test]
fn unknown_method_is_an_error() {
    let reg = Registry::new();
    let s = server();
    let r = respond(plan(&s, &reg, "{\"id\":\"a\",\"method\":\"nope\"}"));
    assert_eq!(
        r,
        j(r#"{"jsonrpc":"2.0","id":"a","error":{"code":-32601,"message":"Method not found: nope"}}"#)
    );
    let r = respond(plan(&s, &reg, "{}"));
    assert_eq!(r["error"]["message"], "Method not found: ");
    assert_eq!(r["id"], serde_json::Value::Null);
}

#[test]
fn initialize_describes_server() {
    let reg = Registry::new();
    let s = server();
    let step = plan(&s, &reg, "{\"id\":1,\"method\":\"initialize\"}");
    let text = match step {
        RequestStep::Respond(t) => t,
        _ => panic!(),
    };
    let expected = j(r#"{
        "jsonrpc": "2.0", "id": "1",
        "result": {
            "protocolVersion": "2024-11-05",
            "serverInfo": {"name": "my-server", "version": "1.0.0", "description": "My server"},
            "capabilities": {
                "tools": { "listChanged": true },
                "resources": { "listChanged": true, "subscribe": false },
                "prompts": { "listChanged": true },
                "logging": {}
            }
        }
    }"#);
    assert_eq!(text, serde_json::to_string(&expected).unwrap());
}

#[test]
fn tools_list_describes_tools() {
    let mut reg = Registry::new();
    let mut s = server();
    s.tool(&mut reg, "get_weather".to_string(), weather_tool());
    s.tool(&mut reg, 
        "broken".to_string(),
        ToolSchema { name: "broken".to_string(), description: None, input_schema: "{".to_string() },
    );
    let r = respond(plan(&s, &reg, "{\"id\":2,\"method\":\"tools/list\"}"));
    let mut tools = r["result"]["tools"].as_array().unwrap().clone();
    tools.sort_by_key(|t| t["name"].as_str().unwrap().to_string());
    assert_eq!(
        serde_json::Value::Array(tools),
        j(r#"[
            {"name": "broken", "description": null, "inputSchema": {"type": "object"}},
            {"name": "get_weather", "description": "Get current weather for a city",
             "inputSchema": {"type":"object","properties":{"city":{"type":"string"}}}}
        ]"#)
    );
}

#[test]
fn tool_call_forwards_arguments() {
    let mut reg = Registry::new();
    let mut s = server();
    s.tool(&mut reg, "get_weather".to_string(), weather_tool());
    let step = plan(
        &s,
        &reg,
        "{\"id\":4,\"method\":\"tools/call\",\"params\":{\"name\":\"get_weather\",\"arguments\":{\"city\":\"Paris\"}}}",
    );
    match step {
        RequestStep::CallTool { id, name, arguments } => {
            assert_eq!(id, Some("4".to_string()));
            assert_eq!(name, "get_weather");
            assert_eq!(arguments, "{\"city\":\"Paris\"}");
        }
        _ => panic!("expected a tool call"),
    }
    let step = plan(
        &s,
        &reg,
        "{\"id\":4,\"method\":\"tools/call\",\"params\":{\"name\":\"get_weather\"}}",
    );
    assert!(matches!(step, RequestStep::CallTool { arguments, .. } if arguments == "{}"));
}

#[test]
fn tool_call_errors() {
    let mut reg = Registry::new();
    let mut s = server();
    s.tool(&mut reg, "get_weather".to_string(), weather_tool());
    let r = respond(plan(&s, &reg, "{\"id\":4,\"method\":\"tools/call\"}"));
    assert_eq!(r["error"]["message"], "Missing tool name");
    let r = respond(plan(
        &s,
        &reg,
        "{\"id\":4,\"method\":\"tools/call\",\"params\":{\"name\":\"other\"}}",
    ));
    assert_eq!(r["error"]["message"], "Tool not found: other");
    assert_eq!(r["error"]["code"], -32601);
}

#[test]
fn tool_results_are_answered() {
    let id = Some("4".to_string());
    let r = finish_tool_call(&id, Ok("{\"content\":[]}".to_string()));
    assert_eq!(r, "{\"id\":\"4\",\"jsonrpc\":\"2.0\",\"result\":{\"content\":[]}}");
    let r = finish_tool_call(&id, Ok("Sunny".to_string()));
    let v: serde_json::Value = serde_json::from_str(&r).unwrap();
    assert_eq!(v["result"], j(r#"{"content":[{"type":"text","text":"Sunny"}]}"#));
    let r = finish_tool_call(&None, Err("boom".to_string()));
    assert_eq!(r, "{\"error\":{\"code\":-32601,\"message\":\"boom\"},\"id\":null,\"jsonrpc\":\"2.0\"}");
}

#[test]
fn resources_are_listed_and_read() {
    let mut reg = Registry::new();
    let mut s = server();
    s.resource(
        &mut reg,
        "docs".to_string(),
        "file:///docs/**".to_string(),
        ResourceSchema {
            uri: "file:///docs/**".to_string(),
            name: "docs".to_string(),
            description: None,
            mime_type: Some("text/markdown".to_string()),
        },
    );
    let r = respond(plan(&s, &reg, "{\"id\":1,\"method\":\"resources/list\"}"));
    assert_eq!(
        r["result"],
        j(r#"{"resources":[{"uri":"file:///docs/**","name":"docs","description":null,"mimeType":"text/markdown"}]}"#)
    );
    let step = plan(
        &s,
        &reg,
        "{\"id\":1,\"method\":\"resources/read\",\"params\":{\"uri\":\"file:///docs/a.md\"}}",
    );
    match step {
        RequestStep::CallResource { id, pattern, uri } => {
            assert_eq!(id, Some("1".to_string()));
            assert_eq!(pattern, "file:///docs/**");
            assert_eq!(uri, "file:///docs/a.md");
        }
        _ => panic!("expected a resource read"),
    }
    let r = respond(plan(
        &s,
        &reg,
        "{\"id\":1,\"method\":\"resources/read\",\"params\":{\"uri\":\"http://example.com/x\"}}",
    ));
    assert_eq!(r["error"]["message"], "No resource handler for URI: http://example.com/x");
    let r = respond(plan(&s, &reg, "{\"id\":1,\"method\":\"resources/read\"}"));
    assert_eq!(r["error"]["message"], "Missing URI");
}

#[test]
fn resource_read_without_matching_pattern_is_refused() {
    let mut reg = Registry::new();
    let mut s = server();
    s.resource(
        &mut reg,
        "users".to_string(),
        "db://users/*".to_string(),
        ResourceSchema { uri: "db://users/*".to_string(), name: "users".to_string(), description: None, mime_type: None },
    );
    s.resource(
        &mut reg,
        "docs".to_string(),
        "file:///docs/**".to_string(),
        ResourceSchema { uri: "file:///docs/**".to_string(), name: "docs".to_string(), description: None, mime_type: None },
    );
    let r = respond(plan(&s, &reg, "{\"id\":1,\"method\":\"resources/read\",\"params\":{\"uri\":\"db://users\"}}"));
    assert_eq!(r["error"]["message"], "No resource handler for URI: db://users");
    let r = respond(plan(&s, &reg, "{\"id\":1,\"method\":\"resources/read\",\"params\":{\"uri\":\"file:///docs-private/key.pem\"}}"));
    assert_eq!(r["error"]["message"], "No resource handler for URI: file:///docs-private/key.pem");
    let step = plan(&s, &reg, "{\"id\":1,\"method\":\"resources/read\",\"params\":{\"uri\":\"db://users/42\"}}");
    assert!(matches!(step, RequestStep::CallResource { ref pattern, .. } if pattern == "db://users/*"));
}

#[test]
fn text_that_is_not_json_is_refused() {
    let reg = Registry::new();
    let s = server();
    let parse_error = serde_json::from_str::<serde_json::Value>("{oops").unwrap_err().to_string();
    assert!(matches!(s.handle_request(&reg, "{oops"), Err(e) if e == format!("Invalid JSON-RPC: {}", parse_error)));
    assert!(s.handle_request(&reg, "").is_err());
    // any JSON value is a request, if not a useful one
    let r = respond(plan(&s, &reg, "[1,2]"));
    assert_eq!(r["error"]["message"], "Method not found: ");
}

#[test]
fn registrations_are_listed_by_every_server() {
    let mut reg = Registry::new();
    let mut a = server();
    let b = server();
    a.tool(&mut reg, "get_weather".to_string(), weather_tool());
    assert_eq!(b.list_tools(&reg), vec!["get_weather".to_string()]);
    let r = respond(plan(&b, &reg, "{\"id\":2,\"method\":\"tools/list\"}"));
    assert_eq!(r["result"]["tools"][0]["name"], "get_weather");
    let v: serde_json::Value = serde_json::from_str(&b.server_info(&reg)).unwrap();
    assert_eq!(v["tools"], j(r#"["get_weather"]"#));
    // calls reach only the server that holds the handler
    let r = respond(plan(&b, &reg, "{\"id\":2,\"method\":\"tools/call\",\"params\":{\"name\":\"get_weather\"}}"));
    assert_eq!(r["error"]["message"], "Tool not found: get_weather");
    let step = plan(&a, &reg, "{\"id\":2,\"method\":\"tools/call\",\"params\":{\"name\":\"get_weather\"}}");
    assert!(matches!(step, RequestStep::CallTool { .. }));
}

#[test]
fn resource_results_are_answered() {
    let id = Some("9".to_string());
    let r = finish_resource_read(&id, "file:///a", Ok("plain".to_string()));
    let v: serde_json::Value = serde_json::from_str(&r).unwrap();
    assert_eq!(v["result"], j(r#"{"contents":[{"uri":"file:///a","text":"plain"}]}"#));
    let r = finish_resource_read(&id, "file:///a", Ok("{\"contents\":[]}".to_string()));
    assert_eq!(r, "{\"id\":\"9\",\"jsonrpc\":\"2.0\",\"result\":{\"contents\":[]}}");
    let r = finish_resource_read(&id, "file:///a", Err("gone".to_string()));
    let v: serde_json::Value = serde_json::from_str(&r).unwrap();
    assert_eq!(v["error"]["message"], "gone");
}

#[test]
fn prompts_are_listed_and_fetched() {
    let mut reg = Registry::new();
    let mut s = server();
    s.prompt(
        &mut reg,
        "code_review".to_string(),
        PromptSchema {
            name: "code_review".to_string(),
            description: Some("Generate a code review prompt".to_string()),
            arguments: Some("[{\"name\":\"language\",\"required\":true}]".to_string()),
        },
    );
    let r = respond(plan(&s, &reg, "{\"id\":1,\"method\":\"prompts/list\"}"));
    assert_eq!(
        r["result"],
        j(r#"{"prompts":[{"name":"code_review","description":"Generate a code review prompt","arguments":[{"name":"language","required":true}]}]}"#)
    );
    let step = plan(
        &s,
        &reg,
        "{\"id\":1,\"method\":\"prompts/get\",\"params\":{\"name\":\"code_review\",\"arguments\":{\"language\":\"rust\"}}}",
    );
    assert!(matches!(step, RequestStep::CallPrompt { ref name, ref arguments, .. }
        if name == "code_review" && arguments == "{\"language\":\"rust\"}"));
    let r = respond(plan(
        &s,
        &reg,
        "{\"id\":1,\"method\":\"prompts/get\",\"params\":{\"name\":\"x\"}}",
    ));
    assert_eq!(r["error"]["message"], "Prompt not found: x");
    let r = respond(plan(&s, &reg, "{\"id\":1,\"method\":\"prompts/get\"}"));
    assert_eq!(r["error"]["message"], "Missing prompt name");
}

#[test]
fn prompt_without_arguments_lists_empty_array() {
    let mut reg = Registry::new();
    let mut s = server();
    s.prompt(
        &mut reg,
        "p".to_string(),
        PromptSchema { name: "p".to_string(), description: None, arguments: None },
    );
    let r = respond(plan(&s, &reg, "{\"id\":1,\"method\":\"prompts/list\"}"));
    assert_eq!(r["result"]["prompts"][0]["arguments"], j(r#"[]"#));
}

#[test]
fn prompt_results_must_be_json() {
    let id = Some("1".to_string());
    let r = finish_prompt_get(&id, Ok("{\"messages\":[]}".to_string()));
    assert_eq!(r, "{\"id\":\"1\",\"jsonrpc\":\"2.0\",\"result\":{\"messages\":[]}}");
    let r = finish_prompt_get(&id, Ok("oops".to_string()));
    let v: serde_json::Value = serde_json::from_str(&r).unwrap();
    let parse_error = serde_json::from_str::<serde_json::Value>("oops").unwrap_err().to_string();
    assert_eq!(v["error"]["message"], serde_json::Value::String(parse_error));
}

#[test]
fn server_info_lists_registrations() {
    let mut reg = Registry::new();
    let mut s = server();
    s.tool(&mut reg, "get_weather".to_string(), weather_tool());
    let v: serde_json::Value = serde_json::from_str(&s.server_info(&reg)).unwrap();
    assert_eq!(
        v,
        j(r#"{
            "name": "my-server", "version": "1.0.0", "description": "My server",
            "mcpjsVersion": "0.1.0",
            "tools": ["get_weather"], "resources": [], "prompts": []
        }"#)
    );
}

#[test]
fn generated_ids_are_v4_uuids() {
    let s = server();
    let a = s.generate_id();
    let b = s.generate_id();
    assert_eq!(a.len(), 36);
    assert_eq!(a.as_bytes()[14], b'4');
    assert!(matches!(a.as_bytes()[19], b'8' | b'9' | b'a' | b'b'));
    assert!(uuid::Uuid::parse_str(&a).is_ok());
    assert_ne!(a, b);
}

#[test]
fn content_helpers() {
    let t = text_content("Hello, world!".to_string());
    assert_eq!(t.content_type, "text");
    assert_eq!(t.text, Some("Hello, world!".to_string()));
    let i = image_content("aGk=".to_string(), "image/png".to_string());
    assert_eq!(i.content_type, "image");
    assert_eq!(i.data, Some("aGk=".to_string()));
    assert_eq!(i.mime_type, Some("image/png".to_string()));
    assert_eq!(i.text, None);
    let r = resource_content("file:///path/to/file".to_string(), Some("text/plain".to_string()));
    assert_eq!(r.content_type, "resource");
    assert_eq!(r.uri, Some("file:///path/to/file".to_string()));
    assert_eq!(r.mime_type, Some("text/plain".to_string()));
}
