//! Handling of JSON-RPC requests: what each method does and answers.
use vstd::prelude::*;
use crate::json::{
    as_str_value, get_member, json_as_str, json_get, json_normalized, json_quoted, json_text,
    normalize_json, quote_json, text_eq, to_json_text, JsonValue,
};
use crate::listing::{
    prompts_list, prompts_list_text, resources_list, resources_list_text, tools_list,
    tools_list_text,
};
use crate::rpc::{
    error_response, error_response_text, ok_response, ok_response_text, opt_view, request_id,
    request_id_of, str_member_or, write_nullable_string,
};
use crate::server::{
    entries_have_key, entry_keys, has_key, initialize_text, keys_of, METHOD_ERROR_CODE,
};
use crate::types::{PromptSchema, ResourceSchema, ToolSchema};
use crate::uri::{find_resource_pattern, lookup_from, PatternLookup};

verus! {

/// What is to be done with a request.
pub enum RequestStep {
    /// Answer with this response text.
    Respond(String),
    /// Run the handler of the tool `name` on the JSON text `arguments`, then
    /// answer with [`finish_tool_call`].
    CallTool { id: Option<String>, name: String, arguments: String },
    /// Run the handler of the resource pattern `pattern` on `uri`, then
    /// answer with [`finish_resource_read`].
    CallResource { id: Option<String>, pattern: String, uri: String },
    /// Run the handler of the prompt `name` on the JSON text `arguments`,
    /// then answer with [`finish_prompt_get`].
    CallPrompt { id: Option<String>, name: String, arguments: String },
}

/// A [`RequestStep`] as texts.
pub enum StepView {
    Respond(Seq<char>),
    CallTool(Option<Seq<char>>, Seq<char>, Seq<char>),
    CallResource(Option<Seq<char>>, Seq<char>, Seq<char>),
    CallPrompt(Option<Seq<char>>, Seq<char>, Seq<char>),
}

impl View for RequestStep {
    type V = StepView;

    open spec fn view(&self) -> StepView {
        match self {
            RequestStep::Respond(t) => StepView::Respond(t@),
            RequestStep::CallTool { id, name, arguments } => StepView::CallTool(
                opt_view(*id),
                name@,
                arguments@,
            ),
            RequestStep::CallResource { id, pattern, uri } => StepView::CallResource(
                opt_view(*id),
                pattern@,
                uri@,
            ),
            RequestStep::CallPrompt { id, name, arguments } => StepView::CallPrompt(
                opt_view(*id),
                name@,
                arguments@,
            ),
        }
    }
}

/// The method of a request, or the empty text where it has none.
pub open spec fn method_of(request: JsonValue) -> Seq<char> {
    str_member_or(request, "method"@, ""@)
}

/// The string member `key` of the request's `params`, if it has one.
pub open spec fn param_str(request: JsonValue, key: Seq<char>) -> Option<Seq<char>> {
    match json_get(request, "params"@) {
        Some(p) => json_as_str(json_get(p, key)),
        None => None,
    }
}

/// The JSON text of the request's `params.arguments`, or `{}` where it has none.
pub open spec fn arguments_text(request: JsonValue) -> Seq<char> {
    match json_get(request, "params"@) {
        Some(p) => match json_get(p, "arguments"@) {
            Some(a) => json_text(a),
            None => "{}"@,
        },
        None => "{}"@,
    }
}

/// An error response to `request` with `message`.
pub open spec fn error_for(request: JsonValue, message: Seq<char>) -> Seq<char> {
    error_response_text(request_id_of(request), METHOD_ERROR_CODE as int, message)
}

/// A success response to `request` with the JSON text `result`.
pub open spec fn ok_for(request: JsonValue, result: Seq<char>) -> Seq<char> {
    ok_response_text(request_id_of(request), result)
}

/// What handling `request` calls for, for a server named `name`, `version`,
/// `description`, where the shared registry lists `tools`, `resources` and
/// `prompts` and the server's own handlers are listed by `tool_handlers`,
/// `resource_handlers` and `prompt_handlers`. Listings answer from the
/// registry; calls go to the server's handlers.
pub open spec fn planned_step(
    name: Seq<char>,
    version: Seq<char>,
    description: Option<Seq<char>>,
    request: JsonValue,
    tools: Seq<(String, ToolSchema)>,
    resources: Seq<(String, ResourceSchema)>,
    prompts: Seq<(String, PromptSchema)>,
    tool_handlers: Seq<(String, ToolSchema)>,
    resource_handlers: Seq<(String, ResourceSchema)>,
    prompt_handlers: Seq<(String, PromptSchema)>,
) -> StepView {
    let id = request_id_of(request);
    let method = method_of(request);
    if method == "initialize"@ {
        StepView::Respond(ok_for(request, initialize_text(name, version, description)))
    } else if method == "tools/list"@ {
        StepView::Respond(ok_for(request, tools_list_text(tools)))
    } else if method == "tools/call"@ {
        match param_str(request, "name"@) {
            None => StepView::Respond(error_for(request, "Missing tool name"@)),
            Some(n) => if has_key(tool_handlers, n) {
                StepView::CallTool(id, n, arguments_text(request))
            } else {
                StepView::Respond(error_for(request, "Tool not found: "@ + n))
            },
        }
    } else if method == "resources/list"@ {
        StepView::Respond(ok_for(request, resources_list_text(resources)))
    } else if method == "resources/read"@ {
        match param_str(request, "uri"@) {
            None => StepView::Respond(error_for(request, "Missing URI"@)),
            Some(u) => match lookup_from(keys_of(resource_handlers), u, 0) {
                PatternLookup::Matched(i) => StepView::CallResource(
                    id,
                    keys_of(resource_handlers)[i as int],
                    u,
                ),
                PatternLookup::NoMatch => StepView::Respond(
                    error_for(request, "No resource handler for URI: "@ + u),
                ),
            },
        }
    } else if method == "prompts/list"@ {
        StepView::Respond(ok_for(request, prompts_list_text(prompts)))
    } else if method == "prompts/get"@ {
        match param_str(request, "name"@) {
            None => StepView::Respond(error_for(request, "Missing prompt name"@)),
            Some(n) => if has_key(prompt_handlers, n) {
                StepView::CallPrompt(id, n, arguments_text(request))
            } else {
                StepView::Respond(error_for(request, "Prompt not found: "@ + n))
            },
        }
    } else if method == "ping"@ {
        StepView::Respond(ok_for(request, "{\"status\":\"pong\"}"@))
    } else {
        StepView::Respond(error_for(request, "Method not found: "@ + method))
    }
}

/// `prefix` followed by `rest`.
fn joined_text(prefix: &str, rest: &str) -> (r: String)
    ensures
        r@ == prefix@ + rest@,
{
    let mut s = String::from_str(prefix);
    s.append(rest);
    s
}

/// The JSON text of `request`'s `params.arguments`, or `{}`.
fn request_arguments(request: &JsonValue) -> (r: String)
    ensures
        r@ == arguments_text(*request),
{
    match get_member(request, "params") {
        Some(p) => match get_member(p, "arguments") {
            Some(a) => to_json_text(a),
            None => String::from_str("{}"),
        },
        None => String::from_str("{}"),
    }
}

/// The string member `key` of `request`'s `params`.
fn request_param<'a>(request: &'a JsonValue, key: &str) -> (r: Option<&'a str>)
    ensures
        match r {
            Some(s) => param_str(*request, key@) == Some(s@),
            None => param_str(*request, key@) is None,
        },
{
    match get_member(request, "params") {
        Some(p) => as_str_value(get_member(p, key)),
        None => None,
    }
}

/// The initialize result of a server.
fn initialize_result(name: &str, version: &str, description: &Option<String>) -> (r: String)
    ensures
        r@ == initialize_text(name@, version@, opt_view(*description)),
{
    let mut out = String::from_str(
        "{\"capabilities\":{\"logging\":{},\"prompts\":{\"listChanged\":true},\"resources\":{\"listChanged\":true,\"subscribe\":false},\"tools\":{\"listChanged\":true}},\"protocolVersion\":\"2024-11-05\",\"serverInfo\":{\"description\":",
    );
    write_nullable_string(description, &mut out);
    out.append(",\"name\":");
    let n = quote_json(name);
    out.append(n.as_str());
    out.append(",\"version\":");
    let v = quote_json(version);
    out.append(v.as_str());
    out.append("}}");
    assert(out@ =~= initialize_text(name@, version@, opt_view(*description)));
    out
}

/// Decides what handling `request` calls for (see [`planned_step`]), given
/// the server's name, version and description, the listings of the shared
/// registry and those of the server's handlers.
pub fn plan_request(
    name: &str,
    version: &str,
    description: &Option<String>,
    request: &JsonValue,
    tools: &Vec<(String, ToolSchema)>,
    resources: &Vec<(String, ResourceSchema)>,
    prompts: &Vec<(String, PromptSchema)>,
    tool_handlers: &Vec<(String, ToolSchema)>,
    resource_handlers: &Vec<(String, ResourceSchema)>,
    prompt_handlers: &Vec<(String, PromptSchema)>,
) -> (r: RequestStep)
    ensures
        r@ == planned_step(
            name@,
            version@,
            opt_view(*description),
            *request,
            tools@,
            resources@,
            prompts@,
            tool_handlers@,
            resource_handlers@,
            prompt_handlers@,
        ),
{
    let id = request_id(request);
    let method: &str = match as_str_value(get_member(request, "method")) {
        Some(m) => m,
        None => "",
    };
    proof {
        reveal_strlit("");
    }
    assert(method@ == method_of(*request));
    if text_eq(method, "initialize") {
        let result = initialize_result(name, version, description);
        RequestStep::Respond(ok_response(&id, result.as_str()))
    } else if text_eq(method, "tools/list") {
        let result = tools_list(tools);
        RequestStep::Respond(ok_response(&id, result.as_str()))
    } else if text_eq(method, "tools/call") {
        match request_param(request, "name") {
            None => RequestStep::Respond(error_response(&id, METHOD_ERROR_CODE, "Missing tool name")),
            Some(n) => {
                if entries_have_key(tool_handlers, n) {
                    RequestStep::CallTool {
                        id,
                        name: String::from_str(n),
                        arguments: request_arguments(request),
                    }
                } else {
                    let message = joined_text("Tool not found: ", n);
                    RequestStep::Respond(error_response(&id, METHOD_ERROR_CODE, message.as_str()))
                }
            },
        }
    } else if text_eq(method, "resources/list") {
        let result = resources_list(resources);
        RequestStep::Respond(ok_response(&id, result.as_str()))
    } else if text_eq(method, "resources/read") {
        match request_param(request, "uri") {
            None => RequestStep::Respond(error_response(&id, METHOD_ERROR_CODE, "Missing URI")),
            Some(u) => {
                let patterns = entry_keys(resource_handlers);
                match find_resource_pattern(&patterns, u) {
                    PatternLookup::Matched(i) => {
                        let pattern = patterns[i].clone();
                        RequestStep::CallResource { id, pattern, uri: String::from_str(u) }
                    },
                    PatternLookup::NoMatch => {
                        let message = joined_text("No resource handler for URI: ", u);
                        RequestStep::Respond(
                            error_response(&id, METHOD_ERROR_CODE, message.as_str()),
                        )
                    },
                }
            },
        }
    } else if text_eq(method, "prompts/list") {
        let result = prompts_list(prompts);
        RequestStep::Respond(ok_response(&id, result.as_str()))
    } else if text_eq(method, "prompts/get") {
        match request_param(request, "name") {
            None => RequestStep::Respond(
                error_response(&id, METHOD_ERROR_CODE, "Missing prompt name"),
            ),
            Some(n) => {
                if entries_have_key(prompt_handlers, n) {
                    RequestStep::CallPrompt {
                        id,
                        name: String::from_str(n),
                        arguments: request_arguments(request),
                    }
                } else {
                    let message = joined_text("Prompt not found: ", n);
                    RequestStep::Respond(error_response(&id, METHOD_ERROR_CODE, message.as_str()))
                }
            },
        }
    } else if text_eq(method, "ping") {
        RequestStep::Respond(ok_response(&id, "{\"status\":\"pong\"}"))
    } else {
        let message = joined_text("Method not found: ", method);
        RequestStep::Respond(error_response(&id, METHOD_ERROR_CODE, message.as_str()))
    }
}


/// The outcome of a handler as texts.
pub open spec fn outcome_view(outcome: Result<String, String>) -> Result<Seq<char>, Seq<char>> {
    match outcome {
        Ok(s) => Ok(s@),
        Err(e) => Err(e@),
    }
}

/// The `tools/call` result for the text a tool handler returned: the text as
/// `serde_json` writes it back, or, where it is not JSON, one text block
/// holding it.
pub open spec fn tool_result_text(returned: Seq<char>) -> Seq<char> {
    match json_normalized(returned) {
        Ok(t) => t,
        Err(_) => "{\"content\":[{\"text\":"@ + json_quoted(returned) + ",\"type\":\"text\"}]}"@,
    }
}

/// The `resources/read` result for the text a resource handler returned for
/// `uri`: the text as `serde_json` writes it back, or, where it is not JSON,
/// one content entry holding it.
pub open spec fn resource_result_text(uri: Seq<char>, returned: Seq<char>) -> Seq<char> {
    match json_normalized(returned) {
        Ok(t) => t,
        Err(_) => "{\"contents\":[{\"text\":"@ + json_quoted(returned) + ",\"uri\":"@ + json_quoted(
            uri,
        ) + "}]}"@,
    }
}

/// The response to the request `id` after a tool handler ended with `outcome`.
pub open spec fn tool_call_response(id: Option<Seq<char>>, outcome: Result<Seq<char>, Seq<char>>) -> Seq<char> {
    match outcome {
        Ok(s) => ok_response_text(id, tool_result_text(s)),
        Err(e) => error_response_text(id, METHOD_ERROR_CODE as int, e),
    }
}

/// The response to the request `id` after the handler for `uri` ended with `outcome`.
pub open spec fn resource_read_response(
    id: Option<Seq<char>>,
    uri: Seq<char>,
    outcome: Result<Seq<char>, Seq<char>>,
) -> Seq<char> {
    match outcome {
        Ok(s) => ok_response_text(id, resource_result_text(uri, s)),
        Err(e) => error_response_text(id, METHOD_ERROR_CODE as int, e),
    }
}

/// The response to the request `id` after a prompt handler ended with
/// `outcome`: what it returned must be JSON; else the parse error is the answer.
pub open spec fn prompt_get_response(id: Option<Seq<char>>, outcome: Result<Seq<char>, Seq<char>>) -> Seq<char> {
    match outcome {
        Ok(s) => match json_normalized(s) {
            Ok(t) => ok_response_text(id, t),
            Err(e) => error_response_text(id, METHOD_ERROR_CODE as int, e),
        },
        Err(e) => error_response_text(id, METHOD_ERROR_CODE as int, e),
    }
}

/// Writes the response to the request `id` after a tool handler ended with
/// `outcome` (its returned text, or its error's message).
pub fn finish_tool_call(id: &Option<String>, outcome: Result<String, String>) -> (r: String)
    ensures
        r@ == tool_call_response(opt_view(*id), outcome_view(outcome)),
{
    match outcome {
        Ok(s) => match normalize_json(s.as_str()) {
            Ok(t) => ok_response(id, t.as_str()),
            Err(_) => {
                let mut result = String::from_str("{\"content\":[{\"text\":");
                let q = quote_json(s.as_str());
                result.append(q.as_str());
                result.append(",\"type\":\"text\"}]}");
                assert(result@ =~= tool_result_text(s@));
                ok_response(id, result.as_str())
            },
        },
        Err(e) => error_response(id, METHOD_ERROR_CODE, e.as_str()),
    }
}

/// Writes the response to the request `id` after the handler for `uri`
/// ended with `outcome`.
pub fn finish_resource_read(id: &Option<String>, uri: &str, outcome: Result<String, String>) -> (r:
    String)
    ensures
        r@ == resource_read_response(opt_view(*id), uri@, outcome_view(outcome)),
{
    match outcome {
        Ok(s) => match normalize_json(s.as_str()) {
            Ok(t) => ok_response(id, t.as_str()),
            Err(_) => {
                let mut result = String::from_str("{\"contents\":[{\"text\":");
                let q = quote_json(s.as_str());
                result.append(q.as_str());
                result.append(",\"uri\":");
                let u = quote_json(uri);
                result.append(u.as_str());
                result.append("}]}");
                assert(result@ =~= resource_result_text(uri@, s@));
                ok_response(id, result.as_str())
            },
        },
        Err(e) => error_response(id, METHOD_ERROR_CODE, e.as_str()),
    }
}

/// Writes the response to the request `id` after a prompt handler ended
/// with `outcome`.
pub fn finish_prompt_get(id: &Option<String>, outcome: Result<String, String>) -> (r: String)
    ensures
        r@ == prompt_get_response(opt_view(*id), outcome_view(outcome)),
{
    match outcome {
        Ok(s) => match normalize_json(s.as_str()) {
            Ok(t) => ok_response(id, t.as_str()),
            Err(e) => error_response(id, METHOD_ERROR_CODE, e.as_str()),
        },
        Err(e) => error_response(id, METHOD_ERROR_CODE, e.as_str()),
    }
}

}
