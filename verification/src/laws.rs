//! Properties that hold across the server's operations.
use vstd::prelude::*;
use crate::dispatch::{
    arguments_text, error_for, method_of, ok_for, param_str, planned_step, prompt_get_response,
    resource_read_response, tool_call_response, StepView,
};
use crate::json::{decimal, json_get, json_normalized, json_quoted, json_text, JsonValue};
use crate::listing::{
    joined, prompt_item_text, prompts_list_text, resource_item_text, resources_list_text,
    string_array_text, tool_item_text, tools_list_text, MCPJS_VERSION,
};
use crate::rpc::{nullable_string, opt_view, reads_request};
use crate::listing::{listed_arguments, listed_input_schema};
use crate::types::JsonRpcRequest;
use crate::registry::is_listing;
use crate::rpc::{error_response_text, ok_response_text, request_id_of};
use crate::server::{
    initialize_text, keys_of, lemma_listing_keys, lists_keys, server_info_text, METHOD_ERROR_CODE,
};
use crate::types::{PromptSchema, ResourceSchema, ToolSchema};
use crate::uri::{lookup_from, text_matches, PatternLookup};

verus! {

/// A decorator that is set can be read back: after `decorate(key, value)`
/// the decorator map has `value` under `key`, and every other key keeps
/// its value.
pub proof fn law_decorate_then_get(
    before: Map<Seq<char>, Seq<char>>,
    after: Map<Seq<char>, Seq<char>>,
    key: Seq<char>,
    value: Seq<char>,
)
    requires
        after == before.insert(key, value),
    ensures
        after.contains_key(key) && after[key] == value,
        forall|k: Seq<char>|
            k != key ==> (#[trigger] after.contains_key(k) == before.contains_key(k)) && (
            before.contains_key(k) ==> after[k] == before[k]),
{
}

/// A registered name is listed exactly once: after registering `name`, any
/// listing of the registry's names holds `name` at exactly one place.
pub proof fn law_registered_name_listed_once<V>(
    before: Map<Seq<char>, V>,
    name: Seq<char>,
    value: V,
    keys: Seq<Seq<char>>,
)
    requires
        lists_keys(keys, before.insert(name, value).dom()),
    ensures
        exists|i: int| 0 <= i < keys.len() && keys[i] == name && forall|j: int|
            0 <= j < keys.len() && j != i ==> #[trigger] keys[j] != name,
{
    assert(before.insert(name, value).dom().contains(name));
    let i = choose|i: int| 0 <= i < keys.len() && keys[i] == name;
    assert forall|j: int| 0 <= j < keys.len() && j != i implies #[trigger] keys[j] != name by {
        if j < i {
            assert(keys[j] != keys[i]);
        } else {
            assert(keys[i] != keys[j]);
        }
    }
}

/// Registering under a name that is taken replaces the old entry: the
/// registry ends as if only the last registration had been made.
pub proof fn law_reregistering_replaces<V>(before: Map<Seq<char>, V>, name: Seq<char>, first: V, second: V)
    ensures
        before.insert(name, first).insert(name, second) == before.insert(name, second),
{
    assert(before.insert(name, first).insert(name, second) =~= before.insert(name, second));
}

/// `t` is a JSON-RPC response to the request `id`, success or error.
pub open spec fn responds_to(t: Seq<char>, id: Option<Seq<char>>) -> bool {
    (exists|result: Seq<char>| t == #[trigger] ok_response_text(id, result)) || (exists|
        code: int,
        message: Seq<char>,
    | t == #[trigger] error_response_text(id, code, message))
}

/// Every answer to a request carries the request's id, and every handler
/// call that a request leads to is made for that id.
pub proof fn law_answers_carry_request_id(
    name: Seq<char>,
    version: Seq<char>,
    description: Option<Seq<char>>,
    request: JsonValue,
    tools: Seq<(String, ToolSchema)>,
    resources: Seq<(String, ResourceSchema)>,
    prompts: Seq<(String, PromptSchema)>,
    tool_handlers: Seq<(String, ToolSchema)>,
    resource_handlers: Seq<(String, ResourceSchema)>,
    prompt_handlers: Seq<(String, PromptSchema)>,
)
    ensures
        match planned_step(
            name,
            version,
            description,
            request,
            tools,
            resources,
            prompts,
            tool_handlers,
            resource_handlers,
            prompt_handlers,
        ) {
            StepView::Respond(t) => responds_to(t, request_id_of(request)),
            StepView::CallTool(id, _, _) => id == request_id_of(request),
            StepView::CallResource(id, _, _) => id == request_id_of(request),
            StepView::CallPrompt(id, _, _) => id == request_id_of(request),
        },
{
}

/// A tool handler is called only for a tool registered with the server
/// (`table` holds its handlers), named by the request's `params.name`, on
/// the request's `params.arguments` (or `{}`).
pub proof fn law_tool_call_targets_registered_tool(
    name: Seq<char>,
    version: Seq<char>,
    description: Option<Seq<char>>,
    request: JsonValue,
    tools: Seq<(String, ToolSchema)>,
    resources: Seq<(String, ResourceSchema)>,
    prompts: Seq<(String, PromptSchema)>,
    tool_handlers: Seq<(String, ToolSchema)>,
    resource_handlers: Seq<(String, ResourceSchema)>,
    prompt_handlers: Seq<(String, PromptSchema)>,
    table: Map<Seq<char>, ToolSchema>,
)
    requires
        is_listing(tool_handlers, table),
    ensures
        planned_step(
            name,
            version,
            description,
            request,
            tools,
            resources,
            prompts,
            tool_handlers,
            resource_handlers,
            prompt_handlers,
        ) matches StepView::CallTool(_, n, a)
            ==> table.contains_key(n) && param_str(request, "name"@) == Some(n) && a
            == arguments_text(request),
{
    lemma_listing_keys(tool_handlers, table);
}

/// What `lookup_from` finds is a pattern that the URI matches.
pub proof fn lemma_lookup_match(patterns: Seq<Seq<char>>, uri: Seq<char>, i: int)
    requires
        0 <= i,
        patterns.len() <= usize::MAX,
    ensures
        lookup_from(patterns, uri, i) matches PatternLookup::Matched(j) ==> i <= j < patterns.len()
            && text_matches(patterns[j as int], uri),
    decreases patterns.len() - i,
{
    if i < patterns.len() && !text_matches(patterns[i], uri) {
        lemma_lookup_match(patterns, uri, i + 1);
    }
}

/// A resource handler is called only for a pattern registered with the
/// server (`table` holds its handlers) that the requested URI matches.
pub proof fn law_resource_read_targets_matching_pattern(
    name: Seq<char>,
    version: Seq<char>,
    description: Option<Seq<char>>,
    request: JsonValue,
    tools: Seq<(String, ToolSchema)>,
    resources: Seq<(String, ResourceSchema)>,
    prompts: Seq<(String, PromptSchema)>,
    tool_handlers: Seq<(String, ToolSchema)>,
    resource_handlers: Seq<(String, ResourceSchema)>,
    prompt_handlers: Seq<(String, PromptSchema)>,
    table: Map<Seq<char>, ResourceSchema>,
)
    requires
        is_listing(resource_handlers, table),
        resource_handlers.len() <= usize::MAX,
    ensures
        planned_step(
            name,
            version,
            description,
            request,
            tools,
            resources,
            prompts,
            tool_handlers,
            resource_handlers,
            prompt_handlers,
        ) matches StepView::CallResource(_, p, u)
            ==> table.contains_key(p) && text_matches(p, u) && param_str(request, "uri"@) == Some(
            u,
        ),
{
    if let Some(u) = param_str(request, "uri"@) {
        lemma_lookup_match(keys_of(resource_handlers), u, 0);
        if let PatternLookup::Matched(j) = lookup_from(keys_of(resource_handlers), u, 0) {
            assert(table.contains_key(resource_handlers[j as int].0@));
        }
    }
}

/// A prompt handler is called only for a prompt registered with the server
/// (`table` holds its handlers), named by the request's `params.name`, on
/// the request's `params.arguments` (or `{}`).
pub proof fn law_prompt_get_targets_registered_prompt(
    name: Seq<char>,
    version: Seq<char>,
    description: Option<Seq<char>>,
    request: JsonValue,
    tools: Seq<(String, ToolSchema)>,
    resources: Seq<(String, ResourceSchema)>,
    prompts: Seq<(String, PromptSchema)>,
    tool_handlers: Seq<(String, ToolSchema)>,
    resource_handlers: Seq<(String, ResourceSchema)>,
    prompt_handlers: Seq<(String, PromptSchema)>,
    table: Map<Seq<char>, PromptSchema>,
)
    requires
        is_listing(prompt_handlers, table),
    ensures
        planned_step(
            name,
            version,
            description,
            request,
            tools,
            resources,
            prompts,
            tool_handlers,
            resource_handlers,
            prompt_handlers,
        ) matches StepView::CallPrompt(_, n, a)
            ==> table.contains_key(n) && param_str(request, "name"@) == Some(n) && a
            == arguments_text(request),
{
    lemma_listing_keys(prompt_handlers, table);
}


/// A `ping` is answered with `{"status":"pong"}`, whatever is registered.
pub proof fn law_ping_answers_pong(
    name: Seq<char>,
    version: Seq<char>,
    description: Option<Seq<char>>,
    request: JsonValue,
    tools: Seq<(String, ToolSchema)>,
    resources: Seq<(String, ResourceSchema)>,
    prompts: Seq<(String, PromptSchema)>,
    tool_handlers: Seq<(String, ToolSchema)>,
    resource_handlers: Seq<(String, ResourceSchema)>,
    prompt_handlers: Seq<(String, PromptSchema)>,
)
    requires
        method_of(request) == "ping"@,
    ensures
        planned_step(
            name,
            version,
            description,
            request,
            tools,
            resources,
            prompts,
            tool_handlers,
            resource_handlers,
            prompt_handlers,
        )
            == StepView::Respond(ok_for(request, "{\"status\":\"pong\"}"@)),
{
    reveal_strlit("ping");
    reveal_strlit("initialize");
    reveal_strlit("tools/list");
    reveal_strlit("tools/call");
    reveal_strlit("resources/list");
    reveal_strlit("resources/read");
    reveal_strlit("prompts/list");
    reveal_strlit("prompts/get");
    assert("ping"@.len() == 4);
    assert("initialize"@ != "ping"@);
    assert("tools/list"@ != "ping"@);
    assert("tools/call"@ != "ping"@);
    assert("resources/list"@ != "ping"@);
    assert("resources/read"@ != "ping"@);
    assert("prompts/list"@ != "ping"@);
    assert("prompts/get"@ != "ping"@);
}

/// A request whose method is none of the protocol's is answered with the
/// error `Method not found: <method>`.
pub proof fn law_unknown_method_is_refused(
    name: Seq<char>,
    version: Seq<char>,
    description: Option<Seq<char>>,
    request: JsonValue,
    tools: Seq<(String, ToolSchema)>,
    resources: Seq<(String, ResourceSchema)>,
    prompts: Seq<(String, PromptSchema)>,
    tool_handlers: Seq<(String, ToolSchema)>,
    resource_handlers: Seq<(String, ResourceSchema)>,
    prompt_handlers: Seq<(String, PromptSchema)>,
)
    requires
        method_of(request) != "initialize"@,
        method_of(request) != "tools/list"@,
        method_of(request) != "tools/call"@,
        method_of(request) != "resources/list"@,
        method_of(request) != "resources/read"@,
        method_of(request) != "prompts/list"@,
        method_of(request) != "prompts/get"@,
        method_of(request) != "ping"@,
    ensures
        planned_step(
            name,
            version,
            description,
            request,
            tools,
            resources,
            prompts,
            tool_handlers,
            resource_handlers,
            prompt_handlers,
        )
            == StepView::Respond(error_for(request, "Method not found: "@ + method_of(request))),
{
}

/// Every server answers `tools/list`, `resources/list` and `prompts/list`
/// alike: from the registry that all servers share, whatever the server's
/// own name, version, description and handlers.
pub proof fn law_listings_are_shared(
    request: JsonValue,
    tools: Seq<(String, ToolSchema)>,
    resources: Seq<(String, ResourceSchema)>,
    prompts: Seq<(String, PromptSchema)>,
    name_a: Seq<char>,
    version_a: Seq<char>,
    description_a: Option<Seq<char>>,
    tool_handlers_a: Seq<(String, ToolSchema)>,
    resource_handlers_a: Seq<(String, ResourceSchema)>,
    prompt_handlers_a: Seq<(String, PromptSchema)>,
    name_b: Seq<char>,
    version_b: Seq<char>,
    description_b: Option<Seq<char>>,
    tool_handlers_b: Seq<(String, ToolSchema)>,
    resource_handlers_b: Seq<(String, ResourceSchema)>,
    prompt_handlers_b: Seq<(String, PromptSchema)>,
)
    requires
        method_of(request) == "tools/list"@ || method_of(request) == "resources/list"@
            || method_of(request) == "prompts/list"@,
    ensures
        planned_step(
            name_a,
            version_a,
            description_a,
            request,
            tools,
            resources,
            prompts,
            tool_handlers_a,
            resource_handlers_a,
            prompt_handlers_a,
        ) == planned_step(
            name_b,
            version_b,
            description_b,
            request,
            tools,
            resources,
            prompts,
            tool_handlers_b,
            resource_handlers_b,
            prompt_handlers_b,
        ),
{
    reveal_strlit("initialize");
    reveal_strlit("tools/list");
    reveal_strlit("tools/call");
    reveal_strlit("resources/list");
    reveal_strlit("resources/read");
    reveal_strlit("prompts/list");
    assert("initialize"@ != "tools/list"@) by {
        assert("initialize"@[0] != "tools/list"@[0]);
    }
    assert("initialize"@ != "resources/list"@) by {
        assert("initialize"@[0] != "resources/list"@[0]);
    }
    assert("initialize"@ != "prompts/list"@) by {
        assert("initialize"@[0] != "prompts/list"@[0]);
    }
    assert("tools/call"@ != "resources/list"@) by {
        assert("tools/call"@[0] != "resources/list"@[0]);
    }
    assert("tools/call"@ != "prompts/list"@) by {
        assert("tools/call"@[0] != "prompts/list"@[0]);
    }
    assert("tools/list"@ != "resources/list"@) by {
        assert("tools/list"@[0] != "resources/list"@[0]);
    }
    assert("tools/list"@ != "prompts/list"@) by {
        assert("tools/list"@[0] != "prompts/list"@[0]);
    }
    assert("resources/read"@ != "prompts/list"@) by {
        assert("resources/read"@[0] != "prompts/list"@[0]);
    }
    assert("resources/list"@ != "prompts/list"@) by {
        assert("resources/list"@[0] != "prompts/list"@[0]);
    }
    assert("tools/call"@ != "tools/list"@) by {
        assert("tools/call"@[6] != "tools/list"@[6]);
    }
}

/// Where `lookup_from` finds nothing, no pattern from `i` on matches the URI.
pub proof fn lemma_lookup_no_match(patterns: Seq<Seq<char>>, uri: Seq<char>, i: int)
    requires
        0 <= i,
        patterns.len() <= usize::MAX,
        lookup_from(patterns, uri, i) == PatternLookup::NoMatch,
    ensures
        forall|j: int| i <= j < patterns.len() ==> !text_matches(#[trigger] patterns[j], uri),
    decreases patterns.len() - i,
{
    if i < patterns.len() {
        lemma_lookup_no_match(patterns, uri, i + 1);
    }
}

/// A `resources/read` of `uri` calls, for the request's id, the handler of
/// a pattern registered with the server that `uri` matches, wherever there
/// is one; where there is none it is answered with the error
/// `No resource handler for URI: <uri>`.
pub proof fn law_resource_read_finds_handler(
    name: Seq<char>,
    version: Seq<char>,
    description: Option<Seq<char>>,
    request: JsonValue,
    tools: Seq<(String, ToolSchema)>,
    resources: Seq<(String, ResourceSchema)>,
    prompts: Seq<(String, PromptSchema)>,
    tool_handlers: Seq<(String, ToolSchema)>,
    resource_handlers: Seq<(String, ResourceSchema)>,
    prompt_handlers: Seq<(String, PromptSchema)>,
    table: Map<Seq<char>, ResourceSchema>,
    uri: Seq<char>,
)
    requires
        is_listing(resource_handlers, table),
        resource_handlers.len() <= usize::MAX,
        method_of(request) == "resources/read"@,
        param_str(request, "uri"@) == Some(uri),
    ensures
        (exists|p: Seq<char>| table.contains_key(p) && #[trigger] text_matches(p, uri))
            ==> (planned_step(
            name,
            version,
            description,
            request,
            tools,
            resources,
            prompts,
            tool_handlers,
            resource_handlers,
            prompt_handlers,
        ) matches StepView::CallResource(id, p, u) && id == request_id_of(request) && u == uri
            && table.contains_key(p) && text_matches(p, uri)),
        !(exists|p: Seq<char>| table.contains_key(p) && #[trigger] text_matches(p, uri))
            ==> planned_step(
            name,
            version,
            description,
            request,
            tools,
            resources,
            prompts,
            tool_handlers,
            resource_handlers,
            prompt_handlers,
        ) == StepView::Respond(error_for(request, "No resource handler for URI: "@ + uri)),
{
    reveal_strlit("initialize");
    reveal_strlit("tools/list");
    reveal_strlit("tools/call");
    reveal_strlit("resources/list");
    reveal_strlit("resources/read");
    assert("resources/read"@ != "initialize"@) by {
        assert("resources/read"@[0] != "initialize"@[0]);
    }
    assert("resources/read"@ != "tools/list"@) by {
        assert("resources/read"@[0] != "tools/list"@[0]);
    }
    assert("resources/read"@ != "tools/call"@) by {
        assert("resources/read"@[0] != "tools/call"@[0]);
    }
    assert("resources/read"@ != "resources/list"@) by {
        assert("resources/read"@[10] != "resources/list"@[10]);
    }
    let keys = keys_of(resource_handlers);
    lemma_listing_keys(resource_handlers, table);
    lemma_lookup_match(keys, uri, 0);
    match lookup_from(keys, uri, 0) {
        PatternLookup::Matched(j) => {
            assert(table.contains_key(keys[j as int]));
        },
        PatternLookup::NoMatch => {
            lemma_lookup_no_match(keys, uri, 0);
            assert forall|p: Seq<char>| table.contains_key(p) implies !#[trigger] text_matches(
                p,
                uri,
            ) by {
                assert(keys.contains(p));
                let j = choose|j: int| 0 <= j < keys.len() && keys[j] == p;
                assert(!text_matches(keys[j], uri));
            }
        },
    }
}

/// After `resource(.., pattern, schema)` adds `pattern` to the server's
/// resource handlers, a `resources/read` of a URI that `pattern` matches,
/// and no other pattern registered with the server, calls the handler of
/// `pattern` with that URI, for the request's id.
pub proof fn law_registered_resource_is_read(
    name: Seq<char>,
    version: Seq<char>,
    description: Option<Seq<char>>,
    request: JsonValue,
    tools: Seq<(String, ToolSchema)>,
    resources: Seq<(String, ResourceSchema)>,
    prompts: Seq<(String, PromptSchema)>,
    tool_handlers: Seq<(String, ToolSchema)>,
    resource_handlers: Seq<(String, ResourceSchema)>,
    prompt_handlers: Seq<(String, PromptSchema)>,
    before: Map<Seq<char>, ResourceSchema>,
    pattern: Seq<char>,
    schema: ResourceSchema,
    uri: Seq<char>,
)
    requires
        is_listing(resource_handlers, before.insert(pattern, schema)),
        resource_handlers.len() <= usize::MAX,
        method_of(request) == "resources/read"@,
        param_str(request, "uri"@) == Some(uri),
        text_matches(pattern, uri),
        forall|p: Seq<char>|
            #[trigger] before.contains_key(p) && text_matches(p, uri) ==> p == pattern,
    ensures
        planned_step(
            name,
            version,
            description,
            request,
            tools,
            resources,
            prompts,
            tool_handlers,
            resource_handlers,
            prompt_handlers,
        ) == StepView::CallResource(request_id_of(request), pattern, uri),
{
    let table = before.insert(pattern, schema);
    assert(table.contains_key(pattern) && text_matches(pattern, uri));
    law_resource_read_finds_handler(
        name,
        version,
        description,
        request,
        tools,
        resources,
        prompts,
        tool_handlers,
        resource_handlers,
        prompt_handlers,
        table,
        uri,
    );
}

/// A request's id is what its `id` member says: the text of a string, the
/// decimal digits of a non-negative integer within `u64` (zero included);
/// any other `id`, or none, leaves the request without an id.
pub proof fn law_request_id_is_read(request: JsonValue)
    ensures
        json_get(request, "id"@) matches Some(JsonValue::Str(s)) ==> request_id_of(request) == Some(
            s@,
        ),
        json_get(request, "id"@) matches Some(JsonValue::Number(num)) ==> request_id_of(request)
            == (match num.unsigned {
            Some(n) => Some(decimal(n as nat)),
            None => None,
        }),
        !(json_get(request, "id"@) matches Some(JsonValue::Str(_))) && !(json_get(
            request,
            "id"@,
        ) matches Some(JsonValue::Number(_))) ==> request_id_of(request) is None,
{
}

/// A `tools/call` that names a tool registered with the server calls its
/// handler, for the request's id, on the request's `params.arguments`
/// written as JSON text, or on `{}` where there are none.
pub proof fn law_registered_tool_is_called(
    name: Seq<char>,
    version: Seq<char>,
    description: Option<Seq<char>>,
    request: JsonValue,
    tools: Seq<(String, ToolSchema)>,
    resources: Seq<(String, ResourceSchema)>,
    prompts: Seq<(String, PromptSchema)>,
    tool_handlers: Seq<(String, ToolSchema)>,
    resource_handlers: Seq<(String, ResourceSchema)>,
    prompt_handlers: Seq<(String, PromptSchema)>,
    table: Map<Seq<char>, ToolSchema>,
    n: Seq<char>,
)
    requires
        is_listing(tool_handlers, table),
        method_of(request) == "tools/call"@,
        param_str(request, "name"@) == Some(n),
        table.contains_key(n),
    ensures
        planned_step(
            name,
            version,
            description,
            request,
            tools,
            resources,
            prompts,
            tool_handlers,
            resource_handlers,
            prompt_handlers,
        ) == StepView::CallTool(request_id_of(request), n, (match json_get(request, "params"@) {
            Some(p) => match json_get(p, "arguments"@) {
                Some(a) => json_text(a),
                None => "{}"@,
            },
            None => "{}"@,
        })),
{
    reveal_strlit("initialize");
    reveal_strlit("tools/list");
    reveal_strlit("tools/call");
    assert("tools/call"@ != "initialize"@) by {
        assert("tools/call"@[0] != "initialize"@[0]);
    }
    assert("tools/call"@ != "tools/list"@) by {
        assert("tools/call"@[6] != "tools/list"@[6]);
    }
    lemma_listing_keys(tool_handlers, table);
}

/// A `prompts/get` that names a prompt registered with the server calls its
/// handler, for the request's id, on the request's `params.arguments`
/// written as JSON text, or on `{}` where there are none.
pub proof fn law_registered_prompt_is_called(
    name: Seq<char>,
    version: Seq<char>,
    description: Option<Seq<char>>,
    request: JsonValue,
    tools: Seq<(String, ToolSchema)>,
    resources: Seq<(String, ResourceSchema)>,
    prompts: Seq<(String, PromptSchema)>,
    tool_handlers: Seq<(String, ToolSchema)>,
    resource_handlers: Seq<(String, ResourceSchema)>,
    prompt_handlers: Seq<(String, PromptSchema)>,
    table: Map<Seq<char>, PromptSchema>,
    n: Seq<char>,
)
    requires
        is_listing(prompt_handlers, table),
        method_of(request) == "prompts/get"@,
        param_str(request, "name"@) == Some(n),
        table.contains_key(n),
    ensures
        planned_step(
            name,
            version,
            description,
            request,
            tools,
            resources,
            prompts,
            tool_handlers,
            resource_handlers,
            prompt_handlers,
        ) == StepView::CallPrompt(request_id_of(request), n, (match json_get(request, "params"@) {
            Some(p) => match json_get(p, "arguments"@) {
                Some(a) => json_text(a),
                None => "{}"@,
            },
            None => "{}"@,
        })),
{
    reveal_strlit("initialize");
    reveal_strlit("tools/list");
    reveal_strlit("tools/call");
    reveal_strlit("resources/list");
    reveal_strlit("resources/read");
    reveal_strlit("prompts/list");
    reveal_strlit("prompts/get");
    assert("prompts/get"@ != "initialize"@) by {
        assert("prompts/get"@[0] != "initialize"@[0]);
    }
    assert("prompts/get"@ != "tools/list"@) by {
        assert("prompts/get"@[0] != "tools/list"@[0]);
    }
    assert("prompts/get"@ != "tools/call"@) by {
        assert("prompts/get"@[0] != "tools/call"@[0]);
    }
    assert("prompts/get"@ != "resources/list"@) by {
        assert("prompts/get"@[0] != "resources/list"@[0]);
    }
    assert("prompts/get"@ != "resources/read"@) by {
        assert("prompts/get"@[0] != "resources/read"@[0]);
    }
    assert("prompts/get"@ != "prompts/list"@) by {
        assert("prompts/get"@[8] != "prompts/list"@[8]);
    }
    lemma_listing_keys(prompt_handlers, table);
}

/// A listing of a map has as many entries as the map has keys.
pub proof fn lemma_listing_size<V>(entries: Seq<(String, V)>, table: Map<Seq<char>, V>)
    requires
        is_listing(entries, table),
    ensures
        table.dom().finite(),
        entries.len() == table.dom().len(),
{
    let keys = keys_of(entries);
    lemma_listing_keys(entries, table);
    assert(keys.no_duplicates()) by {
        assert forall|i: int, j: int| 0 <= i < keys.len() && 0 <= j < keys.len() && i != j implies keys[i]
            != keys[j] by {
            if i < j {
                assert(keys[i] != keys[j]);
            } else {
                assert(keys[j] != keys[i]);
            }
        }
    }
    keys.unique_seq_to_set();
    assert(keys.to_set() =~= table.dom());
}

/// `resources/list` answers with one item for each resource in the
/// registry, no more and no fewer, each describing the resource registered
/// under its pattern.
pub proof fn law_resources_list_holds_every_resource(
    entries: Seq<(String, ResourceSchema)>,
    table: Map<Seq<char>, ResourceSchema>,
)
    requires
        is_listing(entries, table),
    ensures
        exists|items: Seq<Seq<char>>|
            {
                &&& items.len() == table.dom().len()
                &&& forall|i: int|
                    0 <= i < items.len() ==> table.contains_key(entries[i].0@) && #[trigger] items[i]
                        == resource_item_text(table[entries[i].0@])
                &&& resources_list_text(entries) == "{\"resources\":["@ + #[trigger] joined(items) + "]}"@
            },
{
    lemma_listing_size(entries, table);
    let items = Seq::new(entries.len(), |i: int| resource_item_text(entries[i].1));
    assert(resources_list_text(entries) == "{\"resources\":["@ + joined(items) + "]}"@);
}

/// `tools/list` answers with one item for each tool in the registry, no
/// more and no fewer, each describing the tool registered under its name.
pub proof fn law_tools_list_holds_every_tool(
    entries: Seq<(String, ToolSchema)>,
    table: Map<Seq<char>, ToolSchema>,
)
    requires
        is_listing(entries, table),
    ensures
        exists|items: Seq<Seq<char>>|
            {
                &&& items.len() == table.dom().len()
                &&& forall|i: int|
                    0 <= i < items.len() ==> table.contains_key(entries[i].0@) && #[trigger] items[i]
                        == tool_item_text(table[entries[i].0@])
                &&& tools_list_text(entries) == "{\"tools\":["@ + #[trigger] joined(items) + "]}"@
            },
{
    lemma_listing_size(entries, table);
    let items = Seq::new(entries.len(), |i: int| tool_item_text(entries[i].1));
    assert(tools_list_text(entries) == "{\"tools\":["@ + joined(items) + "]}"@);
}

/// `prompts/list` answers with one item for each prompt in the registry, no
/// more and no fewer, each describing the prompt registered under its name.
pub proof fn law_prompts_list_holds_every_prompt(
    entries: Seq<(String, PromptSchema)>,
    table: Map<Seq<char>, PromptSchema>,
)
    requires
        is_listing(entries, table),
    ensures
        exists|items: Seq<Seq<char>>|
            {
                &&& items.len() == table.dom().len()
                &&& forall|i: int|
                    0 <= i < items.len() ==> table.contains_key(entries[i].0@) && #[trigger] items[i]
                        == prompt_item_text(table[entries[i].0@])
                &&& prompts_list_text(entries) == "{\"prompts\":["@ + #[trigger] joined(items) + "]}"@
            },
{
    lemma_listing_size(entries, table);
    let items = Seq::new(entries.len(), |i: int| prompt_item_text(entries[i].1));
    assert(prompts_list_text(entries) == "{\"prompts\":["@ + joined(items) + "]}"@);
}

/// `part` occurs somewhere in `text`.
pub open spec fn occurs_in(text: Seq<char>, part: Seq<char>) -> bool {
    exists|i: int|
        0 <= i && i + part.len() <= text.len() && #[trigger] text.subrange(i, i + part.len())
            == part
}

/// `text` is `pre` + `part` + `post`, so `part` occurs in it.
proof fn lemma_occurs_in(pre: Seq<char>, part: Seq<char>, post: Seq<char>)
    ensures
        occurs_in(pre + part + post, part),
{
    let t = pre + part + post;
    assert(t.subrange(pre.len() as int, (pre.len() + part.len()) as int) =~= part);
}

/// What `server_info` writes reports each thing under its own key: the
/// server's name, version and description, the library's version, and the
/// registry's tools, resources and prompts, each as a JSON array of strings.
pub proof fn law_server_info_members(
    name: Seq<char>,
    version: Seq<char>,
    description: Option<Seq<char>>,
    tools: Seq<Seq<char>>,
    resources: Seq<Seq<char>>,
    prompts: Seq<Seq<char>>,
)
    ensures
        occurs_in(
            server_info_text(name, version, description, tools, resources, prompts),
            "{\"description\":"@ + nullable_string(description),
        ),
        occurs_in(
            server_info_text(name, version, description, tools, resources, prompts),
            ",\"mcpjsVersion\":"@ + json_quoted(MCPJS_VERSION@),
        ),
        occurs_in(
            server_info_text(name, version, description, tools, resources, prompts),
            ",\"name\":"@ + json_quoted(name),
        ),
        occurs_in(
            server_info_text(name, version, description, tools, resources, prompts),
            ",\"prompts\":"@ + string_array_text(prompts),
        ),
        occurs_in(
            server_info_text(name, version, description, tools, resources, prompts),
            ",\"resources\":"@ + string_array_text(resources),
        ),
        occurs_in(
            server_info_text(name, version, description, tools, resources, prompts),
            ",\"tools\":"@ + string_array_text(tools),
        ),
        occurs_in(
            server_info_text(name, version, description, tools, resources, prompts),
            ",\"version\":"@ + json_quoted(version),
        ),
{
    lemma_seven_members(
        "{\"description\":"@,
        nullable_string(description),
        ",\"mcpjsVersion\":"@,
        json_quoted(MCPJS_VERSION@),
        ",\"name\":"@,
        json_quoted(name),
        ",\"prompts\":"@,
        string_array_text(prompts),
        ",\"resources\":"@,
        string_array_text(resources),
        ",\"tools\":"@,
        string_array_text(tools),
        ",\"version\":"@,
        json_quoted(version),
        "}"@,
    );
}

/// Each key-and-value pair of a text made of seven of them occurs in it.
proof fn lemma_seven_members(
    k1: Seq<char>,
    v1: Seq<char>,
    k2: Seq<char>,
    v2: Seq<char>,
    k3: Seq<char>,
    v3: Seq<char>,
    k4: Seq<char>,
    v4: Seq<char>,
    k5: Seq<char>,
    v5: Seq<char>,
    k6: Seq<char>,
    v6: Seq<char>,
    k7: Seq<char>,
    v7: Seq<char>,
    z: Seq<char>,
)
    ensures
        ({
            let t = k1 + v1 + k2 + v2 + k3 + v3 + k4 + v4 + k5 + v5 + k6 + v6 + k7 + v7 + z;
            &&& occurs_in(t, k1 + v1)
            &&& occurs_in(t, k2 + v2)
            &&& occurs_in(t, k3 + v3)
            &&& occurs_in(t, k4 + v4)
            &&& occurs_in(t, k5 + v5)
            &&& occurs_in(t, k6 + v6)
            &&& occurs_in(t, k7 + v7)
        }),
{
    let p1 = k1 + v1;
    lemma_pair_occurs(Seq::<char>::empty(), k1, v1);
    assert(Seq::<char>::empty() + k1 + v1 =~= p1);
    let p2 = p1 + k2 + v2;
    lemma_pair_occurs(p1, k2, v2);
    lemma_occurs_in_extend(p1, k1 + v1, k2 + v2);
    assert(p1 + (k2 + v2) =~= p2);
    let p3 = p2 + k3 + v3;
    lemma_pair_occurs(p2, k3, v3);
    lemma_occurs_in_extend(p2, k1 + v1, k3 + v3);
    lemma_occurs_in_extend(p2, k2 + v2, k3 + v3);
    assert(p2 + (k3 + v3) =~= p3);
    let p4 = p3 + k4 + v4;
    lemma_pair_occurs(p3, k4, v4);
    lemma_occurs_in_extend(p3, k1 + v1, k4 + v4);
    lemma_occurs_in_extend(p3, k2 + v2, k4 + v4);
    lemma_occurs_in_extend(p3, k3 + v3, k4 + v4);
    assert(p3 + (k4 + v4) =~= p4);
    let p5 = p4 + k5 + v5;
    lemma_pair_occurs(p4, k5, v5);
    lemma_occurs_in_extend(p4, k1 + v1, k5 + v5);
    lemma_occurs_in_extend(p4, k2 + v2, k5 + v5);
    lemma_occurs_in_extend(p4, k3 + v3, k5 + v5);
    lemma_occurs_in_extend(p4, k4 + v4, k5 + v5);
    assert(p4 + (k5 + v5) =~= p5);
    let p6 = p5 + k6 + v6;
    lemma_pair_occurs(p5, k6, v6);
    lemma_occurs_in_extend(p5, k1 + v1, k6 + v6);
    lemma_occurs_in_extend(p5, k2 + v2, k6 + v6);
    lemma_occurs_in_extend(p5, k3 + v3, k6 + v6);
    lemma_occurs_in_extend(p5, k4 + v4, k6 + v6);
    lemma_occurs_in_extend(p5, k5 + v5, k6 + v6);
    assert(p5 + (k6 + v6) =~= p6);
    let p7 = p6 + k7 + v7;
    lemma_pair_occurs(p6, k7, v7);
    lemma_occurs_in_extend(p6, k1 + v1, k7 + v7);
    lemma_occurs_in_extend(p6, k2 + v2, k7 + v7);
    lemma_occurs_in_extend(p6, k3 + v3, k7 + v7);
    lemma_occurs_in_extend(p6, k4 + v4, k7 + v7);
    lemma_occurs_in_extend(p6, k5 + v5, k7 + v7);
    lemma_occurs_in_extend(p6, k6 + v6, k7 + v7);
    assert(p6 + (k7 + v7) =~= p7);
    lemma_occurs_in_extend(p7, k1 + v1, z);
    lemma_occurs_in_extend(p7, k2 + v2, z);
    lemma_occurs_in_extend(p7, k3 + v3, z);
    lemma_occurs_in_extend(p7, k4 + v4, z);
    lemma_occurs_in_extend(p7, k5 + v5, z);
    lemma_occurs_in_extend(p7, k6 + v6, z);
    lemma_occurs_in_extend(p7, k7 + v7, z);
}

/// The pair `k` + `v` occurs in `pre + k + v`.
proof fn lemma_pair_occurs(pre: Seq<char>, k: Seq<char>, v: Seq<char>)
    ensures
        occurs_in(pre + k + v, k + v),
{
    let t = pre + k + v;
    let i = pre.len() as int;
    assert(t.subrange(i, i + (k + v).len()) =~= k + v);
}

/// What occurs in `t` occurs in `t` followed by more.
proof fn lemma_occurs_in_extend(t: Seq<char>, part: Seq<char>, more: Seq<char>)
    ensures
        occurs_in(t, part) ==> occurs_in(t + more, part),
{
    if occurs_in(t, part) {
        let i = choose|i: int|
            0 <= i && i + part.len() <= t.len() && #[trigger] t.subrange(i, i + part.len()) == part;
        assert((t + more).subrange(i, i + part.len()) =~= t.subrange(i, i + part.len()));
    }
}

/// The `initialize` result names the server under `name` and its version
/// under `version`, each as a JSON string.
pub proof fn law_initialize_names_server(
    name: Seq<char>,
    version: Seq<char>,
    description: Option<Seq<char>>,
)
    ensures
        occurs_in(initialize_text(name, version, description), ",\"name\":"@ + json_quoted(name)),
        occurs_in(
            initialize_text(name, version, description),
            ",\"version\":"@ + json_quoted(version),
        ),
{
    let head = "{\"capabilities\":{\"logging\":{},\"prompts\":{\"listChanged\":true},\"resources\":{\"listChanged\":true,\"subscribe\":false},\"tools\":{\"listChanged\":true}},\"protocolVersion\":\"2024-11-05\",\"serverInfo\":{\"description\":"@
        + nullable_string(description);
    let k1 = ",\"name\":"@;
    let v1 = json_quoted(name);
    let k2 = ",\"version\":"@;
    let v2 = json_quoted(version);
    let z = "}}"@;
    let t = initialize_text(name, version, description);
    assert(t =~= head + k1 + v1 + k2 + v2 + z);
    lemma_pair_occurs(head, k1, v1);
    lemma_occurs_in_extend(head + k1 + v1, k1 + v1, k2 + v2);
    assert((head + k1 + v1) + (k2 + v2) =~= head + k1 + v1 + k2 + v2);
    lemma_pair_occurs(head + k1 + v1, k2, v2);
    lemma_occurs_in_extend(head + k1 + v1 + k2 + v2, k1 + v1, z);
    lemma_occurs_in_extend(head + k1 + v1 + k2 + v2, k2 + v2, z);
}

/// A handler that fails is answered with an error response that carries
/// its message, for the request's id; one that succeeds with a success
/// response for that id, whose result is what it returned, written back by
/// `serde_json`, where that is JSON.
pub proof fn law_handler_outcomes_are_answered(id: Option<Seq<char>>, uri: Seq<char>, s: Seq<char>, e: Seq<char>)
    ensures
        tool_call_response(id, Err(e)) == error_response_text(id, METHOD_ERROR_CODE as int, e),
        resource_read_response(id, uri, Err(e)) == error_response_text(
            id,
            METHOD_ERROR_CODE as int,
            e,
        ),
        prompt_get_response(id, Err(e)) == error_response_text(id, METHOD_ERROR_CODE as int, e),
        json_normalized(s) matches Ok(t) ==> tool_call_response(id, Ok(s)) == ok_response_text(
            id,
            t,
        ) && resource_read_response(id, uri, Ok(s)) == ok_response_text(id, t) && prompt_get_response(
            id,
            Ok(s),
        ) == ok_response_text(id, t),
        json_normalized(s) matches Err(m) ==> prompt_get_response(id, Ok(s)) == error_response_text(
            id,
            METHOD_ERROR_CODE as int,
            m,
        ) && (exists|r: Seq<char>| #[trigger] ok_response_text(id, r) == tool_call_response(id, Ok(s)))
            && (exists|r: Seq<char>| #[trigger] ok_response_text(id, r) == resource_read_response(
            id,
            uri,
            Ok(s),
        )),
{
    if let Err(m) = json_normalized(s) {
        let r1 = "{\"content\":[{\"text\":"@ + json_quoted(s) + ",\"type\":\"text\"}]}"@;
        assert(ok_response_text(id, r1) == tool_call_response(id, Ok(s)));
        let r2 = "{\"contents\":[{\"text\":"@ + json_quoted(s) + ",\"uri\":"@ + json_quoted(uri) + "}]}"@;
        assert(ok_response_text(id, r2) == resource_read_response(id, uri, Ok(s)));
    }
}

/// Reading a request takes `jsonrpc` and `method` from string members of
/// those names, defaulting to `2.0` and the empty text, and `params` as the
/// JSON text of that member where there is one.
pub proof fn law_request_fields_are_read(r: JsonRpcRequest, request: JsonValue)
    requires
        reads_request(r, request),
    ensures
        json_get(request, "jsonrpc"@) matches Some(JsonValue::Str(s)) ==> r.jsonrpc@ == s@,
        !(json_get(request, "jsonrpc"@) matches Some(JsonValue::Str(_))) ==> r.jsonrpc@
            == "2.0"@,
        json_get(request, "method"@) matches Some(JsonValue::Str(s)) ==> r.method@ == s@,
        !(json_get(request, "method"@) matches Some(JsonValue::Str(_))) ==> r.method@ == ""@,
        json_get(request, "params"@) matches Some(p) ==> opt_view(r.params) == Some(json_text(p)),
        json_get(request, "params"@) is None ==> r.params is None,
        opt_view(r.id) == request_id_of(request),
{
}

/// Each of the three key-and-value pairs of such a text occurs in it.
proof fn lemma_three_members(
    k1: Seq<char>,
    v1: Seq<char>,
    k2: Seq<char>,
    v2: Seq<char>,
    k3: Seq<char>,
    v3: Seq<char>,
    z: Seq<char>,
)
    ensures
        occurs_in(k1 + v1 + k2 + v2 + k3 + v3 + z, k1 + v1),
        occurs_in(k1 + v1 + k2 + v2 + k3 + v3 + z, k2 + v2),
        occurs_in(k1 + v1 + k2 + v2 + k3 + v3 + z, k3 + v3),
{
    let p1 = k1 + v1;
    lemma_pair_occurs(Seq::<char>::empty(), k1, v1);
    assert(Seq::<char>::empty() + k1 + v1 =~= p1);
    let p2 = p1 + k2 + v2;
    lemma_pair_occurs(p1, k2, v2);
    lemma_occurs_in_extend(p1, k1 + v1, k2 + v2);
    assert(p1 + (k2 + v2) =~= p2);
    let p3 = p2 + k3 + v3;
    lemma_pair_occurs(p2, k3, v3);
    lemma_occurs_in_extend(p2, k1 + v1, k3 + v3);
    lemma_occurs_in_extend(p2, k2 + v2, k3 + v3);
    assert(p2 + (k3 + v3) =~= p3);
    lemma_occurs_in_extend(p3, k1 + v1, z);
    lemma_occurs_in_extend(p3, k2 + v2, z);
    lemma_occurs_in_extend(p3, k3 + v3, z);
}

/// How a listing describes an entry names each field under its own key:
/// a resource's URI under `uri`, its name under `name`, its MIME type under
/// `mimeType`; a tool's name under `name` and input schema under
/// `inputSchema`; a prompt's name under `name` and arguments under
/// `arguments`.
pub proof fn law_listed_items_name_their_fields(
    tool: ToolSchema,
    resource: ResourceSchema,
    prompt: PromptSchema,
)
    ensures
        occurs_in(resource_item_text(resource), ",\"uri\":"@ + json_quoted(resource.uri@)),
        occurs_in(resource_item_text(resource), ",\"name\":"@ + json_quoted(resource.name@)),
        occurs_in(
            resource_item_text(resource),
            ",\"mimeType\":"@ + nullable_string(opt_view(resource.mime_type)),
        ),
        occurs_in(
            resource_item_text(resource),
            "{\"description\":"@ + nullable_string(opt_view(resource.description)),
        ),
        occurs_in(tool_item_text(tool), ",\"name\":"@ + json_quoted(tool.name@)),
        occurs_in(
            tool_item_text(tool),
            ",\"inputSchema\":"@ + listed_input_schema(tool.input_schema@),
        ),
        occurs_in(
            tool_item_text(tool),
            "{\"description\":"@ + nullable_string(opt_view(tool.description)),
        ),
        occurs_in(prompt_item_text(prompt), ",\"name\":"@ + json_quoted(prompt.name@)),
        occurs_in(
            prompt_item_text(prompt),
            "{\"arguments\":"@ + listed_arguments(opt_view(prompt.arguments)),
        ),
        occurs_in(
            prompt_item_text(prompt),
            ",\"description\":"@ + nullable_string(opt_view(prompt.description)),
        ),
{
    lemma_three_members(
        "{\"description\":"@,
        nullable_string(opt_view(tool.description)),
        ",\"inputSchema\":"@,
        listed_input_schema(tool.input_schema@),
        ",\"name\":"@,
        json_quoted(tool.name@),
        "}"@,
    );
    lemma_three_members(
        "{\"arguments\":"@,
        listed_arguments(opt_view(prompt.arguments)),
        ",\"description\":"@,
        nullable_string(opt_view(prompt.description)),
        ",\"name\":"@,
        json_quoted(prompt.name@),
        "}"@,
    );
    let r1 = "{\"description\":"@ + nullable_string(opt_view(resource.description));
    let r2 = ",\"mimeType\":"@ + nullable_string(opt_view(resource.mime_type));
    lemma_three_members(
        "{\"description\":"@,
        nullable_string(opt_view(resource.description)) + ",\"mimeType\":"@ + nullable_string(
            opt_view(resource.mime_type),
        ),
        ",\"name\":"@,
        json_quoted(resource.name@),
        ",\"uri\":"@,
        json_quoted(resource.uri@),
        "}"@,
    );
    lemma_three_members(
        Seq::<char>::empty(),
        r1,
        ",\"mimeType\":"@,
        nullable_string(opt_view(resource.mime_type)),
        ",\"name\":"@,
        json_quoted(resource.name@) + ",\"uri\":"@ + json_quoted(resource.uri@) + "}"@,
        Seq::<char>::empty(),
    );
    let t = resource_item_text(resource);
    assert(t =~= "{\"description\":"@ + (nullable_string(opt_view(resource.description))
        + ",\"mimeType\":"@ + nullable_string(opt_view(resource.mime_type))) + ",\"name\":"@
        + json_quoted(resource.name@) + ",\"uri\":"@ + json_quoted(resource.uri@) + "}"@);
    assert(t =~= Seq::<char>::empty() + r1 + ",\"mimeType\":"@ + nullable_string(
        opt_view(resource.mime_type),
    ) + ",\"name\":"@ + (json_quoted(resource.name@) + ",\"uri\":"@ + json_quoted(resource.uri@)
        + "}"@) + Seq::<char>::empty());
    assert(Seq::<char>::empty() + r1 =~= r1);
}

}
