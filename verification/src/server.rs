//! The MCP server: what it registers and the handling of JSON-RPC requests.
//!
//! Every server registers its tools, resources and prompts both in the
//! [`Registry`] that all servers of a process share, which the listings
//! answer from, and among its own handlers, which calls reach.
//!
//! Handling a request is split in steps: [`McpServer::handle_request`] parses
//! the request and decides from it, the registry and the server's handlers
//! what is to be done; where a handler of the user has to run, the caller
//! runs it and hands its outcome to one of the `finish_*` functions, which
//! write the response.
use dashmap::DashMap;
use vstd::prelude::*;
use crate::json::{json_normalized, json_quoted, json_text, numbers_read, parse_json, quote_json, text_eq, JsonValue};
use crate::listing::{string_array_text, write_string_array, MCPJS_VERSION};
use crate::registry::{
    decorator_table, decorator_table_get, decorator_table_insert, is_listing, new_decorator_table,
    new_prompt_table, new_resource_table, new_tool_table, prompt_table, prompt_table_entries,
    prompt_table_insert, resource_table, resource_table_entries, resource_table_insert, tool_table,
    tool_table_entries, tool_table_insert, Registry,
};
use crate::dispatch::{plan_request, planned_step, RequestStep};
use crate::rpc::{nullable_string, opt_view, write_nullable_string};
use crate::types::{PluginOptions, PromptSchema, ResourceSchema, ServerOptions, ToolSchema};

verus! {

/// The error code of every error response that request handling writes.
pub const METHOD_ERROR_CODE: i32 = -32601;

/// The keys of `entries`, in order.
pub open spec fn keys_of<V>(entries: Seq<(String, V)>) -> Seq<Seq<char>> {
    Seq::new(entries.len(), |i: int| entries[i].0@)
}

/// Some entry of `entries` has the key `k`.
pub open spec fn has_key<V>(entries: Seq<(String, V)>, k: Seq<char>) -> bool {
    exists|i: int| 0 <= i < entries.len() && #[trigger] entries[i].0@ == k
}

/// `keys` holds each key of `dom` once and nothing else.
pub open spec fn lists_keys(keys: Seq<Seq<char>>, dom: Set<Seq<char>>) -> bool {
    &&& forall|i: int| 0 <= i < keys.len() ==> dom.contains(#[trigger] keys[i])
    &&& forall|i: int, j: int| 0 <= i < j < keys.len() ==> #[trigger] keys[i] != #[trigger] keys[j]
    &&& forall|k: Seq<char>| #[trigger] dom.contains(k) ==> keys.contains(k)
}

/// The keys of a listing list the map's keys.
pub proof fn lemma_listing_keys<V>(entries: Seq<(String, V)>, table: Map<Seq<char>, V>)
    requires
        is_listing(entries, table),
    ensures
        lists_keys(keys_of(entries), table.dom()),
        forall|k: Seq<char>| has_key(entries, k) <==> table.contains_key(k),
{
    let keys = keys_of(entries);
    assert forall|k: Seq<char>| #[trigger] table.dom().contains(k) implies keys.contains(k) by {
        let i = choose|i: int| 0 <= i < entries.len() && entries[i].0@ == k;
        assert(keys[i] == k);
    }
    assert forall|k: Seq<char>| has_key(entries, k) implies table.contains_key(k) by {
        let i = choose|i: int| 0 <= i < entries.len() && #[trigger] entries[i].0@ == k;
        assert(table.contains_key(entries[i].0@));
    }
    assert forall|k: Seq<char>| table.contains_key(k) implies has_key(entries, k) by {
        let i = choose|i: int| 0 <= i < entries.len() && entries[i].0@ == k;
        assert(entries[i].0@ == k);
    }
}

/// The keys of `entries`, in order.
pub fn entry_keys<V>(entries: &Vec<(String, V)>) -> (r: Vec<String>)
    ensures
        r@.map_values(|s: String| s@) == keys_of(entries@),
{
    let mut keys: Vec<String> = Vec::new();
    let mut i: usize = 0;
    while i < entries.len()
        invariant
            i <= entries@.len(),
            keys@.len() == i,
            keys@.map_values(|s: String| s@) == keys_of(entries@).subrange(0, i as int),
        decreases entries@.len() - i,
    {
        let ghost before = keys@;
        let k = entries[i].0.clone();
        assert(k@ == entries@[i as int].0@);
        keys.push(k);
        assert(keys@ == before.push(k));
        let ghost kv = keys@.map_values(|s: String| s@);
        let ghost bv = before.map_values(|s: String| s@);
        let ghost ks = keys_of(entries@).subrange(0, i + 1);
        assert forall|j: int| 0 <= j < i + 1 implies #[trigger] kv[j] == ks[j] by {
            if j < i {
                assert(keys@[j] == before[j]);
                assert(bv[j] == keys_of(entries@).subrange(0, i as int)[j]);
            }
        }
        assert(keys@.map_values(|s: String| s@) =~= keys_of(entries@).subrange(0, i + 1));
        i = i + 1;
    }
    assert(keys_of(entries@).subrange(0, entries@.len() as int) =~= keys_of(entries@));
    keys
}

/// Whether some entry of `entries` has the key `k`.
pub fn entries_have_key<V>(entries: &Vec<(String, V)>, k: &str) -> (r: bool)
    ensures
        r == has_key(entries@, k@),
{
    let mut i: usize = 0;
    while i < entries.len()
        invariant
            i <= entries@.len(),
            forall|j: int| 0 <= j < i ==> #[trigger] entries@[j].0@ != k@,
        decreases entries@.len() - i,
    {
        if text_eq(entries[i].0.as_str(), k) {
            return true;
        }
        i = i + 1;
    }
    false
}

/// How a plugin's options are recorded: the JSON text of their fields, or
/// `{}` where there are none.
pub open spec fn plugin_options_text(options: Option<PluginOptions>) -> Seq<char> {
    match options {
        Some(o) => "{\"name\":"@ + json_quoted(o.name@) + ",\"version\":"@ + nullable_string(
            opt_view(o.version),
        ) + "}"@,
        None => "{}"@,
    }
}

/// How a plugin is recorded: its name, a colon, and its options' text.
pub open spec fn plugin_entry(name: Seq<char>, options: Option<PluginOptions>) -> Seq<char> {
    name + ":"@ + plugin_options_text(options)
}

/// The `initialize` result of a server.
pub open spec fn initialize_text(name: Seq<char>, version: Seq<char>, description: Option<Seq<char>>) -> Seq<char> {
    "{\"capabilities\":{\"logging\":{},\"prompts\":{\"listChanged\":true},\"resources\":{\"listChanged\":true,\"subscribe\":false},\"tools\":{\"listChanged\":true}},\"protocolVersion\":\"2024-11-05\",\"serverInfo\":{\"description\":"@
        + nullable_string(description) + ",\"name\":"@ + json_quoted(name) + ",\"version\":"@
        + json_quoted(version) + "}}"@
}

/// The text that `server_info` writes for a server where the registry lists
/// `tools`, `resources` and `prompts`.
pub open spec fn server_info_text(
    name: Seq<char>,
    version: Seq<char>,
    description: Option<Seq<char>>,
    tools: Seq<Seq<char>>,
    resources: Seq<Seq<char>>,
    prompts: Seq<Seq<char>>,
) -> Seq<char> {
    "{\"description\":"@ + nullable_string(description) + ",\"mcpjsVersion\":"@ + json_quoted(
        MCPJS_VERSION@,
    ) + ",\"name\":"@ + json_quoted(name) + ",\"prompts\":"@ + string_array_text(prompts)
        + ",\"resources\":"@ + string_array_text(resources) + ",\"tools\":"@ + string_array_text(
        tools,
    ) + ",\"version\":"@ + json_quoted(version) + "}"@
}

/// `t` is a version 4 UUID as `uuid` writes it: 36 characters, hyphens at
/// 8, 13, 18 and 23, lowercase hexadecimal digits elsewhere, the version
/// digit `4` at 14 and one of `8`, `9`, `a`, `b` at 19.
pub open spec fn is_uuid_v4_text(t: Seq<char>) -> bool {
    &&& t.len() == 36
    &&& forall|i: int|
        0 <= i < 36 ==> if i == 8 || i == 13 || i == 18 || i == 23 {
            #[trigger] t[i] == '-'
        } else {
            ('0' <= t[i] <= '9') || ('a' <= t[i] <= 'f')
        }
    &&& t[14] == '4'
    &&& (t[19] == '8' || t[19] == '9' || t[19] == 'a' || t[19] == 'b')
}

/// A fresh random UUID (`uuid::Uuid::new_v4`) in its hyphenated text form.
/// The contract claims the shape of every such text; which one comes out is
/// left open (it is random).
#[verifier::external_body]
fn random_uuid_text() -> (r: String)
    ensures
        is_uuid_v4_text(r@),
{
    uuid::Uuid::new_v4().to_string()
}

/// An MCP server: what it says of itself and the handlers registered with it.
pub struct McpServer {
    name: String,
    version: String,
    description: Option<String>,
    tools: DashMap<String, ToolSchema>,
    resources: DashMap<String, ResourceSchema>,
    prompts: DashMap<String, PromptSchema>,
    plugins: Vec<String>,
    decorators: DashMap<String, String>,
}

impl McpServer {
    /// The server's name.
    pub closed spec fn name_view(&self) -> Seq<char> {
        self.name@
    }

    /// The server's version.
    pub closed spec fn version_view(&self) -> Seq<char> {
        self.version@
    }

    /// The server's description.
    pub closed spec fn description_view(&self) -> Option<Seq<char>> {
        opt_view(self.description)
    }

    /// The tools registered with this server, which it has handlers for, by name.
    pub closed spec fn tool_handlers(&self) -> Map<Seq<char>, ToolSchema> {
        tool_table(self.tools)
    }

    /// The resources registered with this server, which it has handlers
    /// for, by URI pattern.
    pub closed spec fn resource_handlers(&self) -> Map<Seq<char>, ResourceSchema> {
        resource_table(self.resources)
    }

    /// The prompts registered with this server, which it has handlers for, by name.
    pub closed spec fn prompt_handlers(&self) -> Map<Seq<char>, PromptSchema> {
        prompt_table(self.prompts)
    }

    /// The decorators, by key.
    pub closed spec fn decorator_map(&self) -> Map<Seq<char>, Seq<char>> {
        decorator_table(self.decorators)
    }

    /// The registered plugins, in the order of registration.
    pub closed spec fn plugin_list(&self) -> Seq<Seq<char>> {
        self.plugins@.map_values(|s: String| s@)
    }

    /// A server named by `options`, with no handlers.
    pub fn new(options: ServerOptions) -> (r: Self)
        ensures
            r.name_view() == options.name@,
            r.version_view() == options.version@,
            r.description_view() == opt_view(options.description),
            r.tool_handlers().dom().is_empty(),
            r.resource_handlers().dom().is_empty(),
            r.prompt_handlers().dom().is_empty(),
            r.decorator_map().dom().is_empty(),
            r.plugin_list() == Seq::<Seq<char>>::empty(),
    {
        let r = McpServer {
            name: options.name,
            version: options.version,
            description: options.description,
            tools: new_tool_table(),
            resources: new_resource_table(),
            prompts: new_prompt_table(),
            plugins: Vec::new(),
            decorators: new_decorator_table(),
        };
        assert(r.plugin_list() =~= Seq::<Seq<char>>::empty());
        r
    }

    /// Registers the tool `name`, described by `schema`, in `registry` and
    /// among this server's handlers.
    pub fn tool(&mut self, registry: &mut Registry, name: String, schema: ToolSchema)
        ensures
            final(registry).tool_map() == old(registry).tool_map().insert(name@, schema),
            final(registry).resource_map() == old(registry).resource_map(),
            final(registry).prompt_map() == old(registry).prompt_map(),
            final(self).tool_handlers() == old(self).tool_handlers().insert(name@, schema),
            final(self).resource_handlers() == old(self).resource_handlers(),
            final(self).prompt_handlers() == old(self).prompt_handlers(),
            final(self).decorator_map() == old(self).decorator_map(),
            final(self).plugin_list() == old(self).plugin_list(),
            final(self).name_view() == old(self).name_view(),
            final(self).version_view() == old(self).version_view(),
            final(self).description_view() == old(self).description_view(),
    {
        registry.insert_tool(name.clone(), schema.duplicate());
        tool_table_insert(&mut self.tools, name, schema);
    }

    /// Registers the resource `name` under `uri_pattern`, described by
    /// `schema`, in `registry` and among this server's handlers.
    pub fn resource(
        &mut self,
        registry: &mut Registry,
        name: String,
        uri_pattern: String,
        schema: ResourceSchema,
    )
        ensures
            final(registry).resource_map() == old(registry).resource_map().insert(
                uri_pattern@,
                schema,
            ),
            final(registry).tool_map() == old(registry).tool_map(),
            final(registry).prompt_map() == old(registry).prompt_map(),
            final(self).resource_handlers() == old(self).resource_handlers().insert(
                uri_pattern@,
                schema,
            ),
            final(self).tool_handlers() == old(self).tool_handlers(),
            final(self).prompt_handlers() == old(self).prompt_handlers(),
            final(self).decorator_map() == old(self).decorator_map(),
            final(self).plugin_list() == old(self).plugin_list(),
            final(self).name_view() == old(self).name_view(),
            final(self).version_view() == old(self).version_view(),
            final(self).description_view() == old(self).description_view(),
    {
        registry.insert_resource(uri_pattern.clone(), schema.duplicate());
        resource_table_insert(&mut self.resources, uri_pattern, schema);
    }

    /// Registers the prompt template `name`, described by `schema`, in
    /// `registry` and among this server's handlers.
    pub fn prompt(&mut self, registry: &mut Registry, name: String, schema: PromptSchema)
        ensures
            final(registry).prompt_map() == old(registry).prompt_map().insert(name@, schema),
            final(registry).tool_map() == old(registry).tool_map(),
            final(registry).resource_map() == old(registry).resource_map(),
            final(self).prompt_handlers() == old(self).prompt_handlers().insert(name@, schema),
            final(self).tool_handlers() == old(self).tool_handlers(),
            final(self).resource_handlers() == old(self).resource_handlers(),
            final(self).decorator_map() == old(self).decorator_map(),
            final(self).plugin_list() == old(self).plugin_list(),
            final(self).name_view() == old(self).name_view(),
            final(self).version_view() == old(self).version_view(),
            final(self).description_view() == old(self).description_view(),
    {
        registry.insert_prompt(name.clone(), schema.duplicate());
        prompt_table_insert(&mut self.prompts, name, schema);
    }

    /// Records the plugin `plugin_name` with its `options`.
    pub fn register(&mut self, plugin_name: String, options: Option<PluginOptions>)
        ensures
            final(self).plugin_list() == old(self).plugin_list().push(
                plugin_entry(plugin_name@, options),
            ),
            final(self).tool_handlers() == old(self).tool_handlers(),
            final(self).resource_handlers() == old(self).resource_handlers(),
            final(self).prompt_handlers() == old(self).prompt_handlers(),
            final(self).decorator_map() == old(self).decorator_map(),
            final(self).name_view() == old(self).name_view(),
            final(self).version_view() == old(self).version_view(),
            final(self).description_view() == old(self).description_view(),
    {
        let mut entry = plugin_name;
        entry.append(":");
        match &options {
            Some(o) => {
                entry.append("{\"name\":");
                let q = quote_json(o.name.as_str());
                entry.append(q.as_str());
                entry.append(",\"version\":");
                write_nullable_string(&o.version, &mut entry);
                entry.append("}");
            },
            None => entry.append("{}"),
        }
        assert(entry@ =~= plugin_entry(plugin_name@, options));
        self.plugins.push(entry);
        assert(self.plugins@.map_values(|s: String| s@) =~= old(self).plugin_list().push(
            plugin_entry(plugin_name@, options),
        ));
    }

    /// The recorded plugins, in the order of registration.
    pub fn plugins(&self) -> (r: &Vec<String>)
        ensures
            r@.map_values(|s: String| s@) == self.plugin_list(),
    {
        &self.plugins
    }

    /// Sets the decorator `key` to `value`.
    pub fn decorate(&mut self, key: String, value: String)
        ensures
            final(self).decorator_map() == old(self).decorator_map().insert(key@, value@),
            final(self).tool_handlers() == old(self).tool_handlers(),
            final(self).resource_handlers() == old(self).resource_handlers(),
            final(self).prompt_handlers() == old(self).prompt_handlers(),
            final(self).plugin_list() == old(self).plugin_list(),
            final(self).name_view() == old(self).name_view(),
            final(self).version_view() == old(self).version_view(),
            final(self).description_view() == old(self).description_view(),
    {
        decorator_table_insert(&mut self.decorators, key, value);
    }

    /// The value of the decorator `key`, if it is set.
    pub fn get_decorator(&self, key: String) -> (r: Option<String>)
        ensures
            match r {
                Some(v) => self.decorator_map().contains_key(key@) && self.decorator_map()[key@]
                    == v@,
                None => !self.decorator_map().contains_key(key@),
            },
    {
        decorator_table_get(&self.decorators, key.as_str())
    }

    /// The names of the tools in `registry`, each once: those that any
    /// server registered.
    pub fn list_tools(&self, registry: &Registry) -> (r: Vec<String>)
        ensures
            lists_keys(r@.map_values(|s: String| s@), registry.tool_map().dom()),
    {
        let entries = registry.tool_entries();
        proof {
            lemma_listing_keys(entries@, registry.tool_map());
        }
        entry_keys(&entries)
    }

    /// The URI patterns of the resources in `registry`, each once.
    pub fn list_resources(&self, registry: &Registry) -> (r: Vec<String>)
        ensures
            lists_keys(r@.map_values(|s: String| s@), registry.resource_map().dom()),
    {
        let entries = registry.resource_entries();
        proof {
            lemma_listing_keys(entries@, registry.resource_map());
        }
        entry_keys(&entries)
    }

    /// The names of the prompts in `registry`, each once.
    pub fn list_prompts(&self, registry: &Registry) -> (r: Vec<String>)
        ensures
            lists_keys(r@.map_values(|s: String| s@), registry.prompt_map().dom()),
    {
        let entries = registry.prompt_entries();
        proof {
            lemma_listing_keys(entries@, registry.prompt_map());
        }
        entry_keys(&entries)
    }

    /// The server's name and version and what `registry` holds, as JSON text.
    pub fn server_info(&self, registry: &Registry) -> (r: String)
        ensures
            exists|tools: Seq<Seq<char>>, resources: Seq<Seq<char>>, prompts: Seq<Seq<char>>|
                {
                    &&& lists_keys(tools, registry.tool_map().dom())
                    &&& lists_keys(resources, registry.resource_map().dom())
                    &&& lists_keys(prompts, registry.prompt_map().dom())
                    &&& r@ == #[trigger] server_info_text(
                        self.name_view(),
                        self.version_view(),
                        self.description_view(),
                        tools,
                        resources,
                        prompts,
                    )
                },
    {
        let tools = self.list_tools(registry);
        let resources = self.list_resources(registry);
        let prompts = self.list_prompts(registry);
        let mut out = String::new();
        out.append("{\"description\":");
        write_nullable_string(&self.description, &mut out);
        out.append(",\"mcpjsVersion\":");
        let v = quote_json(MCPJS_VERSION);
        out.append(v.as_str());
        out.append(",\"name\":");
        let n = quote_json(self.name.as_str());
        out.append(n.as_str());
        out.append(",\"prompts\":");
        write_string_array(&prompts, &mut out);
        out.append(",\"resources\":");
        write_string_array(&resources, &mut out);
        out.append(",\"tools\":");
        write_string_array(&tools, &mut out);
        out.append(",\"version\":");
        let q = quote_json(self.version.as_str());
        out.append(q.as_str());
        out.append("}");
        let ghost tv = tools@.map_values(|s: String| s@);
        let ghost rv = resources@.map_values(|s: String| s@);
        let ghost pv = prompts@.map_values(|s: String| s@);
        assert(out@ =~= server_info_text(
            self.name_view(),
            self.version_view(),
            self.description_view(),
            tv,
            rv,
            pv,
        ));
        out
    }

    /// A fresh request id: a random version 4 UUID.
    pub fn generate_id(&self) -> (r: String)
        ensures
            is_uuid_v4_text(r@),
    {
        random_uuid_text()
    }

    /// Decides what handling `request` calls for (see [`planned_step`]),
    /// with `registry` and the server's handlers listed in their own order.
    pub fn begin_request(&self, registry: &Registry, request: &JsonValue) -> (r: RequestStep)
        ensures
            exists|
                tools: Seq<(String, ToolSchema)>,
                resources: Seq<(String, ResourceSchema)>,
                prompts: Seq<(String, PromptSchema)>,
                tool_handlers: Seq<(String, ToolSchema)>,
                resource_handlers: Seq<(String, ResourceSchema)>,
                prompt_handlers: Seq<(String, PromptSchema)>,
            |
                {
                    &&& is_listing(tools, registry.tool_map())
                    &&& is_listing(resources, registry.resource_map())
                    &&& is_listing(prompts, registry.prompt_map())
                    &&& is_listing(tool_handlers, self.tool_handlers())
                    &&& is_listing(resource_handlers, self.resource_handlers())
                    &&& is_listing(prompt_handlers, self.prompt_handlers())
                    &&& r@ == #[trigger] planned_step(
                        self.name_view(),
                        self.version_view(),
                        self.description_view(),
                        *request,
                        tools,
                        resources,
                        prompts,
                        tool_handlers,
                        resource_handlers,
                        prompt_handlers,
                    )
                },
    {
        let tools = registry.tool_entries();
        let resources = registry.resource_entries();
        let prompts = registry.prompt_entries();
        let tool_handlers = tool_table_entries(&self.tools);
        let resource_handlers = resource_table_entries(&self.resources);
        let prompt_handlers = prompt_table_entries(&self.prompts);
        let r = plan_request(
            self.name.as_str(),
            self.version.as_str(),
            &self.description,
            request,
            &tools,
            &resources,
            &prompts,
            &tool_handlers,
            &resource_handlers,
            &prompt_handlers,
        );
        assert(r@ == planned_step(
            self.name_view(),
            self.version_view(),
            self.description_view(),
            *request,
            tools@,
            resources@,
            prompts@,
            tool_handlers@,
            resource_handlers@,
            prompt_handlers@,
        ));
        r
    }

    /// Handles the raw request text `raw_request`: where it is not JSON, the
    /// error `Invalid JSON-RPC: ` and the parse error's message; else what
    /// handling the parsed request calls for (see [`planned_step`]), with
    /// `registry` and the server's handlers listed in their own order.
    pub fn handle_request(&self, registry: &Registry, raw_request: &str) -> (r: Result<
        RequestStep,
        String,
    >)
        ensures
            match r {
                Err(e) => exists|message: Seq<char>|
                    json_normalized(raw_request@) == Err::<Seq<char>, Seq<char>>(message)
                        && e@ == "Invalid JSON-RPC: "@ + message,
                Ok(step) => exists|
                    request: JsonValue,
                    tools: Seq<(String, ToolSchema)>,
                    resources: Seq<(String, ResourceSchema)>,
                    prompts: Seq<(String, PromptSchema)>,
                    tool_handlers: Seq<(String, ToolSchema)>,
                    resource_handlers: Seq<(String, ResourceSchema)>,
                    prompt_handlers: Seq<(String, PromptSchema)>,
                |
                    {
                        &&& json_normalized(raw_request@) == Ok::<Seq<char>, Seq<char>>(
                            json_text(request),
                        )
                        &&& numbers_read(request)
                        &&& is_listing(tools, registry.tool_map())
                        &&& is_listing(resources, registry.resource_map())
                        &&& is_listing(prompts, registry.prompt_map())
                        &&& is_listing(tool_handlers, self.tool_handlers())
                        &&& is_listing(resource_handlers, self.resource_handlers())
                        &&& is_listing(prompt_handlers, self.prompt_handlers())
                        &&& step@ == #[trigger] planned_step(
                            self.name_view(),
                            self.version_view(),
                            self.description_view(),
                            request,
                            tools,
                            resources,
                            prompts,
                            tool_handlers,
                            resource_handlers,
                            prompt_handlers,
                        )
                    },
            },
            json_normalized(raw_request@) is Ok <==> r is Ok,
    {
        match parse_json(raw_request) {
            Err(e) => {
                let mut message = String::from_str("Invalid JSON-RPC: ");
                message.append(e.as_str());
                proof {
                    reveal_strlit("Invalid JSON-RPC: ");
                }
                Err(message)
            },
            Ok(request) => Ok(self.begin_request(registry, &request)),
        }
    }
}

}
