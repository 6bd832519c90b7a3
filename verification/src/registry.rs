//! The registries, each a `dashmap::DashMap` keyed by text.
//!
//! What a map holds is named for each kind of entry (`tool_table` and the
//! like); the functions below say what each `DashMap` method that the
//! server calls does to it. [`Registry`] holds the tools, resources and
//! prompts that every server of a process registers and lists.
use dashmap::DashMap;
use vstd::prelude::*;
use crate::types::{PromptSchema, ResourceSchema, ToolSchema};

verus! {

#[verifier::external_type_specification]
#[verifier::external_body]
#[verifier::reject_recursive_types(K)]
#[verifier::reject_recursive_types(V)]
#[verifier::reject_recursive_types(S)]
pub struct ExDashMap<K, V, S>(DashMap<K, V, S>);

/// The tools that a tool registry holds, by name.
pub uninterp spec fn tool_table(m: DashMap<String, ToolSchema>) -> Map<Seq<char>, ToolSchema>;

/// `entries` lists the map `table`: each key once, each with its value.
pub open spec fn is_listing<V>(entries: Seq<(String, V)>, table: Map<Seq<char>, V>) -> bool {
    &&& forall|i: int|
        0 <= i < entries.len() ==> table.contains_key(#[trigger] entries[i].0@) && table[entries[i].0@]
            == entries[i].1
    &&& forall|i: int, j: int|
        0 <= i < j < entries.len() ==> #[trigger] entries[i].0@ != #[trigger] entries[j].0@
    &&& forall|k: Seq<char>|
        #[trigger] table.contains_key(k) ==> exists|i: int| 0 <= i < entries.len() && entries[i].0@ == k
}

/// An empty tool registry (`DashMap::new`).
#[verifier::external_body]
pub(crate) fn new_tool_table() -> (r: DashMap<String, ToolSchema>)
    ensures
        tool_table(r).dom().is_empty(),
{
    DashMap::new()
}

/// Registers `schema` under `name` (`DashMap::insert`), replacing what was there.
#[verifier::external_body]
pub(crate) fn tool_table_insert(m: &mut DashMap<String, ToolSchema>, name: String, schema: ToolSchema)
    ensures
        tool_table(*final(m)) == tool_table(*old(m)).insert(name@, schema),
{
    m.insert(name, schema);
}

/// The registered tools, each once, in the map's own order (`DashMap::iter`).
#[verifier::external_body]
pub(crate) fn tool_table_entries(m: &DashMap<String, ToolSchema>) -> (r: Vec<(String, ToolSchema)>)
    ensures
        is_listing(r@, tool_table(*m)),
{
    m.iter().map(|e| (e.key().clone(), e.value().clone())).collect()
}


/// The resources that a resource registry holds, by URI pattern.
pub uninterp spec fn resource_table(m: DashMap<String, ResourceSchema>) -> Map<
    Seq<char>,
    ResourceSchema,
>;

/// An empty resource registry (`DashMap::new`).
#[verifier::external_body]
pub(crate) fn new_resource_table() -> (r: DashMap<String, ResourceSchema>)
    ensures
        resource_table(r).dom().is_empty(),
{
    DashMap::new()
}

/// Registers `schema` under `pattern` (`DashMap::insert`), replacing what was there.
#[verifier::external_body]
pub(crate) fn resource_table_insert(
    m: &mut DashMap<String, ResourceSchema>,
    pattern: String,
    schema: ResourceSchema,
)
    ensures
        resource_table(*final(m)) == resource_table(*old(m)).insert(pattern@, schema),
{
    m.insert(pattern, schema);
}

/// The registered resources, each once, in the map's own order (`DashMap::iter`).
#[verifier::external_body]
pub(crate) fn resource_table_entries(m: &DashMap<String, ResourceSchema>) -> (r: Vec<
    (String, ResourceSchema),
>)
    ensures
        is_listing(r@, resource_table(*m)),
{
    m.iter().map(|e| (e.key().clone(), e.value().clone())).collect()
}

/// The prompts that a prompt registry holds, by name.
pub uninterp spec fn prompt_table(m: DashMap<String, PromptSchema>) -> Map<Seq<char>, PromptSchema>;

/// An empty prompt registry (`DashMap::new`).
#[verifier::external_body]
pub(crate) fn new_prompt_table() -> (r: DashMap<String, PromptSchema>)
    ensures
        prompt_table(r).dom().is_empty(),
{
    DashMap::new()
}

/// Registers `schema` under `name` (`DashMap::insert`), replacing what was there.
#[verifier::external_body]
pub(crate) fn prompt_table_insert(m: &mut DashMap<String, PromptSchema>, name: String, schema: PromptSchema)
    ensures
        prompt_table(*final(m)) == prompt_table(*old(m)).insert(name@, schema),
{
    m.insert(name, schema);
}

/// The registered prompts, each once, in the map's own order (`DashMap::iter`).
#[verifier::external_body]
pub(crate) fn prompt_table_entries(m: &DashMap<String, PromptSchema>) -> (r: Vec<(String, PromptSchema)>)
    ensures
        is_listing(r@, prompt_table(*m)),
{
    m.iter().map(|e| (e.key().clone(), e.value().clone())).collect()
}

/// The values that a decorator registry holds, by key.
pub uninterp spec fn decorator_table(m: DashMap<String, String>) -> Map<Seq<char>, Seq<char>>;

/// An empty decorator registry (`DashMap::new`).
#[verifier::external_body]
pub(crate) fn new_decorator_table() -> (r: DashMap<String, String>)
    ensures
        decorator_table(r).dom().is_empty(),
{
    DashMap::new()
}

/// Sets the decorator `key` to `value` (`DashMap::insert`), replacing what was there.
#[verifier::external_body]
pub(crate) fn decorator_table_insert(m: &mut DashMap<String, String>, key: String, value: String)
    ensures
        decorator_table(*final(m)) == decorator_table(*old(m)).insert(key@, value@),
{
    m.insert(key, value);
}

/// A copy of the decorator `key`, if it is set (`DashMap::get`).
#[verifier::external_body]
pub(crate) fn decorator_table_get(m: &DashMap<String, String>, key: &str) -> (r: Option<String>)
    ensures
        match r {
            Some(v) => decorator_table(*m).contains_key(key@) && decorator_table(*m)[key@] == v@,
            None => !decorator_table(*m).contains_key(key@),
        },
{
    m.get(key).map(|v| v.value().clone())
}

/// The tools, resources and prompts that the servers of a process have
/// registered: one registry, shared by all of them, that `tools/list`,
/// `resources/list` and `prompts/list` answer from.
pub struct Registry {
    tools: DashMap<String, ToolSchema>,
    resources: DashMap<String, ResourceSchema>,
    prompts: DashMap<String, PromptSchema>,
}

impl Registry {
    /// The registered tools, by name.
    pub closed spec fn tool_map(&self) -> Map<Seq<char>, ToolSchema> {
        tool_table(self.tools)
    }

    /// The registered resources, by URI pattern.
    pub closed spec fn resource_map(&self) -> Map<Seq<char>, ResourceSchema> {
        resource_table(self.resources)
    }

    /// The registered prompts, by name.
    pub closed spec fn prompt_map(&self) -> Map<Seq<char>, PromptSchema> {
        prompt_table(self.prompts)
    }

    /// A registry with nothing registered.
    pub fn new() -> (r: Self)
        ensures
            r.tool_map().dom().is_empty(),
            r.resource_map().dom().is_empty(),
            r.prompt_map().dom().is_empty(),
    {
        Registry {
            tools: new_tool_table(),
            resources: new_resource_table(),
            prompts: new_prompt_table(),
        }
    }

    /// Registers `schema` under the tool name `name`, replacing what was there.
    pub(crate) fn insert_tool(&mut self, name: String, schema: ToolSchema)
        ensures
            final(self).tool_map() == old(self).tool_map().insert(name@, schema),
            final(self).resource_map() == old(self).resource_map(),
            final(self).prompt_map() == old(self).prompt_map(),
    {
        tool_table_insert(&mut self.tools, name, schema);
    }

    /// Registers `schema` under the URI pattern `pattern`, replacing what was there.
    pub(crate) fn insert_resource(&mut self, pattern: String, schema: ResourceSchema)
        ensures
            final(self).resource_map() == old(self).resource_map().insert(pattern@, schema),
            final(self).tool_map() == old(self).tool_map(),
            final(self).prompt_map() == old(self).prompt_map(),
    {
        resource_table_insert(&mut self.resources, pattern, schema);
    }

    /// Registers `schema` under the prompt name `name`, replacing what was there.
    pub(crate) fn insert_prompt(&mut self, name: String, schema: PromptSchema)
        ensures
            final(self).prompt_map() == old(self).prompt_map().insert(name@, schema),
            final(self).tool_map() == old(self).tool_map(),
            final(self).resource_map() == old(self).resource_map(),
    {
        prompt_table_insert(&mut self.prompts, name, schema);
    }

    /// The registered tools, each once, in the map's own order.
    pub(crate) fn tool_entries(&self) -> (r: Vec<(String, ToolSchema)>)
        ensures
            is_listing(r@, self.tool_map()),
    {
        tool_table_entries(&self.tools)
    }

    /// The registered resources, each once, in the map's own order.
    pub(crate) fn resource_entries(&self) -> (r: Vec<(String, ResourceSchema)>)
        ensures
            is_listing(r@, self.resource_map()),
    {
        resource_table_entries(&self.resources)
    }

    /// The registered prompts, each once, in the map's own order.
    pub(crate) fn prompt_entries(&self) -> (r: Vec<(String, PromptSchema)>)
        ensures
            is_listing(r@, self.prompt_map()),
    {
        prompt_table_entries(&self.prompts)
    }
}

}
