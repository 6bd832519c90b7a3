//! The JSON texts that describe the server and its registries.
use vstd::prelude::*;
use crate::json::{json_normalized, json_quoted, normalize_json, quote_json};
use crate::rpc::{nullable_string, opt_view, write_nullable_string};
use crate::types::{PromptSchema, ResourceSchema, ToolSchema};

verus! {

/// The version of this library, as `server_info` reports it.
pub const MCPJS_VERSION: &'static str = "0.1.0";

/// `parts`, separated by commas.
pub open spec fn joined(parts: Seq<Seq<char>>) -> Seq<char>
    decreases parts.len(),
{
    if parts.len() == 0 {
        Seq::empty()
    } else if parts.len() == 1 {
        parts[0]
    } else {
        joined(parts.subrange(0, parts.len() - 1)) + ","@ + parts[parts.len() - 1]
    }
}

/// Extending the parts by one extends the joined text by a comma and that part.
pub proof fn lemma_joined_push(parts: Seq<Seq<char>>, i: int)
    requires
        0 <= i < parts.len(),
    ensures
        joined(parts.subrange(0, i + 1)) == if i == 0 {
            parts[0]
        } else {
            joined(parts.subrange(0, i)) + ","@ + parts[i]
        },
{
    let next = parts.subrange(0, i + 1);
    assert(next.subrange(0, next.len() - 1) =~= parts.subrange(0, i));
    assert(next[next.len() - 1] == parts[i]);
}

/// The JSON text of a list of strings.
pub open spec fn string_array_text(items: Seq<Seq<char>>) -> Seq<char> {
    "["@ + joined(Seq::new(items.len(), |i: int| json_quoted(items[i]))) + "]"@
}

/// Appends the JSON text of the list of strings `items` to `out`.
pub fn write_string_array(items: &Vec<String>, out: &mut String)
    ensures
        final(out)@ == old(out)@ + string_array_text(items@.map_values(|s: String| s@)),
{
    let ghost views = items@.map_values(|s: String| s@);
    let ghost parts = Seq::new(views.len(), |i: int| json_quoted(views[i]));
    let ghost start = out@;
    out.append("[");
    let mut i: usize = 0;
    while i < items.len()
        invariant
            i <= items@.len(),
            views == items@.map_values(|s: String| s@),
            parts == Seq::new(views.len(), |i: int| json_quoted(views[i])),
            out@ == start + "["@ + joined(parts.subrange(0, i as int)),
        decreases items@.len() - i,
    {
        let ghost before = out@;
        if i > 0 {
            out.append(",");
        }
        let q = quote_json(items[i].as_str());
        out.append(q.as_str());
        proof {
            lemma_joined_push(parts, i as int);
            if i == 0 {
                assert(parts.subrange(0, 0) =~= Seq::<Seq<char>>::empty());
                assert(before =~= start + "["@);
            }
        }
        i = i + 1;
    }
    assert(parts.subrange(0, parts.len() as int) =~= parts);
    out.append("]");
}

/// A tool's input schema as listed: as `serde_json` writes it back, or
/// `{"type":"object"}` where it is not JSON.
pub open spec fn listed_input_schema(text: Seq<char>) -> Seq<char> {
    match json_normalized(text) {
        Ok(t) => t,
        Err(_) => "{\"type\":\"object\"}"@,
    }
}

/// How `tools/list` describes one tool.
pub open spec fn tool_item_text(s: ToolSchema) -> Seq<char> {
    "{\"description\":"@ + nullable_string(opt_view(s.description)) + ",\"inputSchema\":"@
        + listed_input_schema(s.input_schema@) + ",\"name\":"@ + json_quoted(s.name@) + "}"@
}

/// How `resources/list` describes one resource.
pub open spec fn resource_item_text(s: ResourceSchema) -> Seq<char> {
    "{\"description\":"@ + nullable_string(opt_view(s.description)) + ",\"mimeType\":"@
        + nullable_string(opt_view(s.mime_type)) + ",\"name\":"@ + json_quoted(s.name@)
        + ",\"uri\":"@ + json_quoted(s.uri@) + "}"@
}

/// A prompt's arguments as listed: as `serde_json` writes them back, or `[]`
/// where there are none or they are not JSON.
pub open spec fn listed_arguments(arguments: Option<Seq<char>>) -> Seq<char> {
    match arguments {
        Some(text) => match json_normalized(text) {
            Ok(t) => t,
            Err(_) => "[]"@,
        },
        None => "[]"@,
    }
}

/// How `prompts/list` describes one prompt.
pub open spec fn prompt_item_text(s: PromptSchema) -> Seq<char> {
    "{\"arguments\":"@ + listed_arguments(opt_view(s.arguments)) + ",\"description\":"@
        + nullable_string(opt_view(s.description)) + ",\"name\":"@ + json_quoted(s.name@) + "}"@
}

/// The `tools/list` result for the registered tools `entries`.
pub open spec fn tools_list_text(entries: Seq<(String, ToolSchema)>) -> Seq<char> {
    "{\"tools\":["@ + joined(Seq::new(entries.len(), |i: int| tool_item_text(entries[i].1)))
        + "]}"@
}

/// The `resources/list` result for the registered resources `entries`.
pub open spec fn resources_list_text(entries: Seq<(String, ResourceSchema)>) -> Seq<char> {
    "{\"resources\":["@ + joined(
        Seq::new(entries.len(), |i: int| resource_item_text(entries[i].1)),
    ) + "]}"@
}

/// The `prompts/list` result for the registered prompts `entries`.
pub open spec fn prompts_list_text(entries: Seq<(String, PromptSchema)>) -> Seq<char> {
    "{\"prompts\":["@ + joined(Seq::new(entries.len(), |i: int| prompt_item_text(entries[i].1)))
        + "]}"@
}

/// Appends how `tools/list` describes `s`.
fn write_tool_item(s: &ToolSchema, out: &mut String)
    ensures
        final(out)@ == old(out)@ + tool_item_text(*s),
{
    let ghost start = out@;
    out.append("{\"description\":");
    write_nullable_string(&s.description, out);
    out.append(",\"inputSchema\":");
    match normalize_json(s.input_schema.as_str()) {
        Ok(t) => out.append(t.as_str()),
        Err(_) => out.append("{\"type\":\"object\"}"),
    }
    out.append(",\"name\":");
    let q = quote_json(s.name.as_str());
    out.append(q.as_str());
    out.append("}");
    assert(out@ =~= start + tool_item_text(*s));
}

/// Appends how `resources/list` describes `s`.
fn write_resource_item(s: &ResourceSchema, out: &mut String)
    ensures
        final(out)@ == old(out)@ + resource_item_text(*s),
{
    let ghost start = out@;
    out.append("{\"description\":");
    write_nullable_string(&s.description, out);
    out.append(",\"mimeType\":");
    write_nullable_string(&s.mime_type, out);
    out.append(",\"name\":");
    let q = quote_json(s.name.as_str());
    out.append(q.as_str());
    out.append(",\"uri\":");
    let u = quote_json(s.uri.as_str());
    out.append(u.as_str());
    out.append("}");
    assert(out@ =~= start + resource_item_text(*s));
}

/// Appends how `prompts/list` describes `s`.
fn write_prompt_item(s: &PromptSchema, out: &mut String)
    ensures
        final(out)@ == old(out)@ + prompt_item_text(*s),
{
    let ghost start = out@;
    out.append("{\"arguments\":");
    match &s.arguments {
        Some(a) => match normalize_json(a.as_str()) {
            Ok(t) => out.append(t.as_str()),
            Err(_) => out.append("[]"),
        },
        None => out.append("[]"),
    }
    out.append(",\"description\":");
    write_nullable_string(&s.description, out);
    out.append(",\"name\":");
    let q = quote_json(s.name.as_str());
    out.append(q.as_str());
    out.append("}");
    assert(out@ =~= start + prompt_item_text(*s));
}

/// The `tools/list` result for `entries`.
pub fn tools_list(entries: &Vec<(String, ToolSchema)>) -> (r: String)
    ensures
        r@ == tools_list_text(entries@),
{
    let ghost parts = Seq::new(entries@.len(), |i: int| tool_item_text(entries@[i].1));
    let mut out = String::new();
    out.append("{\"tools\":[");
    let ghost start = out@;
    let mut i: usize = 0;
    while i < entries.len()
        invariant
            i <= entries@.len(),
            parts == Seq::new(entries@.len(), |i: int| tool_item_text(entries@[i].1)),
            out@ == start + joined(parts.subrange(0, i as int)),
        decreases entries@.len() - i,
    {
        let ghost before = out@;
        if i > 0 {
            out.append(",");
        }
        write_tool_item(&entries[i].1, &mut out);
        proof {
            lemma_joined_push(parts, i as int);
            if i == 0 {
                assert(parts.subrange(0, 0) =~= Seq::<Seq<char>>::empty());
                assert(before =~= start);
            }
        }
        i = i + 1;
    }
    assert(parts.subrange(0, parts.len() as int) =~= parts);
    out.append("]}");
    assert(out@ =~= tools_list_text(entries@));
    out
}

/// The `resources/list` result for `entries`.
pub fn resources_list(entries: &Vec<(String, ResourceSchema)>) -> (r: String)
    ensures
        r@ == resources_list_text(entries@),
{
    let ghost parts = Seq::new(entries@.len(), |i: int| resource_item_text(entries@[i].1));
    let mut out = String::new();
    out.append("{\"resources\":[");
    let ghost start = out@;
    let mut i: usize = 0;
    while i < entries.len()
        invariant
            i <= entries@.len(),
            parts == Seq::new(entries@.len(), |i: int| resource_item_text(entries@[i].1)),
            out@ == start + joined(parts.subrange(0, i as int)),
        decreases entries@.len() - i,
    {
        let ghost before = out@;
        if i > 0 {
            out.append(",");
        }
        write_resource_item(&entries[i].1, &mut out);
        proof {
            lemma_joined_push(parts, i as int);
            if i == 0 {
                assert(parts.subrange(0, 0) =~= Seq::<Seq<char>>::empty());
                assert(before =~= start);
            }
        }
        i = i + 1;
    }
    assert(parts.subrange(0, parts.len() as int) =~= parts);
    out.append("]}");
    assert(out@ =~= resources_list_text(entries@));
    out
}

/// The `prompts/list` result for `entries`.
pub fn prompts_list(entries: &Vec<(String, PromptSchema)>) -> (r: String)
    ensures
        r@ == prompts_list_text(entries@),
{
    let ghost parts = Seq::new(entries@.len(), |i: int| prompt_item_text(entries@[i].1));
    let mut out = String::new();
    out.append("{\"prompts\":[");
    let ghost start = out@;
    let mut i: usize = 0;
    while i < entries.len()
        invariant
            i <= entries@.len(),
            parts == Seq::new(entries@.len(), |i: int| prompt_item_text(entries@[i].1)),
            out@ == start + joined(parts.subrange(0, i as int)),
        decreases entries@.len() - i,
    {
        let ghost before = out@;
        if i > 0 {
            out.append(",");
        }
        write_prompt_item(&entries[i].1, &mut out);
        proof {
            lemma_joined_push(parts, i as int);
            if i == 0 {
                assert(parts.subrange(0, 0) =~= Seq::<Seq<char>>::empty());
                assert(before =~= start);
            }
        }
        i = i + 1;
    }
    assert(parts.subrange(0, parts.len() as int) =~= parts);
    out.append("]}");
    assert(out@ =~= prompts_list_text(entries@));
    out
}

}
