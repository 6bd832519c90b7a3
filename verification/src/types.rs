//! The data types that the server and its users exchange.
use vstd::prelude::*;

verus! {

/// One block of content in a tool result or a prompt message.
#[derive(Debug, Clone)]
pub struct McpContent {
    /// The block's kind: `text`, `image` or `resource`.
    pub content_type: String,
    pub text: Option<String>,
    pub data: Option<String>,
    pub mime_type: Option<String>,
    pub uri: Option<String>,
}

/// What a tool handler returns.
#[derive(Debug, Clone)]
pub struct McpToolResult {
    pub content: Vec<McpContent>,
    pub is_error: Option<bool>,
}

/// One piece of a resource's contents.
#[derive(Debug, Clone)]
pub struct McpResourceContent {
    pub uri: String,
    pub mime_type: Option<String>,
    pub text: Option<String>,
    pub blob: Option<String>,
}

/// What a resource handler returns.
#[derive(Debug, Clone)]
pub struct McpResourceResult {
    pub contents: Vec<McpResourceContent>,
}

/// One message of a prompt.
#[derive(Debug, Clone)]
pub struct McpPromptMessage {
    pub role: String,
    pub content: McpContent,
}

/// What a prompt handler returns.
#[derive(Debug, Clone)]
pub struct McpPromptResult {
    pub description: Option<String>,
    pub messages: Vec<McpPromptMessage>,
}

/// How a tool is described to clients.
#[derive(Debug, Clone)]
pub struct ToolSchema {
    pub name: String,
    pub description: Option<String>,
    /// The tool's input schema, as JSON text.
    pub input_schema: String,
}

/// How a resource is described to clients.
#[derive(Debug, Clone)]
pub struct ResourceSchema {
    pub uri: String,
    pub name: String,
    pub description: Option<String>,
    pub mime_type: Option<String>,
}

/// How a prompt is described to clients.
#[derive(Debug, Clone)]
pub struct PromptSchema {
    pub name: String,
    pub description: Option<String>,
    /// The prompt's argument definitions, as JSON text.
    pub arguments: Option<String>,
}

/// What a server is created with.
#[derive(Debug, Clone)]
pub struct ServerOptions {
    pub name: String,
    pub version: String,
    pub description: Option<String>,
    pub log_level: Option<String>,
}

/// Where a server listens: `transport` is `stdio`, `sse` or `http`.
#[derive(Debug, Clone)]
pub struct ListenOptions {
    pub transport: String,
    pub port: Option<u32>,
    pub host: Option<String>,
    pub path: Option<String>,
}

/// A JSON-RPC request; `params` is JSON text.
#[derive(Debug, Clone)]
pub struct JsonRpcRequest {
    pub jsonrpc: String,
    pub id: Option<String>,
    pub method: String,
    pub params: Option<String>,
}

/// A JSON-RPC response; `result` and `error` are JSON text.
#[derive(Debug, Clone)]
pub struct JsonRpcResponse {
    pub jsonrpc: String,
    pub id: Option<String>,
    pub result: Option<String>,
    pub error: Option<String>,
}

/// Options of a plugin.
#[derive(Debug, Clone)]
pub struct PluginOptions {
    pub name: String,
    pub version: Option<String>,
}

/// A content block of text.
pub fn text_content(text: String) -> (r: McpContent)
    ensures
        r.content_type@ == "text"@,
        r.text == Some(text),
        r.data is None,
        r.mime_type is None,
        r.uri is None,
{
    McpContent {
        content_type: String::from_str("text"),
        text: Some(text),
        data: None,
        mime_type: None,
        uri: None,
    }
}

/// A content block of an image: base64 `data` of type `mime_type`.
pub fn image_content(data: String, mime_type: String) -> (r: McpContent)
    ensures
        r.content_type@ == "image"@,
        r.text is None,
        r.data == Some(data),
        r.mime_type == Some(mime_type),
        r.uri is None,
{
    McpContent {
        content_type: String::from_str("image"),
        text: None,
        data: Some(data),
        mime_type: Some(mime_type),
        uri: None,
    }
}

/// A content block that refers to the resource at `uri`.
pub fn resource_content(uri: String, mime_type: Option<String>) -> (r: McpContent)
    ensures
        r.content_type@ == "resource"@,
        r.text is None,
        r.data is None,
        r.mime_type == mime_type,
        r.uri == Some(uri),
{
    McpContent {
        content_type: String::from_str("resource"),
        text: None,
        data: None,
        mime_type,
        uri: Some(uri),
    }
}

/// A copy of the optional text `t`.
pub(crate) fn copy_text_option(t: &Option<String>) -> (r: Option<String>)
    ensures
        r == *t,
{
    match t {
        Some(s) => Some(s.clone()),
        None => None,
    }
}

impl ToolSchema {
    /// A copy of the schema, field for field.
    pub fn duplicate(&self) -> (r: Self)
        ensures
            r == *self,
    {
        ToolSchema {
            name: self.name.clone(),
            description: copy_text_option(&self.description),
            input_schema: self.input_schema.clone(),
        }
    }
}

impl ResourceSchema {
    /// A copy of the schema, field for field.
    pub fn duplicate(&self) -> (r: Self)
        ensures
            r == *self,
    {
        ResourceSchema {
            uri: self.uri.clone(),
            name: self.name.clone(),
            description: copy_text_option(&self.description),
            mime_type: copy_text_option(&self.mime_type),
        }
    }
}

impl PromptSchema {
    /// A copy of the schema, field for field.
    pub fn duplicate(&self) -> (r: Self)
        ensures
            r == *self,
    {
        PromptSchema {
            name: self.name.clone(),
            description: copy_text_option(&self.description),
            arguments: copy_text_option(&self.arguments),
        }
    }
}

}
