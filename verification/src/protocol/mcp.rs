//! The messages of the Model Context Protocol, as the library holds them.
//!
//! These are plain data; putting them on and taking them off the wire is the business of the
//! program around the library.
use vstd::prelude::*;
use crate::json::{Json, JsonView};

verus! {

/// A request: a method to call, with its parameters.
#[derive(Debug)]
pub struct MCPRequest {
    pub jsonrpc: String,
    pub id: Option<Json>,
    pub method: String,
    pub params: Option<Json>,
}

/// A response: a result, or an error.
#[derive(Debug)]
pub enum MCPResponse {
    Success { jsonrpc: String, id: Option<Json>, result: Json },
    Error { jsonrpc: String, id: Option<Json>, error: MCPError },
}

/// What went wrong with a request.
#[derive(Debug)]
pub struct MCPError {
    pub code: i32,
    pub message: String,
    pub data: Option<Json>,
}

/// A tool as it is listed: its wire name, what it does, what it takes, and how a client may
/// show it.
#[derive(Debug)]
pub struct ToolDefinition {
    pub name: String,
    pub description: String,
    pub input_schema: Json,
    pub annotations: Option<ToolAnnotations>,
}

/// What a client shows and assumes about a tool, as distinct from what the tool takes.
#[derive(Debug)]
pub struct ToolAnnotations {
    /// The name a person reads, instead of the wire name.
    pub title: String,
    /// Whether the tool leaves everything as it found it.
    pub read_only_hint: bool,
}

/// The answer of a tool: what it has to say.
#[derive(Debug)]
pub struct ToolResult {
    pub content: Vec<ContentItem>,
}

/// One piece of what a tool has to say.
#[derive(Debug)]
pub struct ContentItem {
    pub content_type: String,
    pub text: String,
}

/// The mathematical value of a `ToolAnnotations`.
pub struct AnnotationsView {
    pub title: Seq<char>,
    pub read_only_hint: bool,
}

impl View for ToolAnnotations {
    type V = AnnotationsView;

    open spec fn view(&self) -> AnnotationsView {
        AnnotationsView { title: self.title@, read_only_hint: self.read_only_hint }
    }
}

/// The mathematical value of a `ToolDefinition`.
pub struct ToolView {
    pub name: Seq<char>,
    pub description: Seq<char>,
    pub input_schema: JsonView,
    pub annotations: Option<AnnotationsView>,
}

impl View for ToolDefinition {
    type V = ToolView;

    open spec fn view(&self) -> ToolView {
        ToolView {
            name: self.name@,
            description: self.description@,
            input_schema: self.input_schema@,
            annotations: match self.annotations {
                Some(a) => Some(a@),
                None => None,
            },
        }
    }
}

} // verus!
