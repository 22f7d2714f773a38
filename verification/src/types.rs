//! Shared protocol-facing data types: resource and prompt metadata, tool
//! parameters and results. Dynamic payloads are carried in the library's
//! own JSON model.

use vstd::prelude::*;
use crate::jsonval::Json;

verus! {

/// Resource metadata.
#[derive(Debug, Clone)]
pub struct ResourceMetadata {
    pub name: String,
    pub description: String,
    pub mime_type: Option<String>,
    pub uri: String,
}

/// Resource content wrapper.
#[derive(Debug)]
pub struct ResourceContent {
    pub uri: String,
    pub content: Json,
    pub metadata: Option<Vec<(String, String)>>,
}

/// Tool parameter definition.
#[derive(Debug, Clone)]
pub struct ToolParameter {
    pub name: String,
    pub description: String,
    pub required: bool,
    pub param_type: String,
}

/// Tool execution result.
#[derive(Debug)]
pub struct ToolResult {
    pub success: bool,
    pub output: Json,
    pub error: Option<String>,
}

/// Prompt metadata.
#[derive(Debug, Clone)]
pub struct PromptMetadata {
    pub name: String,
    pub description: String,
    pub arguments: Vec<PromptArgument>,
}

/// Prompt argument definition.
#[derive(Debug, Clone)]
pub struct PromptArgument {
    pub name: String,
    pub description: String,
    pub required: bool,
}

/// Prompt execution result.
#[derive(Debug, Clone)]
pub struct PromptResult {
    pub messages: Vec<PromptMessage>,
}

/// Message in a prompt.
#[derive(Debug, Clone)]
pub struct PromptMessage {
    pub role: String,
    pub content: String,
}

} // verus!
