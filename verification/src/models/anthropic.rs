//! The Anthropic Messages request.
use serde_json::Value as JsonValue;
use vstd::prelude::*;

verus! {

/// A request of the Anthropic Messages API.
#[derive(Debug, PartialEq)]
pub struct AnthropicRequest {
    pub model: String,
    pub max_tokens: Option<u64>,
    pub system: Option<AnthropicSystemContent>,
    pub messages: Vec<AnthropicMessage>,
    pub tools: Option<Vec<AnthropicTool>>,
    pub tool_choice: Option<JsonValue>,
    pub stream: bool,
    /// The JSON number that the client sent.
    pub temperature: Option<JsonValue>,
    /// The JSON number that the client sent.
    pub top_p: Option<JsonValue>,
    pub top_k: Option<u64>,
    pub stop_sequences: Option<Vec<String>>,
    pub metadata: Option<JsonValue>,
    pub thinking: Option<AnthropicThinking>,
}

/// The system prompt: one text, or several blocks of text.
#[derive(Debug, PartialEq)]
pub enum AnthropicSystemContent {
    Text(String),
    Blocks(Vec<AnthropicTextBlock>),
}

/// A block of a system prompt.
#[derive(Debug, PartialEq)]
pub enum AnthropicTextBlock {
    Text { text: String },
}

/// One turn of the conversation.
#[derive(Debug, PartialEq)]
pub struct AnthropicMessage {
    pub role: String,
    pub content: AnthropicContent,
}

/// What a turn holds: one text, or several blocks.
#[derive(Debug, PartialEq)]
pub enum AnthropicContent {
    Text(String),
    Blocks(Vec<AnthropicContentBlock>),
}

/// A block of a turn.
#[derive(Debug, PartialEq)]
pub enum AnthropicContentBlock {
    Text { text: String },
    Image { source: AnthropicImageSource },
    ToolUse { id: String, name: String, input: JsonValue },
    ToolResult { tool_use_id: String, content: Option<AnthropicContent>, is_error: Option<bool> },
    Thinking { thinking: String },
}

/// Where an image comes from. `kind` is `base64` or `url`.
#[derive(Debug, PartialEq)]
pub struct AnthropicImageSource {
    pub kind: String,
    pub media_type: Option<String>,
    pub data: Option<String>,
    pub url: Option<String>,
}

/// A tool that the model may call.
#[derive(Debug, PartialEq)]
pub struct AnthropicTool {
    pub name: String,
    pub description: Option<String>,
    pub input_schema: JsonValue,
}

/// How the model is asked to think.
#[derive(Debug, PartialEq)]
pub enum AnthropicThinking {
    Enabled { budget_tokens: Option<u64> },
    Disabled,
    Adaptive { budget_tokens: Option<u64> },
}

} // verus!
