//! The Responses request.
use crate::json::{json, Json};
use crate::text::{option_view, views};
use serde_json::Value as JsonValue;
use vstd::prelude::*;

verus! {

/// A request of the Responses API.
#[derive(Debug, PartialEq)]
pub struct ResponsesRequest {
    pub model: String,
    pub instructions: String,
    pub input: Vec<ResponseItem>,
    pub tools: Vec<ToolSpec>,
    pub tool_choice: String,
    pub parallel_tool_calls: bool,
    pub reasoning: Option<ReasoningRequest>,
    pub store: bool,
    pub stream: bool,
    pub included: Vec<String>,
    pub service_tier: Option<String>,
    pub prompt_cache_key: Option<String>,
    pub text: Option<JsonValue>,
    pub client_metadata: Option<JsonValue>,
    pub previous_response_id: Option<String>,
}

/// An item of the conversation.
#[derive(Debug, PartialEq)]
#[allow(inconsistent_fields)]
pub enum ResponseItem {
    Message { id: Option<String>, role: String, content: Vec<ContentItem>, phase: Option<String> },
    FunctionCall {
        id: Option<String>,
        name: String,
        namespace: Option<String>,
        arguments: String,
        call_id: String,
    },
    FunctionCallOutput { call_id: String, output: JsonValue },
    Reasoning {
        id: String,
        summary: Vec<ReasoningSummaryItem>,
        content: Option<Vec<ReasoningContentItem>>,
        encrypted_content: Option<String>,
    },
}

/// A part of a message.
#[derive(Debug, PartialEq)]
pub enum ContentItem {
    InputText { text: String },
    OutputText { text: String },
    InputImage { image_url: String },
}

/// A part of the summary of some reasoning.
#[derive(Debug, PartialEq)]
pub enum ReasoningSummaryItem {
    SummaryText { text: String },
}

/// A part of some reasoning.
#[derive(Debug, PartialEq)]
pub enum ReasoningContentItem {
    ReasoningText { text: String },
}

/// How the model is asked to reason.
#[derive(Debug, PartialEq)]
pub struct ReasoningRequest {
    pub effort: Option<String>,
    pub summary: Option<String>,
}

/// A tool that the model may call.
#[derive(Debug, PartialEq)]
pub enum ToolSpec {
    Function { name: String, description: String, strict: bool, parameters: JsonValue },
}

/// What a [`ResponsesRequest`] says.
pub struct ResponsesRequestView {
    pub model: Seq<char>,
    pub instructions: Seq<char>,
    pub input: Seq<ResponseItemView>,
    pub tools: Seq<ToolSpecView>,
    pub tool_choice: Seq<char>,
    pub parallel_tool_calls: bool,
    pub reasoning: Option<ReasoningRequestView>,
    pub store: bool,
    pub stream: bool,
    pub included: Seq<Seq<char>>,
    pub service_tier: Option<Seq<char>>,
    pub prompt_cache_key: Option<Seq<char>>,
    pub text: Option<Json>,
    pub client_metadata: Option<Json>,
    pub previous_response_id: Option<Seq<char>>,
}

/// What a [`ResponseItem`] says.
#[allow(inconsistent_fields)]
pub enum ResponseItemView {
    Message {
        id: Option<Seq<char>>,
        role: Seq<char>,
        content: Seq<ContentItemView>,
        phase: Option<Seq<char>>,
    },
    FunctionCall {
        id: Option<Seq<char>>,
        name: Seq<char>,
        namespace: Option<Seq<char>>,
        arguments: Seq<char>,
        call_id: Seq<char>,
    },
    FunctionCallOutput { call_id: Seq<char>, output: Json },
    Reasoning {
        id: Seq<char>,
        summary: Seq<ReasoningSummaryItemView>,
        content: Option<Seq<ReasoningContentItemView>>,
        encrypted_content: Option<Seq<char>>,
    },
}

/// What a [`ContentItem`] says.
pub enum ContentItemView {
    InputText { text: Seq<char> },
    OutputText { text: Seq<char> },
    InputImage { image_url: Seq<char> },
}

/// What a [`ReasoningSummaryItem`] says.
pub enum ReasoningSummaryItemView {
    SummaryText { text: Seq<char> },
}

/// What a [`ReasoningContentItem`] says.
pub enum ReasoningContentItemView {
    ReasoningText { text: Seq<char> },
}

/// What a [`ReasoningRequest`] says.
pub struct ReasoningRequestView {
    pub effort: Option<Seq<char>>,
    pub summary: Option<Seq<char>>,
}

/// What a [`ToolSpec`] says.
pub enum ToolSpecView {
    Function { name: Seq<char>, description: Seq<char>, strict: bool, parameters: Json },
}

/// What an optional JSON value holds.
pub open spec fn option_json(value: Option<JsonValue>) -> Option<Json> {
    match value {
        Some(held) => Some(json(held)),
        None => None,
    }
}

impl View for ResponsesRequest {
    type V = ResponsesRequestView;

    open spec fn view(&self) -> ResponsesRequestView {
        ResponsesRequestView {
            model: self.model@,
            instructions: self.instructions@,
            input: views(self.input@),
            tools: views(self.tools@),
            tool_choice: self.tool_choice@,
            parallel_tool_calls: self.parallel_tool_calls,
            reasoning: option_view(self.reasoning),
            store: self.store,
            stream: self.stream,
            included: views(self.included@),
            service_tier: option_view(self.service_tier),
            prompt_cache_key: option_view(self.prompt_cache_key),
            text: option_json(self.text),
            client_metadata: option_json(self.client_metadata),
            previous_response_id: option_view(self.previous_response_id),
        }
    }
}

impl View for ResponseItem {
    type V = ResponseItemView;

    open spec fn view(&self) -> ResponseItemView {
        match self {
            ResponseItem::Message { id, role, content, phase } => ResponseItemView::Message {
                id: option_view(*id),
                role: role@,
                content: views(content@),
                phase: option_view(*phase),
            },
            ResponseItem::FunctionCall { id, name, namespace, arguments, call_id } =>
                ResponseItemView::FunctionCall {
                id: option_view(*id),
                name: name@,
                namespace: option_view(*namespace),
                arguments: arguments@,
                call_id: call_id@,
            },
            ResponseItem::FunctionCallOutput { call_id, output } =>
                ResponseItemView::FunctionCallOutput { call_id: call_id@, output: json(*output) },
            ResponseItem::Reasoning { id, summary, content, encrypted_content } =>
                ResponseItemView::Reasoning {
                id: id@,
                summary: views(summary@),
                content: match content {
                    Some(parts) => Some(views(parts@)),
                    None => None,
                },
                encrypted_content: option_view(*encrypted_content),
            },
        }
    }
}

impl View for ContentItem {
    type V = ContentItemView;

    open spec fn view(&self) -> ContentItemView {
        match self {
            ContentItem::InputText { text } => ContentItemView::InputText { text: text@ },
            ContentItem::OutputText { text } => ContentItemView::OutputText { text: text@ },
            ContentItem::InputImage { image_url } => ContentItemView::InputImage {
                image_url: image_url@,
            },
        }
    }
}

impl View for ReasoningSummaryItem {
    type V = ReasoningSummaryItemView;

    open spec fn view(&self) -> ReasoningSummaryItemView {
        match self {
            ReasoningSummaryItem::SummaryText { text } => ReasoningSummaryItemView::SummaryText {
                text: text@,
            },
        }
    }
}

impl View for ReasoningContentItem {
    type V = ReasoningContentItemView;

    open spec fn view(&self) -> ReasoningContentItemView {
        match self {
            ReasoningContentItem::ReasoningText { text } =>
                ReasoningContentItemView::ReasoningText { text: text@ },
        }
    }
}

impl View for ReasoningRequest {
    type V = ReasoningRequestView;

    open spec fn view(&self) -> ReasoningRequestView {
        ReasoningRequestView {
            effort: option_view(self.effort),
            summary: option_view(self.summary),
        }
    }
}

impl View for ToolSpec {
    type V = ToolSpecView;

    open spec fn view(&self) -> ToolSpecView {
        match self {
            ToolSpec::Function { name, description, strict, parameters } =>
                ToolSpecView::Function {
                name: name@,
                description: description@,
                strict: *strict,
                parameters: json(*parameters),
            },
        }
    }
}

/// The view of a request says of each field what it holds.
pub proof fn law_request_says_what_it_holds(request: ResponsesRequest)
    ensures
        request@.model == request.model@,
        request@.instructions == request.instructions@,
        request@.input == views(request.input@),
        request@.tools == views(request.tools@),
        request@.tool_choice == request.tool_choice@,
        request@.parallel_tool_calls == request.parallel_tool_calls,
        request@.reasoning == option_view(request.reasoning),
        request@.store == request.store,
        request@.stream == request.stream,
        request@.included == views(request.included@),
        request@.service_tier == option_view(request.service_tier),
        request@.prompt_cache_key == option_view(request.prompt_cache_key),
        request.text matches Some(held) ==> request@.text == Some(json(held)),
        request.text is None <==> request@.text is None,
        request.client_metadata matches Some(held) ==> request@.client_metadata == Some(json(held)),
        request.client_metadata is None <==> request@.client_metadata is None,
        request@.previous_response_id == option_view(request.previous_response_id),
{
}

/// The view of an item, and of what items are made of, says of each field what it holds.
pub proof fn law_items_say_what_they_hold(
    item: ResponseItem,
    part: ContentItem,
    summary_part: ReasoningSummaryItem,
    reasoning_part: ReasoningContentItem,
)
    ensures
        item matches ResponseItem::Message { id, role, content, phase } ==> item@ == (
        ResponseItemView::Message {
            id: option_view(id),
            role: role@,
            content: views(content@),
            phase: option_view(phase),
        }),
        item matches ResponseItem::FunctionCall { id, name, namespace, arguments, call_id }
            ==> item@ == (ResponseItemView::FunctionCall {
            id: option_view(id),
            name: name@,
            namespace: option_view(namespace),
            arguments: arguments@,
            call_id: call_id@,
        }),
        item matches ResponseItem::FunctionCallOutput { call_id, output } ==> item@ == (
        ResponseItemView::FunctionCallOutput { call_id: call_id@, output: json(output) }),
        item matches ResponseItem::Reasoning { id, summary, content: Some(parts), encrypted_content }
            ==> item@ == (ResponseItemView::Reasoning {
            id: id@,
            summary: views(summary@),
            content: Some(views(parts@)),
            encrypted_content: option_view(encrypted_content),
        }),
        item matches ResponseItem::Reasoning { id, summary, content: None, encrypted_content }
            ==> item@ == (ResponseItemView::Reasoning {
            id: id@,
            summary: views(summary@),
            content: None,
            encrypted_content: option_view(encrypted_content),
        }),
        part matches ContentItem::InputText { text } ==> part@ == (ContentItemView::InputText {
            text: text@,
        }),
        part matches ContentItem::OutputText { text } ==> part@ == (ContentItemView::OutputText {
            text: text@,
        }),
        part matches ContentItem::InputImage { image_url } ==> part@ == (
        ContentItemView::InputImage { image_url: image_url@ }),
        summary_part matches ReasoningSummaryItem::SummaryText { text } && summary_part@ == (
        ReasoningSummaryItemView::SummaryText { text: text@ }),
        reasoning_part matches ReasoningContentItem::ReasoningText { text } && reasoning_part@ == (
        ReasoningContentItemView::ReasoningText { text: text@ }),
{
}

/// The view of how the model is asked to reason, and of a tool, says of each field what it holds.
pub proof fn law_tools_say_what_they_hold(reasoning: ReasoningRequest, tool: ToolSpec)
    ensures
        reasoning@.effort == option_view(reasoning.effort),
        reasoning@.summary == option_view(reasoning.summary),
        tool matches ToolSpec::Function { name, description, strict, parameters } && tool@ == (
        ToolSpecView::Function {
            name: name@,
            description: description@,
            strict,
            parameters: json(parameters),
        }),
{
}

} // verus!
