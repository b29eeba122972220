//! Anthropic Messages requests as Responses requests.
use crate::error::{AppError, AppResult};
use crate::json::{
    is_readable, json, json_text, null_value, parsed_json, text_value, to_json_text, Json,
};
use crate::models::anthropic::{
    AnthropicContent, AnthropicContentBlock, AnthropicImageSource, AnthropicMessage,
    AnthropicRequest, AnthropicSystemContent, AnthropicTextBlock, AnthropicThinking, AnthropicTool,
};
use crate::models::responses::{
    ContentItem, ContentItemView, ReasoningContentItem, ReasoningContentItemView, ReasoningRequest,
    ReasoningRequestView, ReasoningSummaryItem, ResponseItem, ResponseItemView, ResponsesRequest, ResponsesRequestView,
    ToolSpec, ToolSpecView,
};
use crate::text::{join, joined, lemma_views_push, option_view, same_text, views};
use vstd::prelude::*;
use vstd::string::*;

verus! {

/// The texts of the blocks of a system prompt.
pub open spec fn system_texts(blocks: Seq<AnthropicTextBlock>) -> Seq<Seq<char>> {
    blocks.map_values(
        |block: AnthropicTextBlock|
            match block {
                AnthropicTextBlock::Text { text } => text@,
            },
    )
}

/// The instructions that a system prompt gives: its blocks stand on lines of their own.
pub open spec fn system_text(system: Option<AnthropicSystemContent>) -> Seq<char> {
    match system {
        Some(AnthropicSystemContent::Text(text)) => text@,
        Some(AnthropicSystemContent::Blocks(blocks)) => joined(system_texts(blocks@), "\n"@),
        None => Seq::empty(),
    }
}

/// How the model is asked to reason where the client asked it to think.
pub open spec fn reasoning_request(thinking: Option<AnthropicThinking>) -> Option<
    ReasoningRequestView,
> {
    match thinking {
        Some(AnthropicThinking::Enabled { .. }) => Some(
            ReasoningRequestView { effort: Some("medium"@), summary: None },
        ),
        Some(AnthropicThinking::Adaptive { .. }) => Some(
            ReasoningRequestView { effort: None, summary: None },
        ),
        Some(AnthropicThinking::Disabled) => None,
        None => None,
    }
}

/// The URL under which the model finds an image.
pub open spec fn image_url(source: AnthropicImageSource) -> Seq<char> {
    if source.kind@ == "base64"@ {
        let media_type = match source.media_type {
            Some(media_type) => media_type@,
            None => "image/png"@,
        };
        let data = match source.data {
            Some(data) => data@,
            None => Seq::empty(),
        };
        "data:"@ + media_type + ";base64,"@ + data
    } else if source.kind@ == "url"@ {
        match source.url {
            Some(url) => url@,
            None => Seq::empty(),
        }
    } else {
        Seq::empty()
    }
}

/// A text as a part of a message: input where the user wrote it, output otherwise.
pub open spec fn text_part(role: Seq<char>, text: Seq<char>) -> ContentItemView {
    if role == "user"@ {
        ContentItemView::InputText { text }
    } else {
        ContentItemView::OutputText { text }
    }
}

/// The part of a message that a block becomes. Only texts and images become one.
pub open spec fn content_part(role: Seq<char>, block: AnthropicContentBlock) -> Option<
    ContentItemView,
> {
    match block {
        AnthropicContentBlock::Text { text } => Some(text_part(role, text@)),
        AnthropicContentBlock::Image { source } => Some(
            ContentItemView::InputImage { image_url: image_url(source) },
        ),
        _ => None,
    }
}

/// The parts of a message that some blocks become.
pub open spec fn content_parts(role: Seq<char>, blocks: Seq<AnthropicContentBlock>) -> Seq<
    ContentItemView,
>
    decreases blocks.len(),
{
    if blocks.len() == 0 {
        Seq::empty()
    } else {
        let parts = content_parts(role, blocks.drop_last());
        match content_part(role, blocks.last()) {
            Some(part) => parts.push(part),
            None => parts,
        }
    }
}

/// A message with these parts.
pub open spec fn message_item(role: Seq<char>, content: Seq<ContentItemView>) -> ResponseItemView {
    ResponseItemView::Message { id: None, role, content, phase: None }
}

/// The texts among some blocks.
pub open spec fn block_texts(blocks: Seq<AnthropicContentBlock>) -> Seq<Seq<char>>
    decreases blocks.len(),
{
    if blocks.len() == 0 {
        Seq::empty()
    } else {
        let texts = block_texts(blocks.drop_last());
        match blocks.last() {
            AnthropicContentBlock::Text { text } => texts.push(text@),
            _ => texts,
        }
    }
}

/// What a tool answered: its texts on lines of their own, or null where there is no text.
pub open spec fn tool_output(content: Option<AnthropicContent>) -> Json {
    match content {
        Some(AnthropicContent::Text(text)) => Json::Text(text@),
        Some(AnthropicContent::Blocks(blocks)) => if block_texts(blocks@).len() == 0 {
            Json::Null
        } else {
            Json::Text(joined(block_texts(blocks@), "\n"@))
        },
        None => Json::Null,
    }
}

/// The number of thinking blocks.
pub open spec fn thinking_count(blocks: Seq<AnthropicContentBlock>) -> nat
    decreases blocks.len(),
{
    if blocks.len() == 0 {
        0
    } else {
        thinking_count(blocks.drop_last()) + if blocks.last() is Thinking {
            1nat
        } else {
            0nat
        }
    }
}

/// What some of the input converts to: items, up to the tool call whose input cannot be
/// written as JSON, and the message of that failure where there is one.
pub struct Conversion {
    pub items: Seq<ResponseItemView>,
    pub failure: Option<Seq<char>>,
}

/// The item of some thinking.
pub open spec fn reasoning_item_view(uuid: Seq<char>, thinking: Seq<char>) -> ResponseItemView {
    ResponseItemView::Reasoning {
        id: "rsn_"@ + uuid,
        summary: Seq::empty(),
        content: Some(seq![ReasoningContentItemView::ReasoningText { text: thinking }]),
        encrypted_content: None,
    }
}

/// The items that the tool calls, the tool results and the thinking among some blocks become,
/// in the order of the blocks. `uuids` holds one identifier for each thinking block.
pub open spec fn tool_items(blocks: Seq<AnthropicContentBlock>, uuids: Seq<Seq<char>>) -> Conversion
    decreases blocks.len(),
{
    if blocks.len() == 0 {
        Conversion { items: Seq::empty(), failure: None }
    } else {
        let before = tool_items(blocks.drop_last(), uuids);
        if before.failure is Some {
            before
        } else {
            match blocks.last() {
                AnthropicContentBlock::ToolUse { id, name, input } => match json_text(json(input)) {
                    Ok(arguments) => Conversion {
                        items: before.items.push(
                            ResponseItemView::FunctionCall {
                                id: None,
                                name: name@,
                                namespace: None,
                                arguments,
                                call_id: id@,
                            },
                        ),
                        failure: None,
                    },
                    Err(message) => Conversion { items: before.items, failure: Some(message) },
                },
                AnthropicContentBlock::ToolResult { tool_use_id, content, is_error } => Conversion {
                    items: before.items.push(
                        ResponseItemView::FunctionCallOutput {
                            call_id: tool_use_id@,
                            output: tool_output(content),
                        },
                    ),
                    failure: None,
                },
                AnthropicContentBlock::Thinking { thinking } => Conversion {
                    items: before.items.push(
                        reasoning_item_view(
                            uuids[thinking_count(blocks.drop_last()) as int],
                            thinking@,
                        ),
                    ),
                    failure: None,
                },
                _ => before,
            }
        }
    }
}

/// The number of thinking blocks of a turn.
pub open spec fn content_thinking_count(content: AnthropicContent) -> nat {
    match content {
        AnthropicContent::Text(_) => 0,
        AnthropicContent::Blocks(blocks) => thinking_count(blocks@),
    }
}

/// The items that a turn becomes: one message of its texts and images where it has any, and
/// behind it the tool calls, tool results and thinking.
pub open spec fn message_items(
    role: Seq<char>,
    content: AnthropicContent,
    uuids: Seq<Seq<char>>,
) -> Conversion {
    match content {
        AnthropicContent::Text(text) => Conversion {
            items: if text@.len() == 0 {
                Seq::empty()
            } else {
                seq![message_item(role, seq![text_part(role, text@)])]
            },
            failure: None,
        },
        AnthropicContent::Blocks(blocks) => {
            let parts = content_parts(role, blocks@);
            let message = if parts.len() == 0 {
                Seq::empty()
            } else {
                seq![message_item(role, parts)]
            };
            let others = tool_items(blocks@, uuids);
            Conversion { items: message + others.items, failure: others.failure }
        },
    }
}

/// The items that some turns become, one turn after the other. `uuids` holds for each turn the
/// identifiers of its thinking blocks.
pub open spec fn conversation_items(
    messages: Seq<AnthropicMessage>,
    uuids: Seq<Seq<Seq<char>>>,
) -> Conversion
    decreases messages.len(),
{
    if messages.len() == 0 {
        Conversion { items: Seq::empty(), failure: None }
    } else {
        let before = conversation_items(messages.drop_last(), uuids);
        if before.failure is Some {
            before
        } else {
            let last = message_items(
                messages.last().role@,
                messages.last().content,
                uuids[messages.len() - 1],
            );
            Conversion { items: before.items + last.items, failure: last.failure }
        }
    }
}

/// The function that a tool becomes.
pub open spec fn tool_spec(tool: AnthropicTool) -> ToolSpecView {
    ToolSpecView::Function {
        name: tool.name@,
        description: match tool.description {
            Some(description) => description@,
            None => Seq::empty(),
        },
        strict: false,
        parameters: json(tool.input_schema),
    }
}

/// The functions that the tools of a request become.
pub open spec fn tool_specs(tools: Option<Vec<AnthropicTool>>) -> Seq<ToolSpecView> {
    match tools {
        Some(tools) => tools@.map_values(|tool: AnthropicTool| tool_spec(tool)),
        None => Seq::empty(),
    }
}

/// Whether there is one identifier for each thinking block of each turn.
pub open spec fn uuids_fit(messages: Seq<AnthropicMessage>, uuids: Seq<Seq<Seq<char>>>) -> bool {
    &&& uuids.len() == messages.len()
    &&& forall|i: int|
        0 <= i < messages.len() ==> (#[trigger] uuids[i]).len() == content_thinking_count(
            messages[i].content,
        )
}

/// The Responses request for an Anthropic request whose turns become `input`.
pub open spec fn responses_request(
    request: AnthropicRequest,
    input: Seq<ResponseItemView>,
) -> ResponsesRequestView {
    ResponsesRequestView {
        model: request.model@,
        instructions: system_text(request.system),
        input,
        tools: tool_specs(request.tools),
        tool_choice: "auto"@,
        parallel_tool_calls: false,
        reasoning: reasoning_request(request.thinking),
        store: false,
        stream: true,
        included: Seq::empty(),
        service_tier: None,
        prompt_cache_key: None,
        text: None,
        client_metadata: None,
        previous_response_id: None,
    }
}

/// The message of the refusal of a tool call whose input cannot be written as JSON.
pub open spec fn refusal(failure: Seq<char>) -> Seq<char> {
    "failed to serialize tool_use input: "@ + failure
}

/// Whether `error` refuses a request for this failure.
pub open spec fn refuses(error: AppError, failure: Seq<char>) -> bool {
    match error {
        AppError::BadRequest { message } => message@ == refusal(failure),
    }
}

/// Whether `result` is what `request` converts to with these identifiers.
pub open spec fn converts_to(
    request: AnthropicRequest,
    uuids: Seq<Seq<Seq<char>>>,
    result: AppResult<ResponsesRequest>,
) -> bool {
    let conversion = conversation_items(request.messages@, uuids);
    match conversion.failure {
        None => result matches Ok(converted) && converted@ == responses_request(
            request,
            conversion.items,
        ),
        Some(failure) => result matches Err(error) && refuses(error, failure),
    }
}

/// Whether `text` is a random UUID in its simple form: 32 hexadecimal digits in small letters,
/// among them the digits of the version and of the variant.
pub open spec fn is_random_uuid(text: Seq<char>) -> bool {
    &&& text.len() == 32
    &&& forall|i: int|
        0 <= i < 32 ==> ('0' <= #[trigger] text[i] <= '9' || 'a' <= text[i] <= 'f')
    &&& text[12] == '4'
    &&& (text[16] == '8' || text[16] == '9' || text[16] == 'a' || text[16] == 'b')
}

/// `uuid::Uuid::new_v4`, in its simple form. Which UUID it is is left to chance.
#[verifier::external_body]
fn random_uuid() -> (text: String)
    ensures
        is_random_uuid(text@),
{
    uuid::Uuid::new_v4().simple().to_string()
}

/// The views of the identifiers of each turn.
pub open spec fn uuid_views(uuids: Seq<Vec<String>>) -> Seq<Seq<Seq<char>>> {
    uuids.map_values(|turn: Vec<String>| views(turn@))
}

/// Whether these are random identifiers, one for each thinking block of each turn.
pub open spec fn are_fresh(messages: Seq<AnthropicMessage>, uuids: Seq<Seq<Seq<char>>>) -> bool {
    &&& uuids_fit(messages, uuids)
    &&& forall|i: int, j: int|
        0 <= i < uuids.len() && 0 <= j < uuids[i].len() ==> is_random_uuid(#[trigger] uuids[i][j])
}

/// The blocks of a turn.
pub open spec fn blocks_of(content: AnthropicContent) -> Seq<AnthropicContentBlock> {
    match content {
        AnthropicContent::Text(_) => Seq::empty(),
        AnthropicContent::Blocks(blocks) => blocks@,
    }
}

/// The inputs of the tool calls among some blocks.
pub open spec fn tool_inputs(blocks: Seq<AnthropicContentBlock>) -> Seq<Json>
    decreases blocks.len(),
{
    if blocks.len() == 0 {
        Seq::empty()
    } else {
        match blocks.last() {
            AnthropicContentBlock::ToolUse { input, .. } => tool_inputs(blocks.drop_last()).push(
                json(input),
            ),
            _ => tool_inputs(blocks.drop_last()),
        }
    }
}

/// The inputs of the tool calls of a conversation.
pub open spec fn conversation_inputs(messages: Seq<AnthropicMessage>) -> Seq<Json>
    decreases messages.len(),
{
    if messages.len() == 0 {
        Seq::empty()
    } else {
        conversation_inputs(messages.drop_last()) + tool_inputs(blocks_of(messages.last().content))
    }
}

/// The arguments of the calls among some items.
pub open spec fn call_arguments(items: Seq<ResponseItemView>) -> Seq<Seq<char>>
    decreases items.len(),
{
    if items.len() == 0 {
        Seq::empty()
    } else {
        match items.last() {
            ResponseItemView::FunctionCall { arguments, .. } => call_arguments(
                items.drop_last(),
            ).push(arguments),
            _ => call_arguments(items.drop_last()),
        }
    }
}

/// Whether the calls among some items stand one by one for these inputs: the arguments of a call
/// are a JSON text that is read back as the input, where an input is read back at all.
pub open spec fn calls_read_back(items: Seq<ResponseItemView>, inputs: Seq<Json>) -> bool {
    &&& call_arguments(items).len() == inputs.len()
    &&& forall|k: int|
        0 <= k < inputs.len() && is_readable(inputs[k]) ==> parsed_json(
            #[trigger] call_arguments(items)[k],
        ) == Some(inputs[k])
}

/// The instructions that a system prompt gives.
pub fn extract_system_text(system: &Option<AnthropicSystemContent>) -> (text: String)
    ensures
        text@ == system_text(*system),
{
    match system {
        Some(AnthropicSystemContent::Text(text)) => text.clone(),
        Some(AnthropicSystemContent::Blocks(blocks)) => {
            let mut texts: Vec<String> = Vec::new();
            let mut i: usize = 0;
            while i < blocks.len()
                invariant
                    i <= blocks.len(),
                    views(texts@) =~= system_texts(blocks@).take(i as int),
                decreases blocks.len() - i,
            {
                match &blocks[i] {
                    AnthropicTextBlock::Text { text } => {
                        proof {
                            lemma_views_push(texts@, *text);
                        }
                        texts.push(text.clone());
                    },
                }
                i += 1;
            }
            assert(views(texts@) =~= system_texts(blocks@));
            join(&texts, "\n")
        },
        None => String::new(),
    }
}

/// How the model is asked to reason where the client asked it to think.
pub fn convert_thinking(thinking: &Option<AnthropicThinking>) -> (reasoning: Option<
    ReasoningRequest,
>)
    ensures
        option_view(reasoning) == reasoning_request(*thinking),
{
    match thinking {
        Some(AnthropicThinking::Enabled { .. }) => Some(
            ReasoningRequest { effort: Some("medium".to_string()), summary: None },
        ),
        Some(AnthropicThinking::Disabled) => None,
        Some(AnthropicThinking::Adaptive { .. }) => Some(
            ReasoningRequest { effort: None, summary: None },
        ),
        None => None,
    }
}

/// The URL under which the model finds an image.
pub fn image_source_to_url(source: &AnthropicImageSource) -> (url: String)
    ensures
        url@ == image_url(*source),
{
    if same_text(source.kind.as_str(), "base64") {
        let mut url = "data:".to_string();
        match &source.media_type {
            Some(media_type) => url.append(media_type.as_str()),
            None => url.append("image/png"),
        }
        url.append(";base64,");
        match &source.data {
            Some(data) => url.append(data.as_str()),
            None => {},
        }
        assert(url@ =~= image_url(*source));
        url
    } else if same_text(source.kind.as_str(), "url") {
        match &source.url {
            Some(url) => url.clone(),
            None => String::new(),
        }
    } else {
        String::new()
    }
}

/// A text as a part of a message.
fn text_content(role: &str, text: &str) -> (part: ContentItem)
    ensures
        part@ == text_part(role@, text@),
{
    if same_text(role, "user") {
        ContentItem::InputText { text: text.to_string() }
    } else {
        ContentItem::OutputText { text: text.to_string() }
    }
}

/// A message of one text.
pub fn text_message_item(role: &str, text: &str) -> (item: ResponseItem)
    ensures
        item@ == message_item(role@, seq![text_part(role@, text@)]),
{
    let mut content: Vec<ContentItem> = Vec::new();
    content.push(text_content(role, text));
    assert(views(content@) =~= seq![text_part(role@, text@)]);
    ResponseItem::Message { id: None, role: role.to_string(), content, phase: None }
}

/// What a tool answered.
pub fn extract_tool_result_content(content: &Option<AnthropicContent>) -> (output:
    serde_json::Value)
    ensures
        json(output) == tool_output(*content),
{
    match content {
        Some(AnthropicContent::Text(text)) => text_value(text.clone()),
        Some(AnthropicContent::Blocks(blocks)) => {
            let mut texts: Vec<String> = Vec::new();
            let mut i: usize = 0;
            while i < blocks.len()
                invariant
                    i <= blocks.len(),
                    views(texts@) == block_texts(blocks@.take(i as int)),
                decreases blocks.len() - i,
            {
                let ghost before = texts@;
                match &blocks[i] {
                    AnthropicContentBlock::Text { text } => {
                        texts.push(text.clone());
                        assert(views(texts@) =~= views(before).push(text@));
                    },
                    _ => {},
                }
                assert(blocks@.take(i + 1).drop_last() =~= blocks@.take(i as int));
                i += 1;
            }
            assert(blocks@.take(i as int) =~= blocks@);
            if texts.len() == 0 {
                null_value()
            } else {
                text_value(join(&texts, "\n"))
            }
        },
        None => null_value(),
    }
}

/// The functions that the tools of a request become.
pub fn convert_tools(tools: &Option<Vec<AnthropicTool>>) -> (specs: Vec<ToolSpec>)
    ensures
        views(specs@) == tool_specs(*tools),
        tools is None ==> specs@.len() == 0,
        *tools matches Some(given) ==> specs@.len() == given@.len() && forall|i: int|
            0 <= i < given@.len() ==> (#[trigger] specs@[i] matches ToolSpec::Function {
                name,
                description,
                strict,
                parameters,
            } && {
                &&& name@ == given@[i].name@
                &&& json(parameters) == json(given@[i].input_schema)
                &&& !strict
                &&& given@[i].description matches Some(text) ==> description@ == text@
                &&& given@[i].description is None ==> description@.len() == 0
            }),
{
    let mut specs: Vec<ToolSpec> = Vec::new();
    match tools {
        Some(tools) => {
            let mut i: usize = 0;
            while i < tools.len()
                invariant
                    i <= tools.len(),
                    views(specs@) =~= tool_specs(Some(*tools)).take(i as int),
                decreases tools.len() - i,
            {
                let tool = &tools[i];
                let description = match &tool.description {
                    Some(description) => description.clone(),
                    None => String::new(),
                };
                let function = ToolSpec::Function {
                    name: tool.name.clone(),
                    description,
                    strict: false,
                    parameters: tool.input_schema.clone(),
                };
                proof {
                    lemma_views_push(specs@, function);
                }
                specs.push(function);
                i += 1;
            }
        },
        None => {},
    }
    assert(views(specs@) =~= tool_specs(*tools));
    proof {
        assert(views(specs@).len() == specs@.len());
        if let Some(given) = tools {
            assert forall|i: int| 0 <= i < given@.len() implies (#[trigger] specs@[i])@
                == tool_spec(given@[i]) by {
                assert(views(specs@)[i] == tool_specs(*tools)[i]);
            }
        }
    }
    specs
}

/// The item of some thinking, under the identifier that `uuid` gives it.
pub fn reasoning_item(uuid: &str, thinking: &str) -> (item: ResponseItem)
    ensures
        item@ == reasoning_item_view(uuid@, thinking@),
{
    let summary: Vec<ReasoningSummaryItem> = Vec::new();
    let mut content: Vec<ReasoningContentItem> = Vec::new();
    content.push(ReasoningContentItem::ReasoningText { text: thinking.to_string() });
    assert(views(summary@) =~= Seq::empty());
    assert(views(content@) =~= seq![ReasoningContentItemView::ReasoningText { text: thinking@ }]);
    ResponseItem::Reasoning {
        id: "rsn_".to_string().concat(uuid),
        summary,
        content: Some(content),
        encrypted_content: None,
    }
}

/// Appends to `items` the tool calls, the tool results and the thinking among some blocks.
fn convert_tool_blocks(
    blocks: &Vec<AnthropicContentBlock>,
    uuids: &Vec<String>,
    items: &mut Vec<ResponseItem>,
) -> (result: AppResult<()>)
    requires
        uuids@.len() == thinking_count(blocks@),
    ensures
        views(final(items)@) == views(old(items)@) + tool_items(blocks@, views(uuids@)).items,
        match tool_items(blocks@, views(uuids@)).failure {
            None => result is Ok,
            Some(failure) => result matches Err(error) && refuses(error, failure),
        },
        result is Ok,
        calls_read_back(tool_items(blocks@, views(uuids@)).items, tool_inputs(blocks@)),
{
    let ghost start = views(items@);
    let mut next_uuid: usize = 0;
    let mut i: usize = 0;
    assert(views(items@) =~= start + Seq::<ResponseItemView>::empty());
    while i < blocks.len()
        invariant
            i <= blocks.len(),
            uuids@.len() == thinking_count(blocks@),
            start == views(old(items)@),
            next_uuid == thinking_count(blocks@.take(i as int)),
            views(items@) == start + tool_items(blocks@.take(i as int), views(uuids@)).items,
            tool_items(blocks@.take(i as int), views(uuids@)).failure is None,
            are_read_back(tool_inputs(blocks@.take(i as int))),
        decreases blocks.len() - i,
    {
        assert(blocks@.take(i + 1).drop_last() =~= blocks@.take(i as int));
        proof {
            lemma_thinking_count_grows(blocks@, i + 1);
        }
        let ghost after = tool_items(blocks@.take(i + 1), views(uuids@));
        match &blocks[i] {
            AnthropicContentBlock::ToolUse { id, name, input } => {
                match to_json_text(input) {
                    Ok(arguments) => {
                        let call = ResponseItem::FunctionCall {
                            id: None,
                            name: name.clone(),
                            namespace: None,
                            arguments,
                            call_id: id.clone(),
                        };
                        proof {
                            lemma_views_push(items@, call);
                        }
                        items.push(call);
                        assert(views(items@) =~= start + after.items);
                    },
                    Err(message) => {
                        proof {
                            lemma_failure_stays(blocks@, views(uuids@), i + 1);
                        }
                        return Err(
                            AppError::bad_request(
                                "failed to serialize tool_use input: ".to_string().concat(
                                    message.as_str(),
                                ),
                            ),
                        );
                    },
                }
            },
            AnthropicContentBlock::ToolResult { tool_use_id, content, .. } => {
                let output = ResponseItem::FunctionCallOutput {
                    call_id: tool_use_id.clone(),
                    output: extract_tool_result_content(content),
                };
                proof {
                    lemma_views_push(items@, output);
                }
                items.push(output);
                assert(views(items@) =~= start + after.items);
            },
            AnthropicContentBlock::Thinking { thinking } => {
                let reasoning = reasoning_item(uuids[next_uuid].as_str(), thinking.as_str());
                proof {
                    lemma_views_push(items@, reasoning);
                }
                items.push(reasoning);
                assert(next_uuid < uuids.len());
                next_uuid += 1;
                assert(views(items@) =~= start + after.items);
            },
            _ => {},
        }
        i += 1;
    }
    assert(blocks@.take(i as int) =~= blocks@);
    proof {
        lemma_tool_calls_read_back(blocks@, views(uuids@));
    }
    Ok(())
}

/// Whether the texts of these inputs are read back as the inputs, where an input is read back at
/// all.
spec fn are_read_back(inputs: Seq<Json>) -> bool {
    forall|k: int|
        0 <= k < inputs.len() && is_readable(#[trigger] inputs[k]) ==> parsed_json(
            json_text(inputs[k])->Ok_0,
        ) == Some(inputs[k])
}

/// The arguments of the calls that some blocks become are the texts of their inputs.
proof fn lemma_tool_items_arguments(blocks: Seq<AnthropicContentBlock>, uuids: Seq<Seq<char>>)
    requires
        tool_items(blocks, uuids).failure is None,
    ensures
        call_arguments(tool_items(blocks, uuids).items) == tool_inputs(blocks).map_values(
            |input: Json| json_text(input)->Ok_0,
        ),
    decreases blocks.len(),
{
    if blocks.len() > 0 {
        let before = blocks.drop_last();
        lemma_tool_items_arguments(before, uuids);
        let items = tool_items(blocks, uuids).items;
        if items != tool_items(before, uuids).items {
            assert(items.drop_last() =~= tool_items(before, uuids).items);
        }
    }
    assert(call_arguments(tool_items(blocks, uuids).items) =~= tool_inputs(blocks).map_values(
        |input: Json| json_text(input)->Ok_0,
    ));
}

/// The calls that some blocks become are read back as the inputs of the blocks.
proof fn lemma_tool_calls_read_back(blocks: Seq<AnthropicContentBlock>, uuids: Seq<Seq<char>>)
    requires
        tool_items(blocks, uuids).failure is None,
        are_read_back(tool_inputs(blocks)),
    ensures
        calls_read_back(tool_items(blocks, uuids).items, tool_inputs(blocks)),
{
    lemma_tool_items_arguments(blocks, uuids);
}

/// The arguments of the calls of two lists of items one after the other.
proof fn lemma_arguments_concatenate(one: Seq<ResponseItemView>, other: Seq<ResponseItemView>)
    ensures
        call_arguments(one + other) == call_arguments(one) + call_arguments(other),
    decreases other.len(),
{
    if other.len() == 0 {
        assert(one + other =~= one);
    } else {
        lemma_arguments_concatenate(one, other.drop_last());
        assert((one + other).drop_last() =~= one + other.drop_last());
    }
    assert(call_arguments(one + other) =~= call_arguments(one) + call_arguments(other));
}

/// Calls that are read back one list after the other are read back together.
proof fn lemma_read_back_concatenates(
    one: Seq<ResponseItemView>,
    one_inputs: Seq<Json>,
    other: Seq<ResponseItemView>,
    other_inputs: Seq<Json>,
)
    requires
        calls_read_back(one, one_inputs),
        calls_read_back(other, other_inputs),
    ensures
        calls_read_back(one + other, one_inputs + other_inputs),
{
    lemma_arguments_concatenate(one, other);
    let inputs = one_inputs + other_inputs;
    assert forall|k: int| 0 <= k < inputs.len() && is_readable(inputs[k]) implies parsed_json(
        #[trigger] call_arguments(one + other)[k],
    ) == Some(inputs[k]) by {
        if k < one_inputs.len() {
            assert(call_arguments(one + other)[k] == call_arguments(one)[k]);
        } else {
            assert(call_arguments(one + other)[k] == call_arguments(other)[k - one_inputs.len()]);
        }
    }
}

/// The first blocks hold at most as many thinking blocks as all of them.
proof fn lemma_thinking_count_grows(blocks: Seq<AnthropicContentBlock>, n: int)
    requires
        0 <= n <= blocks.len(),
    ensures
        thinking_count(blocks.take(n)) <= thinking_count(blocks),
    decreases blocks.len() - n,
{
    if n < blocks.len() {
        assert(blocks.take(n + 1).drop_last() =~= blocks.take(n));
        lemma_thinking_count_grows(blocks, n + 1);
    } else {
        assert(blocks.take(n) =~= blocks);
    }
}

/// Blocks behind a failure change nothing.
proof fn lemma_failure_stays(
    blocks: Seq<AnthropicContentBlock>,
    uuids: Seq<Seq<char>>,
    n: int,
)
    requires
        0 <= n <= blocks.len(),
        tool_items(blocks.take(n), uuids).failure is Some,
    ensures
        tool_items(blocks, uuids) == tool_items(blocks.take(n), uuids),
    decreases blocks.len() - n,
{
    if n < blocks.len() {
        assert(blocks.take(n + 1).drop_last() =~= blocks.take(n));
        lemma_failure_stays(blocks, uuids, n + 1);
    } else {
        assert(blocks.take(n) =~= blocks);
    }
}

/// Appends to `items` what a turn becomes. `uuids` holds one identifier for each thinking block
/// of the turn. The arguments of a call are read back as the input of the tool call.
pub fn convert_message(
    role: &str,
    content: &AnthropicContent,
    uuids: &Vec<String>,
    items: &mut Vec<ResponseItem>,
) -> (result: AppResult<()>)
    requires
        uuids@.len() == content_thinking_count(*content),
    ensures
        views(final(items)@) == views(old(items)@) + message_items(
            role@,
            *content,
            views(uuids@),
        ).items,
        match message_items(role@, *content, views(uuids@)).failure {
            None => result is Ok,
            Some(failure) => result matches Err(error) && refuses(error, failure),
        },
        result is Ok,
        calls_read_back(
            message_items(role@, *content, views(uuids@)).items,
            tool_inputs(blocks_of(*content)),
        ),
{
    let ghost start = views(items@);
    match content {
        AnthropicContent::Text(text) => {
            if !text.as_str().is_empty() {
                items.push(text_message_item(role, text.as_str()));
            }
            assert(views(items@) =~= start + message_items(role@, *content, views(uuids@)).items);
            proof {
                reveal_with_fuel(call_arguments, 2);
            }
            Ok(())
        },
        AnthropicContent::Blocks(blocks) => {
            // Texts and images go into a single message; tool calls, tool results and thinking
            // become items of their own behind it.
            let mut parts: Vec<ContentItem> = Vec::new();
            let mut i: usize = 0;
            while i < blocks.len()
                invariant
                    i <= blocks.len(),
                    views(parts@) == content_parts(role@, blocks@.take(i as int)),
                decreases blocks.len() - i,
            {
                let ghost before = parts@;
                match &blocks[i] {
                    AnthropicContentBlock::Text { text } => {
                        parts.push(text_content(role, text.as_str()));
                        assert(views(parts@) =~= views(before).push(text_part(role@, text@)));
                    },
                    AnthropicContentBlock::Image { source } => {
                        let image = ContentItem::InputImage {
                            image_url: image_source_to_url(source),
                        };
                        parts.push(image);
                        assert(views(parts@) =~= views(before).push(image@));
                    },
                    _ => {},
                }
                assert(blocks@.take(i + 1).drop_last() =~= blocks@.take(i as int));
                i += 1;
            }
            assert(blocks@.take(i as int) =~= blocks@);
            let ghost others = tool_items(blocks@, views(uuids@)).items;
            if parts.len() > 0 {
                items.push(
                    ResponseItem::Message {
                        id: None,
                        role: role.to_string(),
                        content: parts,
                        phase: None,
                    },
                );
                assert(views(items@) =~= start.push(
                    message_item(role@, content_parts(role@, blocks@)),
                ));
            }
            let ghost with_message = views(items@);
            let result = convert_tool_blocks(blocks, uuids, items);
            assert(with_message + others =~= start + message_items(
                role@,
                *content,
                views(uuids@),
            ).items);
            proof {
                reveal_with_fuel(call_arguments, 2);
                let parts = content_parts(role@, blocks@);
                let message = if parts.len() == 0 {
                    Seq::empty()
                } else {
                    seq![message_item(role@, parts)]
                };
                lemma_read_back_concatenates(
                    message,
                    Seq::empty(),
                    others,
                    tool_inputs(blocks@),
                );
                assert(Seq::empty() + tool_inputs(blocks@) =~= tool_inputs(blocks@));
            }
            result
        },
    }
}

/// Turns behind a failure change nothing.
proof fn lemma_refusal_stays(
    messages: Seq<AnthropicMessage>,
    uuids: Seq<Seq<Seq<char>>>,
    n: int,
)
    requires
        0 <= n <= messages.len(),
        conversation_items(messages.take(n), uuids).failure is Some,
    ensures
        conversation_items(messages, uuids) == conversation_items(messages.take(n), uuids),
    decreases messages.len() - n,
{
    if n < messages.len() {
        assert(messages.take(n + 1).drop_last() =~= messages.take(n));
        lemma_refusal_stays(messages, uuids, n + 1);
    } else {
        assert(messages.take(n) =~= messages);
    }
}

/// The items that the turns of a conversation become.
pub fn convert_messages(messages: &Vec<AnthropicMessage>, uuids: &Vec<Vec<String>>) -> (result:
    AppResult<Vec<ResponseItem>>)
    requires
        uuids_fit(messages@, uuid_views(uuids@)),
    ensures
        match conversation_items(messages@, uuid_views(uuids@)).failure {
            None => result matches Ok(items) && views(items@) == conversation_items(
                messages@,
                uuid_views(uuids@),
            ).items,
            Some(failure) => result matches Err(error) && refuses(error, failure),
        },
        result is Ok,
        calls_read_back(views(result->Ok_0@), conversation_inputs(messages@)),
{
    let mut items: Vec<ResponseItem> = Vec::new();
    let mut i: usize = 0;
    assert(views(items@) =~= Seq::empty());
    while i < messages.len()
        invariant
            i <= messages.len(),
            uuids_fit(messages@, uuid_views(uuids@)),
            views(items@) == conversation_items(
                messages@.take(i as int),
                uuid_views(uuids@),
            ).items,
            conversation_items(messages@.take(i as int), uuid_views(uuids@)).failure is None,
            calls_read_back(views(items@), conversation_inputs(messages@.take(i as int))),
        decreases messages.len() - i,
    {
        let message = &messages[i];
        assert(messages@.take(i + 1).drop_last() =~= messages@.take(i as int));
        assert(uuid_views(uuids@)[i as int] == views(uuids@[i as int]@));
        let ghost before = views(items@);
        match convert_message(message.role.as_str(), &message.content, &uuids[i], &mut items) {
            Ok(()) => {
                proof {
                    lemma_read_back_concatenates(
                        before,
                        conversation_inputs(messages@.take(i as int)),
                        message_items(message.role@, message.content, views(uuids@[i as int]@)).items,
                        tool_inputs(blocks_of(message.content)),
                    );
                }
            },
            Err(error) => {
                proof {
                    lemma_refusal_stays(messages@, uuid_views(uuids@), i + 1);
                }
                return Err(error);
            },
        }
        i += 1;
    }
    assert(messages@.take(i as int) =~= messages@);
    Ok(items)
}

/// An identifier for each thinking block of a turn.
fn draw_uuids(content: &AnthropicContent) -> (uuids: Vec<String>)
    ensures
        uuids@.len() == content_thinking_count(*content),
        forall|i: int| 0 <= i < uuids@.len() ==> is_random_uuid(#[trigger] views(uuids@)[i]),
{
    let mut uuids: Vec<String> = Vec::new();
    match content {
        AnthropicContent::Text(_) => {},
        AnthropicContent::Blocks(blocks) => {
            let mut i: usize = 0;
            while i < blocks.len()
                invariant
                    i <= blocks.len(),
                    uuids@.len() == thinking_count(blocks@.take(i as int)),
                    forall|j: int|
                        0 <= j < uuids@.len() ==> is_random_uuid(#[trigger] views(uuids@)[j]),
                decreases blocks.len() - i,
            {
                let ghost before = views(uuids@);
                match &blocks[i] {
                    AnthropicContentBlock::Thinking { .. } => {
                        uuids.push(random_uuid());
                        assert(views(uuids@) =~= before.push(uuids@.last()@));
                    },
                    _ => {},
                }
                assert(blocks@.take(i + 1).drop_last() =~= blocks@.take(i as int));
                i += 1;
            }
            assert(blocks@.take(i as int) =~= blocks@);
        },
    }
    uuids
}

/// The Responses request for an Anthropic request, with the given identifiers for its thinking
/// blocks.
pub fn convert_request_with_uuids(request: AnthropicRequest, uuids: &Vec<Vec<String>>) -> (result:
    AppResult<ResponsesRequest>)
    requires
        uuids_fit(request.messages@, uuid_views(uuids@)),
    ensures
        converts_to(request, uuid_views(uuids@), result),
        result is Ok,
        calls_read_back(result->Ok_0@.input, conversation_inputs(request.messages@)),
        result->Ok_0.model@ == request.model@,
        result->Ok_0.stream,
        request.tools is None ==> result->Ok_0.tools@.len() == 0,
        request.tools matches Some(given) ==> result->Ok_0.tools@.len() == given@.len() && forall|
            i: int,
        |
            0 <= i < given@.len() ==> (#[trigger] result->Ok_0.tools@[i] matches ToolSpec::Function {
                name,
                description,
                strict,
                parameters,
            } && {
                &&& name@ == given@[i].name@
                &&& json(parameters) == json(given@[i].input_schema)
                &&& !strict
                &&& given@[i].description matches Some(text) ==> description@ == text@
                &&& given@[i].description is None ==> description@.len() == 0
            }),
{
    let instructions = extract_system_text(&request.system);
    let input = match convert_messages(&request.messages, uuids) {
        Ok(input) => input,
        Err(error) => {
            return Err(error);
        },
    };
    let tools = convert_tools(&request.tools);
    let reasoning = convert_thinking(&request.thinking);
    let included: Vec<String> = Vec::new();
    assert(views(included@) =~= Seq::empty());
    Ok(
        ResponsesRequest {
            model: request.model,
            instructions,
            input,
            tools,
            tool_choice: "auto".to_string(),
            parallel_tool_calls: false,
            reasoning,
            store: false,
            stream: true,
            included,
            service_tier: None,
            prompt_cache_key: None,
            text: None,
            client_metadata: None,
            previous_response_id: None,
        },
    )
}

/// The Responses request for an Anthropic request. Each thinking block gets a random identifier;
/// everything else follows from the request. No request is refused, since every tool call's input
/// can be written as JSON, and what is written is read back as that input.
pub fn convert_request(request: AnthropicRequest) -> (result: AppResult<ResponsesRequest>)
    ensures
        exists|uuids: Seq<Seq<Seq<char>>>| #[trigger]
            are_fresh(request.messages@, uuids) && converts_to(request, uuids, result),
        result is Ok,
        calls_read_back(result->Ok_0@.input, conversation_inputs(request.messages@)),
        result->Ok_0.model@ == request.model@,
        result->Ok_0.stream,
        request.tools is None ==> result->Ok_0.tools@.len() == 0,
        request.tools matches Some(given) ==> result->Ok_0.tools@.len() == given@.len() && forall|
            i: int,
        |
            0 <= i < given@.len() ==> (#[trigger] result->Ok_0.tools@[i] matches ToolSpec::Function {
                name,
                description,
                strict,
                parameters,
            } && {
                &&& name@ == given@[i].name@
                &&& json(parameters) == json(given@[i].input_schema)
                &&& !strict
                &&& given@[i].description matches Some(text) ==> description@ == text@
                &&& given@[i].description is None ==> description@.len() == 0
            }),
{
    let mut uuids: Vec<Vec<String>> = Vec::new();
    let mut i: usize = 0;
    while i < request.messages.len()
        invariant
            i <= request.messages.len(),
            are_fresh(request.messages@.take(i as int), uuid_views(uuids@)),
        decreases request.messages.len() - i,
    {
        let ghost before = uuid_views(uuids@);
        let turn = draw_uuids(&request.messages[i].content);
        uuids.push(turn);
        assert(uuid_views(uuids@) =~= before.push(views(turn@)));
        i += 1;
    }
    assert(request.messages@.take(i as int) =~= request.messages@);
    convert_request_with_uuids(request, &uuids)
}

/// Whether a block is a tool call whose input cannot be written as JSON.
pub open spec fn is_unwritable(block: AnthropicContentBlock) -> bool {
    block matches AnthropicContentBlock::ToolUse { input, .. } && json_text(json(input)) is Err
}

/// Whether a turn holds a tool call whose input cannot be written as JSON.
pub open spec fn holds_unwritable(message: AnthropicMessage) -> bool {
    message.content matches AnthropicContent::Blocks(blocks) && exists|i: int|
        0 <= i < blocks@.len() && is_unwritable(#[trigger] blocks@[i])
}

/// Some blocks fail to convert if and only if one of them is unwritable.
proof fn lemma_tool_items_failure(blocks: Seq<AnthropicContentBlock>, uuids: Seq<Seq<char>>)
    ensures
        tool_items(blocks, uuids).failure is Some <==> exists|i: int|
            0 <= i < blocks.len() && is_unwritable(#[trigger] blocks[i]),
    decreases blocks.len(),
{
    if blocks.len() > 0 {
        let before = blocks.drop_last();
        lemma_tool_items_failure(before, uuids);
        if tool_items(before, uuids).failure is Some {
            let i = choose|i: int| 0 <= i < before.len() && is_unwritable(#[trigger] before[i]);
            assert(is_unwritable(blocks[i]));
        } else {
            assert(forall|i: int| 0 <= i < before.len() ==> #[trigger] blocks[i] == before[i]);
            if is_unwritable(blocks.last()) {
                assert(is_unwritable(blocks[blocks.len() - 1]));
            }
        }
    }
}

/// A conversation is refused if and only if the input of one of its tool calls cannot be written
/// as JSON.
pub proof fn law_only_tool_calls_are_refused(
    messages: Seq<AnthropicMessage>,
    uuids: Seq<Seq<Seq<char>>>,
)
    ensures
        conversation_items(messages, uuids).failure is Some <==> exists|i: int|
            0 <= i < messages.len() && holds_unwritable(#[trigger] messages[i]),
    decreases messages.len(),
{
    if messages.len() > 0 {
        let before = messages.drop_last();
        law_only_tool_calls_are_refused(before, uuids);
        let last = messages.last();
        if let AnthropicContent::Blocks(blocks) = last.content {
            lemma_tool_items_failure(blocks@, uuids[messages.len() - 1]);
        }
        assert(message_items(last.role@, last.content, uuids[messages.len() - 1]).failure is Some
            <==> holds_unwritable(last));
        if conversation_items(before, uuids).failure is Some {
            let i = choose|i: int|
                0 <= i < before.len() && holds_unwritable(#[trigger] before[i]);
            assert(holds_unwritable(messages[i]));
        } else {
            assert(forall|i: int| 0 <= i < before.len() ==> #[trigger] messages[i] == before[i]);
            if holds_unwritable(last) {
                assert(holds_unwritable(messages[messages.len() - 1]));
            }
        }
    }
}

/// A conversation converts turn by turn: what a later part becomes follows what an earlier part
/// becomes, unless the earlier part is refused.
pub proof fn law_conversations_concatenate(
    earlier: Seq<AnthropicMessage>,
    later: Seq<AnthropicMessage>,
    earlier_uuids: Seq<Seq<Seq<char>>>,
    later_uuids: Seq<Seq<Seq<char>>>,
)
    requires
        earlier_uuids.len() == earlier.len(),
        later_uuids.len() == later.len(),
    ensures
        conversation_items(earlier + later, earlier_uuids + later_uuids) == ({
            let first = conversation_items(earlier, earlier_uuids);
            let second = conversation_items(later, later_uuids);
            if first.failure is Some {
                first
            } else {
                Conversion { items: first.items + second.items, failure: second.failure }
            }
        }),
    decreases later.len(),
{
    let uuids = earlier_uuids + later_uuids;
    let first = conversation_items(earlier, earlier_uuids);
    if later.len() == 0 {
        assert(earlier + later =~= earlier);
        assert(uuids =~= earlier_uuids);
        assert(first.items + conversation_items(later, later_uuids).items =~= first.items);
    } else {
        let all = earlier + later;
        let shorter = later.drop_last();
        let shorter_uuids = later_uuids.drop_last();
        law_conversations_concatenate(earlier, shorter, earlier_uuids, shorter_uuids);
        assert(all.drop_last() =~= earlier + shorter);
        lemma_later_uuids_are_unread(earlier + shorter, earlier_uuids + shorter_uuids, uuids);
        lemma_later_uuids_are_unread(shorter, shorter_uuids, later_uuids);
        let middle = conversation_items(shorter, later_uuids);
        let last = message_items(
            later.last().role@,
            later.last().content,
            later_uuids[later.len() - 1],
        );
        assert(uuids[all.len() - 1] == later_uuids[later.len() - 1]);
        assert((first.items + middle.items) + last.items =~= first.items + (middle.items
            + last.items));
    }
}

/// Identifiers behind those of the turns make no difference.
proof fn lemma_later_uuids_are_unread(
    messages: Seq<AnthropicMessage>,
    one: Seq<Seq<Seq<char>>>,
    other: Seq<Seq<Seq<char>>>,
)
    requires
        messages.len() <= one.len(),
        messages.len() <= other.len(),
        forall|i: int| 0 <= i < messages.len() ==> #[trigger] one[i] == other[i],
    ensures
        conversation_items(messages, one) == conversation_items(messages, other),
    decreases messages.len(),
{
    if messages.len() > 0 {
        lemma_later_uuids_are_unread(messages.drop_last(), one, other);
    }
}

/// Blocks without thinking convert to the same items whatever the identifiers are.
proof fn lemma_tool_items_without_thinking(
    blocks: Seq<AnthropicContentBlock>,
    one: Seq<Seq<char>>,
    other: Seq<Seq<char>>,
)
    requires
        thinking_count(blocks) == 0,
    ensures
        tool_items(blocks, one) == tool_items(blocks, other),
    decreases blocks.len(),
{
    if blocks.len() > 0 {
        lemma_tool_items_without_thinking(blocks.drop_last(), one, other);
    }
}

/// Whether two items are the same, but for the identifiers of reasoning.
pub open spec fn same_but_identifiers(one: ResponseItemView, other: ResponseItemView) -> bool {
    match (one, other) {
        (
            ResponseItemView::Reasoning { summary, content, encrypted_content, .. },
            ResponseItemView::Reasoning {
                summary: other_summary,
                content: other_content,
                encrypted_content: other_encrypted,
                ..
            },
        ) => {
            &&& summary == other_summary
            &&& content == other_content
            &&& encrypted_content == other_encrypted
        },
        _ => one == other,
    }
}

/// Whether two conversions fail alike and have the same items, but for the identifiers of
/// reasoning.
pub open spec fn agree_but_identifiers(one: Conversion, other: Conversion) -> bool {
    &&& one.failure == other.failure
    &&& one.items.len() == other.items.len()
    &&& forall|i: int|
        0 <= i < one.items.len() ==> same_but_identifiers(
            #[trigger] one.items[i],
            #[trigger] other.items[i],
        )
}

/// Identifiers make no other difference to what some blocks become.
proof fn lemma_tool_items_agree(
    blocks: Seq<AnthropicContentBlock>,
    one: Seq<Seq<char>>,
    other: Seq<Seq<char>>,
)
    ensures
        agree_but_identifiers(tool_items(blocks, one), tool_items(blocks, other)),
    decreases blocks.len(),
{
    if blocks.len() > 0 {
        lemma_tool_items_agree(blocks.drop_last(), one, other);
    }
}

/// Chance decides nothing but the identifiers of thinking: whatever the identifiers are, a
/// conversation fails alike or becomes as many items, which agree one by one but for the
/// identifiers of reasoning.
pub proof fn law_chance_decides_identifiers_only(
    messages: Seq<AnthropicMessage>,
    one: Seq<Seq<Seq<char>>>,
    other: Seq<Seq<Seq<char>>>,
)
    ensures
        agree_but_identifiers(
            conversation_items(messages, one),
            conversation_items(messages, other),
        ),
    decreases messages.len(),
{
    if messages.len() > 0 {
        let before = messages.drop_last();
        law_chance_decides_identifiers_only(before, one, other);
        if let AnthropicContent::Blocks(blocks) = messages.last().content {
            lemma_tool_items_agree(blocks@, one[messages.len() - 1], other[messages.len() - 1]);
        }
    }
}

/// A conversation without thinking converts to the same items every time.
pub proof fn law_without_thinking_nothing_is_random(
    messages: Seq<AnthropicMessage>,
    one: Seq<Seq<Seq<char>>>,
    other: Seq<Seq<Seq<char>>>,
)
    requires
        forall|i: int|
            0 <= i < messages.len() ==> content_thinking_count((#[trigger] messages[i]).content)
                == 0,
    ensures
        conversation_items(messages, one) == conversation_items(messages, other),
    decreases messages.len(),
{
    if messages.len() > 0 {
        let before = messages.drop_last();
        assert(forall|i: int| 0 <= i < before.len() ==> #[trigger] before[i] == messages[i]);
        law_without_thinking_nothing_is_random(before, one, other);
        let last = messages[messages.len() - 1];
        if let AnthropicContent::Blocks(blocks) = last.content {
            lemma_tool_items_without_thinking(
                blocks@,
                one[messages.len() - 1],
                other[messages.len() - 1],
            );
        }
    }
}

/// A conversion reads the model, the system prompt, the turns, the tools and the thinking of a
/// request, and nothing else. In particular the Responses request streams whether or not the
/// client asked for a stream.
pub proof fn law_nothing_else_is_read(
    one: AnthropicRequest,
    other: AnthropicRequest,
    uuids: Seq<Seq<Seq<char>>>,
    result: AppResult<ResponsesRequest>,
)
    requires
        one.model@ == other.model@,
        one.system == other.system,
        one.messages@ == other.messages@,
        one.tools == other.tools,
        one.thinking == other.thinking,
    ensures
        converts_to(one, uuids, result) == converts_to(other, uuids, result),
        converts_to(one, uuids, result) && result is Ok ==> result->Ok_0.stream,
{
}

/// Whether an item is no message, or a message with something in it.
pub open spec fn says_something(item: ResponseItemView) -> bool {
    item matches ResponseItemView::Message { content, .. } ==> content.len() > 0
}

/// The tool calls, tool results and thinking among some blocks are no empty messages.
proof fn lemma_tool_items_say_something(blocks: Seq<AnthropicContentBlock>, uuids: Seq<Seq<char>>)
    ensures
        forall|i: int|
            0 <= i < tool_items(blocks, uuids).items.len() ==> says_something(
                #[trigger] tool_items(blocks, uuids).items[i],
            ),
    decreases blocks.len(),
{
    if blocks.len() > 0 {
        lemma_tool_items_say_something(blocks.drop_last(), uuids);
    }
}

/// No turn becomes an empty message.
pub proof fn law_no_message_is_empty(messages: Seq<AnthropicMessage>, uuids: Seq<Seq<Seq<char>>>)
    ensures
        forall|i: int|
            0 <= i < conversation_items(messages, uuids).items.len() ==> says_something(
                #[trigger] conversation_items(messages, uuids).items[i],
            ),
    decreases messages.len(),
{
    if messages.len() > 0 {
        law_no_message_is_empty(messages.drop_last(), uuids);
        if let AnthropicContent::Blocks(blocks) = messages.last().content {
            lemma_tool_items_say_something(blocks@, uuids[messages.len() - 1]);
        }
    }
}

/// The calls among some items, by their call identifiers.
pub open spec fn call_ids(items: Seq<ResponseItemView>) -> Seq<Seq<char>>
    decreases items.len(),
{
    if items.len() == 0 {
        Seq::empty()
    } else {
        match items.last() {
            ResponseItemView::FunctionCall { call_id, .. } => call_ids(items.drop_last()).push(
                call_id,
            ),
            _ => call_ids(items.drop_last()),
        }
    }
}

/// The call outputs among some items, by their call identifiers.
pub open spec fn output_ids(items: Seq<ResponseItemView>) -> Seq<Seq<char>>
    decreases items.len(),
{
    if items.len() == 0 {
        Seq::empty()
    } else {
        match items.last() {
            ResponseItemView::FunctionCallOutput { call_id, .. } => output_ids(
                items.drop_last(),
            ).push(call_id),
            _ => output_ids(items.drop_last()),
        }
    }
}

/// The tool calls among some blocks, by their identifiers.
pub open spec fn tool_use_ids(blocks: Seq<AnthropicContentBlock>) -> Seq<Seq<char>>
    decreases blocks.len(),
{
    if blocks.len() == 0 {
        Seq::empty()
    } else {
        match blocks.last() {
            AnthropicContentBlock::ToolUse { id, .. } => tool_use_ids(blocks.drop_last()).push(
                id@,
            ),
            _ => tool_use_ids(blocks.drop_last()),
        }
    }
}

/// The tool results among some blocks, by the identifiers of the calls that they answer.
pub open spec fn tool_result_ids(blocks: Seq<AnthropicContentBlock>) -> Seq<Seq<char>>
    decreases blocks.len(),
{
    if blocks.len() == 0 {
        Seq::empty()
    } else {
        match blocks.last() {
            AnthropicContentBlock::ToolResult { tool_use_id, .. } => tool_result_ids(
                blocks.drop_last(),
            ).push(tool_use_id@),
            _ => tool_result_ids(blocks.drop_last()),
        }
    }
}

/// The tool calls of a conversation, by their identifiers.
pub open spec fn conversation_use_ids(messages: Seq<AnthropicMessage>) -> Seq<Seq<char>>
    decreases messages.len(),
{
    if messages.len() == 0 {
        Seq::empty()
    } else {
        conversation_use_ids(messages.drop_last()) + tool_use_ids(
            blocks_of(messages.last().content),
        )
    }
}

/// The tool results of a conversation, by the identifiers of the calls that they answer.
pub open spec fn conversation_result_ids(messages: Seq<AnthropicMessage>) -> Seq<Seq<char>>
    decreases messages.len(),
{
    if messages.len() == 0 {
        Seq::empty()
    } else {
        conversation_result_ids(messages.drop_last()) + tool_result_ids(
            blocks_of(messages.last().content),
        )
    }
}

/// The calls and the outputs of two lists of items one after the other.
proof fn lemma_ids_concatenate(one: Seq<ResponseItemView>, other: Seq<ResponseItemView>)
    ensures
        call_ids(one + other) == call_ids(one) + call_ids(other),
        output_ids(one + other) == output_ids(one) + output_ids(other),
    decreases other.len(),
{
    if other.len() == 0 {
        assert(one + other =~= one);
        assert(call_ids(one) + call_ids(other) =~= call_ids(one));
        assert(output_ids(one) + output_ids(other) =~= output_ids(one));
    } else {
        lemma_ids_concatenate(one, other.drop_last());
        assert((one + other).drop_last() =~= one + other.drop_last());
        assert(call_ids(one + other) =~= call_ids(one) + call_ids(other));
        assert(output_ids(one + other) =~= output_ids(one) + output_ids(other));
    }
}

/// The calls and the outputs that some blocks become.
proof fn lemma_tool_items_ids(blocks: Seq<AnthropicContentBlock>, uuids: Seq<Seq<char>>)
    requires
        tool_items(blocks, uuids).failure is None,
    ensures
        call_ids(tool_items(blocks, uuids).items) == tool_use_ids(blocks),
        output_ids(tool_items(blocks, uuids).items) == tool_result_ids(blocks),
    decreases blocks.len(),
{
    if blocks.len() > 0 {
        let before = blocks.drop_last();
        lemma_tool_items_ids(before, uuids);
        let items = tool_items(blocks, uuids).items;
        if items != tool_items(before, uuids).items {
            assert(items.drop_last() =~= tool_items(before, uuids).items);
        }
    }
}

/// The calls and the outputs that a turn becomes.
proof fn lemma_message_ids(role: Seq<char>, content: AnthropicContent, uuids: Seq<Seq<char>>)
    requires
        message_items(role, content, uuids).failure is None,
    ensures
        call_ids(message_items(role, content, uuids).items) == tool_use_ids(blocks_of(content)),
        output_ids(message_items(role, content, uuids).items) == tool_result_ids(
            blocks_of(content),
        ),
{
    reveal_with_fuel(call_ids, 2);
    reveal_with_fuel(output_ids, 2);
    if let AnthropicContent::Blocks(blocks) = content {
        let parts = content_parts(role, blocks@);
        let message = if parts.len() == 0 {
            Seq::empty()
        } else {
            seq![message_item(role, parts)]
        };
        let others = tool_items(blocks@, uuids).items;
        lemma_ids_concatenate(message, others);
        lemma_tool_items_ids(blocks@, uuids);
        assert(call_ids(message) =~= Seq::empty());
        assert(output_ids(message) =~= Seq::empty());
        assert(call_ids(message + others) =~= tool_use_ids(blocks@));
        assert(output_ids(message + others) =~= tool_result_ids(blocks@));
    }
}

/// Every tool call of a conversation becomes one function call and every tool result one function
/// call output, in the order of the conversation and under the identifier that links them.
pub proof fn law_calls_and_results_stay_linked(
    messages: Seq<AnthropicMessage>,
    uuids: Seq<Seq<Seq<char>>>,
)
    requires
        conversation_items(messages, uuids).failure is None,
    ensures
        call_ids(conversation_items(messages, uuids).items) == conversation_use_ids(messages),
        output_ids(conversation_items(messages, uuids).items) == conversation_result_ids(messages),
    decreases messages.len(),
{
    if messages.len() > 0 {
        let before = messages.drop_last();
        law_calls_and_results_stay_linked(before, uuids);
        let last = messages.last();
        lemma_message_ids(last.role@, last.content, uuids[messages.len() - 1]);
        lemma_ids_concatenate(
            conversation_items(before, uuids).items,
            message_items(last.role@, last.content, uuids[messages.len() - 1]).items,
        );
    }
}

} // verus!
