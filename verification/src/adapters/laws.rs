//! What the conversion of Anthropic Messages requests keeps of a request.
use crate::adapters::anthropic_to_responses::{
    are_fresh, block_texts, blocks_of, content_parts, content_thinking_count, conversation_items,
    converts_to, image_url, is_random_uuid, message_item, message_items, reasoning_item_view,
    reasoning_request, system_text, text_part, thinking_count, tool_items, tool_output, tool_specs,
    uuid_views, uuids_fit, Conversion,
};
use crate::error::{AppError, AppResult};
use crate::json::{json, json_text, Json};
use crate::models::anthropic::{
    AnthropicContent, AnthropicContentBlock, AnthropicImageSource, AnthropicMessage,
    AnthropicRequest, AnthropicSystemContent, AnthropicTextBlock, AnthropicThinking, AnthropicTool,
};
use crate::models::responses::{
    ContentItemView, ReasoningContentItemView, ReasoningRequestView, ResponseItemView,
    ResponsesRequest, ToolSpec, ToolSpecView,
};
use crate::text::{joined, law_joined, views};
use vstd::prelude::*;
use vstd::string::*;

verus! {

/// Every tool becomes one function, in the order of the tools, with the name, the description and
/// the schema of the tool; the description is empty only where the tool has none or an empty one.
pub proof fn law_tools_are_kept(tools: Vec<AnthropicTool>, i: int)
    ensures
        tool_specs(None).len() == 0,
        tool_specs(Some(tools)).len() == tools@.len(),
        0 <= i < tools@.len() ==> (tool_specs(Some(tools))[i] matches ToolSpecView::Function {
            name,
            description,
            strict,
            parameters,
        } && {
            &&& name == tools@[i].name@
            &&& parameters == json(tools@[i].input_schema)
            &&& !strict
            &&& tools@[i].description matches Some(text) ==> description == text@
            &&& tools@[i].description is None ==> description.len() == 0
        }),
{
}

/// A system prompt gives its text, or the texts of its blocks on lines of their own.
pub proof fn law_system_prompt_is_kept(
    text: String,
    all: Vec<AnthropicTextBlock>,
    one: Vec<AnthropicTextBlock>,
    other: Vec<AnthropicTextBlock>,
)
    requires
        all@ == one@ + other@,
    ensures
        system_text(None).len() == 0,
        system_text(Some(AnthropicSystemContent::Text(text))) == text@,
        all@.len() == 0 ==> system_text(Some(AnthropicSystemContent::Blocks(all))).len() == 0,
        all@.len() == 1 ==> (all@[0] matches AnthropicTextBlock::Text { text: only } && system_text(
            Some(AnthropicSystemContent::Blocks(all)),
        ) == only@),
        one@.len() > 0 && other@.len() > 0 ==> system_text(
            Some(AnthropicSystemContent::Blocks(all)),
        ) == system_text(Some(AnthropicSystemContent::Blocks(one))) + "\n"@ + system_text(
            Some(AnthropicSystemContent::Blocks(other)),
        ),
{
    let texts = |blocks: Seq<AnthropicTextBlock>|
        blocks.map_values(
            |block: AnthropicTextBlock|
                match block {
                    AnthropicTextBlock::Text { text } => text@,
                },
        );
    law_joined(texts(one@), texts(other@), Seq::empty(), "\n"@);
    assert(texts(all@) =~= texts(one@) + texts(other@));
    if all@.len() == 0 {
        assert(texts(all@) =~= Seq::empty());
    }
}

/// Thinking that is enabled asks for reasoning of medium effort, adaptive thinking for reasoning
/// without an effort, and no thinking for none.
pub proof fn law_thinking_is_kept(budget_tokens: Option<u64>)
    ensures
        reasoning_request(Some(AnthropicThinking::Enabled { budget_tokens })) == Some(
            ReasoningRequestView { effort: Some("medium"@), summary: None },
        ),
        reasoning_request(Some(AnthropicThinking::Adaptive { budget_tokens })) == Some(
            ReasoningRequestView { effort: None, summary: None },
        ),
        reasoning_request(Some(AnthropicThinking::Disabled)) is None,
        reasoning_request(None) is None,
{
}

/// The URL of an image holds its media type and its data, or is the one that was given.
pub proof fn law_image_is_kept(source: AnthropicImageSource)
    ensures
        source.kind@ == "base64"@ ==> image_url(source) == "data:"@ + (match source.media_type {
            Some(media_type) => media_type@,
            None => "image/png"@,
        }) + ";base64,"@ + (match source.data {
            Some(data) => data@,
            None => Seq::empty(),
        }),
        source.kind@ == "url"@ ==> (source.url matches Some(url) ==> image_url(source) == url@),
        source.kind@ == "url"@ && source.url is None ==> image_url(source).len() == 0,
        source.kind@ != "base64"@ && source.kind@ != "url"@ ==> image_url(source).len() == 0,
{
    reveal_strlit("base64");
    reveal_strlit("url");
    assert("base64"@.len() != "url"@.len());
}

/// Every text and every image of a turn becomes one part of its message, in their order, and
/// nothing else does. A text of the user is input, any other text is output.
pub proof fn law_parts_are_kept(
    role: Seq<char>,
    one: Seq<AnthropicContentBlock>,
    other: Seq<AnthropicContentBlock>,
    block: AnthropicContentBlock,
)
    ensures
        content_parts(role, Seq::empty()).len() == 0,
        content_parts(role, one + other) == content_parts(role, one) + content_parts(role, other),
        block matches AnthropicContentBlock::Text { text } ==> content_parts(role, seq![block])
            == seq![
            if role == "user"@ {
                ContentItemView::InputText { text: text@ }
            } else {
                ContentItemView::OutputText { text: text@ }
            },
        ],
        block matches AnthropicContentBlock::Image { source } ==> content_parts(role, seq![block])
            == seq![ContentItemView::InputImage { image_url: image_url(source) }],
        !(block is Text) && !(block is Image) ==> content_parts(role, seq![block]).len() == 0,
    decreases other.len(),
{
    reveal_with_fuel(content_parts, 2);
    assert(seq![block].drop_last() =~= Seq::empty());
    if let AnthropicContentBlock::Text { text } = block {
        assert(content_parts(role, seq![block]) =~= seq![
            if role == "user"@ {
                ContentItemView::InputText { text: text@ }
            } else {
                ContentItemView::OutputText { text: text@ }
            },
        ]);
    }
    if let AnthropicContentBlock::Image { source } = block {
        assert(content_parts(role, seq![block]) =~= seq![
            ContentItemView::InputImage { image_url: image_url(source) },
        ]);
    }
    if other.len() == 0 {
        assert(one + other =~= one);
    } else {
        law_parts_are_kept(role, one, other.drop_last(), block);
        assert((one + other).drop_last() =~= one + other.drop_last());
    }
    assert(content_parts(role, one + other) =~= content_parts(role, one) + content_parts(
        role,
        other,
    ));
}

/// A message says who wrote it and what, and nothing else; the part of a text says whether the user
/// wrote it.
pub proof fn law_message(role: Seq<char>, content: Seq<ContentItemView>, text: Seq<char>)
    ensures
        message_item(role, content) == (ResponseItemView::Message {
            id: None,
            role,
            content,
            phase: None,
        }),
        role == "user"@ ==> text_part(role, text) == (ContentItemView::InputText { text }),
        role != "user"@ ==> text_part(role, text) == (ContentItemView::OutputText { text }),
{
}

/// The texts among some blocks, in their order.
pub proof fn law_block_texts(
    one: Seq<AnthropicContentBlock>,
    other: Seq<AnthropicContentBlock>,
    block: AnthropicContentBlock,
)
    ensures
        block_texts(Seq::empty()).len() == 0,
        block_texts(one + other) == block_texts(one) + block_texts(other),
        block matches AnthropicContentBlock::Text { text } ==> block_texts(seq![block])
            == seq![text@],
        !(block is Text) ==> block_texts(seq![block]).len() == 0,
    decreases other.len(),
{
    reveal_with_fuel(block_texts, 2);
    assert(seq![block].drop_last() =~= Seq::empty());
    if let AnthropicContentBlock::Text { text } = block {
        assert(block_texts(seq![block]) =~= seq![text@]);
    }
    if other.len() == 0 {
        assert(one + other =~= one);
    } else {
        law_block_texts(one, other.drop_last(), block);
        assert((one + other).drop_last() =~= one + other.drop_last());
    }
    assert(block_texts(one + other) =~= block_texts(one) + block_texts(other));
}

/// Blocks have no texts if and only if none of them is a text.
proof fn lemma_no_texts(blocks: Seq<AnthropicContentBlock>)
    ensures
        block_texts(blocks).len() == 0 <==> forall|i: int|
            0 <= i < blocks.len() ==> !(#[trigger] blocks[i] is Text),
    decreases blocks.len(),
{
    if blocks.len() > 0 {
        let before = blocks.drop_last();
        lemma_no_texts(before);
        assert(forall|i: int| 0 <= i < before.len() ==> #[trigger] blocks[i] == before[i]);
        assert(blocks.last() == blocks[blocks.len() - 1]);
        if block_texts(before).len() > 0 {
            let i = choose|i: int| 0 <= i < before.len() && (#[trigger] before[i]) is Text;
            assert(blocks[i] is Text);
        }
    }
}

/// What a tool answered is kept: a text as the JSON string of that text, blocks as the JSON string
/// of their texts on lines of their own, and null stands only where there is no text.
pub proof fn law_tool_output_is_kept(
    text: String,
    all: Vec<AnthropicContentBlock>,
    one: Vec<AnthropicContentBlock>,
    other: Vec<AnthropicContentBlock>,
)
    requires
        all@ == one@ + other@,
    ensures
        tool_output(None) == Json::Null,
        tool_output(Some(AnthropicContent::Text(text))) == Json::Text(text@),
        tool_output(Some(AnthropicContent::Blocks(all))) == Json::Null <==> forall|i: int|
            0 <= i < all@.len() ==> !(#[trigger] all@[i] is Text),
        tool_output(Some(AnthropicContent::Blocks(all))) is Null || tool_output(
            Some(AnthropicContent::Blocks(all)),
        ) is Text,
        all@.len() == 1 ==> (all@[0] matches AnthropicContentBlock::Text { text: only }
            ==> tool_output(Some(AnthropicContent::Blocks(all))) == Json::Text(only@)),
        ({
            let whole = tool_output(Some(AnthropicContent::Blocks(all)));
            let first = tool_output(Some(AnthropicContent::Blocks(one)));
            let second = tool_output(Some(AnthropicContent::Blocks(other)));
            &&& first is Null ==> whole == second
            &&& second is Null ==> whole == first
            &&& first is Text && second is Text ==> whole == Json::Text(
                first->Text_0 + "\n"@ + second->Text_0,
            )
        }),
{
    let nothing = AnthropicContentBlock::Thinking { thinking: text };
    lemma_no_texts(all@);
    law_block_texts(one@, other@, nothing);
    law_joined(block_texts(one@), block_texts(other@), Seq::empty(), "\n"@);
    if block_texts(one@).len() == 0 {
        assert(block_texts(all@) =~= block_texts(other@));
    }
    if block_texts(other@).len() == 0 {
        assert(block_texts(all@) =~= block_texts(one@));
    }
    if all@.len() == 1 && all@[0] is Text {
        law_block_texts(one@, other@, all@[0]);
        assert(all@ =~= seq![all@[0]]);
        law_joined(Seq::empty(), Seq::empty(), block_texts(all@)[0], "\n"@);
    }
}

/// The thinking blocks of two lists of blocks are those of the one and those of the other.
pub proof fn law_thinking_count(
    one: Seq<AnthropicContentBlock>,
    other: Seq<AnthropicContentBlock>,
    block: AnthropicContentBlock,
)
    ensures
        thinking_count(Seq::empty()) == 0,
        thinking_count(seq![block]) == (if block is Thinking {
            1nat
        } else {
            0nat
        }),
        thinking_count(one + other) == thinking_count(one) + thinking_count(other),
    decreases other.len(),
{
    reveal_with_fuel(thinking_count, 2);
    assert(seq![block].drop_last() =~= Seq::empty());
    if other.len() == 0 {
        assert(one + other =~= one);
    } else {
        law_thinking_count(one, other.drop_last(), block);
        assert((one + other).drop_last() =~= one + other.drop_last());
    }
}

/// Identifiers behind those of the thinking blocks make no difference.
proof fn lemma_later_identifiers_are_unread(
    blocks: Seq<AnthropicContentBlock>,
    one: Seq<Seq<char>>,
    other: Seq<Seq<char>>,
)
    requires
        thinking_count(blocks) <= one.len(),
        thinking_count(blocks) <= other.len(),
        forall|i: int| 0 <= i < thinking_count(blocks) ==> #[trigger] one[i] == other[i],
    ensures
        tool_items(blocks, one) == tool_items(blocks, other),
    decreases blocks.len(),
{
    if blocks.len() > 0 {
        lemma_later_identifiers_are_unread(blocks.drop_last(), one, other);
    }
}

/// The blocks of a turn convert block by block: what later blocks become follows what earlier ones
/// become, unless an earlier one fails, and each list of blocks takes its own identifiers.
pub proof fn law_blocks_concatenate(
    one: Seq<AnthropicContentBlock>,
    other: Seq<AnthropicContentBlock>,
    one_uuids: Seq<Seq<char>>,
    other_uuids: Seq<Seq<char>>,
)
    requires
        one_uuids.len() == thinking_count(one),
        other_uuids.len() == thinking_count(other),
    ensures
        tool_items(one + other, one_uuids + other_uuids) == ({
            let first = tool_items(one, one_uuids);
            let second = tool_items(other, other_uuids);
            if first.failure is Some {
                first
            } else {
                Conversion { items: first.items + second.items, failure: second.failure }
            }
        }),
    decreases other.len(),
{
    let uuids = one_uuids + other_uuids;
    let first = tool_items(one, one_uuids);
    lemma_later_identifiers_are_unread(one, one_uuids, uuids);
    if other.len() == 0 {
        assert(one + other =~= one);
        assert(first.items + tool_items(other, other_uuids).items =~= first.items);
    } else {
        let shorter = other.drop_last();
        let n = thinking_count(shorter);
        let shorter_uuids = other_uuids.take(n as int);
        law_blocks_concatenate(one, shorter, one_uuids, shorter_uuids);
        law_thinking_count(one, shorter, other.last());
        assert((one + other).drop_last() =~= one + shorter);
        lemma_later_identifiers_are_unread(one + shorter, one_uuids + shorter_uuids, uuids);
        lemma_later_identifiers_are_unread(shorter, shorter_uuids, other_uuids);
        if other.last() is Thinking {
            assert(uuids[thinking_count(one + shorter) as int] == other_uuids[n as int]);
        }
        let middle = tool_items(shorter, other_uuids);
        assert((one + other).last() == other.last());
        let whole = tool_items(one + other, uuids);
        let second = tool_items(other, other_uuids);
        if first.failure is None {
            assert(whole.items =~= first.items + second.items);
        }
    }
}

/// What a block becomes beside the message of its turn: a tool call the call with its name, its
/// identifier and the text of its input, a tool result the output with its identifier and what the
/// tool answered, thinking the reasoning with its text; texts and images nothing.
pub proof fn law_block_is_kept(block: AnthropicContentBlock, uuids: Seq<Seq<char>>)
    ensures
        tool_items(Seq::empty(), uuids) == (Conversion { items: Seq::empty(), failure: None }),
        block matches AnthropicContentBlock::ToolUse { id, name, input } ==> {
            &&& json_text(json(input)) matches Ok(text) ==> tool_items(seq![block], uuids) == (
            Conversion {
                items: seq![
                    ResponseItemView::FunctionCall {
                        id: None,
                        name: name@,
                        namespace: None,
                        arguments: text,
                        call_id: id@,
                    },
                ],
                failure: None,
            })
            &&& json_text(json(input)) matches Err(message) ==> tool_items(seq![block], uuids) == (
            Conversion { items: Seq::empty(), failure: Some(message) })
        },
        block matches AnthropicContentBlock::ToolResult { tool_use_id, content, .. } ==> tool_items(
            seq![block],
            uuids,
        ) == (Conversion {
            items: seq![
                ResponseItemView::FunctionCallOutput {
                    call_id: tool_use_id@,
                    output: tool_output(content),
                },
            ],
            failure: None,
        }),
        block matches AnthropicContentBlock::Thinking { thinking } ==> tool_items(
            seq![block],
            uuids,
        ) == (Conversion {
            items: seq![
                ResponseItemView::Reasoning {
                    id: "rsn_"@ + uuids[0],
                    summary: Seq::empty(),
                    content: Some(seq![ReasoningContentItemView::ReasoningText { text: thinking@ }]),
                    encrypted_content: None,
                },
            ],
            failure: None,
        }),
        block is Text || block is Image ==> tool_items(seq![block], uuids) == (Conversion {
            items: Seq::empty(),
            failure: None,
        }),
{
    reveal_with_fuel(tool_items, 2);
    reveal_with_fuel(thinking_count, 2);
    assert(seq![block].drop_last() =~= Seq::empty());
    assert(seq![block].last() == block);
    let items = tool_items(seq![block], uuids).items;
    if items.len() > 0 {
        assert(items =~= seq![items[0]]);
    }
}

/// The reasoning of some thinking holds its text, under an identifier that begins with `rsn_`.
pub proof fn law_reasoning(uuid: Seq<char>, thinking: Seq<char>)
    ensures
        reasoning_item_view(uuid, thinking) == (ResponseItemView::Reasoning {
            id: "rsn_"@ + uuid,
            summary: Seq::empty(),
            content: Some(seq![ReasoningContentItemView::ReasoningText { text: thinking }]),
            encrypted_content: None,
        }),
{
}

/// A turn of one text becomes one message of that text, or nothing where the text is empty. A turn
/// of blocks becomes one message of its texts and images, if it has any, and behind it what its
/// other blocks become.
pub proof fn law_turn_is_kept(
    role: Seq<char>,
    text: String,
    blocks: Vec<AnthropicContentBlock>,
    uuids: Seq<Seq<char>>,
)
    ensures
        text@.len() == 0 ==> message_items(role, AnthropicContent::Text(text), uuids) == (
        Conversion { items: Seq::empty(), failure: None }),
        text@.len() > 0 ==> message_items(role, AnthropicContent::Text(text), uuids) == (
        Conversion {
            items: seq![
                ResponseItemView::Message {
                    id: None,
                    role,
                    content: seq![
                        if role == "user"@ {
                            ContentItemView::InputText { text: text@ }
                        } else {
                            ContentItemView::OutputText { text: text@ }
                        },
                    ],
                    phase: None,
                },
            ],
            failure: None,
        }),
        ({
            let turn = message_items(role, AnthropicContent::Blocks(blocks), uuids);
            let parts = content_parts(role, blocks@);
            let others = tool_items(blocks@, uuids);
            &&& turn.failure == others.failure
            &&& parts.len() == 0 ==> turn.items == others.items
            &&& parts.len() > 0 ==> turn.items == seq![
                ResponseItemView::Message { id: None, role, content: parts, phase: None },
            ] + others.items
        }),
{
    let others = tool_items(blocks@, uuids).items;
    assert(Seq::<ResponseItemView>::empty() + others =~= others);
    let turn = message_items(role, AnthropicContent::Blocks(blocks), uuids);
    if content_parts(role, blocks@).len() > 0 {
        assert(turn.items =~= seq![
            ResponseItemView::Message {
                id: None,
                role,
                content: content_parts(role, blocks@),
                phase: None,
            },
        ] + others);
    }
}

/// A conversation of one turn becomes what that turn becomes.
pub proof fn law_conversation_of_one_turn(message: AnthropicMessage, uuids: Seq<Seq<char>>)
    ensures
        conversation_items(Seq::empty(), seq![]) == (Conversion {
            items: Seq::empty(),
            failure: None,
        }),
        conversation_items(seq![message], seq![uuids]) == message_items(
            message.role@,
            message.content,
            uuids,
        ),
{
    reveal_with_fuel(conversation_items, 2);
    assert(seq![message].drop_last() =~= Seq::empty());
    let turn = message_items(message.role@, message.content, uuids);
    assert(Seq::<ResponseItemView>::empty() + turn.items =~= turn.items);
}

/// The outputs among some items.
pub open spec fn output_values(items: Seq<ResponseItemView>) -> Seq<Json>
    decreases items.len(),
{
    if items.len() == 0 {
        Seq::empty()
    } else {
        match items.last() {
            ResponseItemView::FunctionCallOutput { output, .. } => output_values(
                items.drop_last(),
            ).push(output),
            _ => output_values(items.drop_last()),
        }
    }
}

/// What the tools answered in some blocks: the text of each tool result, that of its blocks on lines
/// of their own, or null where it holds no text.
pub open spec fn answers(blocks: Seq<AnthropicContentBlock>) -> Seq<Json>
    decreases blocks.len(),
{
    if blocks.len() == 0 {
        Seq::empty()
    } else {
        let before = answers(blocks.drop_last());
        match blocks.last() {
            AnthropicContentBlock::ToolResult { content: Some(AnthropicContent::Text(text)), .. } =>
                before.push(Json::Text(text@)),
            AnthropicContentBlock::ToolResult {
                content: Some(AnthropicContent::Blocks(parts)),
                ..
            } => if block_texts(parts@).len() > 0 {
                before.push(Json::Text(joined(block_texts(parts@), "\n"@)))
            } else {
                before.push(Json::Null)
            },
            AnthropicContentBlock::ToolResult { content: None, .. } => before.push(Json::Null),
            _ => before,
        }
    }
}

/// What the tools answered in a conversation.
pub open spec fn conversation_answers(messages: Seq<AnthropicMessage>) -> Seq<Json>
    decreases messages.len(),
{
    if messages.len() == 0 {
        Seq::empty()
    } else {
        let before = conversation_answers(messages.drop_last());
        match messages.last().content {
            AnthropicContent::Text(_) => before,
            AnthropicContent::Blocks(blocks) => before + answers(blocks@),
        }
    }
}

/// The outputs of two lists of items one after the other.
proof fn lemma_outputs_concatenate(one: Seq<ResponseItemView>, other: Seq<ResponseItemView>)
    ensures
        output_values(one + other) == output_values(one) + output_values(other),
    decreases other.len(),
{
    if other.len() == 0 {
        assert(one + other =~= one);
    } else {
        lemma_outputs_concatenate(one, other.drop_last());
        assert((one + other).drop_last() =~= one + other.drop_last());
    }
    assert(output_values(one + other) =~= output_values(one) + output_values(other));
}

/// The outputs that some blocks become are what the tools answered in them.
proof fn lemma_block_outputs(blocks: Seq<AnthropicContentBlock>, uuids: Seq<Seq<char>>)
    requires
        tool_items(blocks, uuids).failure is None,
    ensures
        output_values(tool_items(blocks, uuids).items) == answers(blocks),
    decreases blocks.len(),
{
    if blocks.len() > 0 {
        let before = blocks.drop_last();
        lemma_block_outputs(before, uuids);
        let items = tool_items(blocks, uuids).items;
        if items != tool_items(before, uuids).items {
            assert(items.drop_last() =~= tool_items(before, uuids).items);
        }
    }
}

/// The outputs that a turn becomes are what the tools answered in it.
proof fn lemma_turn_outputs(role: Seq<char>, content: AnthropicContent, uuids: Seq<Seq<char>>)
    requires
        message_items(role, content, uuids).failure is None,
    ensures
        output_values(message_items(role, content, uuids).items) == answers(blocks_of(content)),
{
    reveal_with_fuel(output_values, 2);
    if let AnthropicContent::Blocks(blocks) = content {
        let parts = content_parts(role, blocks@);
        let message = if parts.len() == 0 {
            Seq::empty()
        } else {
            seq![message_item(role, parts)]
        };
        let others = tool_items(blocks@, uuids).items;
        lemma_outputs_concatenate(message, others);
        lemma_block_outputs(blocks@, uuids);
        assert(output_values(message) =~= Seq::empty());
        assert(output_values(message + others) =~= answers(blocks@));
    }
}

/// What every tool answered reaches the model: the outputs of a converted conversation are, one by
/// one and in their order, what its tool results hold.
pub proof fn law_answers_are_kept(messages: Seq<AnthropicMessage>, uuids: Seq<Seq<Seq<char>>>)
    requires
        conversation_items(messages, uuids).failure is None,
    ensures
        output_values(conversation_items(messages, uuids).items) == conversation_answers(messages),
    decreases messages.len(),
{
    if messages.len() > 0 {
        let before = messages.drop_last();
        law_answers_are_kept(before, uuids);
        let last = messages.last();
        let own = uuids[messages.len() - 1];
        lemma_turn_outputs(last.role@, last.content, own);
        lemma_outputs_concatenate(
            conversation_items(before, uuids).items,
            message_items(last.role@, last.content, own).items,
        );
        assert(conversation_answers(before) + Seq::<Json>::empty() =~= conversation_answers(
            before,
        ));
    }
}

/// What a request that converts becomes, field by field: its model, its system prompt, its turns,
/// its tools and its thinking, and otherwise what is sent with every request.
pub proof fn law_request_is_kept(
    request: AnthropicRequest,
    uuids: Seq<Seq<Seq<char>>>,
    converted: ResponsesRequest,
    i: int,
)
    requires
        converts_to(request, uuids, Ok(converted)),
    ensures
        converted.model@ == request.model@,
        converted.instructions@ == system_text(request.system),
        views(converted.input@) == conversation_items(request.messages@, uuids).items,
        request.tools is None ==> converted.tools@.len() == 0,
        request.tools matches Some(tools) ==> {
            &&& converted.tools@.len() == tools@.len()
            &&& 0 <= i < tools@.len() ==> (converted.tools@[i] matches ToolSpec::Function {
                name,
                description,
                strict,
                parameters,
            } && {
                &&& name@ == tools@[i].name@
                &&& json(parameters) == json(tools@[i].input_schema)
                &&& !strict
                &&& tools@[i].description matches Some(text) ==> description@ == text@
                &&& tools@[i].description is None ==> description@.len() == 0
            })
        },
        converted.tool_choice@ == "auto"@,
        !converted.parallel_tool_calls,
        request.thinking matches Some(AnthropicThinking::Enabled { .. })
            ==> converted.reasoning matches Some(reasoning) && reasoning.summary is None
            && (reasoning.effort matches Some(effort) && effort@ == "medium"@),
        request.thinking matches Some(AnthropicThinking::Adaptive { .. })
            ==> converted.reasoning matches Some(reasoning) && reasoning.summary is None
            && reasoning.effort is None,
        request.thinking matches Some(AnthropicThinking::Disabled) ==> converted.reasoning is None,
        request.thinking is None ==> converted.reasoning is None,
        !converted.store,
        converted.stream,
        converted.included@.len() == 0,
        converted.service_tier is None,
        converted.prompt_cache_key is None,
        converted.text is None,
        converted.client_metadata is None,
        converted.previous_response_id is None,
{
    assert(views(converted.tools@) == tool_specs(request.tools));
    assert(views(converted.tools@).len() == converted.tools@.len());
    assert(views(converted.included@).len() == converted.included@.len());
    if let Some(tools) = request.tools {
        law_tools_are_kept(tools, i);
        if 0 <= i < tools@.len() {
            assert(views(converted.tools@)[i] == converted.tools@[i]@);
        }
    }
}

/// A request is refused if and only if its conversation fails, with the reason of that failure.
pub proof fn law_refusal(
    request: AnthropicRequest,
    uuids: Seq<Seq<Seq<char>>>,
    result: AppResult<ResponsesRequest>,
)
    requires
        converts_to(request, uuids, result),
    ensures
        result is Ok <==> conversation_items(request.messages@, uuids).failure is None,
        conversation_items(request.messages@, uuids).failure matches Some(reason) ==> (
        result matches Err(AppError::BadRequest { message }) && message@
            == "failed to serialize tool_use input: "@ + reason),
{
}

/// Identifiers fit a conversation if and only if there is one for each thinking block of each turn;
/// they are fresh if moreover each of them is a random UUID.
pub proof fn law_identifiers(
    messages: Seq<AnthropicMessage>,
    uuids: Seq<Seq<Seq<char>>>,
    drawn: Seq<Vec<String>>,
    i: int,
    j: int,
)
    ensures
        uuids_fit(messages, uuids) ==> uuids.len() == messages.len(),
        uuids_fit(messages, uuids) && 0 <= i < messages.len() ==> uuids[i].len() == (
        match messages[i].content {
            AnthropicContent::Text(_) => 0,
            AnthropicContent::Blocks(blocks) => thinking_count(blocks@),
        }),
        are_fresh(messages, uuids) ==> uuids_fit(messages, uuids),
        are_fresh(messages, uuids) && 0 <= i < uuids.len() && 0 <= j < uuids[i].len()
            ==> is_random_uuid(uuids[i][j]),
        uuid_views(drawn).len() == drawn.len(),
        0 <= i < drawn.len() ==> uuid_views(drawn)[i] == views(drawn[i]@),
{
    if uuids_fit(messages, uuids) && 0 <= i < messages.len() {
        assert(uuids[i].len() == content_thinking_count(messages[i].content));
    }
}

} // verus!
