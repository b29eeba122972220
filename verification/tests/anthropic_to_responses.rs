use resp2chat::adapters::anthropic_to_responses::{
    convert_message, convert_request, convert_request_with_uuids, convert_thinking,
    extract_system_text, extract_tool_result_content, image_source_to_url, reasoning_item,
    text_message_item,
};
use resp2chat::error::AppError;
use resp2chat::models::anthropic::{
    AnthropicContent, AnthropicContentBlock, AnthropicImageSource, AnthropicMessage,
    AnthropicRequest, AnthropicSystemContent, AnthropicTextBlock, AnthropicThinking, AnthropicTool,
};
use resp2chat::models::responses::{
    ContentItem, ReasoningContentItem, ReasoningRequest, ResponseItem, ToolSpec,
};
use serde_json::{Map as JsonMap, Value};

fn object(entries: Vec<(&str, Value)>) -> Value {
    let mut map = JsonMap::new();
    for (key, value) in entries {
        map.insert(key.to_string(), value);
    }
    Value::Object(map)
}

fn request(messages: Vec<AnthropicMessage>) -> AnthropicRequest {
    AnthropicRequest {
        model: "sonnet-3-5-20241022".to_string(),
        max_tokens: Some(1024),
        system: None,
        messages,
        tools: None,
        tool_choice: None,
        stream: true,
        temperature: None,
        top_p: None,
        top_k: None,
        stop_sequences: None,
        metadata: None,
        thinking: None,
    }
}

fn turn(role: &str, content: AnthropicContent) -> AnthropicMessage {
    AnthropicMessage { role: role.to_string(), content }
}

fn text_turn(role: &str, text: &str) -> AnthropicMessage {
    turn(role, AnthropicContent::Text(text.to_string()))
}

fn text_block(text: &str) -> AnthropicContentBlock {
    AnthropicContentBlock::Text { text: text.to_string() }
}

fn thinking_block(thinking: &str) -> AnthropicContentBlock {
    AnthropicContentBlock::Thinking { thinking: thinking.to_string() }
}

fn message(role: &str, content: Vec<ContentItem>) -> ResponseItem {
    ResponseItem::Message { id: None, role: role.to_string(), content, phase: None }
}

fn input_text(text: &str) -> ContentItem {
    ContentItem::InputText { text: text.to_string() }
}

fn output_text(text: &str) -> ContentItem {
    ContentItem::OutputText { text: text.to_string() }
}

#[test]
fn converts_simple_text_request() {
    let request = AnthropicRequest {
        model: "sonnet-3-5-20241022".to_string(),
        max_tokens: Some(1024),
        system: Some(AnthropicSystemContent::Text("Be helpful".to_string())),
        messages: vec![AnthropicMessage {
            role: "user".to_string(),
            content: AnthropicContent::Text("Hello".to_string()),
        }],
        tools: None,
        tool_choice: None,
        stream: true,
        temperature: None,
        top_p: None,
        top_k: None,
        stop_sequences: None,
        metadata: None,
        thinking: None,
    };

    let result = convert_request(request).expect("convert");
    assert_eq!(result.model, "sonnet-3-5-20241022");
    assert_eq!(result.instructions, "Be helpful");
    assert_eq!(result.input.len(), 1);
    assert_eq!(result.stream, true);
}

#[test]
fn converts_tool_use_and_result_history() {
    let request = AnthropicRequest {
        model: "sonnet-3-5-20241022".to_string(),
        max_tokens: Some(1024),
        system: None,
        messages: vec![
            AnthropicMessage {
                role: "user".to_string(),
                content: AnthropicContent::Text("What is the weather?".to_string()),
            },
            AnthropicMessage {
                role: "assistant".to_string(),
                content: AnthropicContent::Blocks(vec![
                    AnthropicContentBlock::Text {
                        text: "Let me check.".to_string(),
                    },
                    AnthropicContentBlock::ToolUse {
                        id: "toolu_1".to_string(),
                        name: "get_weather".to_string(),
                        input: object(vec![("location", Value::from("Seattle"))]),
                    },
                ]),
            },
            AnthropicMessage {
                role: "user".to_string(),
                content: AnthropicContent::Blocks(vec![AnthropicContentBlock::ToolResult {
                    tool_use_id: "toolu_1".to_string(),
                    content: Some(AnthropicContent::Text("72°F sunny".to_string())),
                    is_error: None,
                }]),
            },
        ],
        tools: None,
        tool_choice: None,
        stream: true,
        temperature: None,
        top_p: None,
        top_k: None,
        stop_sequences: None,
        metadata: None,
        thinking: None,
    };

    let result = convert_request(request).expect("convert");
    // user text, assistant text, function_call, function_call_output
    assert_eq!(result.input.len(), 4);

    let user_msg = &result.input[0];
    assert!(matches!(user_msg, ResponseItem::Message { role, .. } if role == "user"));

    let asst_text = &result.input[1];
    assert!(matches!(asst_text, ResponseItem::Message { role, .. } if role == "assistant"));

    let fn_call = &result.input[2];
    assert!(
        matches!(fn_call, ResponseItem::FunctionCall { name, call_id, .. }
        if name == "get_weather" && call_id == "toolu_1")
    );

    let fn_output = &result.input[3];
    assert!(
        matches!(fn_output, ResponseItem::FunctionCallOutput { call_id, .. } if call_id == "toolu_1")
    );
}

#[test]
fn converts_tools_to_function_specs() {
    let request = AnthropicRequest {
        model: "sonnet-3-5-20241022".to_string(),
        max_tokens: Some(1024),
        system: None,
        messages: vec![AnthropicMessage {
            role: "user".to_string(),
            content: AnthropicContent::Text("Hi".to_string()),
        }],
        tools: Some(vec![AnthropicTool {
            name: "get_weather".to_string(),
            description: Some("Get weather".to_string()),
            input_schema: object(vec![
                ("type", Value::from("object")),
                (
                    "properties",
                    object(vec![("location", object(vec![("type", Value::from("string"))]))]),
                ),
                ("required", Value::Array(vec![Value::from("location")])),
            ]),
        }]),
        tool_choice: None,
        stream: true,
        temperature: None,
        top_p: None,
        top_k: None,
        stop_sequences: None,
        metadata: None,
        thinking: None,
    };

    let result = convert_request(request).expect("convert");
    assert_eq!(result.tools.len(), 1);
    assert!(
        matches!(&result.tools[0], ToolSpec::Function { name, .. } if name == "get_weather")
    );
}

#[test]
fn converts_thinking_enabled_to_reasoning() {
    let request = AnthropicRequest {
        model: "sonnet-3-5-20241022".to_string(),
        max_tokens: Some(16000),
        system: None,
        messages: vec![AnthropicMessage {
            role: "user".to_string(),
            content: AnthropicContent::Text("Think".to_string()),
        }],
        tools: None,
        tool_choice: None,
        stream: true,
        temperature: None,
        top_p: None,
        top_k: None,
        stop_sequences: None,
        metadata: None,
        thinking: Some(AnthropicThinking::Enabled {
            budget_tokens: Some(10000),
        }),
    };

    let result = convert_request(request).expect("convert");
    assert!(result.reasoning.is_some());
    assert_eq!(
        result.reasoning.as_ref().unwrap().effort.as_deref(),
        Some("medium")
    );
}

#[test]
fn accepts_non_streaming_request() {
    let request = AnthropicRequest {
        model: "sonnet-3-5-20241022".to_string(),
        max_tokens: Some(1024),
        system: None,
        messages: vec![AnthropicMessage {
            role: "user".to_string(),
            content: AnthropicContent::Text("Hello".to_string()),
        }],
        tools: None,
        tool_choice: None,
        stream: false,
        temperature: None,
        top_p: None,
        top_k: None,
        stop_sequences: None,
        metadata: None,
        thinking: None,
    };

    let result = convert_request(request);
    assert!(result.is_ok());
    assert_eq!(result.unwrap().stream, true);
}

#[test]
fn converts_base64_image_to_data_url() {
    let source = AnthropicImageSource {
        kind: "base64".to_string(),
        media_type: Some("image/png".to_string()),
        data: Some("iVBORw0KGgo=".to_string()),
        url: None,
    };
    assert_eq!(
        image_source_to_url(&source),
        "data:image/png;base64,iVBORw0KGgo="
    );
}

#[test]
fn converts_url_image_source() {
    let source = AnthropicImageSource {
        kind: "url".to_string(),
        media_type: None,
        data: None,
        url: Some("https://example.com/img.png".to_string()),
    };
    assert_eq!(image_source_to_url(&source), "https://example.com/img.png");
}

#[test]
fn image_sources_fall_back() {
    let source = |kind: &str| AnthropicImageSource {
        kind: kind.to_string(),
        media_type: None,
        data: None,
        url: None,
    };
    assert_eq!(image_source_to_url(&source("base64")), "data:image/png;base64,");
    assert_eq!(image_source_to_url(&source("url")), "");
    assert_eq!(image_source_to_url(&source("file")), "");
}

#[test]
fn system_blocks_stand_on_lines_of_their_own() {
    let block = |text: &str| AnthropicTextBlock::Text { text: text.to_string() };
    assert_eq!(extract_system_text(&None), "");
    assert_eq!(extract_system_text(&Some(AnthropicSystemContent::Blocks(vec![]))), "");
    assert_eq!(
        extract_system_text(&Some(AnthropicSystemContent::Blocks(vec![block("one")]))),
        "one"
    );
    assert_eq!(
        extract_system_text(&Some(AnthropicSystemContent::Blocks(vec![
            block("one"),
            block(""),
            block("three"),
        ]))),
        "one\n\nthree"
    );
}

#[test]
fn thinking_decides_the_reasoning() {
    assert_eq!(convert_thinking(&None), None);
    assert_eq!(convert_thinking(&Some(AnthropicThinking::Disabled)), None);
    assert_eq!(
        convert_thinking(&Some(AnthropicThinking::Adaptive { budget_tokens: None })),
        Some(ReasoningRequest { effort: None, summary: None })
    );
    assert_eq!(
        convert_thinking(&Some(AnthropicThinking::Enabled { budget_tokens: None })),
        Some(ReasoningRequest { effort: Some("medium".to_string()), summary: None })
    );
}

#[test]
fn a_whole_request_converts_exactly() {
    let mut source = request(vec![text_turn("user", "Hi"), text_turn("assistant", "Yes?")]);
    source.tools = Some(vec![AnthropicTool {
        name: "noop".to_string(),
        description: None,
        input_schema: Value::Bool(true),
    }]);
    let result = convert_request(source).expect("convert");
    assert_eq!(
        result.input,
        vec![
            message("user", vec![input_text("Hi")]),
            message("assistant", vec![output_text("Yes?")]),
        ]
    );
    assert_eq!(
        result.tools,
        vec![ToolSpec::Function {
            name: "noop".to_string(),
            description: String::new(),
            strict: false,
            parameters: Value::Bool(true),
        }]
    );
    assert_eq!(result.instructions, "");
    assert_eq!(result.tool_choice, "auto");
    assert_eq!(result.parallel_tool_calls, false);
    assert_eq!(result.reasoning, None);
    assert_eq!(result.store, false);
    assert_eq!(result.stream, true);
    assert!(result.included.is_empty());
    assert_eq!(result.service_tier, None);
    assert_eq!(result.prompt_cache_key, None);
    assert_eq!(result.text, None);
    assert_eq!(result.client_metadata, None);
    assert_eq!(result.previous_response_id, None);
}

#[test]
fn texts_and_images_stand_before_tools() {
    let blocks = AnthropicContent::Blocks(vec![
        AnthropicContentBlock::ToolUse {
            id: "call_1".to_string(),
            name: "look".to_string(),
            input: object(vec![("b", Value::from(2)), ("a", Value::from(1.5))]),
        },
        text_block("here"),
        thinking_block("hm"),
        AnthropicContentBlock::Image {
            source: AnthropicImageSource {
                kind: "url".to_string(),
                media_type: None,
                data: None,
                url: Some("https://example.com/a.png".to_string()),
            },
        },
        AnthropicContentBlock::ToolResult {
            tool_use_id: "call_0".to_string(),
            content: None,
            is_error: Some(true),
        },
        thinking_block("so"),
    ]);
    let mut items = vec![text_message_item("user", "before")];
    let uuids = vec!["first".to_string(), "second".to_string()];
    let result = convert_message("user", &blocks, &uuids, &mut items);
    assert!(result.is_ok());
    assert_eq!(
        items,
        vec![
            message("user", vec![input_text("before")]),
            message(
                "user",
                vec![
                    input_text("here"),
                    ContentItem::InputImage { image_url: "https://example.com/a.png".to_string() },
                ]
            ),
            ResponseItem::FunctionCall {
                id: None,
                name: "look".to_string(),
                namespace: None,
                arguments: "{\"a\":1.5,\"b\":2}".to_string(),
                call_id: "call_1".to_string(),
            },
            reasoning_item("first", "hm"),
            ResponseItem::FunctionCallOutput {
                call_id: "call_0".to_string(),
                output: Value::Null,
            },
            reasoning_item("second", "so"),
        ]
    );
}

#[test]
fn thinking_becomes_reasoning_under_its_identifier() {
    assert_eq!(
        reasoning_item("0123", "hm"),
        ResponseItem::Reasoning {
            id: "rsn_0123".to_string(),
            summary: vec![],
            content: Some(vec![ReasoningContentItem::ReasoningText { text: "hm".to_string() }]),
            encrypted_content: None,
        }
    );
}

#[test]
fn identifiers_of_thinking_are_random_uuids() {
    let convert = || {
        let source = request(vec![turn(
            "assistant",
            AnthropicContent::Blocks(vec![thinking_block("a"), thinking_block("b")]),
        )]);
        convert_request(source).expect("convert").input
    };
    let mut ids = Vec::new();
    for item in convert().into_iter().chain(convert()) {
        match item {
            ResponseItem::Reasoning { id, .. } => ids.push(id),
            other => panic!("unexpected item {:?}", other),
        }
    }
    assert_eq!(ids.len(), 4);
    for id in &ids {
        assert_eq!(&id[..4], "rsn_");
        let uuid = &id[4..];
        assert_eq!(uuid.len(), 32);
        assert!(uuid.chars().all(|c| c.is_ascii_digit() || ('a'..='f').contains(&c)));
        assert_eq!(&uuid[12..13], "4");
        assert!("89ab".contains(&uuid[16..17]));
    }
    assert_ne!(ids[0], ids[1]);
    assert_ne!(ids[0], ids[2]);
}

#[test]
fn given_identifiers_are_used_turn_by_turn() {
    let source = request(vec![
        turn("assistant", AnthropicContent::Blocks(vec![thinking_block("a")])),
        text_turn("user", "go on"),
        turn("assistant", AnthropicContent::Blocks(vec![thinking_block("b")])),
    ]);
    let uuids = vec![vec!["x".to_string()], vec![], vec!["y".to_string()]];
    let result = convert_request_with_uuids(source, &uuids).expect("convert");
    assert_eq!(
        result.input,
        vec![
            reasoning_item("x", "a"),
            message("user", vec![input_text("go on")]),
            reasoning_item("y", "b"),
        ]
    );
}

#[test]
fn conversations_without_thinking_convert_alike() {
    let source = || {
        request(vec![
            text_turn("user", "a"),
            turn("assistant", AnthropicContent::Blocks(vec![text_block("b"), text_block("c")])),
        ])
    };
    let once = convert_request(source()).expect("convert");
    assert_eq!(once, convert_request(source()).expect("convert"));
    assert_eq!(
        once.input[1],
        message("assistant", vec![output_text("b"), output_text("c")])
    );
}

#[test]
fn empty_texts_and_empty_blocks_become_nothing() {
    let source = request(vec![
        text_turn("user", ""),
        turn("user", AnthropicContent::Blocks(vec![])),
        turn("user", AnthropicContent::Blocks(vec![text_block("")])),
    ]);
    let result = convert_request(source).expect("convert");
    assert_eq!(result.input, vec![message("user", vec![input_text("")])]);
}

#[test]
fn tool_results_keep_their_texts() {
    let blocks = |blocks: Vec<AnthropicContentBlock>| Some(AnthropicContent::Blocks(blocks));
    assert_eq!(extract_tool_result_content(&None), Value::Null);
    assert_eq!(extract_tool_result_content(&blocks(vec![])), Value::Null);
    assert_eq!(
        extract_tool_result_content(&blocks(vec![thinking_block("hidden")])),
        Value::Null
    );
    assert_eq!(
        extract_tool_result_content(&Some(AnthropicContent::Text("".to_string()))),
        Value::from("")
    );
    assert_eq!(
        extract_tool_result_content(&blocks(vec![text_block("one")])),
        Value::from("one")
    );
    assert_eq!(
        extract_tool_result_content(&blocks(vec![
            text_block("one"),
            thinking_block("hidden"),
            text_block("two"),
        ])),
        Value::from("one\ntwo")
    );
}

#[test]
fn a_conversation_converts_turn_by_turn() {
    let earlier = || vec![text_turn("user", "a"), text_turn("assistant", "b")];
    let later = || vec![text_turn("user", "c")];
    let mut both = earlier();
    both.extend(later());
    let whole = convert_request(request(both)).expect("convert").input;
    let mut parts = convert_request(request(earlier())).expect("convert").input;
    parts.extend(convert_request(request(later())).expect("convert").input);
    assert_eq!(whole, parts);
}

#[test]
fn unread_fields_make_no_difference() {
    let plain = request(vec![text_turn("user", "Hi")]);
    let mut full = request(vec![text_turn("user", "Hi")]);
    full.max_tokens = None;
    full.stream = false;
    full.temperature = Some(Value::from(0.5));
    full.top_p = Some(Value::from(0.9));
    full.top_k = Some(3);
    full.stop_sequences = Some(vec!["stop".to_string()]);
    full.metadata = Some(object(vec![("user_id", Value::from("u"))]));
    full.tool_choice = Some(Value::from("any"));
    assert_eq!(
        convert_request(plain).expect("convert"),
        convert_request(full).expect("convert")
    );
}

#[test]
fn a_refusal_carries_its_message() {
    let error = AppError::bad_request("no".to_string());
    assert_eq!(error, AppError::BadRequest { message: "no".to_string() });
}

fn call_arguments(input: Value) -> String {
    let blocks = AnthropicContent::Blocks(vec![AnthropicContentBlock::ToolUse {
        id: "call".to_string(),
        name: "look".to_string(),
        input,
    }]);
    let mut items = Vec::new();
    convert_message("assistant", &blocks, &vec![], &mut items).expect("convert");
    assert_eq!(items.len(), 1);
    match items.remove(0) {
        ResponseItem::FunctionCall { id: None, name, namespace: None, arguments, call_id } => {
            assert_eq!(name, "look");
            assert_eq!(call_id, "call");
            arguments
        }
        other => panic!("unexpected item {:?}", other),
    }
}

fn nested(depth: usize) -> Value {
    let mut value = Value::from(-7);
    for i in 0..depth {
        value = if i % 2 == 0 {
            Value::Array(vec![value])
        } else {
            object(vec![("in", value)])
        };
    }
    value
}

#[test]
fn arguments_are_read_back_as_the_input() {
    let inputs = vec![
        Value::Null,
        Value::Bool(true),
        Value::from(0),
        Value::from(u64::MAX),
        Value::from(i64::MIN),
        Value::from("quote \" slash \\ line \n bell \u{7} del \u{7f} é 𝄞 \u{2028} \u{10ffff}"),
        Value::Array(vec![]),
        object(vec![]),
        object(vec![
            ("", Value::Null),
            ("a\"b", Value::Array(vec![Value::from(1), object(vec![("c", Value::from("d"))])])),
        ]),
        nested(1),
        nested(127),
    ];
    for input in inputs {
        let arguments = call_arguments(input.clone());
        assert_eq!(serde_json::from_str::<Value>(&arguments).ok(), Some(input));
    }
}

#[test]
fn arguments_nested_deeper_are_written_but_not_read() {
    let arguments = call_arguments(nested(128));
    assert!(serde_json::from_str::<Value>(&arguments).is_err());
}

#[test]
fn chance_changes_identifiers_only() {
    let convert = || {
        let source = request(vec![
            text_turn("user", "a"),
            turn(
                "assistant",
                AnthropicContent::Blocks(vec![text_block("b"), thinking_block("c")]),
            ),
        ]);
        convert_request(source).expect("convert").input
    };
    let (one, other) = (convert(), convert());
    assert_eq!(one.len(), 3);
    assert_eq!(one[..2], other[..2]);
    match (&one[2], &other[2]) {
        (
            ResponseItem::Reasoning { id: a, summary: b, content: c, encrypted_content: d },
            ResponseItem::Reasoning { id: w, summary: x, content: y, encrypted_content: z },
        ) => {
            assert_ne!(a, w);
            assert_eq!(b, x);
            assert_eq!(c, y);
            assert_eq!(d, z);
        }
        items => panic!("unexpected items {:?}", items),
    }
}

#[test]
fn a_reserved_key_is_written_but_may_be_read_as_its_text() {
    let reserved = |text: &str| object(vec![("$serde_json::private::RawValue", Value::from(text))]);
    let arguments = call_arguments(reserved("1"));
    assert_eq!(arguments, "{\"$serde_json::private::RawValue\":\"1\"}");
    let read = serde_json::from_str::<Value>(&arguments).expect("read");
    assert!(read == Value::from(1) || read == reserved("1"));
    let inner = object(vec![("a", reserved("1"))]);
    let arguments = call_arguments(inner.clone());
    assert_eq!(arguments, "{\"a\":{\"$serde_json::private::RawValue\":\"1\"}}");
    let read = serde_json::from_str::<Value>(&arguments).expect("read");
    assert!(read == object(vec![("a", Value::from(1))]) || read == inner);
}
