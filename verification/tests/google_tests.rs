use goose_providers::google::{
    build_complete_payload, build_request_url, classify_google_status, get_usage,
    google_response_to_message, messages_to_google_spec, process_map, tools_to_google_spec,
};
use goose_providers::errors::ProviderError;
use goose_providers::json::JsonValue;
use goose_providers::message::{
    Content, Message, MessageContent, Role, Tool, ToolCall, ToolError,
};
use goose_providers::usage::{Usage, UsageCollector};
use goose_providers::utils::{is_valid_function_name, sanitize_function_name};

fn obj(pairs: Vec<(&str, JsonValue)>) -> JsonValue {
    JsonValue::Obj(pairs.into_iter().map(|(k, v)| (k.to_string(), v)).collect())
}

fn s(text: &str) -> JsonValue {
    JsonValue::Str(text.to_string())
}

fn user_message(content: Vec<MessageContent>) -> Message {
    Message { role: Role::User, created: 0, content }
}

#[test]
fn text_survives_translation() {
    let messages = vec![user_message(vec![MessageContent::Text {
        text: "Hello".to_string(),
    }])];
    let wire = messages_to_google_spec(&messages);
    let expected = obj(vec![
        ("role", s("user")),
        ("parts", JsonValue::Arr(vec![obj(vec![("text", s("Hello"))])])),
    ]);
    assert_eq!(wire, vec![expected]);
}

#[test]
fn empty_text_part_is_dropped() {
    let messages = vec![user_message(vec![MessageContent::Text {
        text: String::new(),
    }])];
    let wire = messages_to_google_spec(&messages);
    let expected = obj(vec![("role", s("user")), ("parts", JsonValue::Arr(vec![]))]);
    assert_eq!(wire, vec![expected]);
}

#[test]
fn assistant_role_maps_to_model() {
    let messages = vec![Message {
        role: Role::Assistant,
        created: 0,
        content: vec![MessageContent::Text { text: "hi".to_string() }],
    }];
    let wire = messages_to_google_spec(&messages);
    match &wire[0] {
        JsonValue::Obj(entries) => {
            assert_eq!(entries[0], ("role".to_string(), s("model")));
        }
        _ => panic!("expected an object"),
    }
}

#[test]
fn audience_filtering_is_total() {
    let hidden = Content::Text {
        text: "secret".to_string(),
        audience: Some(vec![Role::User]),
    };
    let shown = Content::Text {
        text: "visible".to_string(),
        audience: Some(vec![Role::Assistant]),
    };
    let messages = vec![user_message(vec![MessageContent::ToolResponse {
        id: "call1".to_string(),
        tool_result: Ok(vec![hidden, shown]),
    }])];
    let wire = messages_to_google_spec(&messages);
    let expected_part = obj(vec![(
        "functionResponse",
        obj(vec![
            ("name", s("call1")),
            (
                "response",
                obj(vec![(
                    "content",
                    obj(vec![("type", s("text")), ("text", s("visible"))]),
                )]),
            ),
        ]),
    )]);
    let expected = obj(vec![
        ("role", s("user")),
        ("parts", JsonValue::Arr(vec![expected_part])),
    ]);
    assert_eq!(wire, vec![expected]);
}

#[test]
fn image_results_are_dropped() {
    let image = Content::Image {
        mime_type: "image/png".to_string(),
        data: "QUJD".to_string(),
        audience: None,
    };
    let messages = vec![user_message(vec![MessageContent::ToolResponse {
        id: "call1".to_string(),
        tool_result: Ok(vec![image]),
    }])];
    let wire = messages_to_google_spec(&messages);
    let expected = obj(vec![("role", s("user")), ("parts", JsonValue::Arr(vec![]))]);
    assert_eq!(wire, vec![expected]);
}

#[test]
fn failed_tool_request_becomes_error_text() {
    let messages = vec![user_message(vec![MessageContent::ToolRequest {
        id: "x".to_string(),
        tool_call: Err(ToolError::NotFound("weather".to_string())),
    }])];
    let wire = messages_to_google_spec(&messages);
    let expected = obj(vec![
        ("role", s("user")),
        (
            "parts",
            JsonValue::Arr(vec![obj(vec![(
                "text",
                s("Error: Tool not found: weather"),
            )])]),
        ),
    ]);
    assert_eq!(wire, vec![expected]);
}

#[test]
fn empty_arguments_object_is_omitted() {
    let call = ToolCall {
        name: "ping".to_string(),
        arguments: JsonValue::Obj(vec![]),
    };
    let messages = vec![user_message(vec![MessageContent::ToolRequest {
        id: "ping".to_string(),
        tool_call: Ok(call),
    }])];
    let wire = messages_to_google_spec(&messages);
    let expected = obj(vec![
        ("role", s("user")),
        (
            "parts",
            JsonValue::Arr(vec![obj(vec![(
                "functionCall",
                obj(vec![("name", s("ping"))]),
            )])]),
        ),
    ]);
    assert_eq!(wire, vec![expected]);
}

#[test]
fn non_empty_arguments_are_sent() {
    let call = ToolCall {
        name: "ping".to_string(),
        arguments: obj(vec![("host", s("example"))]),
    };
    let messages = vec![user_message(vec![MessageContent::ToolRequest {
        id: "ping".to_string(),
        tool_call: Ok(call),
    }])];
    let wire = messages_to_google_spec(&messages);
    let expected = obj(vec![
        ("role", s("user")),
        (
            "parts",
            JsonValue::Arr(vec![obj(vec![(
                "functionCall",
                obj(vec![
                    ("name", s("ping")),
                    ("args", obj(vec![("host", s("example"))])),
                ]),
            )])]),
        ),
    ]);
    assert_eq!(wire, vec![expected]);
}

#[test]
fn schema_filter_keeps_property_keys() {
    let schema_entries: Vec<(String, JsonValue)> = vec![
        ("type".to_string(), s("object")),
        ("custom_junk".to_string(), s("dropped")),
        (
            "properties".to_string(),
            obj(vec![(
                "anyUserKey",
                obj(vec![
                    ("type", s("string")),
                    ("x-vendor-extension", s("kept value, filtered below")),
                ]),
            )]),
        ),
    ];
    let accepted: Vec<String> = vec![
        "type", "format", "description", "nullable", "enum", "maxItems", "minItems",
        "properties", "required", "items",
    ]
    .into_iter()
    .map(|k| k.to_string())
    .collect();
    let filtered = process_map(&schema_entries, &accepted, None);
    let expected = obj(vec![
        ("type", s("object")),
        (
            "properties",
            obj(vec![(
                "anyUserKey",
                obj(vec![("type", s("string"))]),
            )]),
        ),
    ]);
    assert_eq!(filtered, expected);
}

#[test]
fn schema_filter_defaults_missing_type() {
    let schema_entries: Vec<(String, JsonValue)> =
        vec![("description".to_string(), s("a field"))];
    let accepted: Vec<String> = vec!["type".to_string(), "description".to_string()];
    let filtered = process_map(&schema_entries, &accepted, None);
    let expected = obj(vec![("description", s("a field")), ("type", s("string"))]);
    assert_eq!(filtered, expected);
}

#[test]
fn tools_translation_includes_filtered_parameters() {
    let tool = Tool::new(
        "weather",
        "Look up the weather",
        obj(vec![
            ("type", s("object")),
            (
                "properties",
                obj(vec![("city", obj(vec![("type", s("string"))]))]),
            ),
        ]),
    );
    let wire = tools_to_google_spec(&vec![tool]);
    let expected = obj(vec![
        ("name", s("weather")),
        ("description", s("Look up the weather")),
        (
            "parameters",
            obj(vec![
                ("type", s("object")),
                (
                    "properties",
                    obj(vec![("city", obj(vec![("type", s("string"))]))]),
                ),
            ]),
        ),
    ]);
    assert_eq!(wire, vec![expected]);
}

#[test]
fn tool_without_properties_has_no_parameters() {
    let tool = Tool::new("ping", "Ping", obj(vec![("type", s("object"))]));
    let wire = tools_to_google_spec(&vec![tool]);
    let expected = obj(vec![("name", s("ping")), ("description", s("Ping"))]);
    assert_eq!(wire, vec![expected]);
}

#[test]
fn empty_candidates_yield_empty_assistant_message() {
    let response = obj(vec![("candidates", JsonValue::Arr(vec![]))]);
    let message = google_response_to_message(&response);
    assert_eq!(message.role, Role::Assistant);
    assert!(message.content.is_empty());
    assert!(message.created > 0);
}

#[test]
fn response_text_part_becomes_text_content() {
    let response = obj(vec![(
        "candidates",
        JsonValue::Arr(vec![obj(vec![(
            "content",
            obj(vec![(
                "parts",
                JsonValue::Arr(vec![obj(vec![("text", s("Hello back"))])]),
            )]),
        )])]),
    )]);
    let message = google_response_to_message(&response);
    assert_eq!(
        message.content,
        vec![MessageContent::Text { text: "Hello back".to_string() }]
    );
}

#[test]
fn function_call_without_args_is_skipped() {
    let response = obj(vec![(
        "candidates",
        JsonValue::Arr(vec![obj(vec![(
            "content",
            obj(vec![(
                "parts",
                JsonValue::Arr(vec![obj(vec![(
                    "functionCall",
                    obj(vec![("name", s("weather"))]),
                )])]),
            )]),
        )])]),
    )]);
    let message = google_response_to_message(&response);
    assert_eq!(message.role, Role::Assistant);
    assert!(message.content.is_empty());
}

#[test]
fn function_call_with_args_becomes_tool_request() {
    let response = obj(vec![(
        "candidates",
        JsonValue::Arr(vec![obj(vec![(
            "content",
            obj(vec![(
                "parts",
                JsonValue::Arr(vec![obj(vec![(
                    "functionCall",
                    obj(vec![
                        ("name", s("weather")),
                        ("args", obj(vec![("city", s("Berlin"))])),
                    ]),
                )])]),
            )]),
        )])]),
    )]);
    let message = google_response_to_message(&response);
    assert_eq!(message.content.len(), 1);
    match &message.content[0] {
        MessageContent::ToolRequest { id, tool_call } => {
            assert_eq!(id, "weather");
            let call = tool_call.as_ref().unwrap();
            assert_eq!(call.name, "weather");
            assert_eq!(call.arguments, obj(vec![("city", s("Berlin"))]));
        }
        _ => panic!("expected a tool request"),
    }
}

#[test]
fn invalid_function_name_yields_not_found() {
    let response = obj(vec![(
        "candidates",
        JsonValue::Arr(vec![obj(vec![(
            "content",
            obj(vec![(
                "parts",
                JsonValue::Arr(vec![obj(vec![(
                    "functionCall",
                    obj(vec![("name", s("weather check"))]),
                )])]),
            )]),
        )])]),
    )]);
    let message = google_response_to_message(&response);
    assert_eq!(message.content.len(), 1);
    match &message.content[0] {
        MessageContent::ToolRequest { id, tool_call } => {
            assert_eq!(id, "weather check");
            match tool_call {
                Err(ToolError::NotFound(m)) => assert!(m.contains("weather check")),
                _ => panic!("expected a not-found error"),
            }
        }
        _ => panic!("expected a tool request"),
    }
}

#[test]
fn sanitized_name_passes_validation() {
    let sanitized = sanitize_function_name("weather check");
    assert_eq!(sanitized, "weather_check");
    assert!(!is_valid_function_name("weather check"));
    assert!(is_valid_function_name("weather_check"));
    assert!(is_valid_function_name(&sanitize_function_name("a@b c#d")));
}

#[test]
fn usage_total_computed_from_parts() {
    let data = obj(vec![(
        "usage",
        obj(vec![
            ("prompt_tokens", JsonValue::Int(10)),
            ("completion_tokens", JsonValue::Int(5)),
        ]),
    )]);
    let usage = get_usage(&data).unwrap();
    assert_eq!(usage.input_tokens, Some(10));
    assert_eq!(usage.output_tokens, Some(5));
    assert_eq!(usage.total_tokens, Some(15));
}

#[test]
fn usage_reported_total_wins() {
    let data = obj(vec![(
        "usage",
        obj(vec![
            ("prompt_tokens", JsonValue::Int(10)),
            ("completion_tokens", JsonValue::Int(5)),
            ("total_tokens", JsonValue::Int(99)),
        ]),
    )]);
    let usage = get_usage(&data).unwrap();
    assert_eq!(usage.total_tokens, Some(99));
}

#[test]
fn usage_missing_fields_stay_absent() {
    let data = obj(vec![("usage", obj(vec![("prompt_tokens", JsonValue::Int(10))]))]);
    let usage = get_usage(&data).unwrap();
    assert_eq!(usage.input_tokens, Some(10));
    assert_eq!(usage.output_tokens, None);
    assert_eq!(usage.total_tokens, None);
    let data = obj(vec![("other", JsonValue::Null)]);
    assert!(get_usage(&data).is_none());
}

#[test]
fn usage_collector_accumulates() {
    let mut collector = UsageCollector::new();
    collector.add_usage(&Usage::new(Some(10), Some(5), Some(15)));
    collector.add_usage(&Usage::new(Some(1), None, Some(1)));
    let total = collector.get_usage();
    assert_eq!(total.input_tokens, Some(11));
    assert_eq!(total.output_tokens, Some(5));
    assert_eq!(total.total_tokens, Some(16));
}

#[test]
fn request_url_is_assembled() {
    let url = build_request_url("https://example.test//", "gemini-1.5-pro", "SECRET-REDACTED");
    assert_eq!(
        url,
        "https://example.test/v1beta/models/gemini-1.5-pro:generateContent?key=SECRET-REDACTED"
    );
}

#[test]
fn google_status_classification() {
    assert!(classify_google_status(200).is_ok());
    match classify_google_status(429) {
        Err(ProviderError::ServerError(m)) => assert_eq!(m, "Server error: 429"),
        _ => panic!("expected a server error"),
    }
    assert!(matches!(
        classify_google_status(500),
        Err(ProviderError::ServerError(_))
    ));
    match classify_google_status(404) {
        Err(ProviderError::RequestFailed(m)) => assert_eq!(m, "Request failed: 404"),
        _ => panic!("expected a request failure"),
    }
}

#[test]
fn complete_payload_holds_system_and_contents() {
    let messages = vec![user_message(vec![MessageContent::Text {
        text: "Hi".to_string(),
    }])];
    let tools: Vec<Tool> = vec![];
    let payload = build_complete_payload("be nice", &messages, &tools);
    let expected = obj(vec![
        (
            "system_instruction",
            obj(vec![(
                "parts",
                JsonValue::Arr(vec![obj(vec![("text", s("be nice"))])]),
            )]),
        ),
        (
            "contents",
            JsonValue::Arr(vec![obj(vec![
                ("role", s("user")),
                ("parts", JsonValue::Arr(vec![obj(vec![("text", s("Hi"))])])),
            ])]),
        ),
    ]);
    assert_eq!(payload, expected);
}

#[test]
fn complete_payload_attaches_tools_when_present() {
    let messages: Vec<Message> = vec![];
    let tools = vec![Tool::new("ping", "Ping", obj(vec![("type", s("object"))]))];
    let payload = build_complete_payload("sys", &messages, &tools);
    match &payload {
        JsonValue::Obj(entries) => {
            assert_eq!(entries.len(), 3);
            assert_eq!(entries[2].0, "tools");
            let expected = obj(vec![(
                "functionDeclarations",
                JsonValue::Arr(vec![obj(vec![
                    ("name", s("ping")),
                    ("description", s("Ping")),
                ])]),
            )]);
            assert_eq!(entries[2].1, expected);
        }
        _ => panic!("expected an object"),
    }
}

#[test]
fn failed_tool_response_becomes_error_text() {
    let messages = vec![user_message(vec![MessageContent::ToolResponse {
        id: "call9".to_string(),
        tool_result: Err(ToolError::ExecutionError("disk full".to_string())),
    }])];
    let wire = messages_to_google_spec(&messages);
    let expected = obj(vec![
        ("role", s("user")),
        (
            "parts",
            JsonValue::Arr(vec![obj(vec![(
                "text",
                s("Error: Execution failed: disk full"),
            )])]),
        ),
    ]);
    assert_eq!(wire, vec![expected]);
}

#[test]
fn message_order_is_preserved() {
    let messages = vec![
        user_message(vec![MessageContent::Text { text: "first".to_string() }]),
        Message {
            role: Role::Assistant,
            created: 0,
            content: vec![MessageContent::Text { text: "second".to_string() }],
        },
    ];
    let wire = messages_to_google_spec(&messages);
    assert_eq!(wire.len(), 2);
    let first = obj(vec![
        ("role", s("user")),
        ("parts", JsonValue::Arr(vec![obj(vec![("text", s("first"))])])),
    ]);
    let second = obj(vec![
        ("role", s("model")),
        ("parts", JsonValue::Arr(vec![obj(vec![("text", s("second"))])])),
    ]);
    assert_eq!(wire, vec![first, second]);
}
