use goose_providers::errors::ProviderError;
use goose_providers::json::JsonValue;
use goose_providers::unescape::{unescape_json_values, unescape_string};
use goose_providers::utils::{
    check_bedrock_context_length_error, convert_image, get_model, handle_response_openai_compat,
    is_valid_function_name, sanitize_function_name, ImageFormat,
};

fn obj(pairs: Vec<(&str, JsonValue)>) -> JsonValue {
    JsonValue::Obj(pairs.into_iter().map(|(k, v)| (k.to_string(), v)).collect())
}

fn s(text: &str) -> JsonValue {
    JsonValue::Str(text.to_string())
}

#[test]
fn test_sanitize_function_name() {
    assert_eq!(sanitize_function_name("hello-world"), "hello-world");
    assert_eq!(sanitize_function_name("hello world"), "hello_world");
    assert_eq!(sanitize_function_name("hello@world"), "hello_world");
}

#[test]
fn test_is_valid_function_name() {
    assert!(is_valid_function_name("hello-world"));
    assert!(is_valid_function_name("hello_world"));
    assert!(!is_valid_function_name("hello world"));
    assert!(!is_valid_function_name("hello@world"));
}

#[test]
fn test_check_bedrock_context_length_error() {
    let error = obj(vec![
        ("error", s("Received error from amazon-bedrock")),
        (
            "external_model_message",
            obj(vec![("message", s("Input is too long for requested model."))]),
        ),
    ]);

    let result = check_bedrock_context_length_error(&error);
    assert!(result.is_some());
    assert_eq!(
        result.unwrap().error_text(),
        "Context length exceeded: Input is too long for requested model."
    );

    let error = obj(vec![
        ("error", s("Some other error")),
        (
            "external_model_message",
            obj(vec![("message", s("Some other message"))]),
        ),
    ]);

    let result = check_bedrock_context_length_error(&error);
    assert!(result.is_none());
}

#[test]
fn bedrock_error_matches_through_lowercasing() {
    let error = obj(vec![(
        "external_model_message",
        obj(vec![("message", s("Input Is TOO LONG for the model."))]),
    )]);
    let result = check_bedrock_context_length_error(&error);
    assert!(result.is_some());
    assert_eq!(
        result.unwrap().error_text(),
        "Context length exceeded: Input Is TOO LONG for the model."
    );
}

#[test]
fn unescape_json_values_with_object() {
    let value = obj(vec![("text", s("Hello\\nWorld"))]);
    let unescaped_value = unescape_json_values(&value);
    assert_eq!(unescaped_value, obj(vec![("text", s("Hello\nWorld"))]));
}

#[test]
fn unescape_json_values_with_array() {
    let value = JsonValue::Arr(vec![s("Hello\\nWorld"), s("Goodbye\\tWorld")]);
    let unescaped_value = unescape_json_values(&value);
    assert_eq!(
        unescaped_value,
        JsonValue::Arr(vec![s("Hello\nWorld"), s("Goodbye\tWorld")])
    );
}

#[test]
fn unescape_json_values_with_string() {
    let value = s("Hello\\nWorld");
    let unescaped_value = unescape_json_values(&value);
    assert_eq!(unescaped_value, s("Hello\nWorld"));
}

#[test]
fn unescape_json_values_with_mixed_content() {
    let value = obj(vec![
        ("text", s("Hello\\nWorld\\\\n!")),
        (
            "array",
            JsonValue::Arr(vec![s("Goodbye\\tWorld"), s("See you\\rlater")]),
        ),
        ("nested", obj(vec![("inner_text", s("Inner\\\"Quote\\\""))])),
    ]);
    let unescaped_value = unescape_json_values(&value);
    assert_eq!(
        unescaped_value,
        obj(vec![
            ("text", s("Hello\nWorld\n!")),
            (
                "array",
                JsonValue::Arr(vec![s("Goodbye\tWorld"), s("See you\rlater")]),
            ),
            ("nested", obj(vec![("inner_text", s("Inner\"Quote\""))])),
        ])
    );
}

#[test]
fn unescape_json_values_with_no_escapes() {
    let value = obj(vec![("text", s("Hello World"))]);
    let unescaped_value = unescape_json_values(&value);
    assert_eq!(unescaped_value, obj(vec![("text", s("Hello World"))]));
}

#[test]
fn unescape_twice_equals_once() {
    let once = unescape_string("Hello\\nWorld and a\\ttab");
    let twice = unescape_string(&once);
    assert_eq!(twice, once);
    assert_eq!(once, "Hello\nWorld and a\ttab");
}

#[test]
fn double_escaped_newline_collapses() {
    let value = obj(vec![("text", s("Hello\\\\nWorld"))]);
    let unescaped = unescape_json_values(&value);
    assert_eq!(unescaped, obj(vec![("text", s("Hello\nWorld"))]));
}

#[test]
fn get_model_reads_top_level_attribute() {
    let data = obj(vec![("model", s("gemini-1.5-pro"))]);
    assert_eq!(get_model(&data), "gemini-1.5-pro");
    let data = obj(vec![("model", JsonValue::Int(3))]);
    assert_eq!(get_model(&data), "Unknown");
    let data = obj(vec![("other", s("x"))]);
    assert_eq!(get_model(&data), "Unknown");
}

#[test]
fn convert_image_openai_format() {
    let v = convert_image("image/png", "QUJD", &ImageFormat::OpenAi);
    let expected = obj(vec![
        ("type", s("image_url")),
        (
            "image_url",
            obj(vec![("url", s("data:image/png;base64,QUJD"))]),
        ),
    ]);
    assert_eq!(v, expected);
}

#[test]
fn convert_image_anthropic_format() {
    let v = convert_image("image/png", "QUJD", &ImageFormat::Anthropic);
    let expected = obj(vec![
        ("type", s("image")),
        (
            "source",
            obj(vec![
                ("type", s("base64")),
                ("media_type", s("image/png")),
                ("data", s("QUJD")),
            ]),
        ),
    ]);
    assert_eq!(v, expected);
}

#[test]
fn handle_response_success_returns_body() {
    let body = obj(vec![("choices", JsonValue::Arr(vec![]))]);
    let copy = goose_providers::json::json_clone(&body);
    let r = handle_response_openai_compat(200, copy);
    assert_eq!(r.unwrap(), body);
}

#[test]
fn handle_response_authentication() {
    let r = handle_response_openai_compat(401, JsonValue::Null);
    match r {
        Err(ProviderError::Authentication(m)) => {
            assert_eq!(m, "Authentication failed. Status: 401")
        }
        _ => panic!("expected an authentication error"),
    }
    let r = handle_response_openai_compat(403, JsonValue::Null);
    assert!(matches!(r, Err(ProviderError::Authentication(_))));
}

#[test]
fn handle_response_context_length() {
    let body = obj(vec![(
        "error",
        obj(vec![
            ("code", s("context_length_exceeded")),
            ("message", s("too many tokens")),
        ]),
    )]);
    let r = handle_response_openai_compat(400, body);
    match r {
        Err(ProviderError::ContextLengthExceeded(m)) => assert_eq!(m, "too many tokens"),
        _ => panic!("expected a context length error"),
    }
}

#[test]
fn handle_response_bad_request_without_marker() {
    let body = obj(vec![("error", obj(vec![("code", s("bad_input"))]))]);
    let r = handle_response_openai_compat(400, body);
    match r {
        Err(ProviderError::RequestFailed(m)) => {
            assert_eq!(m, "Request failed with status: 400")
        }
        _ => panic!("expected a request failure"),
    }
}

#[test]
fn handle_response_server_error() {
    let r = handle_response_openai_compat(500, JsonValue::Null);
    match r {
        Err(ProviderError::ServerError(m)) => assert_eq!(m, "Server error occurred. Status: 500"),
        _ => panic!("expected a server error"),
    }
    let r = handle_response_openai_compat(503, JsonValue::Null);
    assert!(matches!(r, Err(ProviderError::ServerError(_))));
}

#[test]
fn handle_response_other_status() {
    let r = handle_response_openai_compat(404, JsonValue::Null);
    match r {
        Err(ProviderError::RequestFailed(m)) => assert_eq!(m, "Request failed with status: 404"),
        _ => panic!("expected a request failure"),
    }
}
