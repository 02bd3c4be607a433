use apiarray::canonical::{
    CanonicalResponse, ContentPart, FinishReason, ImageDetail, ResponseFormat, Role, ToolChoice,
    Usage,
};
use apiarray::openai::{
    encode_chat_completions_response, finish_reason_name, parse_chat_completions_request,
    OpenAiStreamEncoder,
};
use apiarray::stream::StreamEvent;
use apiarray::{CoreError, ErrorCode};

fn json_of(text: &str) -> serde_json::Value {
    serde_json::from_str(text).expect("valid JSON")
}

#[test]
fn parses_openai_request_with_tool_and_image() -> Result<(), CoreError> {
    let request = parse_chat_completions_request(
        r#"{
            "model": "smart",
            "messages": [{"role": "user", "content": [
                {"type": "text", "text": "look"},
                {"type": "image_url", "image_url": {"url": "https://example.invalid/a.png", "detail": "low"}}
            ]}],
            "tools": [{"type": "function", "function": {
                "name": "weather", "description": "weather", "parameters": {"type": "object"}
            }}],
            "stream": true,
            "metadata": {"tier": "premium"}
        }"#,
        None,
    )?;
    assert_eq!(request.model, "smart");
    assert_eq!(request.messages[0].content.len(), 2);
    assert_eq!(request.tools.len(), 1);
    assert!(request.stream);
    assert_eq!(
        request
            .metadata
            .iter()
            .find(|(key, _)| key == "tier")
            .map(|(_, value)| value.as_str()),
        Some("premium")
    );
    assert_eq!(
        request.messages[0].content[1],
        ContentPart::ImageUrl {
            url: "https://example.invalid/a.png".to_owned(),
            detail: ImageDetail::Low
        }
    );
    assert_eq!(request.tools[0].input_schema, "{\"type\":\"object\"}");
    assert_eq!(request.max_output_tokens, 1024);
    Ok(())
}

#[test]
fn encodes_response_and_stream() {
    let response = CanonicalResponse {
        schema_version: 1,
        provider_response_id: Some("r1".to_owned()),
        model: Some("smart".to_owned()),
        content: vec![ContentPart::Text {
            text: "hello".to_owned(),
        }],
        finish_reason: FinishReason::Stop,
        usage: Usage {
            input_tokens: 2,
            output_tokens: 1,
            cached_input_tokens: Some(1),
        },
    };
    let encoded = json_of(&encode_chat_completions_response(&response));
    assert_eq!(encoded["choices"][0]["message"]["content"], "hello");

    let mut stream = OpenAiStreamEncoder::new("r1", "smart");
    let frames = stream.encode(&StreamEvent::Finished {
        reason: FinishReason::Stop,
    });
    assert_eq!(frames.len(), 2);
    assert_eq!(frames[1], "data: [DONE]\n\n");
}

#[test]
fn response_text_matches_serde_json_rendering() {
    let response = CanonicalResponse {
        schema_version: 1,
        provider_response_id: None,
        model: None,
        content: vec![
            ContentPart::ToolCall {
                id: "c1".to_owned(),
                name: "weather".to_owned(),
                arguments: "{\"city\":\"Paris\"}".to_owned(),
            },
        ],
        finish_reason: FinishReason::ToolCall,
        usage: Usage {
            input_tokens: u64::MAX,
            output_tokens: 5,
            cached_input_tokens: None,
        },
    };
    let text = encode_chat_completions_response(&response);
    let value = json_of(&text);
    assert_eq!(serde_json::to_string(&value).expect("render"), text);
    assert_eq!(value["id"], "apiarray-response");
    assert_eq!(value["model"], "unknown");
    assert!(value["choices"][0]["message"]["content"].is_null());
    assert_eq!(value["choices"][0]["finish_reason"], "tool_calls");
    assert_eq!(
        value["choices"][0]["message"]["tool_calls"][0]["function"]["arguments"],
        "{\"city\":\"Paris\"}"
    );
    assert_eq!(value["usage"]["total_tokens"], u64::MAX);
    assert_eq!(value["usage"]["prompt_tokens_details"]["cached_tokens"], 0);
}

#[test]
fn stream_frames_carry_start_ids_and_usage() {
    let mut stream = OpenAiStreamEncoder::new("draft", "draft-model");
    let started = stream.encode(&StreamEvent::Started {
        response_id: Some("r9".to_owned()),
        model: None,
    });
    assert_eq!(
        started,
        vec![
            "data: {\"choices\":[{\"delta\":{\"role\":\"assistant\"},\"finish_reason\":null,\"index\":0}],\"id\":\"r9\",\"model\":\"draft-model\",\"object\":\"chat.completion.chunk\"}\n\n"
                .to_owned()
        ]
    );
    let delta = stream.encode(&StreamEvent::ToolCallDelta {
        index: 2,
        id: None,
        name: Some("weather".to_owned()),
        arguments_delta: "{\"ci".to_owned(),
    });
    let chunk = json_of(delta[0].trim_start_matches("data: ").trim_end());
    assert_eq!(chunk["choices"][0]["delta"]["tool_calls"][0]["index"], 2);
    assert!(chunk["choices"][0]["delta"]["tool_calls"][0]["id"].is_null());
    assert_eq!(
        chunk["choices"][0]["delta"]["tool_calls"][0]["function"]["arguments"],
        "{\"ci"
    );
    let usage = stream.encode(&StreamEvent::Usage {
        usage: Usage {
            input_tokens: 3,
            output_tokens: 4,
            cached_input_tokens: None,
        },
    });
    let chunk = json_of(usage[0].trim_start_matches("data: ").trim_end());
    assert_eq!(chunk["usage"]["total_tokens"], 7);
    assert_eq!(chunk["id"], "r9");
    assert_eq!(finish_reason_name(FinishReason::Error), "stop");
    assert_eq!(finish_reason_name(FinishReason::ContentFilter), "content_filter");
}

#[test]
fn request_fields_default_and_validate() -> Result<(), CoreError> {
    let request = parse_chat_completions_request(
        r#"{"model":"m","messages":[{"role":"developer","content":"be brief"},{"role":"assistant","content":null,"tool_calls":[{"id":"c1","function":{"name":"f","arguments":"{ \"a\" : 1 }"}}]},{"role":"tool","tool_call_id":"c1","content":"done"}],"max_completion_tokens":77,"max_tokens":5,"tool_choice":{"type":"function","function":{"name":"f"}},"response_format":{"type":"json_schema","json_schema":{"name":"out","schema":{"type":"object"},"strict":true}}}"#,
        Some(Ok(0.5f32.to_bits())),
    )?;
    assert_eq!(request.messages[0].role, Role::System);
    assert_eq!(
        request.messages[1].content,
        vec![ContentPart::ToolCall {
            id: "c1".to_owned(),
            name: "f".to_owned(),
            arguments: "{\"a\":1}".to_owned(),
        }]
    );
    assert_eq!(request.messages[2].tool_call_id.as_deref(), Some("c1"));
    assert_eq!(request.max_output_tokens, 77);
    assert_eq!(request.temperature, Some(0.5f32.to_bits()));
    assert_eq!(request.tool_choice, ToolChoice::Named("f".to_owned()));
    assert_eq!(
        request.response_format,
        ResponseFormat::JsonSchema {
            name: "out".to_owned(),
            schema: "{\"type\":\"object\"}".to_owned(),
            strict: true
        }
    );
    Ok(())
}

#[test]
fn request_errors_name_what_is_wrong() {
    let error = parse_chat_completions_request(r#"{"messages":[]}"#, None).expect_err("no model");
    assert_eq!(error.code, ErrorCode::RequestInvalid);
    assert_eq!(error.message, "缺少字符串字段 /model");
    let error = parse_chat_completions_request(r#"{"model":"m"}"#, None).expect_err("no messages");
    assert_eq!(error.message, "OpenAI 请求缺少 messages");
    let error = parse_chat_completions_request(
        r#"{"model":"m","messages":[{"role":"robot","content":"x"}]}"#,
        None,
    )
    .expect_err("unknown role");
    assert_eq!(error.message, "不支持 OpenAI 消息角色: robot");
    let error = parse_chat_completions_request(
        r#"{"model":"m","messages":[{"role":"user","content":[{"type":"audio"}]}]}"#,
        None,
    )
    .expect_err("unknown part");
    assert_eq!(error.message, "不支持的内容类型: Some(\"audio\")");
    let error = parse_chat_completions_request(
        r#"{"model":"m","messages":[{"role":"user","content":"x"}],"tool_choice":"maybe"}"#,
        None,
    )
    .expect_err("bad tool choice");
    assert_eq!(error.message, "无效 tool_choice: \"maybe\"");
    let error = parse_chat_completions_request(
        r#"{"model":"m","messages":[{"role":"user","content":"x"}],"metadata":{"a":1}}"#,
        None,
    )
    .expect_err("metadata value");
    assert_eq!(error.message, "metadata 的值必须是字符串");
    let error = parse_chat_completions_request(
        r#"{"model":"m","messages":[{"role":"user","content":"x"}],"temperature":"hot"}"#,
        Some(Err("invalid type".to_owned())),
    )
    .expect_err("bad temperature");
    assert_eq!(error.message, "temperature 无效: invalid type");
    let error = parse_chat_completions_request(r#"{"model":"m","messages":[]}"#, None)
        .expect_err("validation");
    assert_eq!(error.message, "统一请求校验失败");
    assert_eq!(error.issues[0].path, "messages");
}
