use apiarray::adapter::{
    build_transport_plan, classify_http_error, parse_response, AdapterKind, HeaderValue, HttpMethod,
    StreamProtocol,
};
use apiarray::canonical::{
    CanonicalRequest, ContentPart, FinishReason, Message, ResponseFormat, Role, ToolChoice,
    ToolDefinition,
};
use apiarray::stream::{decode_stream_chunks, StreamEvent};
use apiarray::templates::{generate_templates, TemplateContext};
use apiarray::provider::{
    AdapterBinding, AuthenticationDefinition, AuthenticationField, AuthenticationType,
    DiscoveryDefinition, EndpointDefinition, ProviderIdentity, ProviderManifest, ProviderUi,
};
use apiarray::routing::StandardError;
use apiarray::secret::SecretRef;
use apiarray::translate::{anthropic_request, gemini_request, openai_request};
use apiarray::{CoreError, ErrorCode};

fn temperature_text(value: f32) -> String {
    serde_json::Number::from_f64(f64::from(value))
        .expect("a finite temperature")
        .to_string()
}

fn request() -> CanonicalRequest {
    CanonicalRequest {
        schema_version: 1,
        model: "model-a".to_owned(),
        messages: vec![
            Message::text(Role::System, "Be concise"),
            Message::text(Role::User, "Hello"),
        ],
        max_output_tokens: 128,
        temperature: Some(0.2f32.to_bits()),
        stream: true,
        tools: vec![ToolDefinition {
            name: "weather".to_owned(),
            description: "Get weather".to_owned(),
            input_schema: "{\"type\":\"object\"}".to_owned(),
        }],
        tool_choice: ToolChoice::Auto,
        response_format: ResponseFormat::Text,
        metadata: Vec::new(),
    }
}

fn field(query: Option<&str>, header: Option<&str>) -> AuthenticationField {
    AuthenticationField {
        id: "api_key".to_owned(),
        label: "API Key".to_owned(),
        secret: true,
        required: true,
        header: header.map(str::to_owned),
        query: query.map(str::to_owned),
        prefix: header.map(|_| "Bearer ".to_owned()),
    }
}

fn provider(adapter: &str, base: &str) -> ProviderManifest {
    ProviderManifest {
        schema_version: 1,
        provider: ProviderIdentity {
            id: "test".to_owned(),
            name: "Test".to_owned(),
            category: "ai-model".to_owned(),
            homepage: None,
            docs: None,
        },
        adapter: AdapterBinding {
            id: adapter.to_owned(),
            min_version: 1,
        },
        endpoint: EndpointDefinition {
            default_base_url: base.to_owned(),
            editable: true,
            allowed_schemes: vec!["https".to_owned()],
        },
        authentication: AuthenticationDefinition {
            kind: AuthenticationType::HeaderSecret,
            fields: vec![field(None, Some("Authorization"))],
        },
        headers: Vec::new(),
        discovery: DiscoveryDefinition::default(),
        probes: Vec::new(),
        ui: ProviderUi::default(),
    }
}

fn refs() -> Vec<(String, SecretRef)> {
    vec![(
        "api_key".to_owned(),
        SecretRef::parse("secret://test/key").expect("valid ref"),
    )]
}

fn body_of(text: &str) -> serde_json::Value {
    serde_json::from_str(text).expect("the body is JSON")
}

#[test]
fn openai_plan_contains_reference_not_secret() -> Result<(), CoreError> {
    let t = temperature_text(0.2);
    let plan = build_transport_plan(
        &provider("openai-compatible", "https://example.invalid/v1"),
        &refs(),
        &request(),
        Some(&t),
    )?;
    assert_eq!(plan.url, "https://example.invalid/v1/chat/completions");
    assert_eq!(plan.stream_protocol, StreamProtocol::OpenaiSse);
    let rendered = format!("{:?}", plan);
    assert!(rendered.contains("secret://test/key"));
    assert!(!rendered.contains("Bearer secret"));
    Ok(())
}

#[test]
fn translates_anthropic_system_and_tools() -> Result<(), CoreError> {
    let t = temperature_text(0.2);
    let plan = build_transport_plan(
        &provider("anthropic-messages", "https://example.invalid"),
        &refs(),
        &request(),
        Some(&t),
    )?;
    let body = body_of(&plan.body);
    assert_eq!(body["system"], "Be concise");
    assert_eq!(body["tools"][0]["name"], "weather");
    Ok(())
}

#[test]
fn translates_gemini_path_and_system_instruction() -> Result<(), CoreError> {
    let t = temperature_text(0.2);
    let plan = build_transport_plan(
        &provider("google-gemini", "https://example.invalid"),
        &refs(),
        &request(),
        Some(&t),
    )?;
    assert!(plan.url.ends_with("model-a:streamGenerateContent?alt=sse"));
    let body = body_of(&plan.body);
    assert_eq!(body["systemInstruction"]["parts"][0]["text"], "Be concise");
    Ok(())
}

#[test]
fn classifies_rate_limit_and_sanitizes_message() {
    let error = classify_http_error(429, "{\"error\":{\"message\":\"too many requests\"}}");
    assert_eq!(error.code, StandardError::RateLimited);
    assert!(error.retryable);
}

#[test]
fn query_auth_is_kept_as_unresolved_secret_reference() -> Result<(), CoreError> {
    let mut manifest = provider("openai-compatible", "https://example.invalid/v1");
    manifest.provider.id = "query-auth".to_owned();
    manifest.provider.name = "Query Auth".to_owned();
    manifest.authentication = AuthenticationDefinition {
        kind: AuthenticationType::QuerySecret,
        fields: vec![field(Some("key"), None)],
    };
    let t = temperature_text(0.2);
    let plan = build_transport_plan(&manifest, &refs(), &request(), Some(&t))?;
    assert!(plan.headers.iter().all(|header| header.name != "key"));
    assert_eq!(plan.query.len(), 1);
    assert_eq!(plan.query[0].name, "key");
    assert!(matches!(plan.query[0].value, HeaderValue::SecretRef { .. }));
    Ok(())
}

#[test]
fn openai_body_carries_model_tokens_temperature_and_tools() -> Result<(), CoreError> {
    let t = temperature_text(0.2);
    let plan = build_transport_plan(
        &provider("openai-compatible", "https://example.invalid/v1/"),
        &refs(),
        &request(),
        Some(&t),
    )?;
    assert_eq!(plan.adapter, AdapterKind::OpenaiCompatible);
    assert_eq!(plan.method, HttpMethod::Post);
    assert_eq!(plan.url, "https://example.invalid/v1/chat/completions");
    let body = body_of(&plan.body);
    assert_eq!(body["model"], "model-a");
    assert_eq!(body["max_tokens"], 128);
    assert_eq!(body["stream"], true);
    assert_eq!(body["temperature"].as_f64(), Some(f64::from(0.2f32)));
    assert_eq!(body["messages"][0]["role"], "system");
    assert_eq!(body["messages"][0]["content"], "Be concise");
    assert_eq!(body["tools"][0]["type"], "function");
    assert_eq!(body["tools"][0]["function"]["parameters"]["type"], "object");
    assert_eq!(body["tool_choice"], "auto");
    assert!(body.get("response_format").is_none());
    let last = plan.headers.last().expect("content type header");
    assert_eq!(last.name, "content-type");
    assert_eq!(
        last.value,
        HeaderValue::Static {
            value: "application/json".to_owned()
        }
    );
    Ok(())
}

#[test]
fn openai_refuses_a_tool_result_outside_a_tool_message() {
    let mut r = request();
    r.messages[1].content.push(ContentPart::ToolResult {
        tool_call_id: "call-1".to_owned(),
        content: "sunny".to_owned(),
        is_error: false,
    });
    let error = build_transport_plan(
        &provider("openai-compatible", "https://example.invalid/v1"),
        &refs(),
        &r,
        None,
    )
    .expect_err("a tool result needs a tool message");
    assert_eq!(error.code, ErrorCode::RequestInvalid);
    assert_eq!(error.message, "OpenAI ToolResult 必须使用 Tool 角色消息");
    assert!(openai_request(&r, "model-a", None).is_none());
}

#[test]
fn openai_tool_message_and_structured_content() {
    let mut r = request();
    r.messages.push(Message {
        role: Role::Assistant,
        content: vec![
            ContentPart::Text {
                text: "Let me look".to_owned(),
            },
            ContentPart::ToolCall {
                id: "call-1".to_owned(),
                name: "weather".to_owned(),
                arguments: "{\"city\":\"Paris\"}".to_owned(),
            },
        ],
        name: Some("helper".to_owned()),
        tool_call_id: None,
    });
    r.messages.push(Message {
        role: Role::Tool,
        content: vec![ContentPart::ToolResult {
            tool_call_id: "call-1".to_owned(),
            content: "sunny".to_owned(),
            is_error: false,
        }],
        name: None,
        tool_call_id: Some("call-1".to_owned()),
    });
    r.tool_choice = ToolChoice::Named("weather".to_owned());
    r.response_format = ResponseFormat::JsonSchema {
        name: "answer".to_owned(),
        schema: "{\"type\":\"object\"}".to_owned(),
        strict: true,
    };
    let body = body_of(&openai_request(&r, "model-b", None).expect("a body"));
    assert_eq!(body["model"], "model-b");
    assert!(body.get("temperature").is_none());
    assert_eq!(body["messages"][2]["content"], "Let me look");
    assert_eq!(body["messages"][2]["name"], "helper");
    assert_eq!(body["messages"][2]["tool_calls"][0]["id"], "call-1");
    assert_eq!(
        body["messages"][2]["tool_calls"][0]["function"]["arguments"],
        "{\"city\":\"Paris\"}"
    );
    assert_eq!(body["messages"][3]["role"], "tool");
    assert_eq!(body["messages"][3]["tool_call_id"], "call-1");
    assert_eq!(body["messages"][3]["content"], "sunny");
    assert_eq!(body["tool_choice"]["function"]["name"], "weather");
    assert_eq!(body["response_format"]["type"], "json_schema");
    assert_eq!(body["response_format"]["json_schema"]["strict"], true);
}

#[test]
fn anthropic_joins_system_prompts_and_maps_tool_parts() {
    let mut r = request();
    r.messages.insert(1, Message::text(Role::System, "Answer in French"));
    r.messages.push(Message {
        role: Role::Assistant,
        content: vec![ContentPart::ToolCall {
            id: "call-1".to_owned(),
            name: "weather".to_owned(),
            arguments: "{\"city\":\"Paris\"}".to_owned(),
        }],
        name: None,
        tool_call_id: None,
    });
    r.tool_choice = ToolChoice::Required;
    let body = body_of(&anthropic_request(&r, "model-c", None));
    assert_eq!(body["system"], "Be concise\n\nAnswer in French");
    assert_eq!(body["messages"].as_array().map(Vec::len), Some(2));
    assert_eq!(body["messages"][0]["role"], "user");
    assert_eq!(body["messages"][1]["role"], "assistant");
    assert_eq!(body["messages"][1]["content"][0]["type"], "tool_use");
    assert_eq!(body["messages"][1]["content"][0]["input"]["city"], "Paris");
    assert_eq!(body["tool_choice"]["type"], "any");
    assert_eq!(body["tools"][0]["input_schema"]["type"], "object");
}

#[test]
fn gemini_generation_config_and_function_declarations() {
    let mut r = request();
    r.stream = false;
    r.response_format = ResponseFormat::JsonObject;
    let t = temperature_text(0.5);
    let body = body_of(&gemini_request(&r, Some(&t)));
    assert_eq!(body["generationConfig"]["maxOutputTokens"], 128);
    assert_eq!(body["generationConfig"]["temperature"], 0.5);
    assert_eq!(body["generationConfig"]["responseMimeType"], "application/json");
    assert_eq!(body["contents"][0]["role"], "user");
    assert_eq!(body["contents"][0]["parts"][0]["text"], "Hello");
    assert_eq!(body["tools"][0]["functionDeclarations"][0]["name"], "weather");
    let plan = build_transport_plan(
        &provider("google-gemini", "https://example.invalid"),
        &refs(),
        &r,
        Some(&t),
    )
    .expect("a plan");
    assert_eq!(
        plan.url,
        "https://example.invalid/v1beta/models/model-a:generateContent"
    );
    assert_eq!(plan.stream_protocol, StreamProtocol::NoStream);
}

#[test]
fn plan_errors_come_in_order() {
    let mut bad_provider = provider("openai-compatible", "example.invalid");
    let error = build_transport_plan(&bad_provider, &refs(), &request(), None)
        .expect_err("a base URL without scheme");
    assert_eq!(error.code, ErrorCode::ProviderInvalid);
    bad_provider = provider("grpc-stream", "https://example.invalid");
    let error = build_transport_plan(&bad_provider, &refs(), &request(), None)
        .expect_err("an unknown adapter");
    assert_eq!(error.code, ErrorCode::AdapterUnsupported);
    assert_eq!(error.message, "尚未实现 Adapter: grpc-stream");
    let error = build_transport_plan(
        &provider("openai-compatible", "https://example.invalid"),
        &Vec::new(),
        &request(),
        None,
    )
    .expect_err("a missing secret reference");
    assert_eq!(error.code, ErrorCode::SecretInvalid);
    let mut bad_request = request();
    bad_request.max_output_tokens = 0;
    let error = build_transport_plan(
        &provider("openai-compatible", "https://example.invalid"),
        &refs(),
        &bad_request,
        None,
    )
    .expect_err("no output tokens");
    assert_eq!(error.code, ErrorCode::RequestInvalid);
}

#[test]
fn parses_openai_response() -> Result<(), CoreError> {
    let response = parse_response(
        AdapterKind::OpenaiCompatible,
        "{\"id\":\"r1\",\"model\":\"m1\",\"choices\":[{\"message\":{\"content\":\"hello\"},\"finish_reason\":\"stop\"}],\"usage\":{\"prompt_tokens\":3,\"completion_tokens\":2}}",
    )?;
    assert_eq!(response.finish_reason, FinishReason::Stop);
    assert_eq!(response.usage.input_tokens, 3);
    Ok(())
}

#[test]
fn provider_to_plan_to_response_to_templates_pipeline() -> Result<(), CoreError> {
    let mut manifest = provider("openai-compatible", "https://api.openai.com/v1");
    manifest.provider.id = "openai".to_owned();
    manifest.provider.name = "OpenAI".to_owned();
    let mut request = request();
    request.model = "smart".to_owned();
    request.messages = vec![Message::text(Role::User, "Hello")];
    request.max_output_tokens = 256;
    request.tools = Vec::new();
    let refs = vec![(
        "api_key".to_owned(),
        SecretRef::parse("secret://workspace/openai/api-key")?,
    )];
    let t = temperature_text(0.2);
    let plan = build_transport_plan(&manifest, &refs, &request, Some(&t))?;
    assert_eq!(plan.adapter, AdapterKind::OpenaiCompatible);
    assert_eq!(plan.stream_protocol, StreamProtocol::OpenaiSse);
    assert!(plan.headers.iter().any(|header| matches!(
        &header.value,
        HeaderValue::SecretRef { reference, .. }
            if reference.as_str() == "secret://workspace/openai/api-key"
    )));

    let response = parse_response(
        AdapterKind::OpenaiCompatible,
        "{\"id\":\"response-1\",\"model\":\"smart\",\"choices\":[{\"message\":{\"content\":\"Hello\"},\"finish_reason\":\"stop\"}],\"usage\":{\"prompt_tokens\":1,\"completion_tokens\":1}}",
    )?;
    assert_eq!(response.finish_reason, FinishReason::Stop);
    assert!(matches!(&response.content[0], ContentPart::Text { text } if text == "Hello"));

    let stream = decode_stream_chunks(
        AdapterKind::OpenaiCompatible,
        &["data: {\"choices\":[{\"delta\":{\"content\":\"Hello\"},\"finish_reason\":\"stop\"}]}\n\ndata: [DONE]\n\n".to_owned()],
    )?;
    assert!(stream
        .iter()
        .any(|event| matches!(event, StreamEvent::TextDelta { text } if text == "Hello")));

    let templates = generate_templates(&TemplateContext {
        base_url: "http://127.0.0.1:6188/v1".to_owned(),
        model: "smart".to_owned(),
        stream: false,
        token_placeholder: "<API_ARRAY_TOKEN>".to_owned(),
    })?;
    assert_eq!(templates.len(), 8);
    Ok(())
}

#[test]
fn parses_openai_tool_calls_and_cached_tokens() -> Result<(), CoreError> {
    let response = parse_response(
        AdapterKind::OpenaiCompatible,
        "{\"choices\":[{\"message\":{\"tool_calls\":[{\"id\":\"c1\",\"function\":{\"name\":\"weather\",\"arguments\":\"{ \\\"city\\\" : \\\"Paris\\\" }\"}}]},\"finish_reason\":\"tool_calls\"}],\"usage\":{\"prompt_tokens_details\":{\"cached_tokens\":7}}}",
    )?;
    assert_eq!(
        response.content,
        vec![ContentPart::ToolCall {
            id: "c1".to_owned(),
            name: "weather".to_owned(),
            arguments: "{\"city\":\"Paris\"}".to_owned(),
        }]
    );
    assert_eq!(response.finish_reason, FinishReason::ToolCall);
    assert_eq!(response.usage.input_tokens, 0);
    assert_eq!(response.usage.cached_input_tokens, Some(7));
    assert_eq!(response.provider_response_id, None);
    Ok(())
}

#[test]
fn openai_response_errors() {
    let error = parse_response(AdapterKind::OpenaiCompatible, "{\"choices\":[]}")
        .expect_err("no message");
    assert_eq!(error.code, ErrorCode::ResponseInvalid);
    assert_eq!(error.message, "OpenAI 响应缺少 choices[0].message");
    let error = parse_response(
        AdapterKind::OpenaiCompatible,
        "{\"choices\":[{\"message\":{\"tool_calls\":[{\"id\":\"c1\",\"function\":{\"name\":\"f\",\"arguments\":\"not json\"}}]}}]}",
    )
    .expect_err("arguments that are not JSON");
    assert_eq!(error.code, ErrorCode::SerializationFailed);
    assert!(error.message.starts_with("JSON 序列化失败: "));
    let error = parse_response(
        AdapterKind::OpenaiCompatible,
        "{\"choices\":[{\"message\":{\"tool_calls\":[{\"function\":{\"name\":\"f\"}}]}}]}",
    )
    .expect_err("a call without id");
    assert_eq!(error.message, "响应缺少字符串字段 /id");
}

#[test]
fn parses_anthropic_blocks() -> Result<(), CoreError> {
    let response = parse_response(
        AdapterKind::AnthropicMessages,
        "{\"id\":\"msg\",\"model\":\"m\",\"content\":[{\"type\":\"text\",\"text\":\"Hi\"},{\"type\":\"thinking\"},{\"type\":\"tool_use\",\"id\":\"t1\",\"name\":\"weather\",\"input\":{\"city\":\"Paris\"}}],\"stop_reason\":\"tool_use\",\"usage\":{\"input_tokens\":5,\"output_tokens\":6,\"cache_read_input_tokens\":2}}",
    )?;
    assert_eq!(response.provider_response_id.as_deref(), Some("msg"));
    assert_eq!(response.content.len(), 2);
    assert_eq!(
        response.content[1],
        ContentPart::ToolCall {
            id: "t1".to_owned(),
            name: "weather".to_owned(),
            arguments: "{\"city\":\"Paris\"}".to_owned(),
        }
    );
    assert_eq!(response.finish_reason, FinishReason::ToolCall);
    assert_eq!(response.usage.output_tokens, 6);
    assert_eq!(response.usage.cached_input_tokens, Some(2));
    let error = parse_response(AdapterKind::AnthropicMessages, "{}").expect_err("no content");
    assert_eq!(error.message, "Anthropic 响应缺少 content");
    Ok(())
}

#[test]
fn parses_gemini_parts_and_names_calls_by_index() -> Result<(), CoreError> {
    let response = parse_response(
        AdapterKind::GoogleGemini,
        "{\"responseId\":\"g1\",\"modelVersion\":\"gem\",\"candidates\":[{\"content\":{\"parts\":[{\"text\":\"Hi\"},{\"functionCall\":{\"name\":\"weather\"}}]},\"finishReason\":\"MAX_TOKENS\"}],\"usageMetadata\":{\"promptTokenCount\":4,\"candidatesTokenCount\":9}}",
    )?;
    assert_eq!(response.model.as_deref(), Some("gem"));
    assert_eq!(
        response.content,
        vec![
            ContentPart::Text {
                text: "Hi".to_owned()
            },
            ContentPart::ToolCall {
                id: "gemini-call-1".to_owned(),
                name: "weather".to_owned(),
                arguments: "{}".to_owned(),
            },
        ]
    );
    assert_eq!(response.finish_reason, FinishReason::Length);
    assert_eq!(response.usage.input_tokens, 4);
    assert_eq!(response.usage.cached_input_tokens, None);
    let error = parse_response(AdapterKind::GoogleGemini, "{\"candidates\":[]}")
        .expect_err("no parts");
    assert_eq!(error.message, "Gemini 响应缺少 candidates[0].content.parts");
    Ok(())
}
