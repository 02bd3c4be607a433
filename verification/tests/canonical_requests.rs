use apiarray::canonical::{
    CanonicalRequest, ContentPart, Message, ResponseFormat, Role, ToolChoice, ToolDefinition,
};
use apiarray::{CoreError, ErrorCode};

fn request(messages: Vec<Message>, temperature: Option<f32>) -> CanonicalRequest {
    CanonicalRequest {
        schema_version: 1,
        model: "smart".to_owned(),
        messages,
        max_output_tokens: 128,
        temperature: temperature.map(f32::to_bits),
        stream: false,
        tools: Vec::new(),
        tool_choice: ToolChoice::Auto,
        response_format: ResponseFormat::Text,
        metadata: Vec::new(),
    }
}

#[test]
fn validates_minimal_request() -> Result<(), CoreError> {
    request(vec![Message::text(Role::User, "hello")], Some(0.2)).validate()
}

#[test]
fn rejects_tool_message_without_call_id() {
    let mut request = request(vec![Message::text(Role::Tool, "result")], None);
    assert!(request.validate().is_err());
    request.messages[0].tool_call_id = Some("call-1".to_owned());
    assert!(request.validate().is_ok());
}

#[test]
fn message_text_has_one_text_part() {
    let message = Message::text(Role::Assistant, "hi");
    assert_eq!(message.content, vec![ContentPart::Text { text: "hi".to_owned() }]);
    assert!(message.name.is_none());
}

#[test]
fn request_validation_reports_every_issue() {
    let mut bad = request(Vec::new(), Some(2.5));
    bad.schema_version = 2;
    bad.model = " ".to_owned();
    bad.max_output_tokens = 0;
    bad.tools = vec![ToolDefinition {
        name: "lookup".to_owned(),
        description: "finds".to_owned(),
        input_schema: "[1]".to_owned(),
    }];
    let error = bad.validate().expect_err("invalid");
    assert_eq!(error.code, ErrorCode::RequestInvalid);
    let found: Vec<(&str, &str)> = error
        .issues
        .iter()
        .map(|issue| (issue.path.as_str(), issue.code.as_str()))
        .collect();
    assert_eq!(
        found,
        vec![
            ("schema_version", "UNSUPPORTED_SCHEMA"),
            ("model", "REQUIRED"),
            ("messages", "REQUIRED"),
            ("max_output_tokens", "OUT_OF_RANGE"),
            ("temperature", "OUT_OF_RANGE"),
            ("tools[0]", "INVALID_TOOL"),
        ]
    );
    let mut edge = request(vec![Message::text(Role::User, "x")], Some(2.0));
    assert!(edge.validate().is_ok());
    edge.temperature = Some((-0.0f32).to_bits());
    assert!(edge.validate().is_ok());
    edge.temperature = Some(f32::NAN.to_bits());
    assert!(edge.validate().is_err());
    edge.tools = vec![ToolDefinition {
        name: "lookup".to_owned(),
        description: String::new(),
        input_schema: "{\"type\":\"object\"}".to_owned(),
    }];
    edge.temperature = None;
    assert!(edge.validate().is_ok());
}
