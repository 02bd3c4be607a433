use apiarray::adapter::AdapterKind;
use apiarray::canonical::{FinishReason, Usage};
use apiarray::stream::{decode_stream_chunks, parse_protocol_frame, SseFrame, StreamEvent};
use apiarray::{CoreError, ErrorCode};

#[test]
fn decodes_openai_text_and_done() -> Result<(), CoreError> {
    let events = decode_stream_chunks(
        AdapterKind::OpenaiCompatible,
        &[format!(
            "data: {}\n\ndata: [DONE]\n\n",
            "{\"id\":\"r1\",\"model\":\"m1\",\"choices\":[{\"delta\":{\"content\":\"Hi\"},\"finish_reason\":null}]}"
        )],
    )?;
    assert!(events
        .iter()
        .any(|event| matches!(event, StreamEvent::TextDelta { text } if text == "Hi")));
    assert!(events
        .iter()
        .any(|event| matches!(event, StreamEvent::Finished { .. })));
    Ok(())
}

#[test]
fn decodes_anthropic_delta() -> Result<(), CoreError> {
    let events = decode_stream_chunks(
        AdapterKind::AnthropicMessages,
        &["event: content_block_delta\ndata: {\"type\":\"content_block_delta\",\"delta\":{\"type\":\"text_delta\",\"text\":\"Hi\"}}\n\n".to_owned()],
    )?;
    assert_eq!(
        events,
        vec![StreamEvent::TextDelta {
            text: "Hi".to_owned()
        }]
    );
    Ok(())
}

#[test]
fn openai_chunk_yields_events_in_order() -> Result<(), CoreError> {
    let events = decode_stream_chunks(
        AdapterKind::OpenaiCompatible,
        &[
            "data: {\"id\":\"r1\",\"model\":\"m1\",\"choices\":[{\"delta\":{\"tool_calls\":[".to_owned(),
            "{\"index\":2,\"id\":\"c1\",\"function\":{\"name\":\"f\",\"arguments\":\"{}\"}}]},\"finish_reason\":\"tool_calls\"}],".to_owned(),
            "\"usage\":{\"prompt_tokens\":3,\"completion_tokens\":4,\"prompt_tokens_details\":{\"cached_tokens\":1}}}\n\n".to_owned(),
        ],
    )?;
    assert_eq!(
        events,
        vec![
            StreamEvent::Started {
                response_id: Some("r1".to_owned()),
                model: Some("m1".to_owned())
            },
            StreamEvent::ToolCallDelta {
                index: 2,
                id: Some("c1".to_owned()),
                name: Some("f".to_owned()),
                arguments_delta: "{}".to_owned()
            },
            StreamEvent::Usage {
                usage: Usage {
                    input_tokens: 3,
                    output_tokens: 4,
                    cached_input_tokens: Some(1)
                }
            },
            StreamEvent::Finished {
                reason: FinishReason::ToolCall
            },
        ]
    );
    Ok(())
}

#[test]
fn anthropic_message_lifecycle() -> Result<(), CoreError> {
    let events = decode_stream_chunks(
        AdapterKind::AnthropicMessages,
        &["event: message_start\ndata: {\"message\":{\"id\":\"m\",\"model\":\"opus-4\",\"usage\":{\"input_tokens\":7}}}\n\nevent: content_block_start\ndata: {\"index\":1,\"content_block\":{\"type\":\"tool_use\",\"id\":\"t1\",\"name\":\"lookup\"}}\n\nevent: message_delta\ndata: {\"usage\":{\"output_tokens\":5},\"delta\":{\"stop_reason\":\"end_turn\"}}\n\nevent: message_stop\ndata: {}".to_owned()],
    )?;
    assert_eq!(
        events,
        vec![
            StreamEvent::Started {
                response_id: Some("m".to_owned()),
                model: Some("opus-4".to_owned())
            },
            StreamEvent::Usage {
                usage: Usage {
                    input_tokens: 7,
                    output_tokens: 0,
                    cached_input_tokens: None
                }
            },
            StreamEvent::ToolCallDelta {
                index: 1,
                id: Some("t1".to_owned()),
                name: Some("lookup".to_owned()),
                arguments_delta: String::new()
            },
            StreamEvent::Usage {
                usage: Usage {
                    input_tokens: 0,
                    output_tokens: 5,
                    cached_input_tokens: None
                }
            },
            StreamEvent::Finished {
                reason: FinishReason::Stop
            },
            StreamEvent::Finished {
                reason: FinishReason::Stop
            },
        ]
    );
    Ok(())
}

#[test]
fn anthropic_error_frame_is_a_stream_error() {
    let frame = SseFrame {
        event: Some("error".to_owned()),
        data: "{\"error\":{\"message\":\"overloaded\"}}".to_owned(),
        id: None,
    };
    match parse_protocol_frame(AdapterKind::AnthropicMessages, &frame) {
        Err(error) => {
            assert_eq!(error.code, ErrorCode::StreamInvalid);
            assert_eq!(error.message, "overloaded");
        }
        Ok(_) => panic!("error frame must fail"),
    }
}

#[test]
fn gemini_parts_give_text_and_calls() -> Result<(), CoreError> {
    let events = decode_stream_chunks(
        AdapterKind::GoogleGemini,
        &["data: {\"responseId\":\"g\",\"candidates\":[{\"content\":{\"parts\":[{\"text\":\"a\"},{\"functionCall\":{\"name\":\"f\",\"args\":{\"x\":1}}}]},\"finishReason\":\"SAFETY\"}],\"usageMetadata\":{\"promptTokenCount\":2,\"candidatesTokenCount\":3}}".to_owned()],
    )?;
    assert_eq!(
        events,
        vec![
            StreamEvent::Started {
                response_id: Some("g".to_owned()),
                model: None
            },
            StreamEvent::TextDelta {
                text: "a".to_owned()
            },
            StreamEvent::ToolCallDelta {
                index: 1,
                id: None,
                name: Some("f".to_owned()),
                arguments_delta: "{\"x\":1}".to_owned()
            },
            StreamEvent::Usage {
                usage: Usage {
                    input_tokens: 2,
                    output_tokens: 3,
                    cached_input_tokens: None
                }
            },
            StreamEvent::Finished {
                reason: FinishReason::ContentFilter
            },
        ]
    );
    Ok(())
}

#[test]
fn invalid_json_and_blank_frames() {
    let blank = SseFrame { event: None, data: "  ".to_owned(), id: None };
    assert_eq!(parse_protocol_frame(AdapterKind::OpenaiCompatible, &blank), Ok(Vec::new()));
    let bad = SseFrame { event: None, data: "{oops".to_owned(), id: None };
    match parse_protocol_frame(AdapterKind::OpenaiCompatible, &bad) {
        Err(error) => {
            assert_eq!(error.code, ErrorCode::StreamInvalid);
            assert!(error.message.starts_with("SSE Data 不是有效 JSON: "));
            assert!(error.message.len() > "SSE Data 不是有效 JSON: ".len());
        }
        Ok(_) => panic!("invalid JSON must fail"),
    }
}

#[test]
fn json_that_is_not_an_object_is_a_stream_error() {
    for adapter in [AdapterKind::OpenaiCompatible, AdapterKind::GoogleGemini, AdapterKind::AnthropicMessages] {
        for text in ["data: 42\n\n", "data: [1,2]\n\n", "data: \"x\"\n\n"] {
            let error = decode_stream_chunks(adapter, &[text.to_owned()]).expect_err(text);
            assert_eq!(error.code, ErrorCode::StreamInvalid);
        }
        let error = decode_stream_chunks(adapter, &["data: {oops\n\n".to_owned()]).expect_err("bad json");
        assert_eq!(error.code, ErrorCode::StreamInvalid);
    }
}
