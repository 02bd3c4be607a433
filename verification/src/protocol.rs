//! Provider stream protocols: turns decoded SSE frames of the OpenAI,
//! Anthropic and Gemini streaming formats into provider-neutral events.
use crate::adapter::{finish_reason_of, map_finish_reason, AdapterKind};
use crate::canonical::{FinishReason, Usage};
use crate::error::{CoreError, ErrorCode};
use crate::json::{
    json_array_len_at, json_error_message, json_has, json_is_object_at, json_is_valid, json_render_at, json_str_at,
    json_u64_at,
};
use crate::stream::{chunked_frames, data_views, decode_sse_chunks, opt_view, FrameView, SseFrame};
use crate::text::{self, decimal, is_blank, trim};
use crate::json;
use vstd::prelude::*;

verus! {

/// A provider-neutral streaming event.
#[derive(Debug, Clone, PartialEq, Eq)]
pub enum StreamEvent {
    Started { response_id: Option<String>, model: Option<String> },
    TextDelta { text: String },
    ToolCallDelta {
        index: usize,
        id: Option<String>,
        name: Option<String>,
        arguments_delta: String,
    },
    Usage { usage: Usage },
    Finished { reason: FinishReason },
}

/// The mathematical content of a [`StreamEvent`].
pub enum EventView {
    Started { response_id: Option<Seq<char>>, model: Option<Seq<char>> },
    TextDelta { text: Seq<char> },
    ToolCallDelta {
        index: usize,
        id: Option<Seq<char>>,
        name: Option<Seq<char>>,
        arguments_delta: Seq<char>,
    },
    Usage { usage: Usage },
    Finished { reason: FinishReason },
}

impl View for StreamEvent {
    type V = EventView;

    open spec fn view(&self) -> EventView {
        match self {
            StreamEvent::Started { response_id, model } => EventView::Started {
                response_id: opt_view(*response_id),
                model: opt_view(*model),
            },
            StreamEvent::TextDelta { text } => EventView::TextDelta { text: text@ },
            StreamEvent::ToolCallDelta { index, id, name, arguments_delta } => EventView::ToolCallDelta {
                index: *index,
                id: opt_view(*id),
                name: opt_view(*name),
                arguments_delta: arguments_delta@,
            },
            StreamEvent::Usage { usage } => EventView::Usage { usage: *usage },
            StreamEvent::Finished { reason } => EventView::Finished { reason: *reason },
        }
    }
}

pub open spec fn event_views(v: Seq<StreamEvent>) -> Seq<EventView> {
    v.map_values(|e: StreamEvent| e@)
}

/// The string at a pointer, or the empty string.
pub open spec fn str_or_empty(t: Seq<char>, p: Seq<char>) -> Seq<char> {
    match json_str_at(t, p) {
        Some(s) => s,
        None => seq![],
    }
}

/// The unsigned integer at a pointer, or zero.
pub open spec fn u64_or_zero(t: Seq<char>, p: Seq<char>) -> u64 {
    match json_u64_at(t, p) {
        Some(n) => n,
        None => 0,
    }
}

/// The unsigned integer at the pointer `p` when it fits in `usize`; zero
/// otherwise.
pub open spec fn index_at(t: Seq<char>, p: Seq<char>) -> usize {
    match json_u64_at(t, p) {
        Some(n) => if n <= usize::MAX {
            n as usize
        } else {
            0
        },
        None => 0,
    }
}

/// `prefix` followed by the decimal index.
pub open spec fn indexed_pointer(prefix: Seq<char>, i: int) -> Seq<char> {
    prefix + decimal(i as nat)
}

pub open spec fn finished_on(t: Seq<char>, p: Seq<char>) -> Seq<EventView> {
    match json_str_at(t, p) {
        Some(r) => seq![EventView::Finished { reason: finish_reason_of(Some(r), false) }],
        None => seq![],
    }
}

pub open spec fn openai_tool_call(t: Seq<char>, i: int) -> EventView {
    let p = indexed_pointer("/choices/0/delta/tool_calls/"@, i);
    EventView::ToolCallDelta {
        index: index_at(t, p + "/index"@),
        id: json_str_at(t, p + "/id"@),
        name: json_str_at(t, p + "/function/name"@),
        arguments_delta: str_or_empty(t, p + "/function/arguments"@),
    }
}

/// The events of one OpenAI chat-completions chunk, in order: start, text,
/// tool-call deltas, usage, finish.
pub open spec fn openai_events(t: Seq<char>) -> Seq<EventView> {
    (if json_has(t, "/id"@) || json_has(t, "/model"@) {
        seq![EventView::Started { response_id: json_str_at(t, "/id"@), model: json_str_at(t, "/model"@) }]
    } else {
        seq![]
    }) + (match json_str_at(t, "/choices/0/delta/content"@) {
        Some(x) => seq![EventView::TextDelta { text: x }],
        None => seq![],
    }) + (match json_array_len_at(t, "/choices/0/delta/tool_calls"@) {
        Some(n) => Seq::new(n as nat, |i: int| openai_tool_call(t, i)),
        None => seq![],
    }) + (if json_has(t, "/usage"@) {
        seq![EventView::Usage { usage: Usage {
            input_tokens: u64_or_zero(t, "/usage/prompt_tokens"@),
            output_tokens: u64_or_zero(t, "/usage/completion_tokens"@),
            cached_input_tokens: json_u64_at(t, "/usage/prompt_tokens_details/cached_tokens"@),
        } }]
    } else {
        seq![]
    }) + finished_on(t, "/choices/0/finish_reason"@)
}

/// The Anthropic event type: the SSE `event` field, else the `type` member.
pub open spec fn anthropic_type(f: FrameView, t: Seq<char>) -> Seq<char> {
    match f.event {
        Some(e) => e,
        None => str_or_empty(t, "/type"@),
    }
}

/// The events of one Anthropic messages frame, or the message of an `error` frame.
pub open spec fn anthropic_events(f: FrameView, t: Seq<char>) -> Result<Seq<EventView>, Seq<char>> {
    let ty = anthropic_type(f, t);
    if ty == "message_start"@ {
        Ok(seq![
            EventView::Started {
                response_id: json_str_at(t, "/message/id"@),
                model: json_str_at(t, "/message/model"@),
            },
            EventView::Usage { usage: Usage {
                input_tokens: u64_or_zero(t, "/message/usage/input_tokens"@),
                output_tokens: 0,
                cached_input_tokens: json_u64_at(t, "/message/usage/cache_read_input_tokens"@),
            } },
        ])
    } else if ty == "content_block_delta"@ {
        let dt = json_str_at(t, "/delta/type"@);
        if dt == Some("text_delta"@) {
            Ok(seq![EventView::TextDelta { text: str_or_empty(t, "/delta/text"@) }])
        } else if dt == Some("input_json_delta"@) {
            Ok(seq![EventView::ToolCallDelta {
                index: index_at(t, "/index"@),
                id: None,
                name: None,
                arguments_delta: str_or_empty(t, "/delta/partial_json"@),
            }])
        } else {
            Ok(seq![])
        }
    } else if ty == "content_block_start"@ && json_str_at(t, "/content_block/type"@) == Some(
        "tool_use"@,
    ) {
        Ok(seq![EventView::ToolCallDelta {
            index: index_at(t, "/index"@),
            id: json_str_at(t, "/content_block/id"@),
            name: json_str_at(t, "/content_block/name"@),
            arguments_delta: seq![],
        }])
    } else if ty == "message_delta"@ {
        Ok((if json_has(t, "/usage"@) {
            seq![EventView::Usage { usage: Usage {
                input_tokens: 0,
                output_tokens: u64_or_zero(t, "/usage/output_tokens"@),
                cached_input_tokens: None,
            } }]
        } else {
            seq![]
        }) + finished_on(t, "/delta/stop_reason"@))
    } else if ty == "message_stop"@ {
        Ok(seq![EventView::Finished { reason: FinishReason::Stop }])
    } else if ty == "error"@ {
        Err(match json_str_at(t, "/error/message"@) {
            Some(m) => m,
            None => "Anthropic 流返回错误"@,
        })
    } else {
        Ok(seq![])
    }
}

/// The events of the `i`-th content part of a Gemini chunk: its text, then
/// its function call.
pub open spec fn gemini_part(t: Seq<char>, i: int) -> Seq<EventView> {
    let p = indexed_pointer("/candidates/0/content/parts/"@, i);
    (match json_str_at(t, p + "/text"@) {
        Some(x) => seq![EventView::TextDelta { text: x }],
        None => seq![],
    }) + (if json_has(t, p + "/functionCall"@) {
        seq![EventView::ToolCallDelta {
            index: i as usize,
            id: None,
            name: json_str_at(t, p + "/functionCall/name"@),
            arguments_delta: match json_render_at(t, p + "/functionCall/args"@) {
                Some(a) => a,
                None => seq![],
            },
        }]
    } else {
        seq![]
    })
}

pub open spec fn gemini_parts(t: Seq<char>, n: int) -> Seq<EventView>
    decreases n,
{
    if n <= 0 {
        seq![]
    } else {
        gemini_parts(t, n - 1) + gemini_part(t, n - 1)
    }
}

/// The events of one Gemini `streamGenerateContent` chunk.
pub open spec fn gemini_events(t: Seq<char>) -> Seq<EventView> {
    (if json_has(t, "/responseId"@) || json_has(t, "/modelVersion"@) {
        seq![EventView::Started {
            response_id: json_str_at(t, "/responseId"@),
            model: json_str_at(t, "/modelVersion"@),
        }]
    } else {
        seq![]
    }) + (match json_array_len_at(t, "/candidates/0/content/parts"@) {
        Some(n) => gemini_parts(t, n as int),
        None => seq![],
    }) + (if json_has(t, "/usageMetadata"@) {
        seq![EventView::Usage { usage: Usage {
            input_tokens: u64_or_zero(t, "/usageMetadata/promptTokenCount"@),
            output_tokens: u64_or_zero(t, "/usageMetadata/candidatesTokenCount"@),
            cached_input_tokens: json_u64_at(t, "/usageMetadata/cachedContentTokenCount"@),
        } }]
    } else {
        seq![]
    }) + finished_on(t, "/candidates/0/finishReason"@)
}

pub open spec fn invalid_json_message(data: Seq<char>) -> Seq<char> {
    "SSE Data 不是有效 JSON: "@ + json_error_message(data)
}

/// The events of one decoded frame under an adapter's protocol, or the
/// message of the stream error it raises.
pub open spec fn frame_events(adapter: AdapterKind, f: FrameView) -> Result<Seq<EventView>, Seq<char>> {
    if is_blank(f.data) {
        Ok(seq![])
    } else if trim(f.data) == "[DONE]"@ {
        Ok(seq![EventView::Finished { reason: FinishReason::Stop }])
    } else if !json_is_valid(f.data) {
        Err(invalid_json_message(f.data))
    } else if !json_is_object_at(f.data, ""@) {
        Err("SSE Data 结构不符合 Adapter 协议: 应为 JSON 对象"@)
    } else {
        match adapter {
            AdapterKind::OpenaiCompatible => Ok(openai_events(f.data)),
            AdapterKind::AnthropicMessages => anthropic_events(f, f.data),
            AdapterKind::GoogleGemini => Ok(gemini_events(f.data)),
        }
    }
}

/// The events of the first `n` frames, stopping at the first error.
pub open spec fn frames_events(adapter: AdapterKind, fs: Seq<FrameView>, n: int) -> Result<Seq<EventView>, Seq<char>>
    decreases n,
{
    if n <= 0 {
        Ok(seq![])
    } else {
        match frames_events(adapter, fs, n - 1) {
            Err(m) => Err(m),
            Ok(prev) => match frame_events(adapter, fs[n - 1]) {
                Err(m) => Err(m),
                Ok(e) => Ok(prev + e),
            },
        }
    }
}

/// Whether an exec result matches a spec result, with the error carried as a
/// stream error.
pub open spec fn stream_result_matches(r: Result<Vec<StreamEvent>, CoreError>, s: Result<Seq<EventView>, Seq<char>>) -> bool {
    match (r, s) {
        (Ok(v), Ok(e)) => event_views(v@) == e,
        (Err(err), Err(m)) => err.code == ErrorCode::StreamInvalid && err.message@ == m
            && err.issues@.len() == 0,
        _ => false,
    }
}

fn pointer_at(prefix: &str, i: usize) -> (r: String)
    ensures
        r@ == indexed_pointer(prefix@, i as int),
{
    let mut r = text::owned(prefix);
    let d = text::decimal_string(i as u64);
    text::push_str(&mut r, d.as_str());
    r
}

fn join2(a: &str, b: &str) -> (r: String)
    ensures
        r@ == a@ + b@,
{
    let mut r = text::owned(a);
    text::push_str(&mut r, b);
    r
}

fn str_or_empty_exec(t: &str, p: &str) -> (r: String)
    ensures
        r@ == str_or_empty(t@, p@),
{
    match json::json_str(t, p) {
        Some(s) => s,
        None => String::new(),
    }
}

fn u64_or_zero_exec(t: &str, p: &str) -> (r: u64)
    ensures
        r == u64_or_zero(t@, p@),
{
    match json::json_u64(t, p) {
        Some(n) => n,
        None => 0,
    }
}

fn index_exec(t: &str, p: &str) -> (r: usize)
    ensures
        r == index_at(t@, p@),
{
    match json::json_u64(t, p) {
        Some(n) => if n <= usize::MAX as u64 {
            n as usize
        } else {
            0
        },
        None => 0,
    }
}

fn push_event(events: &mut Vec<StreamEvent>, e: StreamEvent)
    ensures
        event_views(final(events)@) == event_views(old(events)@).push(e@),
{
    events.push(e);
    assert(event_views(final(events)@) =~= event_views(old(events)@).push(e@));
}

fn push_finished_on(events: &mut Vec<StreamEvent>, t: &str, p: &str)
    ensures
        event_views(final(events)@) == event_views(old(events)@) + finished_on(t@, p@),
{
    match json::json_str(t, p) {
        Some(r) => {
            let reason = map_finish_reason(Some(r.as_str()));
            push_event(events, StreamEvent::Finished { reason });
        },
        None => {
            assert(event_views(old(events)@) + seq![] =~= event_views(old(events)@));
        },
    }
}

fn parse_openai_chunk(t: &str) -> (r: Vec<StreamEvent>)
    ensures
        event_views(r@) == openai_events(t@),
{
    let mut events: Vec<StreamEvent> = Vec::new();
    let ghost s0 = if json_has(t@, "/id"@) || json_has(t@, "/model"@) {
        seq![EventView::Started { response_id: json_str_at(t@, "/id"@), model: json_str_at(t@, "/model"@) }]
    } else {
        seq![]
    };
    if json::json_has_at(t, "/id") || json::json_has_at(t, "/model") {
        let response_id = json::json_str(t, "/id");
        let model = json::json_str(t, "/model");
        push_event(&mut events, StreamEvent::Started { response_id, model });
    }
    assert(event_views(events@) =~= s0);
    let ghost s1 = match json_str_at(t@, "/choices/0/delta/content"@) {
        Some(x) => seq![EventView::TextDelta { text: x }],
        None => seq![],
    };
    match json::json_str(t, "/choices/0/delta/content") {
        Some(text) => push_event(&mut events, StreamEvent::TextDelta { text }),
        None => {},
    }
    assert(event_views(events@) =~= s0 + s1);
    let ghost s2 = match json_array_len_at(t@, "/choices/0/delta/tool_calls"@) {
        Some(n) => Seq::new(n as nat, |i: int| openai_tool_call(t@, i)),
        None => seq![],
    };
    match json::json_array_len(t, "/choices/0/delta/tool_calls") {
        Some(n) => {
            let mut i: usize = 0;
            while i < n
                invariant
                    i <= n,
                    json_array_len_at(t@, "/choices/0/delta/tool_calls"@) == Some(n),
                    event_views(events@) == s0 + s1 + Seq::new(i as nat, |k: int| openai_tool_call(t@, k)),
                decreases n - i,
            {
                let p = pointer_at("/choices/0/delta/tool_calls/", i);
                let q_index = join2(p.as_str(), "/index");
                let index = index_exec(t, q_index.as_str());
                let q_id = join2(p.as_str(), "/id");
                let q_name = join2(p.as_str(), "/function/name");
                let q_args = join2(p.as_str(), "/function/arguments");
                let id = json::json_str(t, q_id.as_str());
                let name = json::json_str(t, q_name.as_str());
                let arguments_delta = str_or_empty_exec(t, q_args.as_str());
                let ghost before = event_views(events@);
                let ev = StreamEvent::ToolCallDelta { index, id, name, arguments_delta };
                assert(opt_view(id) == json_str_at(t@, q_id@));
                assert(opt_view(name) == json_str_at(t@, q_name@));
                assert(ev@ == openai_tool_call(t@, i as int));
                push_event(&mut events, ev);
                assert(Seq::new((i + 1) as nat, |k: int| openai_tool_call(t@, k)) =~= Seq::new(
                    i as nat,
                    |k: int| openai_tool_call(t@, k),
                ).push(openai_tool_call(t@, i as int)));
                assert(event_views(events@) =~= s0 + s1 + Seq::new((i + 1) as nat, |k: int| openai_tool_call(t@, k)));
                i = i + 1;
            }
        },
        None => {},
    }
    assert(event_views(events@) =~= s0 + s1 + s2);
    let ghost s3 = if json_has(t@, "/usage"@) {
        seq![EventView::Usage { usage: Usage {
            input_tokens: u64_or_zero(t@, "/usage/prompt_tokens"@),
            output_tokens: u64_or_zero(t@, "/usage/completion_tokens"@),
            cached_input_tokens: json_u64_at(t@, "/usage/prompt_tokens_details/cached_tokens"@),
        } }]
    } else {
        seq![]
    };
    if json::json_has_at(t, "/usage") {
        let usage = Usage {
            input_tokens: u64_or_zero_exec(t, "/usage/prompt_tokens"),
            output_tokens: u64_or_zero_exec(t, "/usage/completion_tokens"),
            cached_input_tokens: json::json_u64(t, "/usage/prompt_tokens_details/cached_tokens"),
        };
        push_event(&mut events, StreamEvent::Usage { usage });
    }
    assert(event_views(events@) =~= s0 + s1 + s2 + s3);
    push_finished_on(&mut events, t, "/choices/0/finish_reason");
    events
}

fn parse_anthropic_event(frame: &SseFrame) -> (r: Result<Vec<StreamEvent>, CoreError>)
    ensures
        stream_result_matches(r, anthropic_events(frame@, frame.data@)),
{
    let t = frame.data.as_str();
    let ty: String = match &frame.event {
        Some(e) => e.clone(),
        None => str_or_empty_exec(t, "/type"),
    };
    let ty = ty.as_str();
    let mut events: Vec<StreamEvent> = Vec::new();
    if text::str_eq(ty, "message_start") {
        let response_id = json::json_str(t, "/message/id");
        let model = json::json_str(t, "/message/model");
        push_event(&mut events, StreamEvent::Started { response_id, model });
        let usage = Usage {
            input_tokens: u64_or_zero_exec(t, "/message/usage/input_tokens"),
            output_tokens: 0,
            cached_input_tokens: json::json_u64(t, "/message/usage/cache_read_input_tokens"),
        };
        push_event(&mut events, StreamEvent::Usage { usage });
        assert(event_views(events@) =~= anthropic_events(frame@, frame.data@)->Ok_0);
        Ok(events)
    } else if text::str_eq(ty, "content_block_delta") {
        match json::json_str(t, "/delta/type") {
            Some(dt) => {
                if text::str_eq(dt.as_str(), "text_delta") {
                    let text = str_or_empty_exec(t, "/delta/text");
                    push_event(&mut events, StreamEvent::TextDelta { text });
                } else if text::str_eq(dt.as_str(), "input_json_delta") {
                    let index = index_exec(t, "/index");
                    let arguments_delta = str_or_empty_exec(t, "/delta/partial_json");
                    push_event(
                        &mut events,
                        StreamEvent::ToolCallDelta { index, id: None, name: None, arguments_delta },
                    );
                }
            },
            None => {},
        }
        assert(event_views(events@) =~= anthropic_events(frame@, frame.data@)->Ok_0);
        Ok(events)
    } else if text::str_eq(ty, "content_block_start") && match json::json_str(t, "/content_block/type") {
        Some(ct) => text::str_eq(ct.as_str(), "tool_use"),
        None => false,
    } {
        let index = index_exec(t, "/index");
        let id = json::json_str(t, "/content_block/id");
        let name = json::json_str(t, "/content_block/name");
        push_event(
            &mut events,
            StreamEvent::ToolCallDelta { index, id, name, arguments_delta: String::new() },
        );
        assert(event_views(events@) =~= anthropic_events(frame@, frame.data@)->Ok_0);
        Ok(events)
    } else if text::str_eq(ty, "message_delta") {
        if json::json_has_at(t, "/usage") {
            let usage = Usage {
                input_tokens: 0,
                output_tokens: u64_or_zero_exec(t, "/usage/output_tokens"),
                cached_input_tokens: None,
            };
            push_event(&mut events, StreamEvent::Usage { usage });
        }
        let ghost mid = event_views(events@);
        push_finished_on(&mut events, t, "/delta/stop_reason");
        assert(event_views(events@) =~= anthropic_events(frame@, frame.data@)->Ok_0);
        Ok(events)
    } else if text::str_eq(ty, "message_stop") {
        push_event(&mut events, StreamEvent::Finished { reason: FinishReason::Stop });
        assert(event_views(events@) =~= anthropic_events(frame@, frame.data@)->Ok_0);
        Ok(events)
    } else if text::str_eq(ty, "error") {
        let message = match json::json_str(t, "/error/message") {
            Some(m) => m,
            None => "Anthropic 流返回错误".to_owned(),
        };
        Err(CoreError::new(ErrorCode::StreamInvalid, message.as_str()))
    } else {
        assert(event_views(events@) =~= seq![]);
        Ok(events)
    }
}

fn parse_gemini_chunk(t: &str) -> (r: Vec<StreamEvent>)
    ensures
        event_views(r@) == gemini_events(t@),
{
    let mut events: Vec<StreamEvent> = Vec::new();
    let ghost s0 = if json_has(t@, "/responseId"@) || json_has(t@, "/modelVersion"@) {
        seq![EventView::Started {
            response_id: json_str_at(t@, "/responseId"@),
            model: json_str_at(t@, "/modelVersion"@),
        }]
    } else {
        seq![]
    };
    if json::json_has_at(t, "/responseId") || json::json_has_at(t, "/modelVersion") {
        let response_id = json::json_str(t, "/responseId");
        let model = json::json_str(t, "/modelVersion");
        push_event(&mut events, StreamEvent::Started { response_id, model });
    }
    assert(event_views(events@) =~= s0);
    let ghost s1 = match json_array_len_at(t@, "/candidates/0/content/parts"@) {
        Some(n) => gemini_parts(t@, n as int),
        None => seq![],
    };
    match json::json_array_len(t, "/candidates/0/content/parts") {
        Some(n) => {
            let mut i: usize = 0;
            assert(event_views(events@) =~= s0 + gemini_parts(t@, 0));
            while i < n
                invariant
                    i <= n,
                    event_views(events@) == s0 + gemini_parts(t@, i as int),
                decreases n - i,
            {
                let p = pointer_at("/candidates/0/content/parts/", i);
                let ghost before = event_views(events@);
                let q_text = join2(p.as_str(), "/text");
                match json::json_str(t, q_text.as_str()) {
                    Some(text) => push_event(&mut events, StreamEvent::TextDelta { text }),
                    None => {},
                }
                let q_call = join2(p.as_str(), "/functionCall");
                if json::json_has_at(t, q_call.as_str()) {
                    let q_name = join2(p.as_str(), "/functionCall/name");
                    let q_args = join2(p.as_str(), "/functionCall/args");
                    let name = json::json_str(t, q_name.as_str());
                    let arguments_delta = match json::json_render(t, q_args.as_str()) {
                        Some(a) => a,
                        None => String::new(),
                    };
                    push_event(
                        &mut events,
                        StreamEvent::ToolCallDelta { index: i, id: None, name, arguments_delta },
                    );
                }
                assert(event_views(events@) =~= before + gemini_part(t@, i as int));
                assert(event_views(events@) =~= s0 + gemini_parts(t@, i + 1));
                i = i + 1;
            }
        },
        None => {},
    }
    assert(event_views(events@) =~= s0 + s1);
    let ghost s2 = if json_has(t@, "/usageMetadata"@) {
        seq![EventView::Usage { usage: Usage {
            input_tokens: u64_or_zero(t@, "/usageMetadata/promptTokenCount"@),
            output_tokens: u64_or_zero(t@, "/usageMetadata/candidatesTokenCount"@),
            cached_input_tokens: json_u64_at(t@, "/usageMetadata/cachedContentTokenCount"@),
        } }]
    } else {
        seq![]
    };
    if json::json_has_at(t, "/usageMetadata") {
        let usage = Usage {
            input_tokens: u64_or_zero_exec(t, "/usageMetadata/promptTokenCount"),
            output_tokens: u64_or_zero_exec(t, "/usageMetadata/candidatesTokenCount"),
            cached_input_tokens: json::json_u64(t, "/usageMetadata/cachedContentTokenCount"),
        };
        push_event(&mut events, StreamEvent::Usage { usage });
    }
    assert(event_views(events@) =~= s0 + s1 + s2);
    push_finished_on(&mut events, t, "/candidates/0/finishReason");
    events
}

/// Turns one decoded SSE frame into provider-neutral events. A blank frame
/// gives none, `[DONE]` gives a finish; other data must be a JSON object in
/// the adapter's stream format, else the result is a stream error.
pub fn parse_protocol_frame(adapter: AdapterKind, frame: &SseFrame) -> (r: Result<Vec<StreamEvent>, CoreError>)
    ensures
        stream_result_matches(r, frame_events(adapter, frame@)),
{
    let data = frame.data.as_str();
    if text::is_blank_str(data) {
        let v: Vec<StreamEvent> = Vec::new();
        assert(event_views(v@) =~= seq![]);
        return Ok(v);
    }
    let trimmed = text::trim_str(data);
    if text::str_eq(trimmed.as_str(), "[DONE]") {
        let mut v: Vec<StreamEvent> = Vec::new();
        push_event(&mut v, StreamEvent::Finished { reason: FinishReason::Stop });
        assert(event_views(v@) =~= seq![EventView::Finished { reason: FinishReason::Stop }]);
        return Ok(v);
    }
    match json::json_check(data) {
        Err(error) => {
            let mut message = text::owned("SSE Data 不是有效 JSON: ");
            text::push_str(&mut message, error.as_str());
            Err(CoreError::new(ErrorCode::StreamInvalid, message.as_str()))
        },
        Ok(()) => if !json::json_is_object(data, "") {
            Err(CoreError::new(ErrorCode::StreamInvalid, "SSE Data 结构不符合 Adapter 协议: 应为 JSON 对象"))
        } else {
            match adapter {
            AdapterKind::OpenaiCompatible => Ok(parse_openai_chunk(data)),
            AdapterKind::AnthropicMessages => parse_anthropic_event(frame),
            AdapterKind::GoogleGemini => Ok(parse_gemini_chunk(data)),
            }
        },
    }
}

/// Decodes SSE text cut at arbitrary positions into provider-neutral events
/// under an adapter's stream protocol. The first frame that is not valid
/// for the protocol ends decoding with a stream error.
pub fn decode_stream_chunks(adapter: AdapterKind, chunks: &[String]) -> (r: Result<Vec<StreamEvent>, CoreError>)
    ensures
        stream_result_matches(
            r,
            frames_events(adapter, chunked_frames(data_views(chunks@)), chunked_frames(data_views(chunks@)).len() as int),
        ),
{
    let frames = decode_sse_chunks(chunks);
    let ghost fs = chunked_frames(data_views(chunks@));
    assert(fs.len() == frames@.len());
    let mut events: Vec<StreamEvent> = Vec::new();
    let mut i: usize = 0;
    assert(event_views(events@) =~= seq![]);
    while i < frames.len()
        invariant
            i <= frames@.len(),
            fs == chunked_frames(data_views(chunks@)),
            fs.len() == frames@.len(),
            forall|k: int| 0 <= k < fs.len() ==> #[trigger] fs[k] == frames@[k]@,
            frames_events(adapter, fs, i as int) == Ok::<Seq<EventView>, Seq<char>>(event_views(events@)),
        decreases frames.len() - i,
    {
        assert(fs[i as int] == frames@[i as int]@);
        match parse_protocol_frame(adapter, &frames[i]) {
            Err(e) => {
                let ghost m = frame_events(adapter, fs[i as int])->Err_0;
                assert(frames_events(adapter, fs, i + 1) == Err::<Seq<EventView>, Seq<char>>(m));
                proof {
                    lemma_error_persists(adapter, fs, i + 1, fs.len() as int);
                }
                assert(e.message@ == m);
                return Err(e);
            },
            Ok(got) => {
                let ghost before = event_views(events@);
                let mut k: usize = 0;
                while k < got.len()
                    invariant
                        k <= got@.len(),
                        event_views(events@) == before + event_views(got@).take(k as int),
                    decreases got.len() - k,
                {
                    let ghost prev = events@;
                    events.push(got[k].clone_event());
                    assert(event_views(events@) =~= event_views(prev).push(got@[k as int]@));
                    assert(event_views(got@).take(k + 1) =~= event_views(got@).take(k as int).push(got@[k as int]@));
                    k = k + 1;
                }
                assert(event_views(got@).take(got@.len() as int) =~= event_views(got@));
            },
        }
        i = i + 1;
    }
    Ok(events)
}

proof fn lemma_error_persists(adapter: AdapterKind, fs: Seq<FrameView>, i: int, n: int)
    requires
        0 <= i <= n,
        frames_events(adapter, fs, i) is Err,
    ensures
        frames_events(adapter, fs, n) == frames_events(adapter, fs, i),
    decreases n - i,
{
    if i < n {
        lemma_error_persists(adapter, fs, i, n - 1);
    }
}

impl StreamEvent {
    /// A copy with the same content.
    pub fn clone_event(&self) -> (r: Self)
        ensures
            r@ == self@,
    {
        match self {
            StreamEvent::Started { response_id, model } => StreamEvent::Started {
                response_id: match response_id {
                    Some(s) => Some(s.clone()),
                    None => None,
                },
                model: match model {
                    Some(s) => Some(s.clone()),
                    None => None,
                },
            },
            StreamEvent::TextDelta { text } => StreamEvent::TextDelta { text: text.clone() },
            StreamEvent::ToolCallDelta { index, id, name, arguments_delta } => StreamEvent::ToolCallDelta {
                index: *index,
                id: match id {
                    Some(s) => Some(s.clone()),
                    None => None,
                },
                name: match name {
                    Some(s) => Some(s.clone()),
                    None => None,
                },
                arguments_delta: arguments_delta.clone(),
            },
            StreamEvent::Usage { usage } => StreamEvent::Usage { usage: *usage },
            StreamEvent::Finished { reason } => StreamEvent::Finished { reason: *reason },
        }
    }
}

} // verus!
