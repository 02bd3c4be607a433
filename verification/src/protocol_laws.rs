//! What each provider stream frame yields, field by field: which JSON member
//! of the frame becomes which part of the provider-neutral event.
use crate::adapter::AdapterKind;
use crate::canonical::Usage;
use crate::json::{json_has, json_is_object_at, json_is_valid, json_str_at, json_u64_at};
use crate::protocol::{frame_events, EventView};
use crate::stream::FrameView;
use crate::text::{is_blank, trim};
use vstd::prelude::*;

verus! {

/// A frame whose data is a JSON object: neither blank nor the `[DONE]`
/// marker.
pub open spec fn object_frame(f: FrameView) -> bool {
    &&& !is_blank(f.data)
    &&& trim(f.data) != "[DONE]"@
    &&& json_is_valid(f.data)
    &&& json_is_object_at(f.data, ""@)
}

/// An Anthropic frame of event type `name`: named by the SSE `event` field,
/// or, where the frame has none, by the data's `type` member.
pub open spec fn anthropic_frame_named(f: FrameView, name: Seq<char>) -> bool {
    f.event == Some(name) || (f.event is None && json_str_at(f.data, "/type"@) == Some(name))
}

/// An Anthropic `content_block_delta` frame carrying an `input_json_delta`
/// yields exactly one tool-call delta for the block at `/index`, with no id
/// or name, whose arguments are the string at `/delta/partial_json`.
pub proof fn law_anthropic_input_json_delta(f: FrameView, partial: Seq<char>, index: u64)
    requires
        object_frame(f),
        anthropic_frame_named(f, "content_block_delta"@),
        json_str_at(f.data, "/delta/type"@) == Some("input_json_delta"@),
        json_str_at(f.data, "/delta/partial_json"@) == Some(partial),
        json_u64_at(f.data, "/index"@) == Some(index),
        index <= usize::MAX,
    ensures
        frame_events(AdapterKind::AnthropicMessages, f) == Ok::<Seq<EventView>, Seq<char>>(
            seq![EventView::ToolCallDelta { index: index as usize, id: None, name: None, arguments_delta: partial }],
        ),
{
    lemma_anthropic_names_distinct();
    reveal_strlit("text_delta");
    reveal_strlit("input_json_delta");
    assert("input_json_delta"@ != "text_delta"@) by {
        assert("input_json_delta"@[0] != "text_delta"@[0]);
    }
}

/// An Anthropic `content_block_delta` frame carrying a `text_delta` yields
/// exactly one text delta: the string at `/delta/text`.
pub proof fn law_anthropic_text_delta(f: FrameView, text: Seq<char>)
    requires
        object_frame(f),
        anthropic_frame_named(f, "content_block_delta"@),
        json_str_at(f.data, "/delta/type"@) == Some("text_delta"@),
        json_str_at(f.data, "/delta/text"@) == Some(text),
    ensures
        frame_events(AdapterKind::AnthropicMessages, f) == Ok::<Seq<EventView>, Seq<char>>(
            seq![EventView::TextDelta { text }],
        ),
{
    lemma_anthropic_names_distinct();
}

/// An Anthropic `content_block_start` frame opening a `tool_use` block
/// yields one tool-call delta carrying the block's id and name, with empty
/// arguments.
pub proof fn law_anthropic_tool_use_start(f: FrameView, index: u64, id: Seq<char>, name: Seq<char>)
    requires
        object_frame(f),
        anthropic_frame_named(f, "content_block_start"@),
        json_str_at(f.data, "/content_block/type"@) == Some("tool_use"@),
        json_str_at(f.data, "/content_block/id"@) == Some(id),
        json_str_at(f.data, "/content_block/name"@) == Some(name),
        json_u64_at(f.data, "/index"@) == Some(index),
        index <= usize::MAX,
    ensures
        frame_events(AdapterKind::AnthropicMessages, f) == Ok::<Seq<EventView>, Seq<char>>(
            seq![EventView::ToolCallDelta { index: index as usize, id: Some(id), name: Some(name), arguments_delta: seq![] }],
        ),
{
    lemma_anthropic_names_distinct();
}

/// An Anthropic `message_start` frame yields the start of the response (the
/// message's id and model) and then its usage, whose input tokens are
/// `/message/usage/input_tokens` and whose output tokens are zero.
pub proof fn law_anthropic_message_start(f: FrameView, id: Seq<char>, model: Seq<char>, input: u64)
    requires
        object_frame(f),
        anthropic_frame_named(f, "message_start"@),
        json_str_at(f.data, "/message/id"@) == Some(id),
        json_str_at(f.data, "/message/model"@) == Some(model),
        json_u64_at(f.data, "/message/usage/input_tokens"@) == Some(input),
    ensures
        frame_events(AdapterKind::AnthropicMessages, f) == Ok::<Seq<EventView>, Seq<char>>(
            seq![
                EventView::Started { response_id: Some(id), model: Some(model) },
                EventView::Usage { usage: Usage {
                    input_tokens: input,
                    output_tokens: 0,
                    cached_input_tokens: json_u64_at(f.data, "/message/usage/cache_read_input_tokens"@),
                } },
            ],
        ),
{
    reveal_strlit("message_start");
}

/// An OpenAI chunk with a `usage` member yields a usage event whose input
/// tokens are `/usage/prompt_tokens` and whose output tokens are
/// `/usage/completion_tokens`.
pub proof fn law_openai_chunk_usage(f: FrameView, prompt: u64, completion: u64)
    requires
        object_frame(f),
        json_has(f.data, "/usage"@),
        json_u64_at(f.data, "/usage/prompt_tokens"@) == Some(prompt),
        json_u64_at(f.data, "/usage/completion_tokens"@) == Some(completion),
    ensures
        frame_events(AdapterKind::OpenaiCompatible, f) is Ok,
        exists|k: int|
            0 <= k < frame_events(AdapterKind::OpenaiCompatible, f)->Ok_0.len() && #[trigger] frame_events(AdapterKind::OpenaiCompatible, f)->Ok_0[k] == (EventView::Usage { usage: Usage {
                input_tokens: prompt,
                output_tokens: completion,
                cached_input_tokens: json_u64_at(f.data, "/usage/prompt_tokens_details/cached_tokens"@),
            } }),
{
    let t = f.data;
    let es = crate::protocol::openai_events(t);
    assert(frame_events(AdapterKind::OpenaiCompatible, f) == Ok::<Seq<EventView>, Seq<char>>(es));
    let fe = frame_events(AdapterKind::OpenaiCompatible, f)->Ok_0;
    assert(fe == es);
    let head = (if json_has(t, "/id"@) || json_has(t, "/model"@) {
        seq![EventView::Started { response_id: json_str_at(t, "/id"@), model: json_str_at(t, "/model"@) }]
    } else {
        seq![]
    }) + (match json_str_at(t, "/choices/0/delta/content"@) {
        Some(x) => seq![EventView::TextDelta { text: x }],
        None => seq![],
    }) + (match crate::json::json_array_len_at(t, "/choices/0/delta/tool_calls"@) {
        Some(n) => Seq::new(n as nat, |i: int| crate::protocol::openai_tool_call(t, i)),
        None => seq![],
    });
    let u = EventView::Usage { usage: Usage {
        input_tokens: prompt,
        output_tokens: completion,
        cached_input_tokens: json_u64_at(t, "/usage/prompt_tokens_details/cached_tokens"@),
    } };
    let tail = crate::protocol::finished_on(t, "/choices/0/finish_reason"@);
    assert(es == head + seq![u] + tail);
    assert((head + seq![u] + tail)[head.len() as int] == u);
    assert(es[head.len() as int] == u);
    assert(0 <= head.len() < es.len());
    assert(fe[head.len() as int] == u);
}

/// A Gemini chunk with `usageMetadata` yields a usage event whose input
/// tokens are `promptTokenCount` and whose output tokens are
/// `candidatesTokenCount`.
pub proof fn law_gemini_chunk_usage(f: FrameView, prompt: u64, candidates: u64)
    requires
        object_frame(f),
        json_has(f.data, "/usageMetadata"@),
        json_u64_at(f.data, "/usageMetadata/promptTokenCount"@) == Some(prompt),
        json_u64_at(f.data, "/usageMetadata/candidatesTokenCount"@) == Some(candidates),
    ensures
        frame_events(AdapterKind::GoogleGemini, f) is Ok,
        exists|k: int|
            0 <= k < frame_events(AdapterKind::GoogleGemini, f)->Ok_0.len() && #[trigger] frame_events(AdapterKind::GoogleGemini, f)->Ok_0[k] == (EventView::Usage { usage: Usage {
                input_tokens: prompt,
                output_tokens: candidates,
                cached_input_tokens: json_u64_at(f.data, "/usageMetadata/cachedContentTokenCount"@),
            } }),
{
    let t = f.data;
    let es = crate::protocol::gemini_events(t);
    assert(frame_events(AdapterKind::GoogleGemini, f) == Ok::<Seq<EventView>, Seq<char>>(es));
    let fe = frame_events(AdapterKind::GoogleGemini, f)->Ok_0;
    assert(fe == es);
    let head = (if json_has(t, "/responseId"@) || json_has(t, "/modelVersion"@) {
        seq![EventView::Started {
            response_id: json_str_at(t, "/responseId"@),
            model: json_str_at(t, "/modelVersion"@),
        }]
    } else {
        seq![]
    }) + (match crate::json::json_array_len_at(t, "/candidates/0/content/parts"@) {
        Some(n) => crate::protocol::gemini_parts(t, n as int),
        None => seq![],
    });
    let u = EventView::Usage { usage: Usage {
        input_tokens: prompt,
        output_tokens: candidates,
        cached_input_tokens: json_u64_at(t, "/usageMetadata/cachedContentTokenCount"@),
    } };
    let tail = crate::protocol::finished_on(t, "/candidates/0/finishReason"@);
    assert(es == head + seq![u] + tail);
    assert((head + seq![u] + tail)[head.len() as int] == u);
    assert(es[head.len() as int] == u);
    assert(0 <= head.len() < es.len());
    assert(fe[head.len() as int] == u);
}

proof fn lemma_anthropic_names_distinct()
    ensures
        "content_block_delta"@ != "message_start"@,
        "content_block_start"@ != "message_start"@,
        "content_block_start"@ != "content_block_delta"@,
        "message_delta"@ != "message_start"@,
        "message_delta"@ != "content_block_delta"@,
        "message_delta"@ != "content_block_start"@,
        "message_stop"@ != "message_start"@,
        "message_stop"@ != "content_block_delta"@,
        "message_stop"@ != "content_block_start"@,
        "message_stop"@ != "message_delta"@,
        "error"@ != "message_start"@,
        "error"@ != "content_block_delta"@,
        "error"@ != "content_block_start"@,
        "error"@ != "message_delta"@,
        "error"@ != "message_stop"@,
{
    reveal_strlit("content_block_delta");
    reveal_strlit("content_block_start");
    reveal_strlit("message_start");
    reveal_strlit("message_delta");
    reveal_strlit("message_stop");
    reveal_strlit("error");
    assert("content_block_delta"@[0] != "message_start"@[0]);
    assert("content_block_start"@[0] != "message_start"@[0]);
    assert("content_block_start"@[14] != "content_block_delta"@[14]);
    assert("message_delta"@[8] != "message_start"@[8]);
    assert("message_delta"@[0] != "content_block_delta"@[0]);
    assert("message_delta"@[0] != "content_block_start"@[0]);
    assert("message_stop"@[10] != "message_start"@[10]);
    assert("message_stop"@[0] != "content_block_delta"@[0]);
    assert("message_stop"@[0] != "content_block_start"@[0]);
    assert("message_stop"@[8] != "message_delta"@[8]);
    assert("error"@[0] != "message_start"@[0]);
    assert("error"@[0] != "content_block_delta"@[0]);
    assert("error"@[0] != "content_block_start"@[0]);
    assert("error"@[0] != "message_delta"@[0]);
    assert("error"@[0] != "message_stop"@[0]);
}

/// An Anthropic `message_delta` frame with a usage member yields first a
/// usage event whose output tokens are `/usage/output_tokens` (input zero,
/// cache unknown); without a stop reason that is its only event.
pub proof fn law_anthropic_message_delta_usage(f: FrameView, output: u64)
    requires
        object_frame(f),
        anthropic_frame_named(f, "message_delta"@),
        json_has(f.data, "/usage"@),
        json_u64_at(f.data, "/usage/output_tokens"@) == Some(output),
    ensures
        frame_events(AdapterKind::AnthropicMessages, f) is Ok,
        frame_events(AdapterKind::AnthropicMessages, f)->Ok_0.len() >= 1,
        frame_events(AdapterKind::AnthropicMessages, f)->Ok_0[0] == (EventView::Usage { usage: Usage {
            input_tokens: 0,
            output_tokens: output,
            cached_input_tokens: None,
        } }),
        json_str_at(f.data, "/delta/stop_reason"@) is None ==> frame_events(AdapterKind::AnthropicMessages, f)->Ok_0.len() == 1,
{
    lemma_anthropic_names_distinct();
    let u = EventView::Usage { usage: Usage { input_tokens: 0, output_tokens: output, cached_input_tokens: None } };
    let tail = crate::protocol::finished_on(f.data, "/delta/stop_reason"@);
    let fe = frame_events(AdapterKind::AnthropicMessages, f)->Ok_0;
    assert(fe == seq![u] + tail);
    assert((seq![u] + tail)[0] == u);
}

/// An Anthropic `message_stop` frame yields exactly one finish, with reason
/// `Stop`.
pub proof fn law_anthropic_message_stop(f: FrameView)
    requires
        object_frame(f),
        anthropic_frame_named(f, "message_stop"@),
    ensures
        frame_events(AdapterKind::AnthropicMessages, f) == Ok::<Seq<EventView>, Seq<char>>(
            seq![EventView::Finished { reason: crate::canonical::FinishReason::Stop }],
        ),
{
    lemma_anthropic_names_distinct();
}

/// An Anthropic `error` frame ends the stream with the message at
/// `/error/message`.
pub proof fn law_anthropic_error_frame(f: FrameView, message: Seq<char>)
    requires
        object_frame(f),
        anthropic_frame_named(f, "error"@),
        json_str_at(f.data, "/error/message"@) == Some(message),
    ensures
        frame_events(AdapterKind::AnthropicMessages, f) == Err::<Seq<EventView>, Seq<char>>(message),
{
    lemma_anthropic_names_distinct();
}

/// An OpenAI chunk whose first choice carries delta content yields a text
/// delta holding exactly that content.
pub proof fn law_openai_chunk_text(f: FrameView, text: Seq<char>)
    requires
        object_frame(f),
        json_str_at(f.data, "/choices/0/delta/content"@) == Some(text),
    ensures
        frame_events(AdapterKind::OpenaiCompatible, f) is Ok,
        exists|k: int|
            0 <= k < frame_events(AdapterKind::OpenaiCompatible, f)->Ok_0.len()
                && #[trigger] frame_events(AdapterKind::OpenaiCompatible, f)->Ok_0[k] == (EventView::TextDelta { text }),
{
    let t = f.data;
    let fe = frame_events(AdapterKind::OpenaiCompatible, f)->Ok_0;
    let s0 = if json_has(t, "/id"@) || json_has(t, "/model"@) {
        seq![EventView::Started { response_id: json_str_at(t, "/id"@), model: json_str_at(t, "/model"@) }]
    } else {
        seq![]
    };
    let rest = (match crate::json::json_array_len_at(t, "/choices/0/delta/tool_calls"@) {
        Some(n) => Seq::new(n as nat, |i: int| crate::protocol::openai_tool_call(t, i)),
        None => seq![],
    }) + (if json_has(t, "/usage"@) {
        seq![EventView::Usage { usage: Usage {
            input_tokens: crate::protocol::u64_or_zero(t, "/usage/prompt_tokens"@),
            output_tokens: crate::protocol::u64_or_zero(t, "/usage/completion_tokens"@),
            cached_input_tokens: json_u64_at(t, "/usage/prompt_tokens_details/cached_tokens"@),
        } }]
    } else {
        seq![]
    }) + crate::protocol::finished_on(t, "/choices/0/finish_reason"@);
    let x = EventView::TextDelta { text };
    assert(fe =~= s0 + seq![x] + rest);
    assert((s0 + seq![x] + rest)[s0.len() as int] == x);
    assert(fe[s0.len() as int] == x);
}

} // verus!
