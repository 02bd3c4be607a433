//! The OpenAI-compatible face of a publisher: Chat Completions requests, given
//! as JSON text, read into canonical requests, and canonical responses and
//! stream events written back as Chat Completions JSON and SSE frames.
use crate::adapter::{part_view, part_views, plain_error, PartView};
use crate::canonical::{
    request_issues, CanonicalRequest, CanonicalResponse, ContentPart, FinishReason, ImageDetail, Message,
    ResponseFormat, Role, ToolChoice, ToolDefinition, Usage,
};
use crate::protocol::{EventView, StreamEvent};
use crate::sort::str_views;
use crate::translate::{
    arr, arr_exec, joined_by, joined_exec, kv, kv_exec, obj, obj_exec, push_member, q, quoted_kv,
};
use crate::error::{CoreError, ErrorCode, ErrorView};
use crate::json::{
    self, json_array_len_at, json_compact_of, json_has, json_is_object_at, json_members_at, json_render_at,
    json_str_at, json_u64_at,
};
use crate::text::{self, debug_text, decimal};
use crate::SCHEMA_VERSION;
use vstd::prelude::*;

verus! {

// ---- Reading requests ----
pub struct MessageView {
    pub role: Role,
    pub content: Seq<PartView>,
    pub name: Option<Seq<char>>,
    pub tool_call_id: Option<Seq<char>>,
}

pub struct ToolView {
    pub name: Seq<char>,
    pub description: Seq<char>,
    pub input_schema: Seq<char>,
}

pub enum ChoiceView {
    Auto,
    NoTool,
    Required,
    Named(Seq<char>),
}

pub enum FormatView {
    Text,
    JsonObject,
    JsonSchema(Seq<char>, Seq<char>, bool),
}

/// A canonical request as plain values.
pub struct RequestDraft {
    pub model: Seq<char>,
    pub messages: Seq<MessageView>,
    pub max_output_tokens: u32,
    pub temperature: Option<u32>,
    pub stream: bool,
    pub tools: Seq<ToolView>,
    pub tool_choice: ChoiceView,
    pub response_format: FormatView,
    pub metadata: Seq<(Seq<char>, Seq<char>)>,
}

pub open spec fn opt_text(o: Option<String>) -> Option<Seq<char>> {
    match o {
        Some(s) => Some(s@),
        None => None,
    }
}

pub open spec fn message_view(m: Message) -> MessageView {
    MessageView { role: m.role, content: part_views(m.content@), name: opt_text(m.name), tool_call_id: opt_text(m.tool_call_id) }
}

pub open spec fn message_views(ms: Seq<Message>) -> Seq<MessageView> {
    ms.map_values(|m: Message| message_view(m))
}

pub open spec fn tool_view(t: ToolDefinition) -> ToolView {
    ToolView { name: t.name@, description: t.description@, input_schema: t.input_schema@ }
}

pub open spec fn tool_views(ts: Seq<ToolDefinition>) -> Seq<ToolView> {
    ts.map_values(|t: ToolDefinition| tool_view(t))
}

pub open spec fn choice_view(c: ToolChoice) -> ChoiceView {
    match c {
        ToolChoice::Auto => ChoiceView::Auto,
        ToolChoice::NoTool => ChoiceView::NoTool,
        ToolChoice::Required => ChoiceView::Required,
        ToolChoice::Named(n) => ChoiceView::Named(n@),
    }
}

pub open spec fn format_view(f: ResponseFormat) -> FormatView {
    match f {
        ResponseFormat::Text => FormatView::Text,
        ResponseFormat::JsonObject => FormatView::JsonObject,
        ResponseFormat::JsonSchema { name, schema, strict } => FormatView::JsonSchema(name@, schema@, strict),
    }
}

pub open spec fn text_pairs(v: Seq<(String, String)>) -> Seq<(Seq<char>, Seq<char>)> {
    v.map_values(|p: (String, String)| (p.0@, p.1@))
}

pub open spec fn draft_of(r: CanonicalRequest) -> RequestDraft {
    RequestDraft {
        model: r.model@,
        messages: message_views(r.messages@),
        max_output_tokens: r.max_output_tokens,
        temperature: r.temperature,
        stream: r.stream,
        tools: tool_views(r.tools@),
        tool_choice: choice_view(r.tool_choice),
        response_format: format_view(r.response_format),
        metadata: text_pairs(r.metadata@),
    }
}

pub open spec fn req_err(message: Seq<char>) -> ErrorView {
    plain_error(ErrorCode::RequestInvalid, message)
}

/// The string at `full`, or the error naming the field by `rel`.
pub open spec fn required_text(t: Seq<char>, full: Seq<char>, rel: Seq<char>) -> Result<Seq<char>, ErrorView> {
    match json_str_at(t, full) {
        Some(s) => Ok(s),
        None => Err(req_err("缺少字符串字段 "@ + rel)),
    }
}

/// Whether the value at a pointer is `true`.
pub open spec fn json_true(t: Seq<char>, p: Seq<char>) -> bool {
    json_render_at(t, p) == Some("true"@)
}

/// The items read from the first `n` positions, each read by `step`, or the
/// first error met.
pub open spec fn collect_results<X>(n: int, step: spec_fn(int) -> Result<X, ErrorView>) -> Result<Seq<X>, ErrorView>
    decreases n,
{
    if n <= 0 {
        Ok(seq![])
    } else {
        match collect_results(n - 1, step) {
            Err(e) => Err(e),
            Ok(xs) => match step(n - 1) {
                Err(e) => Err(e),
                Ok(x) => Ok(xs.push(x)),
            },
        }
    }
}

proof fn lemma_collect_results_err<X>(k: int, n: int, step: spec_fn(int) -> Result<X, ErrorView>)
    requires
        k <= n,
        collect_results(k, step) is Err,
    ensures
        collect_results(n, step) == collect_results(k, step),
    decreases n - k,
{
    if n > k {
        lemma_collect_results_err(k, n - 1, step);
    }
}

pub open spec fn at_index(p: Seq<char>, i: int) -> Seq<char> {
    p + "/"@ + decimal(i as nat)
}

pub open spec fn image_detail_of(d: Option<Seq<char>>) -> ImageDetail {
    if d == Some("low"@) {
        ImageDetail::Low
    } else if d == Some("high"@) {
        ImageDetail::High
    } else {
        ImageDetail::Auto
    }
}

/// `format!("{:?}", kind)` for the optional type of a content part.
pub open spec fn debug_option(kind: Option<Seq<char>>) -> Seq<char> {
    match kind {
        Some(k) => "Some("@ + debug_text(k) + ")"@,
        None => "None"@,
    }
}

/// A content part of an OpenAI message: text, or an image given as a URL
/// string or an object with `url` and `detail`.
pub open spec fn content_part_at(t: Seq<char>, p: Seq<char>) -> Result<PartView, ErrorView> {
    let kind = json_str_at(t, p + "/type"@);
    if kind == Some("text"@) || kind == Some("input_text"@) {
        match required_text(t, p + "/text"@, "/text"@) {
            Err(e) => Err(e),
            Ok(s) => Ok(PartView::Text(s)),
        }
    } else if kind == Some("image_url"@) {
        let image = p + "/image_url"@;
        if !json_has(t, image) {
            Err(req_err("缺少 image_url"@))
        } else if json_str_at(t, image) is Some {
            Ok(PartView::Image(json_str_at(t, image)->Some_0, ImageDetail::Auto))
        } else if json_is_object_at(t, image) {
            match required_text(t, image + "/url"@, "/url"@) {
                Err(e) => Err(e),
                Ok(url) => Ok(PartView::Image(url, image_detail_of(json_str_at(t, image + "/detail"@)))),
            }
        } else {
            Err(req_err("image_url 类型无效"@))
        }
    } else {
        Err(req_err("不支持的内容类型: "@ + debug_option(kind)))
    }
}

pub open spec fn content_part_step(t: Seq<char>, p: Seq<char>) -> spec_fn(int) -> Result<PartView, ErrorView> {
    |i: int| content_part_at(t, at_index(p, i))
}

/// The content of a message: a string is one text part, an array is read
/// part by part, `null` or nothing is no part.
pub open spec fn content_at(t: Seq<char>, p: Seq<char>) -> Result<Seq<PartView>, ErrorView> {
    if json_str_at(t, p) is Some {
        Ok(seq![PartView::Text(json_str_at(t, p)->Some_0)])
    } else if json_array_len_at(t, p) is Some {
        collect_results(json_array_len_at(t, p)->Some_0 as int, content_part_step(t, p))
    } else if !json_has(t, p) || json_render_at(t, p) == Some("null"@) {
        Ok(seq![])
    } else {
        Err(req_err("OpenAI message.content 类型无效"@))
    }
}

/// A tool call of a message: its arguments string, id and name, the
/// arguments parsed and written compactly.
pub open spec fn call_at(t: Seq<char>, c: Seq<char>) -> Result<PartView, ErrorView> {
    match required_text(t, c + "/function/arguments"@, "/function/arguments"@) {
        Err(e) => Err(e),
        Ok(args) => match required_text(t, c + "/id"@, "/id"@) {
            Err(e) => Err(e),
            Ok(id) => match required_text(t, c + "/function/name"@, "/function/name"@) {
                Err(e) => Err(e),
                Ok(name) => match json_compact_of(args) {
                    Err(m) => Err(req_err("Tool arguments 不是有效 JSON: "@ + m)),
                    Ok(a) => Ok(PartView::Call(id, name, a)),
                },
            },
        },
    }
}

pub open spec fn call_step(t: Seq<char>, p: Seq<char>) -> spec_fn(int) -> Result<PartView, ErrorView> {
    |i: int| call_at(t, at_index(p, i))
}

pub open spec fn role_of(r: Seq<char>) -> Option<Role> {
    if r == "system"@ || r == "developer"@ {
        Some(Role::System)
    } else if r == "user"@ {
        Some(Role::User)
    } else if r == "assistant"@ {
        Some(Role::Assistant)
    } else if r == "tool"@ {
        Some(Role::Tool)
    } else {
        None
    }
}

/// A message: its role, its content, then its tool calls as parts.
pub open spec fn message_at(t: Seq<char>, p: Seq<char>) -> Result<MessageView, ErrorView> {
    match required_text(t, p + "/role"@, "/role"@) {
        Err(e) => Err(e),
        Ok(r) => match role_of(r) {
            None => Err(req_err("不支持 OpenAI 消息角色: "@ + r)),
            Some(role) => match content_at(t, p + "/content"@) {
                Err(e) => Err(e),
                Ok(content) => {
                    let calls = match json_array_len_at(t, p + "/tool_calls"@) {
                        None => Ok(seq![]),
                        Some(n) => collect_results(n as int, call_step(t, p + "/tool_calls"@)),
                    };
                    match calls {
                        Err(e) => Err(e),
                        Ok(cs) => Ok(
                            MessageView {
                                role,
                                content: content + cs,
                                name: json_str_at(t, p + "/name"@),
                                tool_call_id: json_str_at(t, p + "/tool_call_id"@),
                            },
                        ),
                    }
                },
            },
        },
    }
}

pub open spec fn message_step(t: Seq<char>) -> spec_fn(int) -> Result<MessageView, ErrorView> {
    |i: int| message_at(t, at_index("/messages"@, i))
}

/// A tool definition: its function's name, description (empty when absent)
/// and parameters (`{"type":"object"}` when absent).
pub open spec fn tool_at(t: Seq<char>, p: Seq<char>) -> Result<ToolView, ErrorView> {
    let f = p + "/function"@;
    if !json_has(t, f) {
        Err(req_err("工具缺少 function"@))
    } else {
        match required_text(t, f + "/name"@, "/name"@) {
            Err(e) => Err(e),
            Ok(name) => Ok(
                ToolView {
                    name,
                    description: match json_str_at(t, f + "/description"@) {
                        Some(d) => d,
                        None => seq![],
                    },
                    input_schema: match json_render_at(t, f + "/parameters"@) {
                        Some(s) => s,
                        None => "{\"type\":\"object\"}"@,
                    },
                },
            ),
        }
    }
}

pub open spec fn tool_step(t: Seq<char>) -> spec_fn(int) -> Result<ToolView, ErrorView> {
    |i: int| tool_at(t, at_index("/tools"@, i))
}

pub open spec fn tool_choice_at(t: Seq<char>) -> Result<ChoiceView, ErrorView> {
    let p = "/tool_choice"@;
    let s = json_str_at(t, p);
    if !json_has(t, p) {
        Ok(ChoiceView::Auto)
    } else if s == Some("auto"@) {
        Ok(ChoiceView::Auto)
    } else if s == Some("none"@) {
        Ok(ChoiceView::NoTool)
    } else if s == Some("required"@) {
        Ok(ChoiceView::Required)
    } else if json_is_object_at(t, p) {
        match required_text(t, p + "/function/name"@, "/function/name"@) {
            Err(e) => Err(e),
            Ok(n) => Ok(ChoiceView::Named(n)),
        }
    } else {
        Err(
            req_err(
                "无效 tool_choice: "@ + match json_render_at(t, p) {
                    Some(r) => r,
                    None => seq![],
                },
            ),
        )
    }
}

pub open spec fn response_format_at(t: Seq<char>) -> Result<FormatView, ErrorView> {
    let kind = json_str_at(t, "/response_format/type"@);
    let d = "/response_format/json_schema"@;
    if kind is None || kind == Some("text"@) {
        Ok(FormatView::Text)
    } else if kind == Some("json_object"@) {
        Ok(FormatView::JsonObject)
    } else if kind == Some("json_schema"@) {
        if !json_has(t, d) {
            Err(req_err("response_format 缺少 json_schema"@))
        } else {
            match required_text(t, d + "/name"@, "/name"@) {
                Err(e) => Err(e),
                Ok(name) => match json_render_at(t, d + "/schema"@) {
                    None => Err(req_err("json_schema 缺少 schema"@)),
                    Some(schema) => Ok(FormatView::JsonSchema(name, schema, json_true(t, d + "/strict"@))),
                },
            }
        }
    } else {
        Err(req_err("不支持 response_format: "@ + kind->Some_0))
    }
}

pub open spec fn all_strings(ms: Seq<(Seq<char>, Option<Seq<char>>)>) -> bool {
    forall|i: int| 0 <= i < ms.len() ==> (#[trigger] ms[i]).1 is Some
}

pub open spec fn string_pairs(ms: Seq<(Seq<char>, Option<Seq<char>>)>) -> Seq<(Seq<char>, Seq<char>)> {
    ms.map_values(|m: (Seq<char>, Option<Seq<char>>)| (m.0, m.1->Some_0))
}

/// The metadata: an object whose members are all strings, or nothing.
pub open spec fn metadata_at(t: Seq<char>) -> Result<Seq<(Seq<char>, Seq<char>)>, ErrorView> {
    let p = "/metadata"@;
    if !json_has(t, p) {
        Ok(seq![])
    } else {
        match json_members_at(t, p) {
            None => Err(req_err("metadata 必须是字符串键值对象"@)),
            Some(ms) => if all_strings(ms) {
                Ok(string_pairs(ms))
            } else {
                Err(req_err("metadata 的值必须是字符串"@))
            },
        }
    }
}

/// The output token limit: `max_completion_tokens` when present, otherwise
/// `max_tokens`; 1024 when that is not a number that fits in `u32`.
pub open spec fn max_tokens_at(t: Seq<char>) -> u32 {
    let raw = if json_has(t, "/max_completion_tokens"@) {
        json_u64_at(t, "/max_completion_tokens"@)
    } else {
        json_u64_at(t, "/max_tokens"@)
    };
    match raw {
        Some(n) => if n <= u32::MAX {
            n as u32
        } else {
            1024
        },
        None => 1024,
    }
}

/// What reading a Chat Completions request gives, before validation.
/// `temperature` is the temperature member read as an `f32` (its bits), or
/// the reader's message, when the member is there.
pub open spec fn request_draft(t: Seq<char>, temperature: Option<Result<u32, Seq<char>>>) -> Result<RequestDraft, ErrorView> {
    match required_text(t, "/model"@, "/model"@) {
        Err(e) => Err(e),
        Ok(model) => match json_array_len_at(t, "/messages"@) {
            None => Err(req_err("OpenAI 请求缺少 messages"@)),
            Some(n) => match collect_results(n as int, message_step(t)) {
                Err(e) => Err(e),
                Ok(messages) => {
                    let tools = match json_array_len_at(t, "/tools"@) {
                        None => Ok(seq![]),
                        Some(k) => collect_results(k as int, tool_step(t)),
                    };
                    match tools {
                        Err(e) => Err(e),
                        Ok(tools) => {
                            let temp: Result<Option<u32>, ErrorView> = match temperature {
                                None => Ok(None),
                                Some(Ok(b)) => Ok(Some(b)),
                                Some(Err(m)) => Err(req_err("temperature 无效: "@ + m)),
                            };
                            match temp {
                                Err(e) => Err(e),
                                Ok(temperature) => match tool_choice_at(t) {
                                    Err(e) => Err(e),
                                    Ok(tool_choice) => match response_format_at(t) {
                                        Err(e) => Err(e),
                                        Ok(response_format) => match metadata_at(t) {
                                            Err(e) => Err(e),
                                            Ok(metadata) => Ok(
                                                RequestDraft {
                                                    model,
                                                    messages,
                                                    max_output_tokens: max_tokens_at(t),
                                                    temperature,
                                                    stream: json_true(t, "/stream"@),
                                                    tools,
                                                    tool_choice,
                                                    response_format,
                                                    metadata,
                                                },
                                            ),
                                        },
                                    },
                                },
                            }
                        },
                    }
                },
            },
        },
    }
}

fn request_error(message: &str) -> (r: CoreError)
    ensures
        r@ == req_err(message@),
{
    let e = CoreError::new(ErrorCode::RequestInvalid, message);
    assert(e@.issues =~= seq![]);
    e
}

fn required_string(t: &str, full: &str, rel: &str) -> (r: Result<String, CoreError>)
    ensures
        match required_text(t@, full@, rel@) {
            Ok(s) => r matches Ok(x) && x@ == s,
            Err(ev) => r matches Err(e) && e@ == ev,
        },
{
    match json::json_str(t, full) {
        Some(s) => Ok(s),
        None => {
            let mut message = text::owned("缺少字符串字段 ");
            text::push_str(&mut message, rel);
            Err(request_error(message.as_str()))
        },
    }
}

fn is_true(t: &str, p: &str) -> (r: bool)
    ensures
        r == json_true(t@, p@),
{
    match json::json_render(t, p) {
        Some(s) => text::str_eq(s.as_str(), "true"),
        None => false,
    }
}

fn pointer_at(p: &str, i: usize) -> (r: String)
    ensures
        r@ == at_index(p@, i as int),
{
    let mut r = text::owned(p);
    text::push_str(&mut r, "/");
    let d = text::decimal_string(i as u64);
    text::push_str(&mut r, d.as_str());
    r
}

fn joined(p: &str, suffix: &str) -> (r: String)
    ensures
        r@ == p@ + suffix@,
{
    let mut r = text::owned(p);
    text::push_str(&mut r, suffix);
    r
}

fn parse_content_part(t: &str, p: &str) -> (r: Result<ContentPart, CoreError>)
    ensures
        match content_part_at(t@, p@) {
            Ok(v) => r matches Ok(x) && part_view(x) == v,
            Err(ev) => r matches Err(e) && e@ == ev,
        },
{
    let type_path = joined(p, "/type");
    let kind = json::json_str(t, type_path.as_str());
    let (is_text, is_image) = match &kind {
        Some(k) => (
            text::str_eq(k.as_str(), "text") || text::str_eq(k.as_str(), "input_text"),
            text::str_eq(k.as_str(), "image_url"),
        ),
        None => (false, false),
    };
    if is_text {
        let text_path = joined(p, "/text");
        match required_string(t, text_path.as_str(), "/text") {
            Ok(s) => Ok(ContentPart::Text { text: s }),
            Err(e) => Err(e),
        }
    } else if is_image {
        let image = joined(p, "/image_url");
        if !json::json_has_at(t, image.as_str()) {
            return Err(request_error("缺少 image_url"));
        }
        match json::json_str(t, image.as_str()) {
            Some(url) => {
                return Ok(ContentPart::ImageUrl { url, detail: ImageDetail::Auto });
            },
            None => {},
        }
        if json::json_is_object(t, image.as_str()) {
            let url_path = joined(image.as_str(), "/url");
            let url = match required_string(t, url_path.as_str(), "/url") {
                Ok(s) => s,
                Err(e) => return Err(e),
            };
            let detail_path = joined(image.as_str(), "/detail");
            let detail = match json::json_str(t, detail_path.as_str()) {
                Some(d) => if text::str_eq(d.as_str(), "low") {
                    ImageDetail::Low
                } else if text::str_eq(d.as_str(), "high") {
                    ImageDetail::High
                } else {
                    ImageDetail::Auto
                },
                None => ImageDetail::Auto,
            };
            Ok(ContentPart::ImageUrl { url, detail })
        } else {
            Err(request_error("image_url 类型无效"))
        }
    } else {
        let mut message = text::owned("不支持的内容类型: ");
        match &kind {
            Some(k) => {
                text::push_str(&mut message, "Some(");
                let d = text::str_debug(k.as_str());
                text::push_str(&mut message, d.as_str());
                text::push_str(&mut message, ")");
            },
            None => text::push_str(&mut message, "None"),
        }
        proof {
            let kv = json_str_at(t@, p@ + "/type"@);
            assert(kv == opt_text(kind));
            assert(message@ =~= "不支持的内容类型: "@ + debug_option(kv));
        }
        Err(request_error(message.as_str()))
    }
}

fn push_view(parts: &mut Vec<ContentPart>, x: ContentPart)
    ensures
        part_views(final(parts)@) == part_views(old(parts)@).push(part_view(x)),
{
    parts.push(x);
    assert(part_views(final(parts)@) =~= part_views(old(parts)@).push(part_view(x)));
}

fn parse_content(t: &str, p: &str) -> (r: Result<Vec<ContentPart>, CoreError>)
    ensures
        match content_at(t@, p@) {
            Ok(v) => r matches Ok(x) && part_views(x@) == v,
            Err(ev) => r matches Err(e) && e@ == ev,
        },
{
    let mut parts: Vec<ContentPart> = Vec::new();
    match json::json_str(t, p) {
        Some(s) => {
            push_view(&mut parts, ContentPart::Text { text: s });
            return Ok(parts);
        },
        None => {},
    }
    match json::json_array_len(t, p) {
        Some(n) => {
            let ghost step = content_part_step(t@, p@);
            let mut i: usize = 0;
            assert(part_views(parts@) =~= seq![]);
            while i < n
                invariant
                    i <= n,
                    step == content_part_step(t@, p@),
                    json_array_len_at(t@, p@) == Some(n),
                    json_str_at(t@, p@) is None,
                    collect_results(i as int, step) matches Ok(xs) && part_views(parts@) == xs,
                decreases n - i,
            {
                let q = pointer_at(p, i);
                match parse_content_part(t, q.as_str()) {
                    Ok(x) => push_view(&mut parts, x),
                    Err(e) => {
                        proof {
                            lemma_collect_results_err(i + 1, n as int, step);
                        }
                        return Err(e);
                    },
                }
                i = i + 1;
            }
            return Ok(parts);
        },
        None => {},
    }
    let is_null = match json::json_render(t, p) {
        Some(s) => text::str_eq(s.as_str(), "null"),
        None => false,
    };
    if !json::json_has_at(t, p) || is_null {
        assert(part_views(parts@) =~= seq![]);
        Ok(parts)
    } else {
        Err(request_error("OpenAI message.content 类型无效"))
    }
}

fn parse_call(t: &str, c: &str) -> (r: Result<ContentPart, CoreError>)
    ensures
        match call_at(t@, c@) {
            Ok(v) => r matches Ok(x) && part_view(x) == v,
            Err(ev) => r matches Err(e) && e@ == ev,
        },
{
    let args_path = joined(c, "/function/arguments");
    let arguments = match required_string(t, args_path.as_str(), "/function/arguments") {
        Ok(s) => s,
        Err(e) => return Err(e),
    };
    let id_path = joined(c, "/id");
    let id = match required_string(t, id_path.as_str(), "/id") {
        Ok(s) => s,
        Err(e) => return Err(e),
    };
    let name_path = joined(c, "/function/name");
    let name = match required_string(t, name_path.as_str(), "/function/name") {
        Ok(s) => s,
        Err(e) => return Err(e),
    };
    match json::json_compact(arguments.as_str()) {
        Ok(a) => Ok(ContentPart::ToolCall { id, name, arguments: a }),
        Err(m) => {
            let mut message = text::owned("Tool arguments 不是有效 JSON: ");
            text::push_str(&mut message, m.as_str());
            Err(request_error(message.as_str()))
        },
    }
}

fn parse_role(r: &str) -> (o: Option<Role>)
    ensures
        o == role_of(r@),
{
    if text::str_eq(r, "system") || text::str_eq(r, "developer") {
        Some(Role::System)
    } else if text::str_eq(r, "user") {
        Some(Role::User)
    } else if text::str_eq(r, "assistant") {
        Some(Role::Assistant)
    } else if text::str_eq(r, "tool") {
        Some(Role::Tool)
    } else {
        None
    }
}

fn parse_message(t: &str, p: &str) -> (r: Result<Message, CoreError>)
    ensures
        match message_at(t@, p@) {
            Ok(v) => r matches Ok(m) && message_view(m) == v,
            Err(ev) => r matches Err(e) && e@ == ev,
        },
{
    let role_path = joined(p, "/role");
    let role_text = match required_string(t, role_path.as_str(), "/role") {
        Ok(s) => s,
        Err(e) => return Err(e),
    };
    let role = match parse_role(role_text.as_str()) {
        Some(r) => r,
        None => {
            let mut message = text::owned("不支持 OpenAI 消息角色: ");
            text::push_str(&mut message, role_text.as_str());
            return Err(request_error(message.as_str()));
        },
    };
    let content_path = joined(p, "/content");
    let mut content = match parse_content(t, content_path.as_str()) {
        Ok(c) => c,
        Err(e) => return Err(e),
    };
    let ghost base = part_views(content@);
    let calls_path = joined(p, "/tool_calls");
    match json::json_array_len(t, calls_path.as_str()) {
        None => {
            assert(part_views(content@) =~= base + seq![]);
        },
        Some(n) => {
            let ghost step = call_step(t@, calls_path@);
            let mut i: usize = 0;
            assert(base =~= base + seq![]);
            while i < n
                invariant
                    i <= n,
                    step == call_step(t@, calls_path@),
                    calls_path@ == p@ + "/tool_calls"@,
                    json_array_len_at(t@, calls_path@) == Some(n),
                    required_text(t@, p@ + "/role"@, "/role"@) == Ok::<Seq<char>, ErrorView>(role_text@),
                    role_of(role_text@) == Some(role),
                    content_at(t@, p@ + "/content"@) == Ok::<Seq<PartView>, ErrorView>(base),
                    collect_results(i as int, step) matches Ok(xs) && part_views(content@) == base + xs,
                decreases n - i,
            {
                let c = pointer_at(calls_path.as_str(), i);
                match parse_call(t, c.as_str()) {
                    Ok(x) => {
                        let ghost before = part_views(content@);
                        push_view(&mut content, x);
                        proof {
                            let xs = collect_results(i as int, step)->Ok_0;
                            assert(part_views(content@) =~= base + xs.push(part_view(x)));
                        }
                    },
                    Err(e) => {
                        proof {
                            lemma_collect_results_err(i + 1, n as int, step);
                        }
                        return Err(e);
                    },
                }
                i = i + 1;
            }
        },
    }
    let name_path = joined(p, "/name");
    let id_path = joined(p, "/tool_call_id");
    Ok(Message { role, content, name: json::json_str(t, name_path.as_str()), tool_call_id: json::json_str(t, id_path.as_str()) })
}

fn parse_tool(t: &str, p: &str) -> (r: Result<ToolDefinition, CoreError>)
    ensures
        match tool_at(t@, p@) {
            Ok(v) => r matches Ok(x) && tool_view(x) == v,
            Err(ev) => r matches Err(e) && e@ == ev,
        },
{
    let f = joined(p, "/function");
    if !json::json_has_at(t, f.as_str()) {
        return Err(request_error("工具缺少 function"));
    }
    let name_path = joined(f.as_str(), "/name");
    let name = match required_string(t, name_path.as_str(), "/name") {
        Ok(s) => s,
        Err(e) => return Err(e),
    };
    let description_path = joined(f.as_str(), "/description");
    let description = match json::json_str(t, description_path.as_str()) {
        Some(d) => d,
        None => String::new(),
    };
    let parameters_path = joined(f.as_str(), "/parameters");
    let input_schema = match json::json_render(t, parameters_path.as_str()) {
        Some(s) => s,
        None => text::owned("{\"type\":\"object\"}"),
    };
    Ok(ToolDefinition { name, description, input_schema })
}

fn parse_tool_choice(t: &str) -> (r: Result<ToolChoice, CoreError>)
    ensures
        match tool_choice_at(t@) {
            Ok(v) => r matches Ok(x) && choice_view(x) == v,
            Err(ev) => r matches Err(e) && e@ == ev,
        },
{
    let p = "/tool_choice";
    if !json::json_has_at(t, p) {
        return Ok(ToolChoice::Auto);
    }
    match json::json_str(t, p) {
        Some(s) => {
            if text::str_eq(s.as_str(), "auto") {
                return Ok(ToolChoice::Auto);
            } else if text::str_eq(s.as_str(), "none") {
                return Ok(ToolChoice::NoTool);
            } else if text::str_eq(s.as_str(), "required") {
                return Ok(ToolChoice::Required);
            }
        },
        None => {},
    }
    if json::json_is_object(t, p) {
        match required_string(t, "/tool_choice/function/name", "/function/name") {
            Ok(n) => {
                proof {
                    reveal_strlit("/tool_choice/function/name");
                    reveal_strlit("/tool_choice");
                    reveal_strlit("/function/name");
                    assert("/tool_choice"@ + "/function/name"@ =~= "/tool_choice/function/name"@);
                }
                Ok(ToolChoice::Named(n))
            },
            Err(e) => {
                proof {
                    reveal_strlit("/tool_choice/function/name");
                    reveal_strlit("/tool_choice");
                    reveal_strlit("/function/name");
                    assert("/tool_choice"@ + "/function/name"@ =~= "/tool_choice/function/name"@);
                }
                Err(e)
            },
        }
    } else {
        let mut message = text::owned("无效 tool_choice: ");
        match json::json_render(t, p) {
            Some(r) => text::push_str(&mut message, r.as_str()),
            None => {},
        }
        proof {
            if json_render_at(t@, p@) is None {
                assert(message@ =~= "无效 tool_choice: "@ + seq![]);
            }
        }
        Err(request_error(message.as_str()))
    }
}

fn parse_response_format(t: &str) -> (r: Result<ResponseFormat, CoreError>)
    ensures
        match response_format_at(t@) {
            Ok(v) => r matches Ok(x) && format_view(x) == v,
            Err(ev) => r matches Err(e) && e@ == ev,
        },
{
    let kind = match json::json_str(t, "/response_format/type") {
        None => return Ok(ResponseFormat::Text),
        Some(k) => k,
    };
    if text::str_eq(kind.as_str(), "text") {
        return Ok(ResponseFormat::Text);
    }
    if text::str_eq(kind.as_str(), "json_object") {
        return Ok(ResponseFormat::JsonObject);
    }
    if !text::str_eq(kind.as_str(), "json_schema") {
        let mut message = text::owned("不支持 response_format: ");
        text::push_str(&mut message, kind.as_str());
        return Err(request_error(message.as_str()));
    }
    let d = "/response_format/json_schema";
    if !json::json_has_at(t, d) {
        return Err(request_error("response_format 缺少 json_schema"));
    }
    let name_path = joined(d, "/name");
    let name = match required_string(t, name_path.as_str(), "/name") {
        Ok(s) => s,
        Err(e) => return Err(e),
    };
    let schema_path = joined(d, "/schema");
    let schema = match json::json_render(t, schema_path.as_str()) {
        Some(s) => s,
        None => return Err(request_error("json_schema 缺少 schema")),
    };
    let strict_path = joined(d, "/strict");
    let strict = is_true(t, strict_path.as_str());
    Ok(ResponseFormat::JsonSchema { name, schema, strict })
}

fn parse_metadata(t: &str) -> (r: Result<Vec<(String, String)>, CoreError>)
    ensures
        match metadata_at(t@) {
            Ok(v) => r matches Ok(x) && text_pairs(x@) == v,
            Err(ev) => r matches Err(e) && e@ == ev,
        },
{
    let p = "/metadata";
    let mut pairs: Vec<(String, String)> = Vec::new();
    if !json::json_has_at(t, p) {
        assert(text_pairs(pairs@) =~= seq![]);
        return Ok(pairs);
    }
    let members = match json::json_string_members(t, p) {
        None => return Err(request_error("metadata 必须是字符串键值对象")),
        Some(m) => m,
    };
    let ghost ms = json::member_views(members@);
    let mut i: usize = 0;
    while i < members.len()
        invariant
            i <= members@.len(),
            ms == json::member_views(members@),
            p@ == "/metadata"@,
            json_has(t@, p@),
            json_members_at(t@, p@) == Some(ms),
            forall|k: int| 0 <= k < i ==> (#[trigger] ms[k]).1 is Some,
            text_pairs(pairs@) == string_pairs(ms.take(i as int)),
        decreases members.len() - i,
    {
        match &members[i].1 {
            Some(v) => {
                pairs.push((members[i].0.clone(), v.clone()));
                assert(string_pairs(ms.take(i + 1)) =~= string_pairs(ms.take(i as int)).push((ms[i as int].0, ms[i as int].1->Some_0)));
                assert(text_pairs(pairs@) =~= string_pairs(ms.take(i + 1)));
            },
            None => {
                assert(ms[i as int].1 is None);
                assert(!all_strings(ms));
                return Err(request_error("metadata 的值必须是字符串"));
            },
        }
        i = i + 1;
    }
    assert(ms.take(ms.len() as int) =~= ms);
    Ok(pairs)
}

fn max_tokens(t: &str) -> (r: u32)
    ensures
        r == max_tokens_at(t@),
{
    let raw = if json::json_has_at(t, "/max_completion_tokens") {
        json::json_u64(t, "/max_completion_tokens")
    } else {
        json::json_u64(t, "/max_tokens")
    };
    match raw {
        Some(n) => if n <= 0xffff_ffffu64 {
            n as u32
        } else {
            1024
        },
        None => 1024,
    }
}

pub open spec fn temperature_view(t: Option<Result<u32, String>>) -> Option<Result<u32, Seq<char>>> {
    match t {
        None => None,
        Some(Ok(b)) => Some(Ok(b)),
        Some(Err(m)) => Some(Err(m@)),
    }
}

/// Reads a Chat Completions request, given as JSON text, into a canonical
/// request and validates it. `temperature` is the request's `temperature`
/// member read as an `f32` (its bits), or the reader's message, when the
/// member is there.
pub fn parse_chat_completions_request(value: &str, temperature: Option<Result<u32, String>>) -> (r: Result<CanonicalRequest, CoreError>)
    ensures
        match request_draft(value@, temperature_view(temperature)) {
            Err(ev) => r matches Err(e) && e@ == ev,
            Ok(d) => match r {
                Ok(req) => draft_of(req) == d && req.schema_version == SCHEMA_VERSION && request_issues(req).len() == 0,
                Err(e) => exists|req: CanonicalRequest|
                    #![trigger request_issues(req)]
                    draft_of(req) == d && req.schema_version == SCHEMA_VERSION && request_issues(req).len() > 0 && e@
                        == (ErrorView {
                        code: ErrorCode::RequestInvalid,
                        message: "统一请求校验失败"@,
                        issues: request_issues(req),
                    }),
            },
        },
{
    let t = value;
    let model = match required_string(t, "/model", "/model") {
        Ok(s) => s,
        Err(e) => return Err(e),
    };
    let n = match json::json_array_len(t, "/messages") {
        Some(n) => n,
        None => return Err(request_error("OpenAI 请求缺少 messages")),
    };
    let mut messages: Vec<Message> = Vec::new();
    let ghost mstep = message_step(t@);
    let mut i: usize = 0;
    assert(message_views(messages@) =~= seq![]);
    while i < n
        invariant
            i <= n,
            mstep == message_step(t@),
            t@ == value@,
            required_text(t@, "/model"@, "/model"@) == Ok::<Seq<char>, ErrorView>(model@),
            json_array_len_at(t@, "/messages"@) == Some(n),
            collect_results(i as int, mstep) matches Ok(xs) && message_views(messages@) == xs,
        decreases n - i,
    {
        let p = pointer_at("/messages", i);
        match parse_message(t, p.as_str()) {
            Ok(m) => {
                let ghost before = message_views(messages@);
                messages.push(m);
                assert(message_views(messages@) =~= before.push(message_view(m)));
            },
            Err(e) => {
                proof {
                    assert(collect_results(i + 1, mstep) == Err::<Seq<MessageView>, ErrorView>(e@));
                    lemma_collect_results_err(i + 1, n as int, mstep);
                }
                return Err(e);
            },
        }
        i = i + 1;
    }
    let mut tools: Vec<ToolDefinition> = Vec::new();
    assert(tool_views(tools@) =~= seq![]);
    match json::json_array_len(t, "/tools") {
        None => {},
        Some(k) => {
            let ghost tstep = tool_step(t@);
            let mut j: usize = 0;
            while j < k
                invariant
                    j <= k,
                    tstep == tool_step(t@),
                    t@ == value@,
                    required_text(t@, "/model"@, "/model"@) == Ok::<Seq<char>, ErrorView>(model@),
                    json_array_len_at(t@, "/messages"@) == Some(n),
                    collect_results(n as int, message_step(t@)) == Ok::<Seq<MessageView>, ErrorView>(message_views(messages@)),
                    json_array_len_at(t@, "/tools"@) == Some(k),
                    collect_results(j as int, tstep) matches Ok(xs) && tool_views(tools@) == xs,
                decreases k - j,
            {
                let p = pointer_at("/tools", j);
                match parse_tool(t, p.as_str()) {
                    Ok(x) => {
                        let ghost before = tool_views(tools@);
                        tools.push(x);
                        assert(tool_views(tools@) =~= before.push(tool_view(x)));
                    },
                    Err(e) => {
                        proof {
                            assert(collect_results(j + 1, tstep) == Err::<Seq<ToolView>, ErrorView>(e@));
                            lemma_collect_results_err(j + 1, k as int, tstep);
                        }
                        return Err(e);
                    },
                }
                j = j + 1;
            }
        },
    }
    let max_output_tokens = max_tokens(t);
    let temperature_bits = match temperature {
        None => None,
        Some(Ok(b)) => Some(b),
        Some(Err(m)) => {
            let mut message = text::owned("temperature 无效: ");
            text::push_str(&mut message, m.as_str());
            return Err(request_error(message.as_str()));
        },
    };
    let stream = is_true(t, "/stream");
    let tool_choice = match parse_tool_choice(t) {
        Ok(c) => c,
        Err(e) => return Err(e),
    };
    let response_format = match parse_response_format(t) {
        Ok(f) => f,
        Err(e) => return Err(e),
    };
    let metadata = match parse_metadata(t) {
        Ok(m) => m,
        Err(e) => return Err(e),
    };
    let request = CanonicalRequest {
        schema_version: SCHEMA_VERSION,
        model,
        messages,
        max_output_tokens,
        temperature: temperature_bits,
        stream,
        tools,
        tool_choice,
        response_format,
        metadata,
    };
    proof {
        let d = request_draft(t@, temperature_view(temperature));
        assert(d is Ok);
        assert(draft_of(request) == d->Ok_0);
    }
    match request.validate() {
        Ok(()) => Ok(request),
        Err(e) => {
            assert(e@ == (ErrorView { code: ErrorCode::RequestInvalid, message: "统一请求校验失败"@, issues: request_issues(request) }));
            Err(e)
        },
    }
}

// ---- Writing responses ----
pub open spec fn finish_name(r: FinishReason) -> Seq<char> {
    match r {
        FinishReason::Length => "length"@,
        FinishReason::ToolCall => "tool_calls"@,
        FinishReason::ContentFilter => "content_filter"@,
        _ => "stop"@,
    }
}

pub fn finish_reason_name(reason: FinishReason) -> (r: &'static str)
    ensures
        r@ == finish_name(reason),
{
    match reason {
        FinishReason::Length => "length",
        FinishReason::ToolCall => "tool_calls",
        FinishReason::ContentFilter => "content_filter",
        _ => "stop",
    }
}

/// `a + b`, saturating at `u64::MAX`.
pub open spec fn sat_sum(a: u64, b: u64) -> u64 {
    if a + b > u64::MAX {
        u64::MAX
    } else {
        (a + b) as u64
    }
}

fn sat_sum_exec(a: u64, b: u64) -> (r: u64)
    ensures
        r == sat_sum(a, b),
{
    if a > u64::MAX - b {
        u64::MAX
    } else {
        a + b
    }
}

/// The texts of the text parts among the first `n`.
pub open spec fn response_texts(ps: Seq<ContentPart>, n: int) -> Seq<Seq<char>>
    decreases n,
{
    if n <= 0 {
        seq![]
    } else {
        match ps[n - 1] {
            ContentPart::Text { text } => response_texts(ps, n - 1).push(text@),
            _ => response_texts(ps, n - 1),
        }
    }
}

/// The message content: the text parts run together, `null` when that is
/// empty.
pub open spec fn response_text_value(ps: Seq<ContentPart>) -> Seq<char> {
    let text = joined_by(response_texts(ps, ps.len() as int), seq![]);
    if text.len() == 0 {
        "null"@
    } else {
        q(text)
    }
}

/// The tool calls among the first `n` parts, as a Chat Completions message
/// lists them.
pub open spec fn response_calls(ps: Seq<ContentPart>, n: int) -> Seq<Seq<char>>
    decreases n,
{
    if n <= 0 {
        seq![]
    } else {
        match ps[n - 1] {
            ContentPart::ToolCall { id, name, arguments } => response_calls(ps, n - 1).push(
                obj(
                    seq![
                        kv("function"@, obj(seq![kv("arguments"@, q(arguments@)), kv("name"@, q(name@))])),
                        kv("id"@, q(id@)),
                        kv("type"@, q("function"@)),
                    ],
                ),
            ),
            _ => response_calls(ps, n - 1),
        }
    }
}

pub open spec fn decimal_text(n: u64) -> Seq<char> {
    decimal(n as nat)
}

/// The cached input tokens of a usage, 0 when unknown.
pub open spec fn cached_count(u: Usage) -> u64 {
    match u.cached_input_tokens {
        Some(c) => c,
        None => 0u64,
    }
}

/// The usage of a response, as a Chat Completions response reports it.
pub open spec fn usage_json(u: Usage) -> Seq<char> {
    obj(
        seq![
            kv("completion_tokens"@, decimal_text(u.output_tokens)),
            kv("prompt_tokens"@, decimal_text(u.input_tokens)),
            kv(
                "prompt_tokens_details"@,
                obj(
                    seq![kv("cached_tokens"@, decimal_text(cached_count(u)))],
                ),
            ),
            kv("total_tokens"@, decimal_text(sat_sum(u.input_tokens, u.output_tokens))),
        ],
    )
}

/// The assistant message of a response.
pub open spec fn message_json(ps: Seq<ContentPart>) -> Seq<char> {
    let calls = response_calls(ps, ps.len() as int);
    obj(
        seq![kv("content"@, response_text_value(ps)), kv("role"@, q("assistant"@))] + if calls.len() > 0 {
            seq![kv("tool_calls"@, arr(calls))]
        } else {
            seq![]
        },
    )
}

pub open spec fn response_id_text(r: CanonicalResponse) -> Seq<char> {
    match opt_text(r.provider_response_id) {
        Some(id) => id,
        None => "apiarray-response"@,
    }
}

pub open spec fn response_model_text(r: CanonicalResponse) -> Seq<char> {
    match opt_text(r.model) {
        Some(m) => m,
        None => "unknown"@,
    }
}

/// The Chat Completions response for a canonical response, with members in
/// the order `serde_json` writes an object's keys.
pub open spec fn response_json(r: CanonicalResponse) -> Seq<char> {
    obj(
        seq![
            kv(
                "choices"@,
                arr(seq![obj(seq![kv("finish_reason"@, q(finish_name(r.finish_reason))), kv("index"@, "0"@), kv("message"@, message_json(r.content@))])]),
            ),
            kv("id"@, q(response_id_text(r))),
            kv("model"@, q(response_model_text(r))),
            kv("object"@, q("chat.completion"@)),
            kv("usage"@, usage_json(r.usage)),
        ],
    )
}

fn collect_response_text(ps: &Vec<ContentPart>) -> (r: String)
    ensures
        r@ == response_text_value(ps@),
{
    let mut texts: Vec<String> = Vec::new();
    let mut i: usize = 0;
    assert(str_views(texts@) =~= seq![]);
    while i < ps.len()
        invariant
            i <= ps@.len(),
            str_views(texts@) == response_texts(ps@, i as int),
        decreases ps.len() - i,
    {
        match &ps[i] {
            ContentPart::Text { text } => push_member(&mut texts, text.clone()),
            _ => {},
        }
        i = i + 1;
    }
    let text = joined_exec(&texts, "");
    proof {
        reveal_strlit("");
        assert(""@ =~= Seq::<char>::empty());
    }
    if text.as_str().unicode_len() == 0 {
        text::owned("null")
    } else {
        crate::json::json_quote(text.as_str())
    }
}

fn response_calls_exec(ps: &Vec<ContentPart>) -> (r: Vec<String>)
    ensures
        str_views(r@) == response_calls(ps@, ps@.len() as int),
{
    let mut calls: Vec<String> = Vec::new();
    let mut i: usize = 0;
    assert(str_views(calls@) =~= seq![]);
    while i < ps.len()
        invariant
            i <= ps@.len(),
            str_views(calls@) == response_calls(ps@, i as int),
        decreases ps.len() - i,
    {
        match &ps[i] {
            ContentPart::ToolCall { id, name, arguments } => {
                let mut f: Vec<String> = Vec::new();
                push_member(&mut f, quoted_kv("arguments", arguments.as_str()));
                push_member(&mut f, quoted_kv("name", name.as_str()));
                assert(str_views(f@) =~= seq![kv("arguments"@, q(arguments@)), kv("name"@, q(name@))]);
                let function = obj_exec(&f);
                let mut c: Vec<String> = Vec::new();
                push_member(&mut c, kv_exec("function", function.as_str()));
                push_member(&mut c, quoted_kv("id", id.as_str()));
                push_member(&mut c, quoted_kv("type", "function"));
                assert(str_views(c@) =~= seq![
                    kv("function"@, obj(seq![kv("arguments"@, q(arguments@)), kv("name"@, q(name@))])),
                    kv("id"@, q(id@)),
                    kv("type"@, q("function"@)),
                ]);
                push_member(&mut calls, obj_exec(&c));
            },
            _ => {},
        }
        i = i + 1;
    }
    calls
}

fn decimal_exec(n: u64) -> (r: String)
    ensures
        r@ == decimal_text(n),
{
    text::decimal_string(n)
}

fn usage_exec(u: Usage) -> (r: String)
    ensures
        r@ == usage_json(u),
{
    let cached = match u.cached_input_tokens {
        Some(c) => c,
        None => 0,
    };
    let cached_text = decimal_exec(cached);
    let mut details: Vec<String> = Vec::new();
    push_member(&mut details, kv_exec("cached_tokens", cached_text.as_str()));
    let details_text = obj_exec(&details);
    let mut usage: Vec<String> = Vec::new();
    let completion = decimal_exec(u.output_tokens);
    push_member(&mut usage, kv_exec("completion_tokens", completion.as_str()));
    let prompt = decimal_exec(u.input_tokens);
    push_member(&mut usage, kv_exec("prompt_tokens", prompt.as_str()));
    push_member(&mut usage, kv_exec("prompt_tokens_details", details_text.as_str()));
    let total = decimal_exec(sat_sum_exec(u.input_tokens, u.output_tokens));
    push_member(&mut usage, kv_exec("total_tokens", total.as_str()));
    proof {
        assert(str_views(details@) =~= seq![kv("cached_tokens"@, decimal_text(cached))]);
        assert(str_views(usage@) =~= seq![
            kv("completion_tokens"@, decimal_text(u.output_tokens)),
            kv("prompt_tokens"@, decimal_text(u.input_tokens)),
            kv("prompt_tokens_details"@, obj(seq![kv("cached_tokens"@, decimal_text(cached))])),
            kv("total_tokens"@, decimal_text(sat_sum(u.input_tokens, u.output_tokens))),
        ]);
    }
    obj_exec(&usage)
}

fn message_exec(ps: &Vec<ContentPart>) -> (r: String)
    ensures
        r@ == message_json(ps@),
{
    let calls = response_calls_exec(ps);
    let content = collect_response_text(ps);
    let mut message: Vec<String> = Vec::new();
    push_member(&mut message, kv_exec("content", content.as_str()));
    push_member(&mut message, quoted_kv("role", "assistant"));
    if calls.len() > 0 {
        let a = arr_exec(&calls);
        push_member(&mut message, kv_exec("tool_calls", a.as_str()));
    }
    proof {
        let calls_v = response_calls(ps@, ps@.len() as int);
        assert(str_views(message@) =~= seq![kv("content"@, response_text_value(ps@)), kv("role"@, q("assistant"@))]
            + if calls_v.len() > 0 {
            seq![kv("tool_calls"@, arr(calls_v))]
        } else {
            seq![]
        });
    }
    obj_exec(&message)
}

/// The Chat Completions response for a canonical response, as JSON text.
pub fn encode_chat_completions_response(response: &CanonicalResponse) -> (r: String)
    ensures
        r@ == response_json(*response),
{
    let message_text = message_exec(&response.content);
    let mut choice: Vec<String> = Vec::new();
    push_member(&mut choice, quoted_kv("finish_reason", finish_reason_name(response.finish_reason)));
    push_member(&mut choice, kv_exec("index", "0"));
    push_member(&mut choice, kv_exec("message", message_text.as_str()));
    let mut choices: Vec<String> = Vec::new();
    push_member(&mut choices, obj_exec(&choice));
    let choices_text = arr_exec(&choices);
    let usage_text = usage_exec(response.usage);
    let id = match &response.provider_response_id {
        Some(id) => id.clone(),
        None => text::owned("apiarray-response"),
    };
    let model = match &response.model {
        Some(m) => m.clone(),
        None => text::owned("unknown"),
    };
    let mut top: Vec<String> = Vec::new();
    push_member(&mut top, kv_exec("choices", choices_text.as_str()));
    push_member(&mut top, quoted_kv("id", id.as_str()));
    push_member(&mut top, quoted_kv("model", model.as_str()));
    push_member(&mut top, quoted_kv("object", "chat.completion"));
    push_member(&mut top, kv_exec("usage", usage_text.as_str()));
    proof {
        let cv = seq![kv("finish_reason"@, q(finish_name(response.finish_reason))), kv("index"@, "0"@), kv("message"@, message_json(response.content@))];
        assert(str_views(choice@) =~= cv);
        assert(str_views(choices@) =~= seq![obj(cv)]);
        let idv = match opt_text(response.provider_response_id) {
            Some(i) => i,
            None => "apiarray-response"@,
        };
        let mv = match opt_text(response.model) {
            Some(m) => m,
            None => "unknown"@,
        };
        assert(str_views(top@) =~= seq![
            kv("choices"@, arr(seq![obj(cv)])),
            kv("id"@, q(idv)),
            kv("model"@, q(mv)),
            kv("object"@, q("chat.completion"@)),
            kv("usage"@, usage_json(response.usage)),
        ]);
    }
    obj_exec(&top)
}

// ---- Writing stream events ----
/// Writes canonical stream events as Chat Completions SSE frames, carrying
/// the response id and model of the stream.
#[derive(Debug, Clone)]
pub struct OpenAiStreamEncoder {
    response_id: String,
    model: String,
}

/// One `chat.completion.chunk` frame.
pub open spec fn chunk_text(id: Seq<char>, model: Seq<char>, delta: Seq<char>, finish: Seq<char>, usage: Option<Seq<char>>) -> Seq<char> {
    "data: "@ + obj(
        seq![
            kv("choices"@, arr(seq![obj(seq![kv("delta"@, delta), kv("finish_reason"@, finish), kv("index"@, "0"@)])])),
            kv("id"@, q(id)),
            kv("model"@, q(model)),
            kv("object"@, q("chat.completion.chunk"@)),
        ] + match usage {
            Some(u) => seq![kv("usage"@, u)],
            None => seq![],
        },
    ) + "\n\n"@
}

pub open spec fn opt_json(o: Option<Seq<char>>) -> Seq<char> {
    match o {
        Some(s) => q(s),
        None => "null"@,
    }
}

/// The frames written for an event, given the stream's id and model after
/// the event.
pub open spec fn event_frames(id: Seq<char>, model: Seq<char>, e: EventView) -> Seq<Seq<char>> {
    match e {
        EventView::Started { .. } => seq![chunk_text(id, model, obj(seq![kv("role"@, q("assistant"@))]), "null"@, None)],
        EventView::TextDelta { text } => seq![chunk_text(id, model, obj(seq![kv("content"@, q(text))]), "null"@, None)],
        EventView::ToolCallDelta { index, id: call_id, name, arguments_delta } => seq![
            chunk_text(
                id,
                model,
                obj(
                    seq![
                        kv(
                            "tool_calls"@,
                            arr(
                                seq![
                                    obj(
                                        seq![
                                            kv("function"@, obj(seq![kv("arguments"@, q(arguments_delta)), kv("name"@, opt_json(name))])),
                                            kv("id"@, opt_json(call_id)),
                                            kv("index"@, decimal(index as nat)),
                                            kv("type"@, q("function"@)),
                                        ],
                                    ),
                                ],
                            ),
                        ),
                    ],
                ),
                "null"@,
                None,
            ),
        ],
        EventView::Usage { usage } => seq![
            chunk_text(
                id,
                model,
                obj(seq![]),
                "null"@,
                Some(
                    obj(
                        seq![
                            kv("completion_tokens"@, decimal_text(usage.output_tokens)),
                            kv("prompt_tokens"@, decimal_text(usage.input_tokens)),
                            kv("total_tokens"@, decimal_text(sat_sum(usage.input_tokens, usage.output_tokens))),
                        ],
                    ),
                ),
            ),
        ],
        EventView::Finished { reason } => seq![chunk_text(id, model, obj(seq![]), q(finish_name(reason)), None), "data: [DONE]\n\n"@],
    }
}

/// The stream's id after an event: a start with an id replaces it.
pub open spec fn next_id(id: Seq<char>, e: EventView) -> Seq<char> {
    match e {
        EventView::Started { response_id: Some(r), .. } => r,
        _ => id,
    }
}

/// The stream's model after an event: a start with a model replaces it.
pub open spec fn next_model(model: Seq<char>, e: EventView) -> Seq<char> {
    match e {
        EventView::Started { model: Some(m), .. } => m,
        _ => model,
    }
}

impl OpenAiStreamEncoder {
    pub closed spec fn id_view(&self) -> Seq<char> {
        self.response_id@
    }

    pub closed spec fn model_view(&self) -> Seq<char> {
        self.model@
    }

    pub fn new(response_id: &str, model: &str) -> (r: Self)
        ensures
            r.id_view() == response_id@,
            r.model_view() == model@,
    {
        OpenAiStreamEncoder { response_id: text::owned(response_id), model: text::owned(model) }
    }

    fn chunk(&self, delta: &str, finish_reason: &str, usage: Option<&str>) -> (r: String)
        ensures
            r@ == chunk_text(
                self.response_id@,
                self.model@,
                delta@,
                finish_reason@,
                match usage {
                    Some(u) => Some(u@),
                    None => None,
                },
            ),
    {
        let mut choice: Vec<String> = Vec::new();
        push_member(&mut choice, kv_exec("delta", delta));
        push_member(&mut choice, kv_exec("finish_reason", finish_reason));
        push_member(&mut choice, kv_exec("index", "0"));
        let mut choices: Vec<String> = Vec::new();
        push_member(&mut choices, obj_exec(&choice));
        let choices_text = arr_exec(&choices);
        let mut members: Vec<String> = Vec::new();
        push_member(&mut members, kv_exec("choices", choices_text.as_str()));
        push_member(&mut members, quoted_kv("id", self.response_id.as_str()));
        push_member(&mut members, quoted_kv("model", self.model.as_str()));
        push_member(&mut members, quoted_kv("object", "chat.completion.chunk"));
        let ghost head = str_views(members@);
        match usage {
            Some(u) => push_member(&mut members, kv_exec("usage", u)),
            None => {},
        }
        proof {
            let uv = match usage {
                Some(u) => Some(u@),
                None => None::<Seq<char>>,
            };
            let cv = seq![kv("delta"@, delta@), kv("finish_reason"@, finish_reason@), kv("index"@, "0"@)];
            assert(str_views(choice@) =~= cv);
            assert(str_views(choices@) =~= seq![obj(cv)]);
            assert(head =~= seq![
                kv("choices"@, arr(seq![obj(cv)])),
                kv("id"@, q(self.response_id@)),
                kv("model"@, q(self.model@)),
                kv("object"@, q("chat.completion.chunk"@)),
            ]);
            assert(str_views(members@) =~= head + match uv {
                Some(u) => seq![kv("usage"@, u)],
                None => seq![],
            });
        }
        let body = obj_exec(&members);
        let mut frame = text::owned("data: ");
        text::push_str(&mut frame, body.as_str());
        text::push_str(&mut frame, "\n\n");
        frame
    }

    /// The SSE frames for one canonical stream event. A start event takes
    /// its id and model, when it carries them, for this and later frames; a
    /// finish is followed by the `[DONE]` frame.
    pub fn encode(&mut self, event: &StreamEvent) -> (r: Vec<String>)
        ensures
            final(self).id_view() == next_id(old(self).id_view(), event@),
            final(self).model_view() == next_model(old(self).model_view(), event@),
            str_views(r@) == event_frames(final(self).id_view(), final(self).model_view(), event@),
    {
        let mut frames: Vec<String> = Vec::new();
        match event {
            StreamEvent::Started { response_id, model } => {
                match response_id {
                    Some(id) => {
                        self.response_id = id.clone();
                    },
                    None => {},
                }
                match model {
                    Some(m) => {
                        self.model = m.clone();
                    },
                    None => {},
                }
                let mut d: Vec<String> = Vec::new();
                push_member(&mut d, quoted_kv("role", "assistant"));
                assert(str_views(d@) =~= seq![kv("role"@, q("assistant"@))]);
                let delta = obj_exec(&d);
                let frame = self.chunk(delta.as_str(), "null", None);
                push_member(&mut frames, frame);
            },
            StreamEvent::TextDelta { text } => {
                let mut d: Vec<String> = Vec::new();
                push_member(&mut d, quoted_kv("content", text.as_str()));
                assert(str_views(d@) =~= seq![kv("content"@, q(text@))]);
                let delta = obj_exec(&d);
                let frame = self.chunk(delta.as_str(), "null", None);
                push_member(&mut frames, frame);
            },
            StreamEvent::ToolCallDelta { index, id, name, arguments_delta } => {
                let name_text = match name {
                    Some(n) => crate::json::json_quote(n.as_str()),
                    None => text::owned("null"),
                };
                let id_text = match id {
                    Some(i) => crate::json::json_quote(i.as_str()),
                    None => text::owned("null"),
                };
                let mut f: Vec<String> = Vec::new();
                push_member(&mut f, quoted_kv("arguments", arguments_delta.as_str()));
                push_member(&mut f, kv_exec("name", name_text.as_str()));
                let function = obj_exec(&f);
                let index_text = text::decimal_string(*index as u64);
                let mut c: Vec<String> = Vec::new();
                push_member(&mut c, kv_exec("function", function.as_str()));
                push_member(&mut c, kv_exec("id", id_text.as_str()));
                push_member(&mut c, kv_exec("index", index_text.as_str()));
                push_member(&mut c, quoted_kv("type", "function"));
                let mut list: Vec<String> = Vec::new();
                push_member(&mut list, obj_exec(&c));
                let list_text = arr_exec(&list);
                let mut d: Vec<String> = Vec::new();
                push_member(&mut d, kv_exec("tool_calls", list_text.as_str()));
                let delta = obj_exec(&d);
                proof {
                    let fv = seq![kv("arguments"@, q(arguments_delta@)), kv("name"@, opt_json(opt_text(*name)))];
                    assert(str_views(f@) =~= fv);
                    let cv = seq![
                        kv("function"@, obj(fv)),
                        kv("id"@, opt_json(opt_text(*id))),
                        kv("index"@, decimal(*index as nat)),
                        kv("type"@, q("function"@)),
                    ];
                    assert(str_views(c@) =~= cv);
                    assert(str_views(list@) =~= seq![obj(cv)]);
                    assert(str_views(d@) =~= seq![kv("tool_calls"@, arr(seq![obj(cv)]))]);
                }
                let frame = self.chunk(delta.as_str(), "null", None);
                push_member(&mut frames, frame);
            },
            StreamEvent::Usage { usage } => {
                let empty: Vec<String> = Vec::new();
                let delta = obj_exec(&empty);
                let mut u: Vec<String> = Vec::new();
                let completion = decimal_exec(usage.output_tokens);
                push_member(&mut u, kv_exec("completion_tokens", completion.as_str()));
                let prompt = decimal_exec(usage.input_tokens);
                push_member(&mut u, kv_exec("prompt_tokens", prompt.as_str()));
                let total = decimal_exec(sat_sum_exec(usage.input_tokens, usage.output_tokens));
                push_member(&mut u, kv_exec("total_tokens", total.as_str()));
                let usage_text = obj_exec(&u);
                proof {
                    assert(str_views(empty@) =~= seq![]);
                    assert(str_views(u@) =~= seq![
                        kv("completion_tokens"@, decimal_text(usage.output_tokens)),
                        kv("prompt_tokens"@, decimal_text(usage.input_tokens)),
                        kv("total_tokens"@, decimal_text(sat_sum(usage.input_tokens, usage.output_tokens))),
                    ]);
                }
                let frame = self.chunk(delta.as_str(), "null", Some(usage_text.as_str()));
                push_member(&mut frames, frame);
            },
            StreamEvent::Finished { reason } => {
                let empty: Vec<String> = Vec::new();
                assert(str_views(empty@) =~= seq![]);
                let delta = obj_exec(&empty);
                let finish = crate::json::json_quote(finish_reason_name(*reason));
                let frame = self.chunk(delta.as_str(), finish.as_str(), None);
                push_member(&mut frames, frame);
                push_member(&mut frames, text::owned("data: [DONE]\n\n"));
            },
        }
        assert(str_views(frames@) =~= event_frames(self.response_id@, self.model@, event@));
        frames
    }
}

} // verus!
