//! The provider-neutral vocabulary of requests and responses: messages and
//! their content, tools, response formats, finish reasons and token usage.
//! JSON payloads (tool arguments and schemas) are held as JSON text; the
//! temperature is held as the IEEE 754 bit pattern of its `f32` value
//! (`f32::to_bits`).
use crate::error::{issue_views, iv, CoreError, ErrorCode, IssueView, ValidationIssue};
use crate::json::{json_is_object, json_is_object_at};
use crate::routing::opt_issue;
use crate::text::{self, decimal, is_blank};
use crate::SCHEMA_VERSION;
use vstd::prelude::*;

verus! {

#[derive(Debug, Clone, Copy, PartialEq, Eq, Structural)]
pub enum Role {
    System,
    User,
    Assistant,
    Tool,
}

#[derive(Debug, Clone, Copy, PartialEq, Eq, Structural)]
pub enum ImageDetail {
    Low,
    High,
    Auto,
}

impl Default for ImageDetail {
    fn default() -> (r: Self)
        ensures
            r == ImageDetail::Auto,
    {
        ImageDetail::Auto
    }
}

#[derive(Debug, Clone, Copy, PartialEq, Eq, Structural)]
pub enum FinishReason {
    Stop,
    Length,
    ToolCall,
    ContentFilter,
    Error,
    Unknown,
}

impl Default for FinishReason {
    fn default() -> (r: Self)
        ensures
            r == FinishReason::Unknown,
    {
        FinishReason::Unknown
    }
}

#[derive(Debug, Clone, Copy, PartialEq, Eq, Structural)]
pub struct Usage {
    pub input_tokens: u64,
    pub output_tokens: u64,
    pub cached_input_tokens: Option<u64>,
}

impl Default for Usage {
    fn default() -> (r: Self)
        ensures
            r == (Usage { input_tokens: 0, output_tokens: 0, cached_input_tokens: None }),
    {
        Usage { input_tokens: 0, output_tokens: 0, cached_input_tokens: None }
    }
}

#[derive(Debug, Clone, PartialEq, Eq)]
pub enum ContentPart {
    Text { text: String },
    ImageUrl { url: String, detail: ImageDetail },
    /// A call of a tool, its arguments as JSON text.
    ToolCall { id: String, name: String, arguments: String },
    ToolResult { tool_call_id: String, content: String, is_error: bool },
}

#[derive(Debug, Clone, PartialEq, Eq)]
pub struct Message {
    pub role: Role,
    pub content: Vec<ContentPart>,
    pub name: Option<String>,
    pub tool_call_id: Option<String>,
}

/// A tool the model may call, its input schema as JSON text.
#[derive(Debug, Clone, PartialEq, Eq)]
pub struct ToolDefinition {
    pub name: String,
    pub description: String,
    pub input_schema: String,
}

#[derive(Debug, Clone, PartialEq, Eq)]
pub enum ToolChoice {
    Auto,
    /// No tool may be called.
    NoTool,
    Required,
    Named(String),
}

impl Default for ToolChoice {
    fn default() -> (r: Self)
        ensures
            r == ToolChoice::Auto,
    {
        ToolChoice::Auto
    }
}

#[derive(Debug, Clone, PartialEq, Eq)]
pub enum ResponseFormat {
    Text,
    JsonObject,
    /// A JSON schema, as JSON text, the answer must follow.
    JsonSchema { name: String, schema: String, strict: bool },
}

impl Default for ResponseFormat {
    fn default() -> (r: Self)
        ensures
            r == ResponseFormat::Text,
    {
        ResponseFormat::Text
    }
}

#[derive(Debug, Clone, PartialEq, Eq)]
pub struct CanonicalRequest {
    pub schema_version: u32,
    pub model: String,
    pub messages: Vec<Message>,
    pub max_output_tokens: u32,
    /// `f32::to_bits` of the temperature.
    pub temperature: Option<u32>,
    pub stream: bool,
    pub tools: Vec<ToolDefinition>,
    pub tool_choice: ToolChoice,
    pub response_format: ResponseFormat,
    /// Request metadata, in key order.
    pub metadata: Vec<(String, String)>,
}

#[derive(Debug, Clone, PartialEq, Eq)]
pub struct CanonicalResponse {
    pub schema_version: u32,
    pub provider_response_id: Option<String>,
    pub model: Option<String>,
    pub content: Vec<ContentPart>,
    pub finish_reason: FinishReason,
    pub usage: Usage,
}

/// `(0.0..=2.0).contains(&f32::from_bits(bits))`: non-negative values up to
/// 2.0 and negative zero.
pub open spec fn f32_bits_within_two(bits: u32) -> bool {
    bits <= 0x4000_0000u32 || bits == 0x8000_0000u32
}

pub open spec fn message_issues(ms: Seq<Message>, n: int) -> Seq<IssueView>
    decreases n,
{
    if n <= 0 {
        seq![]
    } else {
        let m = ms[n - 1];
        let path = "messages["@ + decimal((n - 1) as nat) + "]"@;
        message_issues(ms, n - 1) + opt_issue(m.content@.len() == 0, iv(path + ".content"@, "REQUIRED"@, "消息内容不能为空"@))
            + opt_issue(
            m.role == Role::Tool && m.tool_call_id is None,
            iv(path + ".tool_call_id"@, "REQUIRED"@, "Tool 消息必须引用 tool_call_id"@),
        )
    }
}

pub open spec fn tool_issues(ts: Seq<ToolDefinition>, n: int) -> Seq<IssueView>
    decreases n,
{
    if n <= 0 {
        seq![]
    } else {
        let t = ts[n - 1];
        tool_issues(ts, n - 1) + opt_issue(
            is_blank(t.name@) || !json_is_object_at(t.input_schema@, ""@),
            iv("tools["@ + decimal((n - 1) as nat) + "]"@, "INVALID_TOOL"@, "工具名称不能为空且 input_schema 必须是 JSON Object"@),
        )
    }
}

/// Every issue request validation reports, in order.
pub open spec fn request_issues(r: CanonicalRequest) -> Seq<IssueView> {
    request_issues_as(r, r.model@)
}

/// The issues of the request once its model is replaced by `model`.
pub open spec fn request_issues_as(r: CanonicalRequest, model: Seq<char>) -> Seq<IssueView> {
    opt_issue(r.schema_version != SCHEMA_VERSION, iv("schema_version"@, "UNSUPPORTED_SCHEMA"@, "请求 Schema 版本不受支持"@))
        + opt_issue(is_blank(model), iv("model"@, "REQUIRED"@, "模型不能为空"@)) + opt_issue(
        r.messages@.len() == 0,
        iv("messages"@, "REQUIRED"@, "至少需要一条消息"@),
    ) + opt_issue(
        r.max_output_tokens == 0 || r.max_output_tokens > 1_000_000,
        iv("max_output_tokens"@, "OUT_OF_RANGE"@, "输出 Token 必须在 1 到 1000000 之间"@),
    ) + opt_issue(
        r.temperature matches Some(t) && !f32_bits_within_two(t),
        iv("temperature"@, "OUT_OF_RANGE"@, "温度必须在 0 到 2 之间"@),
    ) + message_issues(r.messages@, r.messages@.len() as int) + tool_issues(r.tools@, r.tools@.len() as int)
}

fn push_issue(issues: &mut Vec<ValidationIssue>, cond: bool, path: &str, code: &str, message: &str)
    ensures
        issue_views(final(issues)@) == issue_views(old(issues)@) + opt_issue(cond, iv(path@, code@, message@)),
{
    if cond {
        issues.push(ValidationIssue::new(path, code, message));
    }
    assert(issue_views(final(issues)@) =~= issue_views(old(issues)@) + opt_issue(cond, iv(path@, code@, message@)));
}

fn indexed(prefix: &str, i: usize, suffix: &str) -> (r: String)
    ensures
        r@ == prefix@ + decimal(i as nat) + "]"@ + suffix@,
{
    let mut r = text::owned(prefix);
    let d = text::decimal_string(i as u64);
    text::push_str(&mut r, d.as_str());
    text::push_str(&mut r, "]");
    text::push_str(&mut r, suffix);
    r
}

impl CanonicalRequest {
    /// Checks that a request may enter the adapters: schema, model,
    /// messages, output tokens, temperature and tool definitions.
    pub fn validate(&self) -> (r: Result<(), CoreError>)
        ensures
            match r {
                Ok(()) => request_issues(*self).len() == 0,
                Err(e) => request_issues(*self).len() > 0 && e.code == ErrorCode::RequestInvalid && e.message@
                    == "统一请求校验失败"@ && e@.issues == request_issues(*self),
            },
    {
        self.validate_as(self.model.as_str())
    }

    /// Validation of the request as it is sent upstream under `model`.
    pub(crate) fn validate_as(&self, model: &str) -> (r: Result<(), CoreError>)
        ensures
            match r {
                Ok(()) => request_issues_as(*self, model@).len() == 0,
                Err(e) => request_issues_as(*self, model@).len() > 0 && e.code == ErrorCode::RequestInvalid && e.message@
                    == "统一请求校验失败"@ && e@.issues == request_issues_as(*self, model@),
            },
    {
        let mut issues: Vec<ValidationIssue> = Vec::new();
        assert(issue_views(issues@) =~= seq![]);
        push_issue(&mut issues, self.schema_version != SCHEMA_VERSION, "schema_version", "UNSUPPORTED_SCHEMA", "请求 Schema 版本不受支持");
        push_issue(&mut issues, text::is_blank_str(model), "model", "REQUIRED", "模型不能为空");
        push_issue(&mut issues, self.messages.len() == 0, "messages", "REQUIRED", "至少需要一条消息");
        push_issue(
            &mut issues,
            self.max_output_tokens == 0 || self.max_output_tokens > 1_000_000,
            "max_output_tokens",
            "OUT_OF_RANGE",
            "输出 Token 必须在 1 到 1000000 之间",
        );
        let bad_temperature = match self.temperature {
            Some(t) => !(t <= 0x4000_0000u32 || t == 0x8000_0000u32),
            None => false,
        };
        push_issue(&mut issues, bad_temperature, "temperature", "OUT_OF_RANGE", "温度必须在 0 到 2 之间");
        let ghost s1 = issue_views(issues@);
        let mut i: usize = 0;
        while i < self.messages.len()
            invariant
                i <= self.messages@.len(),
                issue_views(issues@) == s1 + message_issues(self.messages@, i as int),
            decreases self.messages.len() - i,
        {
            let m = &self.messages[i];
            let p1 = indexed("messages[", i, ".content");
            push_issue(&mut issues, m.content.len() == 0, p1.as_str(), "REQUIRED", "消息内容不能为空");
            let p2 = indexed("messages[", i, ".tool_call_id");
            push_issue(&mut issues, m.role == Role::Tool && m.tool_call_id.is_none(), p2.as_str(), "REQUIRED", "Tool 消息必须引用 tool_call_id");
            assert(issue_views(issues@) =~= s1 + message_issues(self.messages@, i + 1));
            i = i + 1;
        }
        let ghost s2 = issue_views(issues@);
        let mut k: usize = 0;
        while k < self.tools.len()
            invariant
                k <= self.tools@.len(),
                issue_views(issues@) == s2 + tool_issues(self.tools@, k as int),
            decreases self.tools.len() - k,
        {
            let t = &self.tools[k];
            let p = indexed("tools[", k, "");
            let invalid = text::is_blank_str(t.name.as_str()) || !json_is_object(t.input_schema.as_str(), "");
            proof {
                reveal_strlit("");
            }
            push_issue(&mut issues, invalid, p.as_str(), "INVALID_TOOL", "工具名称不能为空且 input_schema 必须是 JSON Object");
            assert(p@ == "tools["@ + decimal(k as nat) + "]"@) by {
                assert("tools["@ + decimal(k as nat) + "]"@ + ""@ =~= "tools["@ + decimal(k as nat) + "]"@);
            }
            assert(issue_views(issues@) =~= s2 + tool_issues(self.tools@, k + 1));
            k = k + 1;
        }
        assert(issue_views(issues@) =~= request_issues_as(*self, model@));
        if issues.len() == 0 {
            Ok(())
        } else {
            Err(CoreError::validation(ErrorCode::RequestInvalid, "统一请求校验失败", issues))
        }
    }
}

impl Message {
    /// A message of one text part.
    pub fn text(role: Role, text: &str) -> (r: Self)
        ensures
            r.role == role,
            r.content@.len() == 1,
            r.content@[0] == (ContentPart::Text { text: r.content@[0]->Text_text }),
            r.content@[0]->Text_text@ == text@,
            r.name is None,
            r.tool_call_id is None,
    {
        let mut content: Vec<ContentPart> = Vec::new();
        content.push(ContentPart::Text { text: text::owned(text) });
        Message { role, content, name: None, tool_call_id: None }
    }
}

} // verus!
