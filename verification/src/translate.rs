//! Request bodies in the wire format of each adapter, written as JSON text.
//! Strings are quoted by `serde_json`; tool schemas are embedded as given
//! and tool-call arguments are held as compact JSON text. The temperature is
//! given already written as a JSON number.
use crate::adapter::{detail_text, image_detail, role_name, role_text};
use crate::canonical::{CanonicalRequest, ContentPart, Message, ResponseFormat, Role, ToolChoice, ToolDefinition};
use crate::json::{json_quote, json_string_literal};
use crate::sort::str_views;
use crate::text::{self, decimal};
use vstd::prelude::*;

verus! {

pub open spec fn q(s: Seq<char>) -> Seq<char> {
    json_string_literal(s)
}

/// A member of an object.
pub open spec fn kv(key: Seq<char>, value: Seq<char>) -> Seq<char> {
    q(key) + ":"@ + value
}

pub open spec fn joined_by(items: Seq<Seq<char>>, sep: Seq<char>) -> Seq<char>
    decreases items.len(),
{
    if items.len() == 0 {
        seq![]
    } else if items.len() == 1 {
        items[0]
    } else {
        joined_by(items.drop_last(), sep) + sep + items.last()
    }
}

pub open spec fn obj(members: Seq<Seq<char>>) -> Seq<char> {
    "{"@ + joined_by(members, ","@) + "}"@
}

pub open spec fn arr(items: Seq<Seq<char>>) -> Seq<char> {
    "["@ + joined_by(items, ","@) + "]"@
}

pub open spec fn bool_text(b: bool) -> Seq<char> {
    if b {
        "true"@
    } else {
        "false"@
    }
}

pub open spec fn opt_member(present: bool, member: Seq<char>) -> Seq<Seq<char>> {
    if present {
        seq![member]
    } else {
        seq![]
    }
}

pub(crate) fn joined_exec(items: &Vec<String>, sep: &str) -> (r: String)
    ensures
        r@ == joined_by(str_views(items@), sep@),
{
    let mut r = String::new();
    let mut i: usize = 0;
    assert(str_views(items@).take(0) =~= seq![]);
    while i < items.len()
        invariant
            i <= items@.len(),
            r@ == joined_by(str_views(items@).take(i as int), sep@),
        decreases items.len() - i,
    {
        if i > 0 {
            text::push_str(&mut r, sep);
        }
        text::push_str(&mut r, items[i].as_str());
        proof {
            let t1 = str_views(items@).take(i + 1);
            assert(t1.drop_last() =~= str_views(items@).take(i as int));
            if i == 0 {
                assert(r@ =~= t1[0]) by {
                    assert(str_views(items@).take(0) =~= seq![]);
                }
            }
        }
        i = i + 1;
    }
    assert(str_views(items@).take(items@.len() as int) =~= str_views(items@));
    r
}

pub(crate) fn obj_exec(members: &Vec<String>) -> (r: String)
    ensures
        r@ == obj(str_views(members@)),
{
    let mut r = text::owned("{");
    let inner = joined_exec(members, ",");
    text::push_str(&mut r, inner.as_str());
    text::push_str(&mut r, "}");
    r
}

pub(crate) fn arr_exec(items: &Vec<String>) -> (r: String)
    ensures
        r@ == arr(str_views(items@)),
{
    let mut r = text::owned("[");
    let inner = joined_exec(items, ",");
    text::push_str(&mut r, inner.as_str());
    text::push_str(&mut r, "]");
    r
}

pub(crate) fn kv_exec(key: &str, value: &str) -> (r: String)
    ensures
        r@ == kv(key@, value@),
{
    let mut r = json_quote(key);
    text::push_str(&mut r, ":");
    text::push_str(&mut r, value);
    r
}

pub(crate) fn quoted_kv(key: &str, value: &str) -> (r: String)
    ensures
        r@ == kv(key@, q(value@)),
{
    let v = json_quote(value);
    kv_exec(key, v.as_str())
}

pub(crate) fn bool_exec(b: bool) -> (r: &'static str)
    ensures
        r@ == bool_text(b),
{
    if b {
        "true"
    } else {
        "false"
    }
}

pub(crate) fn push_member(members: &mut Vec<String>, m: String)
    ensures
        str_views(final(members)@) == str_views(old(members)@).push(m@),
{
    members.push(m);
    assert(str_views(final(members)@) =~= str_views(old(members)@).push(m@));
}

/// The text of the parts that carry text: text parts and tool results.
pub open spec fn part_texts(ps: Seq<ContentPart>, n: int) -> Seq<Seq<char>>
    decreases n,
{
    if n <= 0 {
        seq![]
    } else {
        let rest = part_texts(ps, n - 1);
        match ps[n - 1] {
            ContentPart::Text { text } => rest.push(text@),
            ContentPart::ToolResult { content, .. } => rest.push(content@),
            _ => rest,
        }
    }
}

/// The text of the parts, one line each.
pub open spec fn collected_text(ps: Seq<ContentPart>) -> Seq<char> {
    joined_by(part_texts(ps, ps.len() as int), "\n"@)
}

pub(crate) fn collect_text(ps: &Vec<ContentPart>) -> (r: String)
    ensures
        r@ == collected_text(ps@),
{
    let mut texts: Vec<String> = Vec::new();
    let mut i: usize = 0;
    assert(str_views(texts@) =~= seq![]);
    while i < ps.len()
        invariant
            i <= ps@.len(),
            str_views(texts@) == part_texts(ps@, i as int),
        decreases ps.len() - i,
    {
        match &ps[i] {
            ContentPart::Text { text } => push_member(&mut texts, text.clone()),
            ContentPart::ToolResult { content, .. } => push_member(&mut texts, content.clone()),
            _ => {},
        }
        i = i + 1;
    }
    joined_exec(&texts, "\n")
}

// ---- OpenAI chat completions ----
/// The content entry of a text or image part.
pub open spec fn openai_content_entry(p: ContentPart) -> Seq<char> {
    match p {
        ContentPart::Text { text } => obj(seq![kv("type"@, q("text"@)), kv("text"@, q(text@))]),
        ContentPart::ImageUrl { url, detail } => obj(
            seq![kv("type"@, q("image_url"@)), kv("image_url"@, obj(seq![kv("url"@, q(url@)), kv("detail"@, q(detail_text(detail)))]))],
        ),
        _ => seq![],
    }
}

/// The text and image parts among the first `n`.
pub open spec fn content_parts(ps: Seq<ContentPart>, n: int) -> Seq<ContentPart>
    decreases n,
{
    if n <= 0 {
        seq![]
    } else {
        let rest = content_parts(ps, n - 1);
        match ps[n - 1] {
            ContentPart::Text { .. } => rest.push(ps[n - 1]),
            ContentPart::ImageUrl { .. } => rest.push(ps[n - 1]),
            _ => rest,
        }
    }
}

/// The tool calls among the first `n` parts, as OpenAI writes them.
pub open spec fn openai_calls(ps: Seq<ContentPart>, n: int) -> Seq<Seq<char>>
    decreases n,
{
    if n <= 0 {
        seq![]
    } else {
        let rest = openai_calls(ps, n - 1);
        match ps[n - 1] {
            ContentPart::ToolCall { id, name, arguments } => rest.push(
                obj(
                    seq![
                        kv("id"@, q(id@)),
                        kv("type"@, q("function"@)),
                        kv("function"@, obj(seq![kv("name"@, q(name@)), kv("arguments"@, q(arguments@))])),
                    ],
                ),
            ),
            _ => rest,
        }
    }
}

pub open spec fn has_tool_result(ps: Seq<ContentPart>) -> bool {
    exists|i: int| 0 <= i < ps.len() && #[trigger] ps[i] is ToolResult
}

/// A lone text part becomes the content string; otherwise the entries, or
/// `null` when there are none.
pub open spec fn openai_content_value(ps: Seq<ContentPart>) -> Seq<char> {
    let cs = content_parts(ps, ps.len() as int);
    if cs.len() == 1 && cs[0] is Text {
        q(cs[0]->Text_text@)
    } else if cs.len() > 0 {
        arr(cs.map_values(|p: ContentPart| openai_content_entry(p)))
    } else {
        "null"@
    }
}

/// A message as OpenAI writes it; a tool result outside a tool message has
/// no form.
pub open spec fn openai_message_text(m: Message) -> Option<Seq<char>> {
    if m.role == Role::Tool {
        Some(
            obj(
                seq![
                    kv("role"@, q("tool"@)),
                    kv(
                        "tool_call_id"@,
                        match m.tool_call_id {
                            Some(id) => q(id@),
                            None => "null"@,
                        },
                    ),
                    kv("content"@, q(collected_text(m.content@))),
                ],
            ),
        )
    } else if has_tool_result(m.content@) {
        None
    } else {
        let calls = openai_calls(m.content@, m.content@.len() as int);
        Some(
            obj(
                seq![kv("role"@, q(role_text(m.role))), kv("content"@, openai_content_value(m.content@))] + opt_member(
                    calls.len() > 0,
                    kv("tool_calls"@, arr(calls)),
                ) + opt_member(
                    m.name is Some,
                    kv(
                        "name"@,
                        q(
                            match m.name {
                                Some(n) => n@,
                                None => seq![],
                            },
                        ),
                    ),
                ),
            ),
        )
    }
}

pub open spec fn openai_tool_choice_text(c: ToolChoice) -> Seq<char> {
    match c {
        ToolChoice::Auto => q("auto"@),
        ToolChoice::NoTool => q("none"@),
        ToolChoice::Required => q("required"@),
        ToolChoice::Named(n) => obj(seq![kv("type"@, q("function"@)), kv("function"@, obj(seq![kv("name"@, q(n@))]))]),
    }
}

pub open spec fn openai_tool_text(t: ToolDefinition) -> Seq<char> {
    obj(
        seq![
            kv("type"@, q("function"@)),
            kv(
                "function"@,
                obj(seq![kv("name"@, q(t.name@)), kv("description"@, q(t.description@)), kv("parameters"@, t.input_schema@)]),
            ),
        ],
    )
}

pub open spec fn response_format_members(f: ResponseFormat) -> Seq<Seq<char>> {
    match f {
        ResponseFormat::Text => seq![],
        ResponseFormat::JsonObject => seq![kv("response_format"@, obj(seq![kv("type"@, q("json_object"@))]))],
        ResponseFormat::JsonSchema { name, schema, strict } => seq![
            kv(
                "response_format"@,
                obj(
                    seq![
                        kv("type"@, q("json_schema"@)),
                        kv("json_schema"@, obj(seq![kv("name"@, q(name@)), kv("schema"@, schema@), kv("strict"@, bool_text(strict))])),
                    ],
                ),
            ),
        ],
    }
}

/// The tool definitions as OpenAI writes them.
pub open spec fn openai_tool_texts(ts: Seq<ToolDefinition>) -> Seq<Seq<char>> {
    ts.map_values(|t: ToolDefinition| openai_tool_text(t))
}

/// The messages as OpenAI writes them, or `None` when one has no form.
pub open spec fn openai_messages(ms: Seq<Message>, n: int) -> Option<Seq<Seq<char>>>
    decreases n,
{
    if n <= 0 {
        Some(seq![])
    } else {
        match (openai_messages(ms, n - 1), openai_message_text(ms[n - 1])) {
            (Some(rest), Some(m)) => Some(rest.push(m)),
            _ => None,
        }
    }
}

/// The chat completions body for a request sent as `model`, with the
/// temperature written as `temperature` when the request has one.
pub open spec fn openai_body(r: CanonicalRequest, model: Seq<char>, temperature: Option<Seq<char>>) -> Option<Seq<char>> {
    match openai_messages(r.messages@, r.messages@.len() as int) {
        None => None,
        Some(ms) => Some(
            obj(
                seq![
                    kv("model"@, q(model)),
                    kv("messages"@, arr(ms)),
                    kv("max_tokens"@, decimal(r.max_output_tokens as nat)),
                    kv("stream"@, bool_text(r.stream)),
                ] + match temperature {
                    Some(t) => seq![kv("temperature"@, t)],
                    None => seq![],
                } + opt_member(r.tools@.len() > 0, kv("tools"@, arr(openai_tool_texts(r.tools@))))
                    + opt_member(r.tools@.len() > 0, kv("tool_choice"@, openai_tool_choice_text(r.tool_choice)))
                    + response_format_members(r.response_format),
            ),
        ),
    }
}

fn openai_content_entry_exec(p: &ContentPart) -> (r: String)
    ensures
        r@ == openai_content_entry(*p),
{
    let mut members: Vec<String> = Vec::new();
    match p {
        ContentPart::Text { text } => {
            push_member(&mut members, quoted_kv("type", "text"));
            push_member(&mut members, quoted_kv("text", text.as_str()));
            assert(str_views(members@) =~= seq![kv("type"@, q("text"@)), kv("text"@, q(text@))]);
        },
        ContentPart::ImageUrl { url, detail } => {
            let mut inner: Vec<String> = Vec::new();
            push_member(&mut inner, quoted_kv("url", url.as_str()));
            push_member(&mut inner, quoted_kv("detail", image_detail(*detail)));
            assert(str_views(inner@) =~= seq![kv("url"@, q(url@)), kv("detail"@, q(detail_text(*detail)))]);
            let image = obj_exec(&inner);
            push_member(&mut members, quoted_kv("type", "image_url"));
            push_member(&mut members, kv_exec("image_url", image.as_str()));
            assert(str_views(members@) =~= seq![
                kv("type"@, q("image_url"@)),
                kv("image_url"@, obj(seq![kv("url"@, q(url@)), kv("detail"@, q(detail_text(*detail)))])),
            ]);
        },
        _ => {
            return String::new();
        },
    }
    obj_exec(&members)
}

fn openai_message(m: &Message) -> (r: Option<String>)
    ensures
        match openai_message_text(*m) {
            Some(t) => r matches Some(s) && s@ == t,
            None => r is None,
        },
{
    let mut members: Vec<String> = Vec::new();
    if m.role == Role::Tool {
        push_member(&mut members, quoted_kv("role", "tool"));
        let id = match &m.tool_call_id {
            Some(id) => json_quote(id.as_str()),
            None => text::owned("null"),
        };
        push_member(&mut members, kv_exec("tool_call_id", id.as_str()));
        let content = collect_text(&m.content);
        push_member(&mut members, quoted_kv("content", content.as_str()));
        assert(str_views(members@) =~= seq![
            kv("role"@, q("tool"@)),
            kv(
                "tool_call_id"@,
                match m.tool_call_id {
                    Some(id) => q(id@),
                    None => "null"@,
                },
            ),
            kv("content"@, q(collected_text(m.content@))),
        ]);
        return Some(obj_exec(&members));
    }
    let ps = &m.content;
    let mut entries: Vec<String> = Vec::new();
    let mut cps: Vec<usize> = Vec::new();
    let mut calls: Vec<String> = Vec::new();
    let mut i: usize = 0;
    let ghost cpv = Seq::<ContentPart>::empty();
    assert(str_views(entries@) =~= seq![]);
    assert(str_views(calls@) =~= seq![]);
    while i < ps.len()
        invariant
            i <= ps@.len(),
            ps == &m.content,
            m.role != Role::Tool,
            cps@.len() == entries@.len(),
            forall|k: int| 0 <= k < cps@.len() ==> #[trigger] cps@[k] < ps@.len(),
            forall|k: int| 0 <= k < cps@.len() ==> content_parts(ps@, i as int)[k] == ps@[#[trigger] cps@[k] as int],
            content_parts(ps@, i as int).len() == cps@.len(),
            str_views(entries@) == content_parts(ps@, i as int).map_values(|p: ContentPart| openai_content_entry(p)),
            str_views(calls@) == openai_calls(ps@, i as int),
            forall|k: int| 0 <= k < i ==> !(#[trigger] ps@[k] is ToolResult),
        decreases ps.len() - i,
    {
        match &ps[i] {
            ContentPart::ToolResult { .. } => {
                assert(has_tool_result(ps@));
                return None;
            },
            ContentPart::ToolCall { id, name, arguments } => {
                let mut f: Vec<String> = Vec::new();
                push_member(&mut f, quoted_kv("name", name.as_str()));
                push_member(&mut f, quoted_kv("arguments", arguments.as_str()));
                assert(str_views(f@) =~= seq![kv("name"@, q(name@)), kv("arguments"@, q(arguments@))]);
                let function = obj_exec(&f);
                let mut c: Vec<String> = Vec::new();
                push_member(&mut c, quoted_kv("id", id.as_str()));
                push_member(&mut c, quoted_kv("type", "function"));
                push_member(&mut c, kv_exec("function", function.as_str()));
                assert(str_views(c@) =~= seq![
                    kv("id"@, q(id@)),
                    kv("type"@, q("function"@)),
                    kv("function"@, obj(seq![kv("name"@, q(name@)), kv("arguments"@, q(arguments@))])),
                ]);
                push_member(&mut calls, obj_exec(&c));
            },
            _ => {
                let ghost before = content_parts(ps@, i as int);
                push_member(&mut entries, openai_content_entry_exec(&ps[i]));
                cps.push(i);
                assert(content_parts(ps@, i + 1) == before.push(ps@[i as int]));
                assert(content_parts(ps@, i + 1).map_values(|p: ContentPart| openai_content_entry(p)) =~= before.map_values(
                    |p: ContentPart| openai_content_entry(p),
                ).push(openai_content_entry(ps@[i as int])));
            },
        }
        i = i + 1;
    }
    assert(!has_tool_result(ps@));
    let ghost cs = content_parts(ps@, ps@.len() as int);
    let lone_text = if entries.len() == 1 {
        match &ps[cps[0]] {
            ContentPart::Text { text } => Some(text),
            _ => None,
        }
    } else {
        None
    };
    let value = if let Some(text) = lone_text {
        json_quote(text.as_str())
    } else if entries.len() > 0 {
        arr_exec(&entries)
    } else {
        text::owned("null")
    };
    assert(value@ == openai_content_value(ps@));
    push_member(&mut members, quoted_kv("role", role_name(m.role)));
    push_member(&mut members, kv_exec("content", value.as_str()));
    let ghost base = str_views(members@);
    if calls.len() > 0 {
        let a = arr_exec(&calls);
        push_member(&mut members, kv_exec("tool_calls", a.as_str()));
    }
    match &m.name {
        Some(n) => push_member(&mut members, quoted_kv("name", n.as_str())),
        None => {},
    }
    assert(str_views(members@) =~= seq![kv("role"@, q(role_text(m.role))), kv("content"@, openai_content_value(m.content@))]
        + opt_member(calls@.len() > 0, kv("tool_calls"@, arr(openai_calls(ps@, ps@.len() as int)))) + opt_member(
        m.name is Some,
        kv(
            "name"@,
            q(
                match m.name {
                    Some(n) => n@,
                    None => seq![],
                },
            ),
        ),
    ));
    Some(obj_exec(&members))
}

fn openai_tool_choice(c: &ToolChoice) -> (r: String)
    ensures
        r@ == openai_tool_choice_text(*c),
{
    match c {
        ToolChoice::Auto => json_quote("auto"),
        ToolChoice::NoTool => json_quote("none"),
        ToolChoice::Required => json_quote("required"),
        ToolChoice::Named(n) => {
            let mut inner: Vec<String> = Vec::new();
            push_member(&mut inner, quoted_kv("name", n.as_str()));
            assert(str_views(inner@) =~= seq![kv("name"@, q(n@))]);
            let f = obj_exec(&inner);
            let mut members: Vec<String> = Vec::new();
            push_member(&mut members, quoted_kv("type", "function"));
            push_member(&mut members, kv_exec("function", f.as_str()));
            assert(str_views(members@) =~= seq![kv("type"@, q("function"@)), kv("function"@, obj(seq![kv("name"@, q(n@))]))]);
            obj_exec(&members)
        },
    }
}

fn openai_tools_exec(ts: &Vec<ToolDefinition>) -> (r: String)
    ensures
        r@ == arr(openai_tool_texts(ts@)),
{
    let mut items: Vec<String> = Vec::new();
    let mut i: usize = 0;
    while i < ts.len()
        invariant
            i <= ts@.len(),
            str_views(items@) == openai_tool_texts(ts@.take(i as int)),
        decreases ts.len() - i,
    {
        let t = &ts[i];
        let mut f: Vec<String> = Vec::new();
        push_member(&mut f, quoted_kv("name", t.name.as_str()));
        push_member(&mut f, quoted_kv("description", t.description.as_str()));
        push_member(&mut f, kv_exec("parameters", t.input_schema.as_str()));
        assert(str_views(f@) =~= seq![kv("name"@, q(t.name@)), kv("description"@, q(t.description@)), kv("parameters"@, t.input_schema@)]);
        let function = obj_exec(&f);
        let mut members: Vec<String> = Vec::new();
        push_member(&mut members, quoted_kv("type", "function"));
        push_member(&mut members, kv_exec("function", function.as_str()));
        assert(str_views(members@) =~= seq![
            kv("type"@, q("function"@)),
            kv("function"@, obj(seq![kv("name"@, q(t.name@)), kv("description"@, q(t.description@)), kv("parameters"@, t.input_schema@)])),
        ]);
        push_member(&mut items, obj_exec(&members));
        assert(openai_tool_texts(ts@.take(i + 1)) =~= openai_tool_texts(ts@.take(i as int)).push(openai_tool_text(ts@[i as int])));
        i = i + 1;
    }
    assert(ts@.take(ts@.len() as int) =~= ts@);
    arr_exec(&items)
}

fn response_format_exec(f: &ResponseFormat, members: &mut Vec<String>)
    ensures
        str_views(final(members)@) == str_views(old(members)@) + response_format_members(*f),
{
    match f {
        ResponseFormat::Text => {
            assert(str_views(final(members)@) =~= str_views(old(members)@) + response_format_members(*f));
        },
        ResponseFormat::JsonObject => {
            let mut inner: Vec<String> = Vec::new();
            push_member(&mut inner, quoted_kv("type", "json_object"));
            assert(str_views(inner@) =~= seq![kv("type"@, q("json_object"@))]);
            let o = obj_exec(&inner);
            push_member(members, kv_exec("response_format", o.as_str()));
            assert(str_views(final(members)@) =~= str_views(old(members)@) + response_format_members(*f));
        },
        ResponseFormat::JsonSchema { name, schema, strict } => {
            let mut js: Vec<String> = Vec::new();
            push_member(&mut js, quoted_kv("name", name.as_str()));
            push_member(&mut js, kv_exec("schema", schema.as_str()));
            push_member(&mut js, kv_exec("strict", bool_exec(*strict)));
            assert(str_views(js@) =~= seq![kv("name"@, q(name@)), kv("schema"@, schema@), kv("strict"@, bool_text(*strict))]);
            let jso = obj_exec(&js);
            let mut inner: Vec<String> = Vec::new();
            push_member(&mut inner, quoted_kv("type", "json_schema"));
            push_member(&mut inner, kv_exec("json_schema", jso.as_str()));
            assert(str_views(inner@) =~= seq![
                kv("type"@, q("json_schema"@)),
                kv("json_schema"@, obj(seq![kv("name"@, q(name@)), kv("schema"@, schema@), kv("strict"@, bool_text(*strict))])),
            ]);
            let o = obj_exec(&inner);
            push_member(members, kv_exec("response_format", o.as_str()));
            assert(str_views(final(members)@) =~= str_views(old(members)@) + response_format_members(*f));
        },
    }
}

/// The chat completions body of a request sent as `model`; `temperature` is
/// the request's temperature written as a JSON number, when it has one.
pub fn openai_request(r: &CanonicalRequest, model: &str, temperature: Option<&str>) -> (b: Option<String>)
    ensures
        match openai_body(
            *r,
            model@,
            match temperature {
                Some(t) => Some(t@),
                None => None,
            },
        ) {
            Some(t) => b matches Some(s) && s@ == t,
            None => b is None,
        },
{
    let mut ms: Vec<String> = Vec::new();
    let mut i: usize = 0;
    assert(str_views(ms@) =~= seq![]);
    while i < r.messages.len()
        invariant
            i <= r.messages@.len(),
            openai_messages(r.messages@, i as int) == Some(str_views(ms@)),
        decreases r.messages.len() - i,
    {
        match openai_message(&r.messages[i]) {
            None => {
                proof {
                    lemma_openai_messages_none(r.messages@, i + 1, r.messages@.len() as int);
                }
                return None;
            },
            Some(t) => push_member(&mut ms, t),
        }
        i = i + 1;
    }
    let mut members: Vec<String> = Vec::new();
    push_member(&mut members, quoted_kv("model", model));
    let msgs = arr_exec(&ms);
    push_member(&mut members, kv_exec("messages", msgs.as_str()));
    let max = text::decimal_string(r.max_output_tokens as u64);
    push_member(&mut members, kv_exec("max_tokens", max.as_str()));
    push_member(&mut members, kv_exec("stream", bool_exec(r.stream)));
    match temperature {
        Some(t) => push_member(&mut members, kv_exec("temperature", t)),
        None => {},
    }
    if r.tools.len() > 0 {
        let tools = openai_tools_exec(&r.tools);
        push_member(&mut members, kv_exec("tools", tools.as_str()));
        let choice = openai_tool_choice(&r.tool_choice);
        push_member(&mut members, kv_exec("tool_choice", choice.as_str()));
    }
    let ghost before_format = str_views(members@);
    response_format_exec(&r.response_format, &mut members);
    proof {
        let tv = match temperature {
            Some(t) => Some(t@),
            None => None::<Seq<char>>,
        };
        let head = seq![
            kv("model"@, q(model@)),
            kv("messages"@, arr(str_views(ms@))),
            kv("max_tokens"@, decimal(r.max_output_tokens as nat)),
            kv("stream"@, bool_text(r.stream)),
        ];
        let temp_part = match tv {
            Some(t) => seq![kv("temperature"@, t)],
            None => seq![],
        };
        let tools_part = opt_member(r.tools@.len() > 0, kv("tools"@, arr(openai_tool_texts(r.tools@))))
            + opt_member(r.tools@.len() > 0, kv("tool_choice"@, openai_tool_choice_text(r.tool_choice)));
        assert(before_format =~= head + temp_part + tools_part);
        assert(str_views(members@) =~= head + temp_part + tools_part + response_format_members(r.response_format));
        assert(openai_messages(r.messages@, r.messages@.len() as int) == Some(str_views(ms@)));
        let full = head + temp_part
            + opt_member(r.tools@.len() > 0, kv("tools"@, arr(openai_tool_texts(r.tools@))))
            + opt_member(r.tools@.len() > 0, kv("tool_choice"@, openai_tool_choice_text(r.tool_choice)))
            + response_format_members(r.response_format);
        assert(full =~= head + temp_part + tools_part + response_format_members(r.response_format));
        assert(openai_body(*r, model@, tv) == Some(obj(full)));
        assert(openai_body(*r, model@, tv) == Some(obj(str_views(members@))));
    }
    Some(obj_exec(&members))
}

proof fn lemma_openai_messages_none(ms: Seq<Message>, k: int, n: int)
    requires
        1 <= k <= n <= ms.len(),
        openai_messages(ms, k) is None,
    ensures
        openai_messages(ms, n) is None,
    decreases n - k,
{
    if n > k {
        lemma_openai_messages_none(ms, k, n - 1);
    }
}


/// The optional text as its view.
pub open spec fn opt_view(t: Option<&str>) -> Option<Seq<char>> {
    match t {
        Some(s) => Some(s@),
        None => None,
    }
}

/// The temperature member under `key`, when there is a temperature.
pub open spec fn temperature_member(key: Seq<char>, t: Option<Seq<char>>) -> Seq<Seq<char>> {
    match t {
        Some(v) => seq![kv(key, v)],
        None => seq![],
    }
}

fn push_temperature(members: &mut Vec<String>, key: &str, t: Option<&str>)
    ensures
        str_views(final(members)@) == str_views(old(members)@) + temperature_member(key@, opt_view(t)),
{
    match t {
        Some(v) => push_member(members, kv_exec(key, v)),
        None => {},
    }
    assert(str_views(final(members)@) =~= str_views(old(members)@) + temperature_member(key@, opt_view(t)));
}

/// The texts of the system messages among the first `n`, one per message.
pub open spec fn system_texts(ms: Seq<Message>, n: int) -> Seq<Seq<char>>
    decreases n,
{
    if n <= 0 {
        seq![]
    } else if ms[n - 1].role == Role::System {
        system_texts(ms, n - 1).push(collected_text(ms[n - 1].content@))
    } else {
        system_texts(ms, n - 1)
    }
}

// ---- Anthropic messages ----
pub open spec fn anthropic_content_entry(p: ContentPart) -> Seq<char> {
    match p {
        ContentPart::Text { text } => obj(seq![kv("type"@, q("text"@)), kv("text"@, q(text@))]),
        ContentPart::ImageUrl { url, .. } => obj(
            seq![kv("type"@, q("image"@)), kv("source"@, obj(seq![kv("type"@, q("url"@)), kv("url"@, q(url@))]))],
        ),
        ContentPart::ToolCall { id, name, arguments } => obj(
            seq![kv("type"@, q("tool_use"@)), kv("id"@, q(id@)), kv("name"@, q(name@)), kv("input"@, arguments@)],
        ),
        ContentPart::ToolResult { tool_call_id, content, is_error } => obj(
            seq![
                kv("type"@, q("tool_result"@)),
                kv("tool_use_id"@, q(tool_call_id@)),
                kv("content"@, q(content@)),
                kv("is_error"@, bool_text(is_error)),
            ],
        ),
    }
}

pub open spec fn anthropic_entries(ps: Seq<ContentPart>) -> Seq<Seq<char>> {
    ps.map_values(|p: ContentPart| anthropic_content_entry(p))
}

pub open spec fn anthropic_role(role: Role) -> Seq<char> {
    if role == Role::Assistant {
        "assistant"@
    } else {
        "user"@
    }
}

pub open spec fn anthropic_message_text(m: Message) -> Seq<char> {
    obj(seq![kv("role"@, q(anthropic_role(m.role))), kv("content"@, arr(anthropic_entries(m.content@)))])
}

/// The messages other than system messages among the first `n`, as
/// Anthropic writes them.
pub open spec fn anthropic_messages(ms: Seq<Message>, n: int) -> Seq<Seq<char>>
    decreases n,
{
    if n <= 0 {
        seq![]
    } else if ms[n - 1].role == Role::System {
        anthropic_messages(ms, n - 1)
    } else {
        anthropic_messages(ms, n - 1).push(anthropic_message_text(ms[n - 1]))
    }
}

pub open spec fn anthropic_tool_text(t: ToolDefinition) -> Seq<char> {
    obj(seq![kv("name"@, q(t.name@)), kv("description"@, q(t.description@)), kv("input_schema"@, t.input_schema@)])
}

pub open spec fn anthropic_tool_texts(ts: Seq<ToolDefinition>) -> Seq<Seq<char>> {
    ts.map_values(|t: ToolDefinition| anthropic_tool_text(t))
}

pub open spec fn anthropic_tool_choice_text(c: ToolChoice) -> Seq<char> {
    match c {
        ToolChoice::Auto => obj(seq![kv("type"@, q("auto"@))]),
        ToolChoice::NoTool => obj(seq![kv("type"@, q("none"@))]),
        ToolChoice::Required => obj(seq![kv("type"@, q("any"@))]),
        ToolChoice::Named(n) => obj(seq![kv("type"@, q("tool"@)), kv("name"@, q(n@))]),
    }
}

/// The system prompt: the system messages' texts, separated by blank lines.
pub open spec fn anthropic_system(ms: Seq<Message>) -> Seq<char> {
    joined_by(system_texts(ms, ms.len() as int), "\n\n"@)
}

/// The Messages API body of a request sent as `model`, with the
/// temperature written as `temperature` when there is one.
pub open spec fn anthropic_body(r: CanonicalRequest, model: Seq<char>, temperature: Option<Seq<char>>) -> Seq<char> {
    let system = anthropic_system(r.messages@);
    obj(
        seq![
            kv("model"@, q(model)),
            kv("messages"@, arr(anthropic_messages(r.messages@, r.messages@.len() as int))),
            kv("max_tokens"@, decimal(r.max_output_tokens as nat)),
            kv("stream"@, bool_text(r.stream)),
        ] + opt_member(system.len() > 0, kv("system"@, q(system))) + temperature_member("temperature"@, temperature)
            + opt_member(r.tools@.len() > 0, kv("tools"@, arr(anthropic_tool_texts(r.tools@))))
            + opt_member(r.tools@.len() > 0, kv("tool_choice"@, anthropic_tool_choice_text(r.tool_choice))),
    )
}

fn anthropic_content_entry_exec(p: &ContentPart) -> (r: String)
    ensures
        r@ == anthropic_content_entry(*p),
{
    let mut members: Vec<String> = Vec::new();
    match p {
        ContentPart::Text { text } => {
            push_member(&mut members, quoted_kv("type", "text"));
            push_member(&mut members, quoted_kv("text", text.as_str()));
            assert(str_views(members@) =~= seq![kv("type"@, q("text"@)), kv("text"@, q(text@))]);
        },
        ContentPart::ImageUrl { url, .. } => {
            let mut inner: Vec<String> = Vec::new();
            push_member(&mut inner, quoted_kv("type", "url"));
            push_member(&mut inner, quoted_kv("url", url.as_str()));
            assert(str_views(inner@) =~= seq![kv("type"@, q("url"@)), kv("url"@, q(url@))]);
            let source = obj_exec(&inner);
            push_member(&mut members, quoted_kv("type", "image"));
            push_member(&mut members, kv_exec("source", source.as_str()));
            assert(str_views(members@) =~= seq![
                kv("type"@, q("image"@)),
                kv("source"@, obj(seq![kv("type"@, q("url"@)), kv("url"@, q(url@))])),
            ]);
        },
        ContentPart::ToolCall { id, name, arguments } => {
            push_member(&mut members, quoted_kv("type", "tool_use"));
            push_member(&mut members, quoted_kv("id", id.as_str()));
            push_member(&mut members, quoted_kv("name", name.as_str()));
            push_member(&mut members, kv_exec("input", arguments.as_str()));
            assert(str_views(members@) =~= seq![
                kv("type"@, q("tool_use"@)),
                kv("id"@, q(id@)),
                kv("name"@, q(name@)),
                kv("input"@, arguments@),
            ]);
        },
        ContentPart::ToolResult { tool_call_id, content, is_error } => {
            push_member(&mut members, quoted_kv("type", "tool_result"));
            push_member(&mut members, quoted_kv("tool_use_id", tool_call_id.as_str()));
            push_member(&mut members, quoted_kv("content", content.as_str()));
            push_member(&mut members, kv_exec("is_error", bool_exec(*is_error)));
            assert(str_views(members@) =~= seq![
                kv("type"@, q("tool_result"@)),
                kv("tool_use_id"@, q(tool_call_id@)),
                kv("content"@, q(content@)),
                kv("is_error"@, bool_text(*is_error)),
            ]);
        },
    }
    obj_exec(&members)
}

fn anthropic_message(m: &Message) -> (r: String)
    ensures
        r@ == anthropic_message_text(*m),
{
    let ps = &m.content;
    let mut entries: Vec<String> = Vec::new();
    let mut i: usize = 0;
    while i < ps.len()
        invariant
            i <= ps@.len(),
            str_views(entries@) == anthropic_entries(ps@.take(i as int)),
        decreases ps.len() - i,
    {
        push_member(&mut entries, anthropic_content_entry_exec(&ps[i]));
        assert(anthropic_entries(ps@.take(i + 1)) =~= anthropic_entries(ps@.take(i as int)).push(
            anthropic_content_entry(ps@[i as int]),
        ));
        i = i + 1;
    }
    assert(ps@.take(ps@.len() as int) =~= ps@);
    let content = arr_exec(&entries);
    let role = if m.role == Role::Assistant {
        "assistant"
    } else {
        "user"
    };
    let mut members: Vec<String> = Vec::new();
    push_member(&mut members, quoted_kv("role", role));
    push_member(&mut members, kv_exec("content", content.as_str()));
    assert(str_views(members@) =~= seq![
        kv("role"@, q(anthropic_role(m.role))),
        kv("content"@, arr(anthropic_entries(m.content@))),
    ]);
    obj_exec(&members)
}

fn anthropic_tools_exec(ts: &Vec<ToolDefinition>) -> (r: String)
    ensures
        r@ == arr(anthropic_tool_texts(ts@)),
{
    let mut items: Vec<String> = Vec::new();
    let mut i: usize = 0;
    while i < ts.len()
        invariant
            i <= ts@.len(),
            str_views(items@) == anthropic_tool_texts(ts@.take(i as int)),
        decreases ts.len() - i,
    {
        let t = &ts[i];
        let mut members: Vec<String> = Vec::new();
        push_member(&mut members, quoted_kv("name", t.name.as_str()));
        push_member(&mut members, quoted_kv("description", t.description.as_str()));
        push_member(&mut members, kv_exec("input_schema", t.input_schema.as_str()));
        assert(str_views(members@) =~= seq![
            kv("name"@, q(t.name@)),
            kv("description"@, q(t.description@)),
            kv("input_schema"@, t.input_schema@),
        ]);
        push_member(&mut items, obj_exec(&members));
        assert(anthropic_tool_texts(ts@.take(i + 1)) =~= anthropic_tool_texts(ts@.take(i as int)).push(
            anthropic_tool_text(ts@[i as int]),
        ));
        i = i + 1;
    }
    assert(ts@.take(ts@.len() as int) =~= ts@);
    arr_exec(&items)
}

fn anthropic_tool_choice(c: &ToolChoice) -> (r: String)
    ensures
        r@ == anthropic_tool_choice_text(*c),
{
    let mut members: Vec<String> = Vec::new();
    match c {
        ToolChoice::Auto => {
            push_member(&mut members, quoted_kv("type", "auto"));
            assert(str_views(members@) =~= seq![kv("type"@, q("auto"@))]);
        },
        ToolChoice::NoTool => {
            push_member(&mut members, quoted_kv("type", "none"));
            assert(str_views(members@) =~= seq![kv("type"@, q("none"@))]);
        },
        ToolChoice::Required => {
            push_member(&mut members, quoted_kv("type", "any"));
            assert(str_views(members@) =~= seq![kv("type"@, q("any"@))]);
        },
        ToolChoice::Named(n) => {
            push_member(&mut members, quoted_kv("type", "tool"));
            push_member(&mut members, quoted_kv("name", n.as_str()));
            assert(str_views(members@) =~= seq![kv("type"@, q("tool"@)), kv("name"@, q(n@))]);
        },
    }
    obj_exec(&members)
}

/// The Messages API body of a request sent as `model`; system messages
/// become the system prompt; `temperature` is the request's temperature
/// written as a JSON number, when it has one.
pub fn anthropic_request(r: &CanonicalRequest, model: &str, temperature: Option<&str>) -> (b: String)
    ensures
        b@ == anthropic_body(*r, model@, opt_view(temperature)),
{
    let mut system: Vec<String> = Vec::new();
    let mut ms: Vec<String> = Vec::new();
    let mut i: usize = 0;
    assert(str_views(system@) =~= seq![]);
    assert(str_views(ms@) =~= seq![]);
    while i < r.messages.len()
        invariant
            i <= r.messages@.len(),
            str_views(system@) == system_texts(r.messages@, i as int),
            str_views(ms@) == anthropic_messages(r.messages@, i as int),
        decreases r.messages.len() - i,
    {
        let m = &r.messages[i];
        if m.role == Role::System {
            push_member(&mut system, collect_text(&m.content));
        } else {
            push_member(&mut ms, anthropic_message(m));
        }
        i = i + 1;
    }
    let system_text = joined_exec(&system, "\n\n");
    let mut members: Vec<String> = Vec::new();
    push_member(&mut members, quoted_kv("model", model));
    let msgs = arr_exec(&ms);
    push_member(&mut members, kv_exec("messages", msgs.as_str()));
    let max = text::decimal_string(r.max_output_tokens as u64);
    push_member(&mut members, kv_exec("max_tokens", max.as_str()));
    push_member(&mut members, kv_exec("stream", bool_exec(r.stream)));
    let ghost head = str_views(members@);
    if system_text.as_str().unicode_len() > 0 {
        push_member(&mut members, quoted_kv("system", system_text.as_str()));
    }
    let ghost with_system = str_views(members@);
    push_temperature(&mut members, "temperature", temperature);
    if r.tools.len() > 0 {
        let tools = anthropic_tools_exec(&r.tools);
        push_member(&mut members, kv_exec("tools", tools.as_str()));
        let choice = anthropic_tool_choice(&r.tool_choice);
        push_member(&mut members, kv_exec("tool_choice", choice.as_str()));
    }
    proof {
        reveal_strlit("temperature");
        let system = anthropic_system(r.messages@);
        assert(with_system =~= head + opt_member(system.len() > 0, kv("system"@, q(system))));
        assert(str_views(members@) =~= head + opt_member(system.len() > 0, kv("system"@, q(system)))
            + temperature_member("temperature"@, opt_view(temperature))
            + opt_member(r.tools@.len() > 0, kv("tools"@, arr(anthropic_tool_texts(r.tools@))))
            + opt_member(r.tools@.len() > 0, kv("tool_choice"@, anthropic_tool_choice_text(r.tool_choice))));
        assert(head =~= seq![
            kv("model"@, q(model@)),
            kv("messages"@, arr(anthropic_messages(r.messages@, r.messages@.len() as int))),
            kv("max_tokens"@, decimal(r.max_output_tokens as nat)),
            kv("stream"@, bool_text(r.stream)),
        ]);
    }
    obj_exec(&members)
}

// ---- Google Gemini ----
pub open spec fn gemini_part(p: ContentPart) -> Seq<char> {
    match p {
        ContentPart::Text { text } => obj(seq![kv("text"@, q(text@))]),
        ContentPart::ImageUrl { url, .. } => obj(seq![kv("fileData"@, obj(seq![kv("fileUri"@, q(url@))]))]),
        ContentPart::ToolCall { name, arguments, .. } => obj(
            seq![kv("functionCall"@, obj(seq![kv("name"@, q(name@)), kv("args"@, arguments@)]))],
        ),
        ContentPart::ToolResult { tool_call_id, content, is_error } => obj(
            seq![
                kv(
                    "functionResponse"@,
                    obj(
                        seq![
                            kv("name"@, q(tool_call_id@)),
                            kv("response"@, obj(seq![kv("content"@, q(content@)), kv("is_error"@, bool_text(is_error))])),
                        ],
                    ),
                ),
            ],
        ),
    }
}

pub open spec fn gemini_part_texts(ps: Seq<ContentPart>) -> Seq<Seq<char>> {
    ps.map_values(|p: ContentPart| gemini_part(p))
}

/// The parts of the system messages among the first `n`, in order.
pub open spec fn gemini_system_parts(ms: Seq<Message>, n: int) -> Seq<Seq<char>>
    decreases n,
{
    if n <= 0 {
        seq![]
    } else if ms[n - 1].role == Role::System {
        gemini_system_parts(ms, n - 1) + gemini_part_texts(ms[n - 1].content@)
    } else {
        gemini_system_parts(ms, n - 1)
    }
}

pub open spec fn gemini_role(role: Role) -> Seq<char> {
    if role == Role::Assistant {
        "model"@
    } else {
        "user"@
    }
}

/// The messages other than system messages among the first `n`, as Gemini
/// contents.
pub open spec fn gemini_contents(ms: Seq<Message>, n: int) -> Seq<Seq<char>>
    decreases n,
{
    if n <= 0 {
        seq![]
    } else if ms[n - 1].role == Role::System {
        gemini_contents(ms, n - 1)
    } else {
        gemini_contents(ms, n - 1).push(
            obj(seq![kv("role"@, q(gemini_role(ms[n - 1].role))), kv("parts"@, arr(gemini_part_texts(ms[n - 1].content@)))]),
        )
    }
}

pub open spec fn gemini_tool_text(t: ToolDefinition) -> Seq<char> {
    obj(seq![kv("name"@, q(t.name@)), kv("description"@, q(t.description@)), kv("parameters"@, t.input_schema@)])
}

pub open spec fn gemini_tool_texts(ts: Seq<ToolDefinition>) -> Seq<Seq<char>> {
    ts.map_values(|t: ToolDefinition| gemini_tool_text(t))
}

/// The generation settings: output tokens, temperature, and JSON output
/// when a JSON format is asked for.
pub open spec fn gemini_generation(r: CanonicalRequest, temperature: Option<Seq<char>>) -> Seq<char> {
    obj(
        seq![kv("maxOutputTokens"@, decimal(r.max_output_tokens as nat))] + temperature_member("temperature"@, temperature)
            + opt_member(!(r.response_format is Text), kv("responseMimeType"@, q("application/json"@))),
    )
}

/// The generateContent body of a request, with the temperature written as
/// `temperature` when there is one.
pub open spec fn gemini_body(r: CanonicalRequest, temperature: Option<Seq<char>>) -> Seq<char> {
    let system = gemini_system_parts(r.messages@, r.messages@.len() as int);
    obj(
        seq![
            kv("contents"@, arr(gemini_contents(r.messages@, r.messages@.len() as int))),
            kv("generationConfig"@, gemini_generation(r, temperature)),
        ] + opt_member(system.len() > 0, kv("systemInstruction"@, obj(seq![kv("parts"@, arr(system))]))) + opt_member(
            r.tools@.len() > 0,
            kv("tools"@, arr(seq![obj(seq![kv("functionDeclarations"@, arr(gemini_tool_texts(r.tools@)))])])),
        ),
    )
}

fn gemini_part_exec(p: &ContentPart) -> (r: String)
    ensures
        r@ == gemini_part(*p),
{
    let mut members: Vec<String> = Vec::new();
    match p {
        ContentPart::Text { text } => {
            push_member(&mut members, quoted_kv("text", text.as_str()));
            assert(str_views(members@) =~= seq![kv("text"@, q(text@))]);
        },
        ContentPart::ImageUrl { url, .. } => {
            let mut inner: Vec<String> = Vec::new();
            push_member(&mut inner, quoted_kv("fileUri", url.as_str()));
            assert(str_views(inner@) =~= seq![kv("fileUri"@, q(url@))]);
            let data = obj_exec(&inner);
            push_member(&mut members, kv_exec("fileData", data.as_str()));
            assert(str_views(members@) =~= seq![kv("fileData"@, obj(seq![kv("fileUri"@, q(url@))]))]);
        },
        ContentPart::ToolCall { name, arguments, .. } => {
            let mut inner: Vec<String> = Vec::new();
            push_member(&mut inner, quoted_kv("name", name.as_str()));
            push_member(&mut inner, kv_exec("args", arguments.as_str()));
            assert(str_views(inner@) =~= seq![kv("name"@, q(name@)), kv("args"@, arguments@)]);
            let call = obj_exec(&inner);
            push_member(&mut members, kv_exec("functionCall", call.as_str()));
            assert(str_views(members@) =~= seq![kv("functionCall"@, obj(seq![kv("name"@, q(name@)), kv("args"@, arguments@)]))]);
        },
        ContentPart::ToolResult { tool_call_id, content, is_error } => {
            let mut response: Vec<String> = Vec::new();
            push_member(&mut response, quoted_kv("content", content.as_str()));
            push_member(&mut response, kv_exec("is_error", bool_exec(*is_error)));
            assert(str_views(response@) =~= seq![kv("content"@, q(content@)), kv("is_error"@, bool_text(*is_error))]);
            let response_text = obj_exec(&response);
            let mut inner: Vec<String> = Vec::new();
            push_member(&mut inner, quoted_kv("name", tool_call_id.as_str()));
            push_member(&mut inner, kv_exec("response", response_text.as_str()));
            assert(str_views(inner@) =~= seq![
                kv("name"@, q(tool_call_id@)),
                kv("response"@, obj(seq![kv("content"@, q(content@)), kv("is_error"@, bool_text(*is_error))])),
            ]);
            let fr = obj_exec(&inner);
            push_member(&mut members, kv_exec("functionResponse", fr.as_str()));
            assert(str_views(members@) =~= seq![
                kv(
                    "functionResponse"@,
                    obj(
                        seq![
                            kv("name"@, q(tool_call_id@)),
                            kv("response"@, obj(seq![kv("content"@, q(content@)), kv("is_error"@, bool_text(*is_error))])),
                        ],
                    ),
                ),
            ]);
        },
    }
    obj_exec(&members)
}

fn gemini_parts(ps: &Vec<ContentPart>, out: &mut Vec<String>)
    ensures
        str_views(final(out)@) == str_views(old(out)@) + gemini_part_texts(ps@),
{
    let ghost start = str_views(out@);
    let mut i: usize = 0;
    assert(gemini_part_texts(ps@.take(0)) =~= seq![]);
    assert(start + gemini_part_texts(ps@.take(0)) =~= start);
    while i < ps.len()
        invariant
            i <= ps@.len(),
            str_views(out@) == start + gemini_part_texts(ps@.take(i as int)),
        decreases ps.len() - i,
    {
        push_member(out, gemini_part_exec(&ps[i]));
        assert(gemini_part_texts(ps@.take(i + 1)) =~= gemini_part_texts(ps@.take(i as int)).push(gemini_part(ps@[i as int])));
        assert(str_views(out@) =~= start + gemini_part_texts(ps@.take(i + 1)));
        i = i + 1;
    }
    assert(ps@.take(ps@.len() as int) =~= ps@);
}

fn gemini_tools_exec(ts: &Vec<ToolDefinition>) -> (r: String)
    ensures
        r@ == arr(gemini_tool_texts(ts@)),
{
    let mut items: Vec<String> = Vec::new();
    let mut i: usize = 0;
    while i < ts.len()
        invariant
            i <= ts@.len(),
            str_views(items@) == gemini_tool_texts(ts@.take(i as int)),
        decreases ts.len() - i,
    {
        let t = &ts[i];
        let mut members: Vec<String> = Vec::new();
        push_member(&mut members, quoted_kv("name", t.name.as_str()));
        push_member(&mut members, quoted_kv("description", t.description.as_str()));
        push_member(&mut members, kv_exec("parameters", t.input_schema.as_str()));
        assert(str_views(members@) =~= seq![
            kv("name"@, q(t.name@)),
            kv("description"@, q(t.description@)),
            kv("parameters"@, t.input_schema@),
        ]);
        push_member(&mut items, obj_exec(&members));
        assert(gemini_tool_texts(ts@.take(i + 1)) =~= gemini_tool_texts(ts@.take(i as int)).push(gemini_tool_text(ts@[i as int])));
        i = i + 1;
    }
    assert(ts@.take(ts@.len() as int) =~= ts@);
    arr_exec(&items)
}

/// The generateContent body of a request: system messages become the system
/// instruction; `temperature` is the request's temperature written as a JSON
/// number, when it has one.
pub fn gemini_request(r: &CanonicalRequest, temperature: Option<&str>) -> (b: String)
    ensures
        b@ == gemini_body(*r, opt_view(temperature)),
{
    let mut system: Vec<String> = Vec::new();
    let mut contents: Vec<String> = Vec::new();
    let mut i: usize = 0;
    assert(str_views(system@) =~= seq![]);
    assert(str_views(contents@) =~= seq![]);
    while i < r.messages.len()
        invariant
            i <= r.messages@.len(),
            str_views(system@) == gemini_system_parts(r.messages@, i as int),
            str_views(contents@) == gemini_contents(r.messages@, i as int),
        decreases r.messages.len() - i,
    {
        let m = &r.messages[i];
        if m.role == Role::System {
            gemini_parts(&m.content, &mut system);
        } else {
            let mut parts: Vec<String> = Vec::new();
            assert(str_views(parts@) =~= seq![]);
            gemini_parts(&m.content, &mut parts);
            assert(str_views(parts@) =~= gemini_part_texts(m.content@));
            let role = if m.role == Role::Assistant {
                "model"
            } else {
                "user"
            };
            let part_list = arr_exec(&parts);
            let mut members: Vec<String> = Vec::new();
            push_member(&mut members, quoted_kv("role", role));
            push_member(&mut members, kv_exec("parts", part_list.as_str()));
            assert(str_views(members@) =~= seq![kv("role"@, q(gemini_role(m.role))), kv("parts"@, arr(gemini_part_texts(m.content@)))]);
            push_member(&mut contents, obj_exec(&members));
        }
        i = i + 1;
    }
    let mut generation: Vec<String> = Vec::new();
    let max = text::decimal_string(r.max_output_tokens as u64);
    push_member(&mut generation, kv_exec("maxOutputTokens", max.as_str()));
    push_temperature(&mut generation, "temperature", temperature);
    let json_output = match &r.response_format {
        ResponseFormat::Text => false,
        _ => true,
    };
    if json_output {
        push_member(&mut generation, quoted_kv("responseMimeType", "application/json"));
    }
    proof {
        reveal_strlit("temperature");
        assert(str_views(generation@) =~= seq![kv("maxOutputTokens"@, decimal(r.max_output_tokens as nat))] + temperature_member(
            "temperature"@,
            opt_view(temperature),
        ) + opt_member(!(r.response_format is Text), kv("responseMimeType"@, q("application/json"@))));
    }
    let generation_text = obj_exec(&generation);
    let contents_text = arr_exec(&contents);
    let mut members: Vec<String> = Vec::new();
    push_member(&mut members, kv_exec("contents", contents_text.as_str()));
    push_member(&mut members, kv_exec("generationConfig", generation_text.as_str()));
    let ghost head = str_views(members@);
    if system.len() > 0 {
        let parts = arr_exec(&system);
        let mut si: Vec<String> = Vec::new();
        push_member(&mut si, kv_exec("parts", parts.as_str()));
        assert(str_views(si@) =~= seq![kv("parts"@, arr(str_views(system@)))]);
        let instruction = obj_exec(&si);
        push_member(&mut members, kv_exec("systemInstruction", instruction.as_str()));
    }
    let ghost with_system = str_views(members@);
    if r.tools.len() > 0 {
        let tools = gemini_tools_exec(&r.tools);
        let mut decl: Vec<String> = Vec::new();
        push_member(&mut decl, kv_exec("functionDeclarations", tools.as_str()));
        assert(str_views(decl@) =~= seq![kv("functionDeclarations"@, arr(gemini_tool_texts(r.tools@)))]);
        let d = obj_exec(&decl);
        let mut list: Vec<String> = Vec::new();
        push_member(&mut list, d);
        assert(str_views(list@) =~= seq![obj(seq![kv("functionDeclarations"@, arr(gemini_tool_texts(r.tools@)))])]);
        let tool_list = arr_exec(&list);
        push_member(&mut members, kv_exec("tools", tool_list.as_str()));
    }
    proof {
        let sys = gemini_system_parts(r.messages@, r.messages@.len() as int);
        assert(head =~= seq![
            kv("contents"@, arr(gemini_contents(r.messages@, r.messages@.len() as int))),
            kv("generationConfig"@, gemini_generation(*r, opt_view(temperature))),
        ]);
        assert(with_system =~= head + opt_member(sys.len() > 0, kv("systemInstruction"@, obj(seq![kv("parts"@, arr(sys))]))));
        assert(str_views(members@) =~= head + opt_member(sys.len() > 0, kv("systemInstruction"@, obj(seq![kv("parts"@, arr(sys))])))
            + opt_member(
            r.tools@.len() > 0,
            kv("tools"@, arr(seq![obj(seq![kv("functionDeclarations"@, arr(gemini_tool_texts(r.tools@)))])])),
        ));
    }
    obj_exec(&members)
}

} // verus!
