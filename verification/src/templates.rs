//! Copy-ready client templates for the local OpenAI-compatible endpoint, and
//! the live document that presents one of them with the endpoint's facts.
use crate::adapter::{join_url, trim_slashes_end};
use crate::error::{CoreError, ErrorCode};
use crate::json::{self, json_compact_of, json_pretty_of, json_string_literal};
use crate::text::{self, decimal, is_ascii_digit, is_blank, lower, starts_with};
use vstd::prelude::*;

verus! {

/// What a template is rendered for: the endpoint, the public model, whether
/// the example streams, and the placeholder that stands for the token.
#[derive(Debug, Clone, PartialEq, Eq)]
pub struct TemplateContext {
    pub base_url: String,
    pub model: String,
    pub stream: bool,
    pub token_placeholder: String,
}

#[derive(Debug, Clone, Copy, PartialEq, Eq, Structural)]
pub enum TemplateLanguage {
    Curl,
    Python,
    JavascriptTypescript,
    Go,
    Rust,
    Java,
    Csharp,
    Cpp,
}

#[derive(Debug, Clone, PartialEq, Eq)]
pub struct CodeTemplate {
    pub language: TemplateLanguage,
    pub title: String,
    pub code: String,
}

#[derive(Debug, Clone, PartialEq, Eq)]
pub struct CodeBlock {
    pub language: TemplateLanguage,
    pub title: String,
    pub code: String,
}

/// The mathematical content of a [`CodeTemplate`] or a [`CodeBlock`].
pub struct TemplateView {
    pub language: TemplateLanguage,
    pub title: Seq<char>,
    pub code: Seq<char>,
}

pub open spec fn tv(language: TemplateLanguage, title: Seq<char>, code: Seq<char>) -> TemplateView {
    TemplateView { language, title, code }
}

impl View for CodeTemplate {
    type V = TemplateView;

    open spec fn view(&self) -> TemplateView {
        tv(self.language, self.title@, self.code@)
    }
}

impl View for CodeBlock {
    type V = TemplateView;

    open spec fn view(&self) -> TemplateView {
        tv(self.language, self.title@, self.code@)
    }
}

pub open spec fn template_views(v: Seq<CodeTemplate>) -> Seq<TemplateView> {
    v.map_values(|t: CodeTemplate| t@)
}

#[derive(Debug, Clone, PartialEq, Eq)]
pub struct LiveDocumentFact {
    pub label: String,
    pub value: String,
}

#[derive(Debug, Clone, Copy, PartialEq, Eq, Structural)]
pub enum DocumentNoteTone {
    Info,
    Warning,
    Security,
}

#[derive(Debug, Clone, PartialEq, Eq)]
pub enum LiveDocumentSection {
    Paragraph { title: String, body: String },
    Facts { title: String, items: Vec<LiveDocumentFact> },
    Steps { title: String, items: Vec<String> },
    Code { title: String, block: CodeBlock },
    Note { title: String, body: String, tone: DocumentNoteTone },
}

/// The mathematical content of a [`LiveDocumentSection`].
pub enum SectionView {
    Paragraph { title: Seq<char>, body: Seq<char> },
    Facts { title: Seq<char>, items: Seq<(Seq<char>, Seq<char>)> },
    Steps { title: Seq<char>, items: Seq<Seq<char>> },
    Code { title: Seq<char>, block: TemplateView },
    Note { title: Seq<char>, body: Seq<char>, tone: DocumentNoteTone },
}

pub open spec fn fact_views(v: Seq<LiveDocumentFact>) -> Seq<(Seq<char>, Seq<char>)> {
    v.map_values(|f: LiveDocumentFact| (f.label@, f.value@))
}

pub open spec fn string_views(v: Seq<String>) -> Seq<Seq<char>> {
    v.map_values(|s: String| s@)
}

impl View for LiveDocumentSection {
    type V = SectionView;

    open spec fn view(&self) -> SectionView {
        match self {
            LiveDocumentSection::Paragraph { title, body } => SectionView::Paragraph {
                title: title@,
                body: body@,
            },
            LiveDocumentSection::Facts { title, items } => SectionView::Facts {
                title: title@,
                items: fact_views(items@),
            },
            LiveDocumentSection::Steps { title, items } => SectionView::Steps {
                title: title@,
                items: string_views(items@),
            },
            LiveDocumentSection::Code { title, block } => SectionView::Code { title: title@, block: block@ },
            LiveDocumentSection::Note { title, body, tone } => SectionView::Note {
                title: title@,
                body: body@,
                tone: *tone,
            },
        }
    }
}

pub open spec fn section_views(v: Seq<LiveDocumentSection>) -> Seq<SectionView> {
    v.map_values(|s: LiveDocumentSection| s@)
}

#[derive(Debug, Clone, PartialEq, Eq)]
pub struct LiveDocument {
    pub schema_version: u32,
    pub title: String,
    pub summary: String,
    pub language: TemplateLanguage,
    pub endpoint_status: String,
    pub sections: Vec<LiveDocumentSection>,
    pub markdown: String,
}

/// Whether the host ends at position `i`: the text ends there, or a port or
/// a path begins.
pub open spec fn host_ends_at(l: Seq<char>, i: int) -> bool {
    i == l.len() || l[i] == ':' || l[i] == '/'
}

/// Whether the text from position `i` up to the end of the host holds only
/// digits and dots.
pub open spec fn dotted_digits_from(l: Seq<char>, i: int) -> bool
    decreases l.len() - i,
{
    if i >= l.len() || host_ends_at(l, i) {
        true
    } else if is_ascii_digit(l[i]) || l[i] == '.' {
        dotted_digits_from(l, i + 1)
    } else {
        false
    }
}

/// A lowercased URL whose scheme is HTTP and whose host is a loopback
/// address: `127.` and a dotted number, `localhost` or `[::1]`, the host
/// ending with the text, a port or a path.
pub open spec fn loopback_http_url(l: Seq<char>) -> bool {
    ||| starts_with(l, "http://127."@) && dotted_digits_from(l, 11)
    ||| starts_with(l, "http://localhost"@) && host_ends_at(l, 16)
    ||| starts_with(l, "http://[::1]"@) && host_ends_at(l, 12)
}

/// Whether a lowercased URL names a loopback HTTP host.
fn loopback_http_url_exec(l: &str) -> (r: bool)
    ensures
        r == loopback_http_url(l@),
{
    proof {
        reveal_strlit("http://127.");
        reveal_strlit("http://localhost");
        reveal_strlit("http://[::1]");
    }
    let v = text::chars_of(l);
    let n = v.len();
    if text::starts_with_exec(l, "http://127.") {
        let mut i: usize = 11;
        while i < n
            invariant
                11 <= i <= n,
                n == v@.len(),
                v@ == l@,
                starts_with(l@, "http://127."@),
                dotted_digits_from(l@, 11) == dotted_digits_from(l@, i as int),
            decreases n - i,
        {
            let c = v[i];
            if c == ':' || c == '/' {
                return true;
            }
            if !(('0' <= c && c <= '9') || c == '.') {
                assert(!starts_with(l@, "http://localhost"@) && !starts_with(l@, "http://[::1]"@)) by {
                    reveal_strlit("http://127.");
                    reveal_strlit("http://localhost");
                    reveal_strlit("http://[::1]");
                    assert(l@.subrange(0, 11)[7] == l@[7]);
                    assert(l@[7] == '1');
                    if starts_with(l@, "http://localhost"@) {
                        assert(l@.subrange(0, 16)[7] == l@[7]);
                    }
                    if starts_with(l@, "http://[::1]"@) {
                        assert(l@.subrange(0, 12)[7] == l@[7]);
                    }
                }
                return false;
            }
            i = i + 1;
        }
        return true;
    }
    if text::starts_with_exec(l, "http://localhost") {
        assert(!starts_with(l@, "http://[::1]"@)) by {
            reveal_strlit("http://localhost");
            reveal_strlit("http://[::1]");
            assert(l@.subrange(0, 16)[7] == l@[7]);
            if starts_with(l@, "http://[::1]"@) {
                assert(l@.subrange(0, 12)[7] == l@[7]);
            }
        }
        return n == 16 || v[16] == ':' || v[16] == '/';
    }
    if text::starts_with_exec(l, "http://[::1]") {
        return n == 12 || v[12] == ':' || v[12] == '/';
    }
    false
}

/// The message of the first rule a template context breaks, if any: the
/// endpoint must be loopback HTTP, the model must not be blank, and the
/// placeholder must not look like a real key.
pub open spec fn template_context_error(c: TemplateContext) -> Option<Seq<char>> {
    if !loopback_http_url(lower(c.base_url@)) {
        Some("MVP 活文档只允许回环 HTTP Base URL"@)
    } else if is_blank(c.model@) {
        Some("模板模型不能为空"@)
    } else if vstd::utf8::encode_utf8(c.token_placeholder@).len() as usize > 128 || starts_with(
        lower(c.token_placeholder@),
        "sk-"@,
    ) {
        Some("模板必须使用安全占位符而不是真实令牌"@)
    } else {
        None
    }
}

impl TemplateContext {
    /// Checks the context against the rules of the first release: a loopback
    /// HTTP base URL, a non-blank model, and a placeholder of at most 128
    /// bytes that does not start with `sk-` in any case.
    pub fn validate(&self) -> (r: Result<(), CoreError>)
        ensures
            match r {
                Ok(()) => template_context_error(*self) is None,
                Err(e) => template_context_error(*self) == Some(e.message@) && e.code
                    == ErrorCode::TemplateInvalid && e.issues@.len() == 0,
            },
    {
        let l = text::to_lower(self.base_url.as_str());
        let ls = l.as_str();
        let loopback = loopback_http_url_exec(ls);
        if !loopback {
            return Err(CoreError::new(ErrorCode::TemplateInvalid, "MVP 活文档只允许回环 HTTP Base URL"));
        }
        if text::is_blank_str(self.model.as_str()) {
            return Err(CoreError::new(ErrorCode::TemplateInvalid, "模板模型不能为空"));
        }
        let token_lower = text::to_lower(self.token_placeholder.as_str());
        if self.token_placeholder.as_str().len() > 128 || text::starts_with_exec(
            token_lower.as_str(),
            "sk-",
        ) {
            return Err(CoreError::new(ErrorCode::TemplateInvalid, "模板必须使用安全占位符而不是真实令牌"));
        }
        Ok(())
    }
}

/// The chat-completions URL under a base URL.
pub open spec fn chat_endpoint(base: Seq<char>) -> Seq<char> {
    trim_slashes_end(base) + "/chat/completions"@
}

/// The JSON text of the example request body.
pub open spec fn chat_body(model: Seq<char>, stream: bool) -> Seq<char> {
    "{\"model\":"@ + json_string_literal(model)
        + ",\"messages\":[{\"role\":\"user\",\"content\":\"Hello from API ARRAY\"}],\"stream\":"@
        + (if stream {
        "true"@
    } else {
        "false"@
    }) + "}"@
}

/// Each `"` preceded by a backslash, for embedding in a quoted string.
pub open spec fn escape_quotes(s: Seq<char>) -> Seq<char>
    decreases s.len(),
{
    if s.len() == 0 {
        seq![]
    } else {
        escape_quotes(s.drop_last()) + (if s.last() == '"' {
            seq!['\\', '"']
        } else {
            seq![s.last()]
        })
    }
}

pub open spec fn curl_code(e: Seq<char>, t: Seq<char>, c: Seq<char>, p: Seq<char>, x: Seq<char>) -> Seq<char> {
    "curl "@
        + e
        + " \\\n+  -H \"Authorization: Bearer "@
        + t
        + "\" \\\n+  -H \"Content-Type: application/json\" \\\n+  -d '"@
        + c
        + "'"@
}

pub open spec fn python_code(e: Seq<char>, t: Seq<char>, c: Seq<char>, p: Seq<char>, x: Seq<char>) -> Seq<char> {
    "import requests\n\nresponse = requests.post(\n    \""@
        + e
        + "\",\n    headers={\n        \"Authorization\": \"Bearer "@
        + t
        + "\",\n        \"Content-Type\": \"application/json\",\n    },\n    json="@
        + p
        + ",\n    timeout=60,\n)\nresponse.raise_for_status()\nprint(response.json())"@
}

pub open spec fn javascript_code(e: Seq<char>, t: Seq<char>, c: Seq<char>, p: Seq<char>, x: Seq<char>) -> Seq<char> {
    "const response = await fetch(\""@
        + e
        + "\", {\n  method: \"POST\",\n  headers: {\n    Authorization: \"Bearer "@
        + t
        + "\",\n    \"Content-Type\": \"application/json\",\n  },\n  body: JSON.stringify("@
        + p
        + "),\n});\n\nif (!response.ok) throw new Error(`HTTP ${response.status}`);\nconsole.log(await response.json());"@
}

pub open spec fn go_code(e: Seq<char>, t: Seq<char>, c: Seq<char>, p: Seq<char>, x: Seq<char>) -> Seq<char> {
    "package main\n\nimport (\n    \"bytes\"\n    \"fmt\"\n    \"io\"\n    \"net/http\"\n)\n\nfunc main() {\n    req, _ := http.NewRequest(\"POST\", \""@
        + e
        + "\", bytes.NewBufferString(\""@
        + x
        + "\"))\n    req.Header.Set(\"Authorization\", \"Bearer "@
        + t
        + "\")\n    req.Header.Set(\"Content-Type\", \"application/json\")\n    response, err := http.DefaultClient.Do(req)\n    if err != nil { panic(err) }\n    defer response.Body.Close()\n    result, _ := io.ReadAll(response.Body)\n    fmt.Println(string(result))\n}"@
}

pub open spec fn rust_code(e: Seq<char>, t: Seq<char>, c: Seq<char>, p: Seq<char>, x: Seq<char>) -> Seq<char> {
    "use reqwest::Client;\n\n#[tokio::main]\nasync fn main() -> Result<(), reqwest::Error> {\n    let response = Client::new()\n        .post(\""@
        + e
        + "\")\n        .bearer_auth(\""@
        + t
        + "\")\n        .json(&serde_json::json!("@
        + p
        + "))\n        .send()\n        .await?\n        .error_for_status()?;\n    println!(\"{}\", response.text().await?);\n    Ok(())\n}"@
}

pub open spec fn java_code(e: Seq<char>, t: Seq<char>, c: Seq<char>, p: Seq<char>, x: Seq<char>) -> Seq<char> {
    "import java.net.URI;\nimport java.net.http.HttpClient;\nimport java.net.http.HttpRequest;\nimport java.net.http.HttpResponse;\n\nvar request = HttpRequest.newBuilder(URI.create(\""@
        + e
        + "\"))\n    .header(\"Authorization\", \"Bearer "@
        + t
        + "\")\n    .header(\"Content-Type\", \"application/json\")\n    .POST(HttpRequest.BodyPublishers.ofString(\""@
        + x
        + "\"))\n    .build();\nvar response = HttpClient.newHttpClient()\n    .send(request, HttpResponse.BodyHandlers.ofString());\nSystem.out.println(response.body());"@
}

pub open spec fn csharp_code(e: Seq<char>, t: Seq<char>, c: Seq<char>, p: Seq<char>, x: Seq<char>) -> Seq<char> {
    "using System.Net.Http.Headers;\nusing System.Text;\n\nusing var client = new HttpClient();\nclient.DefaultRequestHeaders.Authorization =\n    new AuthenticationHeaderValue(\"Bearer\", \""@
        + t
        + "\");\nusing var content = new StringContent(\""@
        + x
        + "\", Encoding.UTF8, \"application/json\");\nvar response = await client.PostAsync(\""@
        + e
        + "\", content);\nresponse.EnsureSuccessStatusCode();\nConsole.WriteLine(await response.Content.ReadAsStringAsync());"@
}

pub open spec fn cpp_code(e: Seq<char>, t: Seq<char>, c: Seq<char>, p: Seq<char>, x: Seq<char>) -> Seq<char> {
    "#include <curl/curl.h>\n\nint main() {\n    CURL* curl = curl_easy_init();\n    curl_slist* headers = nullptr;\n    headers = curl_slist_append(headers, \"Authorization: Bearer "@
        + t
        + "\");\n    headers = curl_slist_append(headers, \"Content-Type: application/json\");\n    curl_easy_setopt(curl, CURLOPT_URL, \""@
        + e
        + "\");\n    curl_easy_setopt(curl, CURLOPT_HTTPHEADER, headers);\n    curl_easy_setopt(curl, CURLOPT_POSTFIELDS, \""@
        + x
        + "\");\n    const CURLcode result = curl_easy_perform(curl);\n    curl_slist_free_all(headers);\n    curl_easy_cleanup(curl);\n    return result == CURLE_OK ? 0 : 1;\n}"@
}
fn curl_code_exec(e: &str, t: &str, c: &str, p: &str, x: &str) -> (r: String)
    ensures
        r@ == curl_code(e@, t@, c@, p@, x@),
{
    let mut r = text::owned("curl ");
    text::push_str(&mut r, e);
    text::push_str(&mut r, " \\\n+  -H \"Authorization: Bearer ");
    text::push_str(&mut r, t);
    text::push_str(&mut r, "\" \\\n+  -H \"Content-Type: application/json\" \\\n+  -d '");
    text::push_str(&mut r, c);
    text::push_str(&mut r, "'");
    r
}

fn python_code_exec(e: &str, t: &str, c: &str, p: &str, x: &str) -> (r: String)
    ensures
        r@ == python_code(e@, t@, c@, p@, x@),
{
    let mut r = text::owned("import requests\n\nresponse = requests.post(\n    \"");
    text::push_str(&mut r, e);
    text::push_str(&mut r, "\",\n    headers={\n        \"Authorization\": \"Bearer ");
    text::push_str(&mut r, t);
    text::push_str(&mut r, "\",\n        \"Content-Type\": \"application/json\",\n    },\n    json=");
    text::push_str(&mut r, p);
    text::push_str(&mut r, ",\n    timeout=60,\n)\nresponse.raise_for_status()\nprint(response.json())");
    r
}

fn javascript_code_exec(e: &str, t: &str, c: &str, p: &str, x: &str) -> (r: String)
    ensures
        r@ == javascript_code(e@, t@, c@, p@, x@),
{
    let mut r = text::owned("const response = await fetch(\"");
    text::push_str(&mut r, e);
    text::push_str(&mut r, "\", {\n  method: \"POST\",\n  headers: {\n    Authorization: \"Bearer ");
    text::push_str(&mut r, t);
    text::push_str(&mut r, "\",\n    \"Content-Type\": \"application/json\",\n  },\n  body: JSON.stringify(");
    text::push_str(&mut r, p);
    text::push_str(&mut r, "),\n});\n\nif (!response.ok) throw new Error(`HTTP ${response.status}`);\nconsole.log(await response.json());");
    r
}

fn go_code_exec(e: &str, t: &str, c: &str, p: &str, x: &str) -> (r: String)
    ensures
        r@ == go_code(e@, t@, c@, p@, x@),
{
    let mut r = text::owned("package main\n\nimport (\n    \"bytes\"\n    \"fmt\"\n    \"io\"\n    \"net/http\"\n)\n\nfunc main() {\n    req, _ := http.NewRequest(\"POST\", \"");
    text::push_str(&mut r, e);
    text::push_str(&mut r, "\", bytes.NewBufferString(\"");
    text::push_str(&mut r, x);
    text::push_str(&mut r, "\"))\n    req.Header.Set(\"Authorization\", \"Bearer ");
    text::push_str(&mut r, t);
    text::push_str(&mut r, "\")\n    req.Header.Set(\"Content-Type\", \"application/json\")\n    response, err := http.DefaultClient.Do(req)\n    if err != nil { panic(err) }\n    defer response.Body.Close()\n    result, _ := io.ReadAll(response.Body)\n    fmt.Println(string(result))\n}");
    r
}

fn rust_code_exec(e: &str, t: &str, c: &str, p: &str, x: &str) -> (r: String)
    ensures
        r@ == rust_code(e@, t@, c@, p@, x@),
{
    let mut r = text::owned("use reqwest::Client;\n\n#[tokio::main]\nasync fn main() -> Result<(), reqwest::Error> {\n    let response = Client::new()\n        .post(\"");
    text::push_str(&mut r, e);
    text::push_str(&mut r, "\")\n        .bearer_auth(\"");
    text::push_str(&mut r, t);
    text::push_str(&mut r, "\")\n        .json(&serde_json::json!(");
    text::push_str(&mut r, p);
    text::push_str(&mut r, "))\n        .send()\n        .await?\n        .error_for_status()?;\n    println!(\"{}\", response.text().await?);\n    Ok(())\n}");
    r
}

fn java_code_exec(e: &str, t: &str, c: &str, p: &str, x: &str) -> (r: String)
    ensures
        r@ == java_code(e@, t@, c@, p@, x@),
{
    let mut r = text::owned("import java.net.URI;\nimport java.net.http.HttpClient;\nimport java.net.http.HttpRequest;\nimport java.net.http.HttpResponse;\n\nvar request = HttpRequest.newBuilder(URI.create(\"");
    text::push_str(&mut r, e);
    text::push_str(&mut r, "\"))\n    .header(\"Authorization\", \"Bearer ");
    text::push_str(&mut r, t);
    text::push_str(&mut r, "\")\n    .header(\"Content-Type\", \"application/json\")\n    .POST(HttpRequest.BodyPublishers.ofString(\"");
    text::push_str(&mut r, x);
    text::push_str(&mut r, "\"))\n    .build();\nvar response = HttpClient.newHttpClient()\n    .send(request, HttpResponse.BodyHandlers.ofString());\nSystem.out.println(response.body());");
    r
}

fn csharp_code_exec(e: &str, t: &str, c: &str, p: &str, x: &str) -> (r: String)
    ensures
        r@ == csharp_code(e@, t@, c@, p@, x@),
{
    let mut r = text::owned("using System.Net.Http.Headers;\nusing System.Text;\n\nusing var client = new HttpClient();\nclient.DefaultRequestHeaders.Authorization =\n    new AuthenticationHeaderValue(\"Bearer\", \"");
    text::push_str(&mut r, t);
    text::push_str(&mut r, "\");\nusing var content = new StringContent(\"");
    text::push_str(&mut r, x);
    text::push_str(&mut r, "\", Encoding.UTF8, \"application/json\");\nvar response = await client.PostAsync(\"");
    text::push_str(&mut r, e);
    text::push_str(&mut r, "\", content);\nresponse.EnsureSuccessStatusCode();\nConsole.WriteLine(await response.Content.ReadAsStringAsync());");
    r
}

fn cpp_code_exec(e: &str, t: &str, c: &str, p: &str, x: &str) -> (r: String)
    ensures
        r@ == cpp_code(e@, t@, c@, p@, x@),
{
    let mut r = text::owned("#include <curl/curl.h>\n\nint main() {\n    CURL* curl = curl_easy_init();\n    curl_slist* headers = nullptr;\n    headers = curl_slist_append(headers, \"Authorization: Bearer ");
    text::push_str(&mut r, t);
    text::push_str(&mut r, "\");\n    headers = curl_slist_append(headers, \"Content-Type: application/json\");\n    curl_easy_setopt(curl, CURLOPT_URL, \"");
    text::push_str(&mut r, e);
    text::push_str(&mut r, "\");\n    curl_easy_setopt(curl, CURLOPT_HTTPHEADER, headers);\n    curl_easy_setopt(curl, CURLOPT_POSTFIELDS, \"");
    text::push_str(&mut r, x);
    text::push_str(&mut r, "\");\n    const CURLcode result = curl_easy_perform(curl);\n    curl_slist_free_all(headers);\n    curl_easy_cleanup(curl);\n    return result == CURLE_OK ? 0 : 1;\n}");
    r
}

/// The eight templates for an endpoint, a placeholder and the compact and
/// pretty renderings of the request body.
pub open spec fn rendered_templates(e: Seq<char>, t: Seq<char>, c: Seq<char>, p: Seq<char>) -> Seq<TemplateView> {
    let x = escape_quotes(c);
    seq![
        tv(TemplateLanguage::Curl, "cURL"@, curl_code(e, t, c, p, x)),
        tv(TemplateLanguage::Python, "Python"@, python_code(e, t, c, p, x)),
        tv(TemplateLanguage::JavascriptTypescript, "JavaScript / TypeScript"@, javascript_code(e, t, c, p, x)),
        tv(TemplateLanguage::Go, "Go"@, go_code(e, t, c, p, x)),
        tv(TemplateLanguage::Rust, "Rust"@, rust_code(e, t, c, p, x)),
        tv(TemplateLanguage::Java, "Java"@, java_code(e, t, c, p, x)),
        tv(TemplateLanguage::Csharp, "C#"@, csharp_code(e, t, c, p, x)),
        tv(TemplateLanguage::Cpp, "C++ (libcurl)"@, cpp_code(e, t, c, p, x)),
    ]
}

fn escape_quotes_exec(s: &str) -> (r: String)
    ensures
        r@ == escape_quotes(s@),
{
    let v = text::chars_of(s);
    let mut r = String::new();
    let mut i: usize = 0;
    while i < v.len()
        invariant
            v@ == s@,
            i <= v@.len(),
            r@ == escape_quotes(s@.take(i as int)),
        decreases v.len() - i,
    {
        assert(s@.take(i + 1).drop_last() == s@.take(i as int));
        if v[i] == '"' {
            text::push_char(&mut r, '\\');
            text::push_char(&mut r, '"');
            assert(r@ == escape_quotes(s@.take(i as int)) + seq!['\\', '"']);
        } else {
            text::push_char(&mut r, v[i]);
            assert(r@ == escape_quotes(s@.take(i as int)) + seq![v[i as int]]);
        }
        i = i + 1;
    }
    assert(s@.take(v@.len() as int) == s@);
    r
}

fn template(language: TemplateLanguage, title: &str, code: String) -> (r: CodeTemplate)
    ensures
        r@ == tv(language, title@, code@),
{
    CodeTemplate { language, title: text::owned(title), code }
}

/// Renders the eight templates from already serialised request bodies: the
/// compact JSON text and the indented one.
pub fn render_templates(context: &TemplateContext, body_compact: &str, body_pretty: &str) -> (r: Vec<CodeTemplate>)
    ensures
        template_views(r@) == rendered_templates(
            chat_endpoint(context.base_url@),
            context.token_placeholder@,
            body_compact@,
            body_pretty@,
        ),
{
    let endpoint = join_url(context.base_url.as_str(), "/chat/completions");
    let e = endpoint.as_str();
    let t = context.token_placeholder.as_str();
    let c = body_compact;
    let p = body_pretty;
    let escaped = escape_quotes_exec(c);
    let x = escaped.as_str();
    let mut r: Vec<CodeTemplate> = Vec::new();
    r.push(template(TemplateLanguage::Curl, "cURL", curl_code_exec(e, t, c, p, x)));
    r.push(template(TemplateLanguage::Python, "Python", python_code_exec(e, t, c, p, x)));
    r.push(
        template(
            TemplateLanguage::JavascriptTypescript,
            "JavaScript / TypeScript",
            javascript_code_exec(e, t, c, p, x),
        ),
    );
    r.push(template(TemplateLanguage::Go, "Go", go_code_exec(e, t, c, p, x)));
    r.push(template(TemplateLanguage::Rust, "Rust", rust_code_exec(e, t, c, p, x)));
    r.push(template(TemplateLanguage::Java, "Java", java_code_exec(e, t, c, p, x)));
    r.push(template(TemplateLanguage::Csharp, "C#", csharp_code_exec(e, t, c, p, x)));
    r.push(template(TemplateLanguage::Cpp, "C++ (libcurl)", cpp_code_exec(e, t, c, p, x)));
    assert(template_views(r@) =~= rendered_templates(
        chat_endpoint(context.base_url@),
        context.token_placeholder@,
        body_compact@,
        body_pretty@,
    ));
    r
}

pub open spec fn serialization_message(m: Seq<char>) -> Seq<char> {
    "JSON 序列化失败: "@ + m
}

/// What `generate_templates` gives for a context: the templates, or the code
/// and message of its error.
pub open spec fn templates_result(c: TemplateContext) -> Result<Seq<TemplateView>, (ErrorCode, Seq<char>)> {
    match template_context_error(c) {
        Some(m) => Err((ErrorCode::TemplateInvalid, m)),
        None => {
            let body = chat_body(c.model@, c.stream);
            match json_compact_of(body) {
                Err(m) => Err((ErrorCode::SerializationFailed, serialization_message(m))),
                Ok(compact) => match json_pretty_of(body) {
                    Err(m) => Err((ErrorCode::SerializationFailed, serialization_message(m))),
                    Ok(pretty) => Ok(
                        rendered_templates(
                            chat_endpoint(c.base_url@),
                            c.token_placeholder@,
                            compact,
                            pretty,
                        ),
                    ),
                },
            }
        },
    }
}

fn chat_body_exec(model: &str, stream: bool) -> (r: String)
    ensures
        r@ == chat_body(model@, stream),
{
    let mut r = text::owned("{\"model\":");
    let quoted = json::json_quote(model);
    text::push_str(&mut r, quoted.as_str());
    text::push_str(
        &mut r,
        ",\"messages\":[{\"role\":\"user\",\"content\":\"Hello from API ARRAY\"}],\"stream\":",
    );
    if stream {
        text::push_str(&mut r, "true");
    } else {
        text::push_str(&mut r, "false");
    }
    text::push_str(&mut r, "}");
    r
}

/// Generates the eight copy-ready templates for the OpenAI-compatible
/// endpoint: the context is validated, the request body is serialised by
/// `serde_json` compactly and indented, and each template is rendered.
pub fn generate_templates(context: &TemplateContext) -> (r: Result<Vec<CodeTemplate>, CoreError>)
    ensures
        match (r, templates_result(*context)) {
            (Ok(v), Ok(s)) => template_views(v@) == s,
            (Err(e), Err((code, m))) => e.code == code && e.message@ == m && e.issues@.len() == 0,
            _ => false,
        },
{
    match context.validate() {
        Err(e) => {
            return Err(e);
        },
        Ok(()) => {},
    }
    let body = chat_body_exec(context.model.as_str(), context.stream);
    let compact = match json::json_compact(body.as_str()) {
        Ok(s) => s,
        Err(m) => {
            let mut message = text::owned("JSON 序列化失败: ");
            text::push_str(&mut message, m.as_str());
            return Err(CoreError::new(ErrorCode::SerializationFailed, message.as_str()));
        },
    };
    let pretty = match json::json_pretty(body.as_str()) {
        Ok(s) => s,
        Err(m) => {
            let mut message = text::owned("JSON 序列化失败: ");
            text::push_str(&mut message, m.as_str());
            return Err(CoreError::new(ErrorCode::SerializationFailed, message.as_str()));
        },
    };
    Ok(render_templates(context, compact.as_str(), pretty.as_str()))
}

pub open spec fn markdown_language_of(language: TemplateLanguage) -> Seq<char> {
    match language {
        TemplateLanguage::Curl => "bash"@,
        TemplateLanguage::Python => "python"@,
        TemplateLanguage::JavascriptTypescript => "typescript"@,
        TemplateLanguage::Go => "go"@,
        TemplateLanguage::Rust => "rust"@,
        TemplateLanguage::Java => "java"@,
        TemplateLanguage::Csharp => "csharp"@,
        TemplateLanguage::Cpp => "cpp"@,
    }
}

/// The fence label of a language in Markdown.
pub fn markdown_language(language: TemplateLanguage) -> (r: &'static str)
    ensures
        r@ == markdown_language_of(language),
{
    match language {
        TemplateLanguage::Curl => "bash",
        TemplateLanguage::Python => "python",
        TemplateLanguage::JavascriptTypescript => "typescript",
        TemplateLanguage::Go => "go",
        TemplateLanguage::Rust => "rust",
        TemplateLanguage::Java => "java",
        TemplateLanguage::Csharp => "csharp",
        TemplateLanguage::Cpp => "cpp",
    }
}

pub open spec fn facts_markdown(items: Seq<(Seq<char>, Seq<char>)>, n: int) -> Seq<char>
    decreases n,
{
    if n <= 0 {
        seq![]
    } else {
        facts_markdown(items, n - 1) + "- **"@ + items[n - 1].0 + "**："@ + items[n - 1].1 + "\n"@
    }
}

pub open spec fn steps_markdown(items: Seq<Seq<char>>, n: int) -> Seq<char>
    decreases n,
{
    if n <= 0 {
        seq![]
    } else {
        steps_markdown(items, n - 1) + decimal(n as nat) + ". "@ + items[n - 1] + "\n"@
    }
}

/// The Markdown of one section.
pub open spec fn section_markdown(s: SectionView) -> Seq<char> {
    match s {
        SectionView::Paragraph { title, body } => "## "@ + title + "\n\n"@ + body + "\n\n"@,
        SectionView::Facts { title, items } => "## "@ + title + "\n\n"@ + facts_markdown(
            items,
            items.len() as int,
        ) + "\n"@,
        SectionView::Steps { title, items } => "## "@ + title + "\n\n"@ + steps_markdown(
            items,
            items.len() as int,
        ) + "\n"@,
        SectionView::Code { title, block } => "## "@ + title + "\n\n```"@ + markdown_language_of(
            block.language,
        ) + "\n"@ + block.code + "\n```\n\n"@,
        SectionView::Note { title, body, tone } => "## "@ + title + "\n\n> "@ + body + "\n\n"@,
    }
}

pub open spec fn sections_markdown(s: Seq<SectionView>, n: int) -> Seq<char>
    decreases n,
{
    if n <= 0 {
        seq![]
    } else {
        sections_markdown(s, n - 1) + section_markdown(s[n - 1])
    }
}

/// The Markdown of a document: its title, its summary, then every section.
pub open spec fn markdown_of(title: Seq<char>, summary: Seq<char>, sections: Seq<SectionView>) -> Seq<char> {
    "# "@ + title + "\n\n"@ + summary + "\n\n"@ + sections_markdown(sections, sections.len() as int)
}

fn section_markdown_exec(section: &LiveDocumentSection) -> (r: String)
    ensures
        r@ == section_markdown(section@),
{
    match section {
        LiveDocumentSection::Paragraph { title, body } => {
            let mut r = text::owned("## ");
            text::push_str(&mut r, title.as_str());
            text::push_str(&mut r, "\n\n");
            text::push_str(&mut r, body.as_str());
            text::push_str(&mut r, "\n\n");
            r
        },
        LiveDocumentSection::Facts { title, items } => {
            let mut r = text::owned("## ");
            text::push_str(&mut r, title.as_str());
            text::push_str(&mut r, "\n\n");
            let ghost head = r@;
            let ghost fs = fact_views(items@);
            let mut i: usize = 0;
            while i < items.len()
                invariant
                    i <= items@.len(),
                    fs == fact_views(items@),
                    r@ == head + facts_markdown(fs, i as int),
                decreases items.len() - i,
            {
                text::push_str(&mut r, "- **");
                text::push_str(&mut r, items[i].label.as_str());
                text::push_str(&mut r, "**：");
                text::push_str(&mut r, items[i].value.as_str());
                text::push_str(&mut r, "\n");
                i = i + 1;
            }
            text::push_str(&mut r, "\n");
            r
        },
        LiveDocumentSection::Steps { title, items } => {
            let mut r = text::owned("## ");
            text::push_str(&mut r, title.as_str());
            text::push_str(&mut r, "\n\n");
            let ghost head = r@;
            let ghost ss = string_views(items@);
            let mut i: usize = 0;
            while i < items.len()
                invariant
                    i <= items@.len(),
                    ss == string_views(items@),
                    r@ == head + steps_markdown(ss, i as int),
                decreases items.len() - i,
            {
                let number = text::decimal_string((i + 1) as u64);
                text::push_str(&mut r, number.as_str());
                text::push_str(&mut r, ". ");
                text::push_str(&mut r, items[i].as_str());
                text::push_str(&mut r, "\n");
                i = i + 1;
            }
            text::push_str(&mut r, "\n");
            r
        },
        LiveDocumentSection::Code { title, block } => {
            let mut r = text::owned("## ");
            text::push_str(&mut r, title.as_str());
            text::push_str(&mut r, "\n\n```");
            text::push_str(&mut r, markdown_language(block.language));
            text::push_str(&mut r, "\n");
            text::push_str(&mut r, block.code.as_str());
            text::push_str(&mut r, "\n```\n\n");
            r
        },
        LiveDocumentSection::Note { title, body, .. } => {
            let mut r = text::owned("## ");
            text::push_str(&mut r, title.as_str());
            text::push_str(&mut r, "\n\n> ");
            text::push_str(&mut r, body.as_str());
            text::push_str(&mut r, "\n\n");
            r
        },
    }
}

/// Renders a live document as Markdown: the same document always gives the
/// same text.
pub fn render_live_document_markdown(document: &LiveDocument) -> (r: String)
    ensures
        r@ == markdown_of(document.title@, document.summary@, section_views(document.sections@)),
{
    let mut r = text::owned("# ");
    text::push_str(&mut r, document.title.as_str());
    text::push_str(&mut r, "\n\n");
    text::push_str(&mut r, document.summary.as_str());
    text::push_str(&mut r, "\n\n");
    let ghost head = r@;
    let ghost ss = section_views(document.sections@);
    let mut i: usize = 0;
    while i < document.sections.len()
        invariant
            i <= document.sections@.len(),
            ss == section_views(document.sections@),
            r@ == head + sections_markdown(ss, i as int),
        decreases document.sections.len() - i,
    {
        let part = section_markdown_exec(&document.sections[i]);
        text::push_str(&mut r, part.as_str());
        i = i + 1;
    }
    r
}

/// The first template of a language.
pub open spec fn find_template(ts: Seq<TemplateView>, language: TemplateLanguage, n: int) -> Option<TemplateView>
    decreases n,
{
    if n <= 0 {
        None
    } else if find_template(ts, language, n - 1) is Some {
        find_template(ts, language, n - 1)
    } else if ts[n - 1].language == language {
        Some(ts[n - 1])
    } else {
        None
    }
}

pub open spec fn live_title(model: Seq<char>) -> Seq<char> {
    model + " · API ARRAY 活文档"@
}

pub open spec fn live_summary() -> Seq<char> {
    "本地、可审计的 OpenAI-compatible 调用说明。"@
}

/// The sections of the live document for a context, a status and the
/// template it presents.
pub open spec fn live_sections(c: TemplateContext, status: Seq<char>, t: TemplateView) -> Seq<SectionView> {
    seq![
        SectionView::Paragraph {
            title: "用途"@,
            body: "通过 API ARRAY 的本地审计入口调用 OpenAI-compatible API。请求会经过鉴权、路由、故障处理与脱敏审计。"@,
        },
        SectionView::Facts {
            title: "入口信息"@,
            items: seq![
                ("Base URL"@, c.base_url@),
                ("公开模型"@, c.model@),
                ("运行状态"@, status),
                ("流式响应"@, if c.stream { "已启用"@ } else { "当前示例未启用"@ }),
            ],
        },
        SectionView::Steps {
            title: "调用前准备"@,
            items: seq![
                "将本地入口 Token 写入环境变量或安全 Secret Store；示例使用占位符 "@ + c.token_placeholder@ + "。"@,
                "确认 API ARRAY 正在运行且目标入口处于启用状态。"@,
                "不要把本地 Token 或上游 API Key 写入源码、日志或版本库。"@,
            ],
        },
        SectionView::Code { title: "快速开始"@, block: t },
        SectionView::Note {
            title: "审计与隐私"@,
            body: "默认审计只保存模型、状态、延迟、重试、切换和 Token 用量，不保存请求正文、响应正文、Authorization Header 或 Secret。"@,
            tone: DocumentNoteTone::Security,
        },
        SectionView::Note {
            title: "故障排查"@,
            body: "遇到 401 时检查本地入口 Token；遇到 502/503 时先在 API 钱包验证上游，再检查 Canvas 编译报告和候选健康状态。"@,
            tone: DocumentNoteTone::Info,
        },
    ]
}

/// Whether a document is the live document for a context, a language, a
/// status and the template it presents, with its Markdown rendered from it.
pub open spec fn is_live_document(d: LiveDocument, c: TemplateContext, language: TemplateLanguage, status: Seq<char>, t: TemplateView) -> bool {
    &&& d.schema_version == 1
    &&& d.title@ == live_title(c.model@)
    &&& d.summary@ == live_summary()
    &&& d.language == language
    &&& d.endpoint_status@ == status
    &&& section_views(d.sections@) == live_sections(c, status, t)
    &&& d.markdown@ == markdown_of(d.title@, d.summary@, section_views(d.sections@))
}

fn fact(label: &str, value: &str) -> (r: LiveDocumentFact)
    ensures
        r.label@ == label@,
        r.value@ == value@,
{
    LiveDocumentFact { label: text::owned(label), value: text::owned(value) }
}

fn live_sections_exec(context: &TemplateContext, status: &str, t: &CodeTemplate) -> (r: Vec<LiveDocumentSection>)
    ensures
        section_views(r@) == live_sections(*context, status@, t@),
{
    let mut facts: Vec<LiveDocumentFact> = Vec::new();
    facts.push(fact("Base URL", context.base_url.as_str()));
    facts.push(fact("公开模型", context.model.as_str()));
    facts.push(fact("运行状态", status));
    facts.push(fact("流式响应", if context.stream { "已启用" } else { "当前示例未启用" }));
    let ghost fs = fact_views(facts@);
    assert(fs =~= seq![
        ("Base URL"@, context.base_url@),
        ("公开模型"@, context.model@),
        ("运行状态"@, status@),
        ("流式响应"@, if context.stream { "已启用"@ } else { "当前示例未启用"@ }),
    ]);
    let mut first = text::owned("将本地入口 Token 写入环境变量或安全 Secret Store；示例使用占位符 ");
    text::push_str(&mut first, context.token_placeholder.as_str());
    text::push_str(&mut first, "。");
    let mut steps: Vec<String> = Vec::new();
    steps.push(first);
    steps.push(text::owned("确认 API ARRAY 正在运行且目标入口处于启用状态。"));
    steps.push(text::owned("不要把本地 Token 或上游 API Key 写入源码、日志或版本库。"));
    assert(string_views(steps@) =~= seq![
        "将本地入口 Token 写入环境变量或安全 Secret Store；示例使用占位符 "@ + context.token_placeholder@ + "。"@,
        "确认 API ARRAY 正在运行且目标入口处于启用状态。"@,
        "不要把本地 Token 或上游 API Key 写入源码、日志或版本库。"@,
    ]);
    let mut r: Vec<LiveDocumentSection> = Vec::new();
    r.push(
        LiveDocumentSection::Paragraph {
            title: text::owned("用途"),
            body: text::owned(
                "通过 API ARRAY 的本地审计入口调用 OpenAI-compatible API。请求会经过鉴权、路由、故障处理与脱敏审计。",
            ),
        },
    );
    r.push(LiveDocumentSection::Facts { title: text::owned("入口信息"), items: facts });
    r.push(LiveDocumentSection::Steps { title: text::owned("调用前准备"), items: steps });
    r.push(
        LiveDocumentSection::Code {
            title: text::owned("快速开始"),
            block: CodeBlock { language: t.language, title: t.title.clone(), code: t.code.clone() },
        },
    );
    r.push(
        LiveDocumentSection::Note {
            title: text::owned("审计与隐私"),
            body: text::owned(
                "默认审计只保存模型、状态、延迟、重试、切换和 Token 用量，不保存请求正文、响应正文、Authorization Header 或 Secret。",
            ),
            tone: DocumentNoteTone::Security,
        },
    );
    r.push(
        LiveDocumentSection::Note {
            title: text::owned("故障排查"),
            body: text::owned(
                "遇到 401 时检查本地入口 Token；遇到 502/503 时先在 API 钱包验证上游，再检查 Canvas 编译报告和候选健康状态。",
            ),
            tone: DocumentNoteTone::Info,
        },
    );
    assert(section_views(r@) =~= live_sections(*context, status@, t@));
    r
}

/// Builds the live document for one of the generated templates: fixed
/// sections around the endpoint's facts and the template's code, and the
/// Markdown rendered from them. It fails as `generate_templates` fails, or
/// when no template has the language.
pub fn generate_live_document(context: &TemplateContext, language: TemplateLanguage, endpoint_status: &str) -> (r: Result<LiveDocument, CoreError>)
    ensures
        match templates_result(*context) {
            Err((code, m)) => r matches Err(e) && e.code == code && e.message@ == m && e.issues@.len() == 0,
            Ok(ts) => match find_template(ts, language, ts.len() as int) {
                None => r matches Err(e) && e.code == ErrorCode::TemplateInvalid && e.message@
                    == "未找到请求的模板语言"@ && e.issues@.len() == 0,
                Some(t) => r matches Ok(d) && is_live_document(d, *context, language, endpoint_status@, t),
            },
        },
{
    let templates = match generate_templates(context) {
        Err(e) => {
            return Err(e);
        },
        Ok(ts) => ts,
    };
    let ghost ts = template_views(templates@);
    assert(templates_result(*context) == Ok::<Seq<TemplateView>, (ErrorCode, Seq<char>)>(ts));
    let mut i: usize = 0;
    while i < templates.len()
        invariant
            i <= templates@.len(),
            ts == template_views(templates@),
            templates_result(*context) == Ok::<Seq<TemplateView>, (ErrorCode, Seq<char>)>(ts),
            find_template(ts, language, i as int) is None,
        decreases templates.len() - i,
    {
        if templates[i].language == language {
            let t = &templates[i];
            assert(find_template(ts, language, i + 1) == Some(t@));
            proof {
                lemma_find_stays(ts, language, i + 1, ts.len() as int);
            }
            let sections = live_sections_exec(context, endpoint_status, t);
            let mut title = text::owned(context.model.as_str());
            text::push_str(&mut title, " · API ARRAY 活文档");
            let mut document = LiveDocument {
                schema_version: 1,
                title,
                summary: text::owned("本地、可审计的 OpenAI-compatible 调用说明。"),
                language,
                endpoint_status: text::owned(endpoint_status),
                sections,
                markdown: String::new(),
            };
            document.markdown = render_live_document_markdown(&document);
            return Ok(document);
        }
        i = i + 1;
    }
    Err(CoreError::new(ErrorCode::TemplateInvalid, "未找到请求的模板语言"))
}

proof fn lemma_find_stays(ts: Seq<TemplateView>, language: TemplateLanguage, i: int, n: int)
    requires
        0 <= i <= n,
        find_template(ts, language, i) is Some,
    ensures
        find_template(ts, language, n) == find_template(ts, language, i),
    decreases n - i,
{
    if i < n {
        lemma_find_stays(ts, language, i, n - 1);
    }
}

/// Every template that `generate_templates` yields has a distinct language,
/// so the live document of a valid context never misses its template.
pub proof fn law_every_language_has_a_template(c: TemplateContext, language: TemplateLanguage)
    requires
        templates_result(c) is Ok,
    ensures
        find_template(templates_result(c)->Ok_0, language, 8) is Some,
{
    let ts = templates_result(c)->Ok_0;
    reveal_with_fuel(find_template, 9);
}

} // verus!
