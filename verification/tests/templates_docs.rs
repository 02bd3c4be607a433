use apiarray::templates::{
    generate_live_document, generate_templates, render_live_document_markdown, render_templates,
    CodeBlock, DocumentNoteTone, LiveDocument, LiveDocumentFact, LiveDocumentSection,
    TemplateContext, TemplateLanguage,
};
use apiarray::{CoreError, ErrorCode};

fn context(base_url: &str, model: &str, token: &str) -> TemplateContext {
    TemplateContext {
        base_url: base_url.to_owned(),
        model: model.to_owned(),
        stream: false,
        token_placeholder: token.to_owned(),
    }
}

#[test]
fn generates_all_eight_languages_without_real_secret() -> Result<(), CoreError> {
    let templates = generate_templates(&TemplateContext {
        base_url: "http://127.0.0.1:6188/v1".to_owned(),
        model: "smart".to_owned(),
        stream: false,
        token_placeholder: "<API_ARRAY_TOKEN>".to_owned(),
    })?;
    assert_eq!(templates.len(), 8);
    assert!(templates
        .iter()
        .all(|template| template.code.contains("smart")));
    assert!(templates
        .iter()
        .all(|template| template.code.contains("<API_ARRAY_TOKEN>")));
    Ok(())
}

#[test]
fn live_document_is_structured_and_markdown_is_deterministic() -> Result<(), CoreError> {
    let context = TemplateContext {
        base_url: "http://127.0.0.1:7480/direct/main/v1".to_owned(),
        model: "smart".to_owned(),
        stream: false,
        token_placeholder: "${APIARRAY_DIRECT_MAIN_TOKEN}".to_owned(),
    };
    let document = generate_live_document(&context, TemplateLanguage::Python, "运行中")?;
    assert!(document
        .sections
        .iter()
        .any(|section| matches!(section, LiveDocumentSection::Code { .. })));
    assert_eq!(document.markdown, render_live_document_markdown(&document));
    assert!(document.markdown.contains("```python"));
    assert!(!document.markdown.to_ascii_lowercase().contains("sk-"));
    Ok(())
}

#[test]
fn rejects_non_loopback_template_endpoint() {
    let context = TemplateContext {
        base_url: "https://public.example/v1".to_owned(),
        model: "smart".to_owned(),
        stream: false,
        token_placeholder: "<TOKEN>".to_owned(),
    };
    assert!(generate_templates(&context).is_err());
}

#[test]
fn curl_template_uses_compact_body_and_trimmed_endpoint() -> Result<(), CoreError> {
    let templates = generate_templates(&context("HTTP://LOCALHOST:6188/v1//", "smart", "<T>"))?;
    assert_eq!(templates[0].language, TemplateLanguage::Curl);
    assert_eq!(
        templates[0].code,
        "curl HTTP://LOCALHOST:6188/v1/chat/completions \\\n+  -H \"Authorization: Bearer <T>\" \\\n+  -H \"Content-Type: application/json\" \\\n+  -d '{\"messages\":[{\"content\":\"Hello from API ARRAY\",\"role\":\"user\"}],\"model\":\"smart\",\"stream\":false}'"
    );
    assert!(templates[1].code.contains(
        "json={\n  \"messages\": [\n    {\n      \"content\": \"Hello from API ARRAY\",\n      \"role\": \"user\"\n    }\n  ],\n  \"model\": \"smart\",\n  \"stream\": false\n},"
    ));
    assert!(templates[3]
        .code
        .contains("bytes.NewBufferString(\"{\\\"messages\\\":[{\\\"content\\\""));
    let titles: Vec<&str> = templates.iter().map(|t| t.title.as_str()).collect();
    assert_eq!(
        titles,
        vec![
            "cURL",
            "Python",
            "JavaScript / TypeScript",
            "Go",
            "Rust",
            "Java",
            "C#",
            "C++ (libcurl)"
        ]
    );
    Ok(())
}

#[test]
fn render_templates_escapes_quotes_for_embedded_strings() {
    let templates = render_templates(
        &context("http://[::1]:1/v1", "m", "<T>"),
        "{\"a\":\"b\"}",
        "{ }",
    );
    assert_eq!(templates.len(), 8);
    assert!(templates[5]
        .code
        .contains("BodyPublishers.ofString(\"{\\\"a\\\":\\\"b\\\"}\")"));
    assert!(templates[2].code.contains("body: JSON.stringify({ }),"));
}

#[test]
fn template_context_rejections() {
    let blank_model = generate_templates(&context("http://127.0.0.1/v1", "  ", "<T>"));
    match blank_model {
        Err(error) => {
            assert_eq!(error.code, ErrorCode::TemplateInvalid);
            assert_eq!(error.message, "模板模型不能为空");
        }
        Ok(_) => panic!("blank model must be refused"),
    }
    let real_key = generate_templates(&context("http://127.0.0.1/v1", "m", "SK-live"));
    assert!(matches!(real_key, Err(error) if error.message == "模板必须使用安全占位符而不是真实令牌"));
    let long = "x".repeat(129);
    assert!(generate_templates(&context("http://127.0.0.1/v1", "m", &long)).is_err());
    let exact = "x".repeat(128);
    assert!(generate_templates(&context("http://127.0.0.1/v1", "m", &exact)).is_ok());
    let wide = "字".repeat(43);
    assert!(generate_templates(&context("http://127.0.0.1/v1", "m", &wide)).is_err());
    let remote = generate_templates(&context("http://10.0.0.1/v1", "m", "<T>"));
    assert!(matches!(remote, Err(error) if error.message == "MVP 活文档只允许回环 HTTP Base URL"));
}

#[test]
fn markdown_renders_each_section_kind() {
    let document = LiveDocument {
        schema_version: 1,
        title: "T".to_owned(),
        summary: "S".to_owned(),
        language: TemplateLanguage::Go,
        endpoint_status: "ok".to_owned(),
        sections: vec![
            LiveDocumentSection::Paragraph {
                title: "P".to_owned(),
                body: "b".to_owned(),
            },
            LiveDocumentSection::Facts {
                title: "F".to_owned(),
                items: vec![LiveDocumentFact {
                    label: "k".to_owned(),
                    value: "v".to_owned(),
                }],
            },
            LiveDocumentSection::Steps {
                title: "St".to_owned(),
                items: vec!["one".to_owned(), "two".to_owned()],
            },
            LiveDocumentSection::Code {
                title: "C".to_owned(),
                block: CodeBlock {
                    language: TemplateLanguage::Go,
                    title: "Go".to_owned(),
                    code: "x".to_owned(),
                },
            },
            LiveDocumentSection::Note {
                title: "N".to_owned(),
                body: "n".to_owned(),
                tone: DocumentNoteTone::Warning,
            },
        ],
        markdown: String::new(),
    };
    assert_eq!(
        render_live_document_markdown(&document),
        "# T\n\nS\n\n## P\n\nb\n\n## F\n\n- **k**：v\n\n## St\n\n1. one\n2. two\n\n## C\n\n```go\nx\n```\n\n## N\n\n> n\n\n"
    );
}

#[test]
fn live_document_carries_the_endpoint_facts() -> Result<(), CoreError> {
    let document = generate_live_document(
        &context("http://127.0.0.1:1/v1", "smart", "<T>"),
        TemplateLanguage::Cpp,
        "已停止",
    )?;
    assert_eq!(document.title, "smart · API ARRAY 活文档");
    assert_eq!(document.sections.len(), 6);
    match &document.sections[1] {
        LiveDocumentSection::Facts { items, .. } => {
            assert_eq!(items[2].value, "已停止");
            assert_eq!(items[3].value, "当前示例未启用");
        }
        _ => panic!("second section lists the facts"),
    }
    assert!(document.markdown.contains("```cpp"));
    Ok(())
}

#[test]
fn only_loopback_hosts_pass_template_validation() {
    for url in ["http://localhost:8080/v1", "http://127.0.0.1:9/v1", "http://[::1]:7/v1", "HTTP://LOCALHOST", "http://127.0.0.1"] {
        assert!(context(url, "smart", "<TOKEN>").validate().is_ok(), "{url}");
    }
    for url in ["http://localhost.attacker.example/v1", "http://127.evil.example/v1", "http://[::1]x/v1", "https://localhost/v1"] {
        let error = context(url, "smart", "<TOKEN>").validate().expect_err(url);
        assert_eq!(error.code, ErrorCode::TemplateInvalid);
        assert_eq!(error.message, "MVP 活文档只允许回环 HTTP Base URL");
    }
}
