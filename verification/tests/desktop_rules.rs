use apiarray::desktop::{
    direct_endpoint_url, limited_name, managed_instance_id, model_count_from_payload,
    normalize_id, parse_managed_instance_id, unique_display_name, unique_map_id,
    webview_assets_changed, workspace_name, ManagedInstanceKind,
};

#[test]
fn normalizes_a_missing_or_very_long_workspace_name() {
    assert_eq!(workspace_name("  "), "我的 API ARRAY 工作区");
    assert_eq!(workspace_name(&"a".repeat(100)).chars().count(), 80);
}

#[test]
fn managed_instance_ids_are_stable_and_explicitly_scoped() {
    let direct = managed_instance_id(ManagedInstanceKind::DirectEndpoint, "primary", None);
    let canvas = managed_instance_id(ManagedInstanceKind::Canvas, "project-a", Some("canvas-b"));
    assert_eq!(direct, "direct:primary");
    assert_eq!(canvas, "canvas:project-a:canvas-b");
    assert_eq!(
        parse_managed_instance_id(&direct).expect("direct id").0,
        ManagedInstanceKind::DirectEndpoint
    );
    let parsed = parse_managed_instance_id(&canvas).expect("canvas id");
    assert_eq!(parsed.1, "project-a");
    assert_eq!(parsed.2.as_deref(), Some("canvas-b"));
    assert!(parse_managed_instance_id("canvas:missing").is_err());
}

#[test]
fn malformed_instance_ids_are_refused() {
    for id in ["", "direct:", "direct:a:b", "canvas::x", "canvas:p:", "other:a", "canvas:a:b:c"] {
        assert_eq!(
            parse_managed_instance_id(id),
            Err("实例 ID 无效。".to_owned()),
            "{id}"
        );
    }
}

#[test]
fn names_are_trimmed_and_limited() {
    assert_eq!(workspace_name("  工作区  "), "工作区");
    assert_eq!(limited_name(" \t", "Fallback"), "Fallback");
    assert_eq!(limited_name(" x ", "Fallback"), "x");
    assert_eq!(limited_name("", &"f".repeat(90)).len(), 80);
}

#[test]
fn identifiers_keep_safe_characters_only() {
    assert_eq!(normalize_id("  My Provider #1_a-b ", "provider"), "MyProvider1_a-b");
    assert_eq!(normalize_id("中文 !!", "asset"), "asset-default");
    assert_eq!(normalize_id(&"z".repeat(70), "asset").len(), 64);
}

#[test]
fn unique_ids_skip_taken_entries() {
    let taken = vec!["main".to_owned(), "main-2".to_owned()];
    assert_eq!(unique_map_id(&taken, "other"), "other");
    assert_eq!(unique_map_id(&taken, "main"), "main-3");
    let names = vec!["OpenAI".to_owned(), "openai 2".to_owned()];
    assert_eq!(unique_display_name(&names, "openai", "x"), "openai 3");
    assert_eq!(unique_display_name(&names, "  ", "Gemini"), "Gemini");
}

#[test]
fn asset_changes_and_urls() {
    assert!(webview_assets_changed(None, "build-1"));
    assert!(!webview_assets_changed(Some(" build-1\n"), "build-1"));
    assert!(webview_assets_changed(Some("build-0"), "build-1"));
    assert_eq!(
        direct_endpoint_url("127.0.0.1", 7480, "main"),
        "http://127.0.0.1:7480/direct/main/v1"
    );
}

#[test]
fn local_publisher_test_counts_only_openai_model_data() {
    assert_eq!(
        model_count_from_payload("{\"data\": [{\"id\": \"a\"}, {\"id\": \"b\"}]}"),
        2
    );
    assert_eq!(model_count_from_payload("{\"models\": []}"), 0);
}
