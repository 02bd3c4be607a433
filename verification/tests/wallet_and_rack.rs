use apiarray::control_center::{control_center_snapshot, TraceFacts};
use apiarray::desktop::ManagedInstanceKind;
use apiarray::graph::{NodeConfig, NodeKind};
use apiarray::host_state::{empty_workspace, ManagedInstanceStatus};
use apiarray::instance_start::apply_instance_start;
use apiarray::provider::{
    AdapterBinding, AuthenticationDefinition, AuthenticationField, AuthenticationType,
    DiscoveryDefinition, EndpointDefinition, ProviderIdentity, ProviderManifest, ProviderUi,
};
use apiarray::secret::SecretRef;
use apiarray::wallet::{insert_wallet_asset, new_wallet_asset, place_wallet_asset};
use apiarray::workspace::{DirectEndpoint, DirectModelMapping, WorkspacePackage};

fn manifest(fields: Vec<AuthenticationField>) -> ProviderManifest {
    ProviderManifest {
        schema_version: 1,
        provider: ProviderIdentity {
            id: "openai".to_owned(),
            name: "OpenAI".to_owned(),
            category: "ai-model".to_owned(),
            homepage: None,
            docs: None,
        },
        adapter: AdapterBinding { id: "openai-compatible".to_owned(), min_version: 1 },
        endpoint: EndpointDefinition {
            default_base_url: "https://api.openai.com/v1".to_owned(),
            editable: true,
            allowed_schemes: vec!["https".to_owned()],
        },
        authentication: AuthenticationDefinition { kind: AuthenticationType::HeaderSecret, fields },
        headers: Vec::new(),
        discovery: DiscoveryDefinition::default(),
        probes: Vec::new(),
        ui: ProviderUi::default(),
    }
}

fn field(id: &str, secret: bool, required: bool) -> AuthenticationField {
    AuthenticationField {
        id: id.to_owned(),
        label: id.to_owned(),
        secret,
        required,
        header: Some("Authorization".to_owned()),
        query: None,
        prefix: Some("Bearer ".to_owned()),
    }
}

fn with_asset(name: &str, has_key: bool) -> WorkspacePackage {
    let mut workspace = empty_workspace("w");
    let (asset, provider, _) = new_wallet_asset(
        &workspace,
        manifest(vec![field("api_key", true, true)]),
        name,
        has_key,
        None,
        None,
        None,
    )
    .expect("asset");
    insert_wallet_asset(&mut workspace, asset, provider).expect("stored");
    workspace
}

#[test]
fn a_new_asset_gets_unique_ids_and_a_wallet_reference() {
    let workspace = with_asset("Main Key!", true);
    let (asset, provider, reference) = new_wallet_asset(
        &workspace,
        manifest(vec![field("org", false, true), field("token", true, true)]),
        "Main Key!",
        true,
        Some("https://proxy.example/v1".to_owned()),
        Some(5_000_000),
        Some("USD".to_owned()),
    )
    .expect("second asset");
    assert_eq!(asset.id, "MainKey-2");
    assert_eq!(asset.provider_instance_id, "MainKey-2");
    assert_eq!(asset.name, "Main Key! 2");
    assert!(asset.enabled && provider.enabled);
    assert_eq!(asset.billing.monthly_budget_micros, Some(5_000_000));
    let reference = reference.expect("reference");
    assert_eq!(reference.as_str(), "secret://wallet/MainKey-2/token");
    assert_eq!(provider.secret_refs.len(), 1);
    assert_eq!(provider.secret_refs[0].0, "token");
    assert_eq!(provider.endpoint_override.as_deref(), Some("https://proxy.example/v1"));
}

#[test]
fn an_asset_without_a_key_is_disabled_and_unreferenced() {
    let workspace = empty_workspace("w");
    let (asset, provider, reference) =
        new_wallet_asset(&workspace, manifest(Vec::new()), "  ", false, None, None, None).expect("asset");
    assert_eq!(asset.id, "api-default");
    assert_eq!(asset.name, "OpenAI");
    assert!(!asset.enabled && !provider.enabled);
    assert!(reference.is_none() && provider.secret_refs.is_empty());
}

#[test]
fn a_field_id_the_secret_rules_refuse_fails_creation() {
    let workspace = empty_workspace("w");
    let result = new_wallet_asset(&workspace, manifest(vec![field("bad field", true, true)]), "x", true, None, None, None);
    assert!(result.is_err());
}

#[test]
fn a_taken_id_is_refused_and_nothing_changes() {
    let mut workspace = with_asset("Main", true);
    let (asset, provider, _) =
        new_wallet_asset(&empty_workspace("w"), manifest(Vec::new()), "Main", false, None, None, None).expect("asset");
    let before = workspace.clone();
    assert_eq!(insert_wallet_asset(&mut workspace, asset, provider), Err("钱包资产 ID 已被占用，请重试。".to_owned()));
    assert_eq!(workspace, before);
}

#[test]
fn placing_an_asset_adds_a_bound_provider_node() {
    let mut workspace = with_asset("Main", true);
    let main = |w: &WorkspacePackage| w.projects.projects[0].1.canvases[0].1.clone();
    let before = main(&workspace);
    let nodes_before = before.graph.nodes.len();
    let id = |s: &str| s.to_owned();
    place_wallet_asset(&mut workspace, &id("Main"), &id("default"), &id("main")).expect("placed");
    let after = main(&workspace);
    assert_eq!(after.graph.nodes.len(), nodes_before + 1);
    let node = after.graph.nodes.last().expect("node");
    assert_eq!(node.id, "Main-group");
    assert_eq!(node.kind, NodeKind::Provider);
    assert_eq!(after.draft_revision, before.draft_revision + 1);
    let edge = after.graph.edges.last().expect("edge");
    assert_eq!(edge.id, "Main-group-to-output");
    assert_eq!(edge.from.node, "Main-group");
    let composer = after.graph.nodes.iter().find(|n| n.kind == NodeKind::Composer).expect("composer");
    assert_eq!(edge.to.node, composer.id);
    match &composer.config {
        NodeConfig::Composer(cfg) => {
            let route = cfg.routes.iter().find(|r| r.public_model == "default").expect("default route");
            let binding = route.candidates.last().expect("binding");
            assert_eq!(binding.provider_node_id, "Main-group");
        }
        _ => panic!("composer config"),
    }
    place_wallet_asset(&mut workspace, &id("Main"), &id("default"), &id("main")).expect("placed twice");
    assert_eq!(main(&workspace).graph.nodes.last().expect("node").id, "Main-group-2");
}

#[test]
fn placing_refuses_missing_pieces() {
    let mut workspace = with_asset("Main", true);
    let before = workspace.clone();
    let id = |s: &str| s.to_owned();
    assert_eq!(
        place_wallet_asset(&mut workspace, &id("nope"), &id("default"), &id("main")),
        Err("Configure this catalog provider before placing it".to_owned())
    );
    assert_eq!(place_wallet_asset(&mut workspace, &id("Main"), &id("nope"), &id("main")), Err("Project not found".to_owned()));
    assert_eq!(place_wallet_asset(&mut workspace, &id("Main"), &id("default"), &id("nope")), Err("Canvas not found".to_owned()));
    assert_eq!(workspace, before);
}

#[test]
fn the_control_center_lists_instances_with_their_blockers() {
    let mut workspace = with_asset("Main", true);
    workspace.direct_endpoints.push((
        "d1".to_owned(),
        DirectEndpoint {
            id: "d1".to_owned(),
            name: "alpha".to_owned(),
            alias: "a1".to_owned(),
            asset_id: "Main".to_owned(),
            token_ref: SecretRef::parse("secret://direct/d1/token").expect("ref"),
            enabled: true,
            models: vec![DirectModelMapping { public_model: "smart".to_owned(), upstream_model: "gpt".to_owned() }],
            timeout_ms: 30_000,
            max_retries: 2,
            audit_tags: Vec::new(),
            billing_override: None,
        },
    ));
    let traces = vec![
        TraceFacts { publisher_id: "direct:d1".to_owned(), started_at_unix_ms: 10, total_latency_ms: 5, retry_count: 1, failover_count: 0, final_error: None },
        TraceFacts { publisher_id: "direct:d1".to_owned(), started_at_unix_ms: 30, total_latency_ms: 7, retry_count: 2, failover_count: 1, final_error: Some("RateLimited".to_owned()) },
        TraceFacts { publisher_id: "other".to_owned(), started_at_unix_ms: 50, total_latency_ms: 9, retry_count: 0, failover_count: 0, final_error: None },
    ];
    let available = vec!["secret://wallet/Main/api_key".to_owned(), "secret://direct/d1/token".to_owned()];
    let mounted = vec!["/direct/a1".to_owned(), "/direct/a1".to_owned()];
    let snapshot = control_center_snapshot(&workspace, &traces, &mounted, true, None, &available);
    assert!(snapshot.gateway.running);
    assert_eq!(snapshot.gateway.base_url, "http://127.0.0.1:7480");
    assert_eq!(snapshot.gateway.entry_count, 1);
    assert_eq!(snapshot.instances.len(), 2);
    let direct = snapshot.instances.iter().find(|m| m.kind == ManagedInstanceKind::DirectEndpoint).expect("direct");
    assert_eq!(direct.id, "direct:d1");
    assert_eq!(direct.status, ManagedInstanceStatus::Running);
    assert!(direct.blocking_reasons.is_empty() && direct.token_ready && direct.secrets_ready);
    assert_eq!(direct.base_url.as_deref(), Some("http://127.0.0.1:7480/direct/a1/v1"));
    assert_eq!(direct.asset_names, vec!["Main".to_owned()]);
    assert_eq!(direct.request_count, 2);
    assert_eq!(direct.last_call_at_ms, Some(30));
    assert_eq!(direct.retry_count, 2);
    assert_eq!(direct.last_error.as_deref(), Some("RateLimited"));
    let canvas = snapshot.instances.iter().find(|m| m.kind == ManagedInstanceKind::Canvas).expect("canvas");
    assert_eq!(canvas.status, ManagedInstanceStatus::Unpublished);
    assert_eq!(canvas.repair_target.as_deref(), Some("canvas:publisher"));
    assert_eq!((snapshot.running_count, snapshot.stopped_count, snapshot.blocked_count, snapshot.failed_count), (1, 0, 1, 0));
    let names: Vec<String> = snapshot.instances.iter().map(|m| m.name.to_lowercase()).collect();
    let mut sorted = names.clone();
    sorted.sort();
    assert_eq!(names, sorted);

    let blocked = control_center_snapshot(&workspace, &traces, &Vec::new(), false, Some("down".to_owned()), &Vec::new());
    let direct = blocked.instances.iter().find(|m| m.kind == ManagedInstanceKind::DirectEndpoint).expect("direct");
    assert_eq!(direct.status, ManagedInstanceStatus::Blocked);
    assert_eq!(direct.repair_target.as_deref(), Some("direct"));
    assert!(!direct.secrets_ready);
    assert_eq!(blocked.gateway.error.as_deref(), Some("down"));
}

fn with_direct(workspace: &mut WorkspacePackage) {
    workspace.direct_endpoints.push((
        "d1".to_owned(),
        DirectEndpoint {
            id: "d1".to_owned(),
            name: "alpha".to_owned(),
            alias: "a1".to_owned(),
            asset_id: "Main".to_owned(),
            token_ref: SecretRef::parse("secret://direct/d1/token").expect("ref"),
            enabled: false,
            models: Vec::new(),
            timeout_ms: 30_000,
            max_retries: 2,
            audit_tags: Vec::new(),
            billing_override: None,
        },
    ));
}

#[test]
fn starting_a_direct_endpoint_waits_for_its_token_and_secrets() {
    let mut workspace = with_asset("Main", true);
    with_direct(&mut workspace);
    let before = workspace.clone();
    assert_eq!(
        apply_instance_start(&mut workspace, &Vec::new(), "direct:d1", false),
        Err("本地访问 Token 尚未配置。".to_owned())
    );
    assert_eq!(
        apply_instance_start(&mut workspace, &vec!["secret://direct/d1/token".to_owned()], "direct:d1", false),
        Err("钱包资产“Main”缺少上游 Secret。".to_owned())
    );
    assert_eq!(workspace, before);
    let all = vec!["secret://direct/d1/token".to_owned(), "secret://wallet/Main/api_key".to_owned()];
    assert_eq!(apply_instance_start(&mut workspace, &all, "direct:d1", false), Ok(true));
    assert!(workspace.direct_endpoints[0].1.enabled);
    assert_eq!(apply_instance_start(&mut workspace, &all, "direct:d1", false), Ok(false));
    assert_eq!(apply_instance_start(&mut workspace, &all, "direct:nope", false), Err("审计直出端点不存在。".to_owned()));
    assert_eq!(apply_instance_start(&mut workspace, &all, "bogus", false), Err("实例 ID 无效。".to_owned()));
}

#[test]
fn starting_a_canvas_needs_a_publisher() {
    let mut workspace = with_asset("Main", true);
    assert_eq!(
        apply_instance_start(&mut workspace, &Vec::new(), "canvas:default:main", false),
        Err("Canvas 尚未配置出口。".to_owned())
    );
    assert_eq!(
        apply_instance_start(&mut workspace, &Vec::new(), "canvas:default:other", false),
        Err("Canvas 不存在或归属不正确。".to_owned())
    );
}

#[test]
fn a_parsed_yaml_manifest_is_accepted_only_when_valid() {
    let ok = ProviderManifest::from_parsed_yaml(Ok(manifest(vec![field("api_key", true, true)]))).expect("valid");
    assert_eq!(ok.provider.id, "openai");
    let unreadable = ProviderManifest::from_parsed_yaml(Err("bad indentation".to_owned())).expect_err("unreadable");
    assert_eq!(unreadable.message, "Provider YAML 无法解析: bad indentation");
    assert!(unreadable.issues.is_empty());
    let mut broken = manifest(Vec::new());
    broken.schema_version = 9;
    let invalid = ProviderManifest::from_parsed_yaml(Ok(broken)).expect_err("invalid");
    assert_eq!(invalid.message, "Provider 配置校验失败");
}

#[test]
fn node_configurations_change_in_place() {
    let mut workspace = with_asset("Main", true);
    let id = |s: &str| s.to_owned();
    place_wallet_asset(&mut workspace, &id("Main"), &id("default"), &id("main")).expect("placed");
    let graph = &mut workspace.projects.projects[0].1.canvases[0].1.graph;
    let node = graph.nodes.last_mut().expect("node");
    assert!(node.composer_config_mut().is_none());
    assert!(node.publisher_config_mut().is_none());
    node.provider_config_mut().expect("provider").asset_id = "Other".to_owned();
    assert_eq!(node.provider_config().expect("provider").asset_id, "Other");
    let composer = graph.nodes.iter_mut().find(|n| n.kind == NodeKind::Composer).expect("composer");
    composer.composer_config_mut().expect("composer config").max_retries = 7;
    match &composer.config {
        NodeConfig::Composer(cfg) => assert_eq!(cfg.max_retries, 7),
        _ => panic!("composer config"),
    }
}
