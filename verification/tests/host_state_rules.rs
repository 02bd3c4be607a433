use apiarray::drafts::new_canvas_graph;
use apiarray::graph::NodeKind;
use apiarray::host_state::{
    apply_instance_stop, empty_workspace, instance_status, provider_secret_reasons,
    sanitize_ui_state, status_counts, CanvasPosition, CanvasViewport, ManagedInstanceStatus,
    ShellUiState, ThemePreference, WorkflowUiState, WorkspaceUiState, UI_STATE_SCHEMA_VERSION,
};
use apiarray::provider::{
    AdapterBinding, AuthenticationDefinition, AuthenticationType, DiscoveryDefinition,
    EndpointDefinition, ProviderIdentity, ProviderManifest, ProviderUi,
};
use apiarray::runtime::ProviderInstance;
use apiarray::workspace::{ApiAsset, BillingPolicy};
use apiarray::secret::SecretRef;
use apiarray::workspace::DirectEndpoint;

#[test]
fn creates_an_empty_workspace_without_publishers_or_providers() {
    let workspace = empty_workspace("桌面工作区");

    assert_eq!(workspace.name, "桌面工作区");
    assert!(workspace.runtime.providers.is_empty());
    assert!(workspace.runtime.publishers.is_empty());
    assert!(workspace
        .projects
        .projects
        .iter()
        .any(|(key, _)| key == "default"));
}

#[test]
fn new_canvas_starts_with_one_valid_total_output() {
    let graph = new_canvas_graph("canvas-a");
    let summary = graph.validate().expect("new canvas graph is valid");
    assert_eq!(summary.publisher_count, 1);
    assert_eq!(summary.node_count, 2);
    assert_eq!(summary.edge_count, 1);
    assert!(graph.nodes.iter().any(|node| node.kind == NodeKind::Composer));
}

#[test]
fn ui_state_defaults_are_safe_and_shell_widths_are_clamped() {
    let mut state = WorkspaceUiState::default();
    state.shell = ShellUiState {
        left_sidebar_collapsed: true,
        right_inspector_open: true,
        right_inspector_pinned: false,
        left_width: 10,
        right_width: 900,
    };

    sanitize_ui_state(&mut state).expect("valid schema is accepted");

    assert_eq!(state.shell.left_width, 220);
    assert_eq!(state.shell.right_width, 420);
}

#[test]
fn unsupported_ui_state_version_is_rejected() {
    let mut state = WorkspaceUiState::default();
    state.schema_version = 99;
    assert!(sanitize_ui_state(&mut state).is_err());
}

#[test]
fn version_one_ui_state_is_migrated_to_current_defaults() {
    let mut state = WorkspaceUiState::default();
    state.schema_version = 1;
    state.shell = ShellUiState {
        left_sidebar_collapsed: false,
        right_inspector_open: true,
        right_inspector_pinned: true,
        left_width: 230,
        right_width: 310,
    };

    sanitize_ui_state(&mut state).expect("version one state migrates");

    assert_eq!(state.schema_version, 5);
    assert_eq!(state.theme_preference, ThemePreference::System);
    assert!(!state.shell.right_inspector_open);
    assert!(!state.shell.right_inspector_pinned);
}

#[test]
fn stopping_one_instance_does_not_change_another_instance_intent() {
    let mut workspace = empty_workspace("rack-test");
    workspace.direct_endpoints.push((
        "direct-a".to_owned(),
        DirectEndpoint {
            id: "direct-a".to_owned(),
            name: "Direct A".to_owned(),
            alias: "direct-a".to_owned(),
            asset_id: "asset-a".to_owned(),
            token_ref: SecretRef::parse("secret://direct/direct-a/token").expect("secret ref"),
            enabled: true,
            models: Vec::new(),
            timeout_ms: 30_000,
            max_retries: 2,
            audit_tags: Vec::new(),
            billing_override: None,
        },
    ));
    workspace.projects.projects[0].1.canvases[0].1.publisher_id =
        Some("canvas-publisher".to_owned());
    workspace
        .runtime_state
        .enabled_publishers
        .push("canvas-publisher".to_owned());
    assert!(apply_instance_stop(&mut workspace, "direct:direct-a").expect("stop direct"));
    assert!(!workspace.direct_endpoints[0].1.enabled);
    assert!(workspace
        .runtime_state
        .enabled_publishers
        .contains(&"canvas-publisher".to_owned()));
    assert!(apply_instance_stop(&mut workspace, "canvas:default:main").expect("stop canvas"));
    assert!(!workspace
        .runtime_state
        .enabled_publishers
        .contains(&"canvas-publisher".to_owned()));
}

#[test]
fn stopping_reports_unknown_instances_and_repeated_stops() {
    let mut workspace = empty_workspace("rack-test");
    assert_eq!(
        apply_instance_stop(&mut workspace, "direct:none"),
        Err("审计直出端点不存在。".to_owned())
    );
    assert_eq!(
        apply_instance_stop(&mut workspace, "canvas:default:other"),
        Err("Canvas 不存在或归属不正确。".to_owned())
    );
    assert_eq!(
        apply_instance_stop(&mut workspace, "bogus"),
        Err("实例 ID 无效。".to_owned())
    );
    assert_eq!(apply_instance_stop(&mut workspace, "canvas:default:main"), Ok(false));
}

#[test]
fn migrated_pages_tabs_and_lists_are_normalised() {
    let mut state = WorkspaceUiState::default();
    state.schema_version = 3;
    state.last_page = "workflows".to_owned();
    state.expanded_project_ids = vec!["b".to_owned(), "a".to_owned(), "b".to_owned()];
    state.canvas_tabs = vec![
        ("c1".to_owned(), "routes".to_owned()),
        ("c2".to_owned(), "secrets".to_owned()),
    ];
    state.workflows = vec![(
        "w".to_owned(),
        WorkflowUiState {
            viewport: CanvasViewport {
                x: 0.0f64.to_bits(),
                y: 1.5f64.to_bits(),
                zoom: 9.0f64.to_bits(),
            },
            node_positions: vec![(
                "n".to_owned(),
                CanvasPosition {
                    x: 3.0f64.to_bits(),
                    y: (-4.0f64).to_bits(),
                },
            )],
            collapsed_groups: vec!["z".to_owned(), "z".to_owned(), "y".to_owned()],
        },
    )];
    sanitize_ui_state(&mut state).expect("version three migrates");
    assert_eq!(state.schema_version, UI_STATE_SCHEMA_VERSION);
    assert_eq!(state.last_page, "compositions");
    assert_eq!(state.shell.left_width, 248);
    assert_eq!(state.expanded_project_ids, vec!["a".to_owned(), "b".to_owned()]);
    assert_eq!(state.canvas_tabs, vec![("c1".to_owned(), "routes".to_owned())]);
    assert_eq!(f64::from_bits(state.workflows[0].1.viewport.zoom), 2.5);
    assert_eq!(
        state.workflows[0].1.collapsed_groups,
        vec!["y".to_owned(), "z".to_owned()]
    );
    state.workflows[0].1.viewport.zoom = (-1.0f64).to_bits();
    sanitize_ui_state(&mut state).expect("current version");
    assert_eq!(f64::from_bits(state.workflows[0].1.viewport.zoom), 0.2);
    state.last_page = "overview".to_owned();
    sanitize_ui_state(&mut state).expect("current version");
    assert_eq!(state.last_page, "overview");
}

#[test]
fn coordinates_that_are_not_finite_are_refused() {
    let mut state = WorkspaceUiState::default();
    state.workflows = vec![(
        "w".to_owned(),
        WorkflowUiState {
            viewport: CanvasViewport {
                x: f64::NAN.to_bits(),
                y: 0.0f64.to_bits(),
                zoom: 1.0f64.to_bits(),
            },
            node_positions: Vec::new(),
            collapsed_groups: Vec::new(),
        },
    )];
    assert_eq!(
        sanitize_ui_state(&mut state),
        Err("画布视口包含无效数值。".to_owned())
    );
    state.workflows[0].1.viewport.x = 0.0f64.to_bits();
    state.workflows[0].1.node_positions = vec![(
        "n".to_owned(),
        CanvasPosition {
            x: f64::INFINITY.to_bits(),
            y: 0.0f64.to_bits(),
        },
    )];
    assert_eq!(
        sanitize_ui_state(&mut state),
        Err("节点坐标包含无效数值。".to_owned())
    );
}

fn manifest() -> ProviderManifest {
    ProviderManifest {
        schema_version: 1,
        provider: ProviderIdentity {
            id: "openai".to_owned(),
            name: "OpenAI".to_owned(),
            category: "ai-model".to_owned(),
            homepage: None,
            docs: None,
        },
        adapter: AdapterBinding {
            id: "openai-compatible".to_owned(),
            min_version: 1,
        },
        endpoint: EndpointDefinition {
            default_base_url: "https://api.openai.com/v1".to_owned(),
            editable: true,
            allowed_schemes: vec!["https".to_owned()],
        },
        authentication: AuthenticationDefinition {
            kind: AuthenticationType::NoAuth,
            fields: Vec::new(),
        },
        headers: Vec::new(),
        discovery: DiscoveryDefinition::default(),
        probes: Vec::new(),
        ui: ProviderUi::default(),
    }
}

#[test]
fn secret_reasons_name_what_blocks_an_asset() {
    let mut workspace = empty_workspace("w");
    assert_eq!(
        provider_secret_reasons(&workspace, "a", &Vec::new()),
        vec!["引用的钱包资产不存在。".to_owned()]
    );
    workspace.wallet.assets.push((
        "a".to_owned(),
        ApiAsset {
            id: "a".to_owned(),
            provider_instance_id: "p".to_owned(),
            provider_id: "openai".to_owned(),
            name: "Main".to_owned(),
            enabled: false,
            billing: BillingPolicy::default(),
        },
    ));
    assert_eq!(
        provider_secret_reasons(&workspace, "a", &Vec::new()),
        vec![
            "钱包资产“Main”已停用。".to_owned(),
            "钱包资产“Main”缺少 Provider 实例。".to_owned()
        ]
    );
    workspace.wallet.assets[0].1.enabled = true;
    workspace.runtime.providers.push((
        "p".to_owned(),
        ProviderInstance {
            id: "p".to_owned(),
            manifest: manifest(),
            endpoint_override: None,
            secret_refs: vec![(
                "api_key".to_owned(),
                SecretRef::parse("secret://wallet/a/api_key").expect("ref"),
            )],
            enabled: false,
        },
    ));
    assert_eq!(
        provider_secret_reasons(&workspace, "a", &Vec::new()),
        vec![
            "Provider“p”已停用。".to_owned(),
            "钱包资产“Main”缺少上游 Secret。".to_owned()
        ]
    );
    workspace.runtime.providers[0].1.enabled = true;
    assert!(provider_secret_reasons(
        &workspace,
        "a",
        &vec!["secret://wallet/a/api_key".to_owned()]
    )
    .is_empty());
}

#[test]
fn rack_status_and_tallies() {
    assert_eq!(instance_status(false, true, true, false), ManagedInstanceStatus::Unpublished);
    assert_eq!(instance_status(true, true, true, true), ManagedInstanceStatus::Running);
    assert_eq!(instance_status(true, true, false, true), ManagedInstanceStatus::Blocked);
    assert_eq!(instance_status(true, true, false, false), ManagedInstanceStatus::Failed);
    assert_eq!(instance_status(true, false, false, true), ManagedInstanceStatus::Blocked);
    assert_eq!(instance_status(true, false, true, false), ManagedInstanceStatus::Stopped);
    let statuses = vec![
        ManagedInstanceStatus::Running,
        ManagedInstanceStatus::Unpublished,
        ManagedInstanceStatus::Blocked,
        ManagedInstanceStatus::Stopped,
        ManagedInstanceStatus::Failed,
        ManagedInstanceStatus::Starting,
    ];
    assert_eq!(status_counts(&statuses), (1, 1, 2, 1));
}
