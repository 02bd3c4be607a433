use apiarray::graph::{GroupConfig, Node, NodeConfig, NodeKind, WorkflowGraph, GRAPH_SCHEMA_VERSION};
use apiarray::json::JsonValue;
use apiarray::provider::{
    AdapterBinding, AuthenticationDefinition, AuthenticationType, DiscoveryDefinition,
    EndpointDefinition, ProviderIdentity, ProviderManifest, ProviderUi,
};
use apiarray::runtime::{ProviderInstance, RuntimeConfig};
use apiarray::secret::SecretRef;
use apiarray::workspace::{
    load_workspace_document, ApiAsset, ApiWallet, BillingPolicy, DirectEndpoint, DirectGateway, DirectModelMapping,
    WorkspacePackage, WorkspaceProjects, WorkspaceRuntimeState, WORKSPACE_SCHEMA_VERSION,
};
use apiarray::{CoreError, ErrorCode};

/// The plain form of a parsed JSON document.
fn plain(value: &serde_json::Value) -> JsonValue {
    match value {
        serde_json::Value::Null => JsonValue::Null,
        serde_json::Value::Bool(b) => JsonValue::Bool(*b),
        serde_json::Value::Number(n) => JsonValue::Number(n.to_string()),
        serde_json::Value::String(s) => JsonValue::String(s.clone()),
        serde_json::Value::Array(items) => JsonValue::Array(items.iter().map(plain).collect()),
        serde_json::Value::Object(map) => JsonValue::Object {
            keys: map.keys().cloned().collect(),
            values: map.values().map(plain).collect(),
        },
    }
}

fn document(text: &str) -> JsonValue {
    plain(&serde_json::from_str(text).expect("test document is JSON"))
}

/// A provider that takes no credential, as a local gateway does.
fn manifest() -> ProviderManifest {
    ProviderManifest {
        schema_version: 1,
        provider: ProviderIdentity {
            id: "openai-official".to_owned(),
            name: "OpenAI".to_owned(),
            category: "ai-model".to_owned(),
            homepage: None,
            docs: None,
        },
        adapter: AdapterBinding {
            id: "openai-compatible".to_owned(),
            min_version: 1,
        },
        endpoint: EndpointDefinition {
            default_base_url: "https://api.openai.com/v1".to_owned(),
            editable: true,
            allowed_schemes: vec!["https".to_owned()],
        },
        authentication: AuthenticationDefinition {
            kind: AuthenticationType::NoAuth,
            fields: Vec::new(),
        },
        headers: Vec::new(),
        discovery: DiscoveryDefinition::default(),
        probes: Vec::new(),
        ui: ProviderUi::default(),
    }
}

fn empty_workspace() -> WorkspacePackage {
    WorkspacePackage {
        schema_version: WORKSPACE_SCHEMA_VERSION,
        id: "workspace".to_owned(),
        name: "Workspace".to_owned(),
        runtime: RuntimeConfig {
            schema_version: apiarray::SCHEMA_VERSION,
            id: "workspace".to_owned(),
            providers: Vec::new(),
            publishers: Vec::new(),
        },
        runtime_state: WorkspaceRuntimeState {
            enabled_publishers: Vec::new(),
        },
        graph: WorkflowGraph {
            schema_version: GRAPH_SCHEMA_VERSION,
            id: "graph".to_owned(),
            nodes: vec![Node {
                id: "group".to_owned(),
                name: "Group".to_owned(),
                kind: NodeKind::Group,
                enabled: true,
                inputs: Vec::new(),
                outputs: Vec::new(),
                config: NodeConfig::Group(GroupConfig {
                    member_ids: Vec::new(),
                    collapsed: false,
                }),
            }],
            edges: Vec::new(),
        },
        wallet: ApiWallet::default(),
        direct_endpoints: Vec::new(),
        gateway: DirectGateway::default(),
        projects: WorkspaceProjects { projects: Vec::new() },
        ui: "{\"positions\":{\"group\":[10,20]}}".to_owned(),
        templates: Vec::new(),
    }
}

/// The export of an empty workspace: every top-level member present.
const CURRENT: &str = "{\"schema_version\":6,\"id\":\"workspace\",\"name\":\"Workspace\",\
    \"runtime\":{\"schema_version\":1,\"id\":\"workspace\",\"providers\":{},\"publishers\":{}},\
    \"runtime_state\":{\"enabled_publishers\":[]},\
    \"graph\":{\"schema_version\":3,\"id\":\"graph\",\"nodes\":[{\"id\":\"group\",\"name\":\"Group\",\
    \"kind\":\"group\",\"enabled\":true,\"inputs\":[],\"outputs\":[],\"config\":null}],\"edges\":[]},\
    \"wallet\":{\"assets\":{}},\"direct_endpoints\":{},\
    \"gateway\":{\"listen_address\":\"127.0.0.1\",\"port\":7480},\
    \"projects\":{\"projects\":{}},\"ui\":{\"positions\":{\"group\":[10,20]}},\"templates\":{}}";

#[test]
fn import_rejects_plaintext_secret_anywhere() {
    let mut value: serde_json::Value = serde_json::from_str(CURRENT).expect("json");
    value["ui"]["api_key"] = serde_json::Value::String("plaintext-credential-value".to_owned());
    let error = load_workspace_document(&value.to_string()).expect_err("secret must fail");
    assert_eq!(error.code, ErrorCode::SecretInvalid);
    assert_eq!(error.issues.len(), 1);
    assert_eq!(error.issues[0].path, "$.ui.api_key");
    assert_eq!(error.issues[0].code, "PLAINTEXT_SECRET_FORBIDDEN");
}

#[test]
fn non_current_schema_is_rejected_for_poc_reset() {
    let mut value: serde_json::Value = serde_json::from_str(CURRENT).expect("json");
    value["schema_version"] = serde_json::Value::from(WORKSPACE_SCHEMA_VERSION + 1);
    let error = load_workspace_document(&value.to_string()).expect_err("future schema must not load");
    assert_eq!(error.code, ErrorCode::UnsupportedSchema);
}

#[test]
fn legacy_workspace_is_rejected_instead_of_migrated() {
    let mut value: serde_json::Value = serde_json::from_str(CURRENT).expect("json");
    value["schema_version"] = serde_json::Value::from(1);
    value.as_object_mut().expect("object").remove("wallet");
    value.as_object_mut().expect("object").remove("projects");
    let error = load_workspace_document(&value.to_string()).expect_err("legacy schema must not migrate");
    assert_eq!(error.code, ErrorCode::UnsupportedSchema);
    assert_eq!(error.message, "此 POC 只接受工作区 Schema 6；旧工作区必须重建");
}

#[test]
fn document_checks_cover_missing_schema_and_credential_shapes() {
    assert!(load_workspace_document(CURRENT).is_ok());
    let missing = load_workspace_document("{\"id\":\"w\"}").expect_err("no schema");
    assert_eq!(missing.message, "工作区缺少 Schema 版本");
    let fractional = load_workspace_document("{\"schema_version\":6.5}").expect_err("not an integer");
    assert_eq!(fractional.message, "工作区缺少 Schema 版本");
    let error = load_workspace_document(
        "{\"schema_version\":6,\"a\":[\"sk-0123456789abcdef\",\"ok\"],\"token_ref\":\"secret://x\",\"Authorization\":\"Basic x\",\"note\":\"see ?API_KEY=1\"}",
    )
    .expect_err("credentials");
    let paths: Vec<&str> = error.issues.iter().map(|issue| issue.path.as_str()).collect();
    assert_eq!(paths, vec!["$.Authorization", "$.a[0]", "$.note"]);
}

fn asset_workspace() -> Result<WorkspacePackage, CoreError> {
    let mut workspace = empty_workspace();
    workspace.runtime.providers.push((
        "asset-provider".to_owned(),
        ProviderInstance {
            id: "asset-provider".to_owned(),
            manifest: manifest(),
            endpoint_override: None,
            secret_refs: Vec::new(),
            enabled: false,
        },
    ));
    workspace.wallet.assets.push((
        "asset".to_owned(),
        ApiAsset {
            id: "asset".to_owned(),
            provider_instance_id: "asset-provider".to_owned(),
            provider_id: "openai-official".to_owned(),
            name: "Asset".to_owned(),
            enabled: false,
            billing: BillingPolicy::default(),
        },
    ));
    for (id, alias) in [("client-a", "client-a"), ("client-b", "client-b")] {
        workspace.direct_endpoints.push((
            id.to_owned(),
            DirectEndpoint {
                id: id.to_owned(),
                name: id.to_owned(),
                alias: alias.to_owned(),
                asset_id: "asset".to_owned(),
                token_ref: SecretRef::parse(&format!("secret://direct/{id}/token"))?,
                enabled: false,
                models: vec![DirectModelMapping {
                    public_model: "default".to_owned(),
                    upstream_model: "upstream".to_owned(),
                }],
                timeout_ms: 30_000,
                max_retries: 2,
                audit_tags: Vec::new(),
                billing_override: None,
            },
        ));
    }
    Ok(workspace)
}

#[test]
fn one_wallet_asset_can_back_multiple_isolated_direct_endpoints() -> Result<(), CoreError> {
    let workspace = asset_workspace()?;
    workspace.validate(&document(CURRENT))?;
    assert_eq!(workspace.direct_endpoints.len(), 2);
    assert_ne!(
        workspace.direct_endpoints[0].1.token_ref,
        workspace.direct_endpoints[1].1.token_ref
    );
    Ok(())
}

#[test]
fn workspace_validation_reports_every_issue_in_order() -> Result<(), CoreError> {
    let mut workspace = asset_workspace()?;
    workspace.gateway.listen_address = "0.0.0.0".to_owned();
    workspace.direct_endpoints[1].1.alias = "client-a".to_owned();
    workspace.direct_endpoints[1].1.max_retries = 11;
    workspace.runtime_state.enabled_publishers = vec!["ghost".to_owned()];
    let doc = document("{\"schema_version\":6,\"password\":\"hunter2\"}");
    let error = workspace.validate(&doc).expect_err("invalid workspace");
    assert_eq!(error.code, ErrorCode::InvalidInput);
    let found: Vec<(&str, &str)> = error
        .issues
        .iter()
        .map(|issue| (issue.path.as_str(), issue.code.as_str()))
        .collect();
    assert_eq!(
        found,
        vec![
            ("gateway.listen_address", "LOOPBACK_REQUIRED"),
            ("runtime_state.enabled_publishers.ghost", "PUBLISHER_NOT_FOUND"),
            ("direct_endpoints.client-b.alias", "INVALID_OR_DUPLICATE_ALIAS"),
            ("direct_endpoints.client-b", "POLICY_INVALID"),
            ("$.password", "PLAINTEXT_SECRET_FORBIDDEN"),
        ]
    );
    Ok(())
}

#[test]
fn secret_status_lists_missing_references_and_readiness() -> Result<(), CoreError> {
    let workspace = asset_workspace()?;
    let required = workspace.required_secret_refs();
    assert_eq!(
        required,
        vec![
            "secret://direct/client-a/token".to_owned(),
            "secret://direct/client-b/token".to_owned()
        ]
    );
    let status = workspace.secret_status(&vec!["secret://direct/client-a/token".to_owned()]);
    assert_eq!(status.missing, vec!["secret://direct/client-b/token".to_owned()]);
    assert_eq!(
        status.direct_endpoint_ready,
        vec![("client-a".to_owned(), false), ("client-b".to_owned(), false)]
    );
    Ok(())
}

#[test]
fn text_that_is_not_json_is_refused_with_the_parser_message() {
    let error = load_workspace_document("{\"schema_version\": 6,").expect_err("not JSON");
    assert_eq!(error.code, ErrorCode::SerializationFailed);
    assert!(error.message.starts_with("JSON 序列化失败: "));
    let loaded = load_workspace_document(CURRENT).expect("current export loads");
    assert!(matches!(loaded, JsonValue::Object { .. }));
}
