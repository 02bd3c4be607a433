use apiarray::compile::{compile_canvas_graph, CanvasCompilationReport, CompiledCandidate, CompiledCanvasGraph};
use apiarray::drafts::{generate_graph_template, new_canvas_graph, new_node};
use apiarray::graph::{
    Edge, Endpoint, GraphTemplateKind, Node, NodeConfig, NodeKind, Port, PortType, ProviderConfig, WorkflowGraph,
    GRAPH_SCHEMA_VERSION,
};
use apiarray::provider::{
    AdapterBinding, AuthenticationDefinition, AuthenticationField, AuthenticationType, DiscoveryDefinition,
    EndpointDefinition, ProviderIdentity, ProviderManifest, ProviderUi,
};
use apiarray::routing::SelectionStrategy;
use apiarray::runtime::{ProviderInstance, RuntimeConfig};
use apiarray::secret::SecretRef;
use apiarray::simulation::{simulate_route, RouteSimulationInput};
use apiarray::workspace::{ApiAsset, ApiWallet, BillingPolicy};
use apiarray::{CoreError, ErrorCode};

fn node(id: &str, kind: NodeKind) -> Node {
    let mut node = new_node(id, id, kind);
    let (inputs, outputs) = match kind {
        NodeKind::Provider => (
            vec![],
            vec![Port {
                id: "candidate_out".into(),
                data_type: PortType::Candidate,
            }],
        ),
        NodeKind::Composer => (
            vec![
                Port {
                    id: "candidate_in".into(),
                    data_type: PortType::Candidate,
                },
                Port {
                    id: "health_in".into(),
                    data_type: PortType::HealthSignal,
                },
            ],
            vec![Port {
                id: "service_plan_out".into(),
                data_type: PortType::ServicePlan,
            }],
        ),
        NodeKind::Middleware => (
            vec![Port {
                id: "service_plan_in".into(),
                data_type: PortType::ServicePlan,
            }],
            vec![Port {
                id: "service_plan_out".into(),
                data_type: PortType::ServicePlan,
            }],
        ),
        NodeKind::Probe => (
            vec![],
            vec![Port {
                id: "health_out".into(),
                data_type: PortType::HealthSignal,
            }],
        ),
        NodeKind::Publisher => (
            vec![Port {
                id: "service_plan_in".into(),
                data_type: PortType::ServicePlan,
            }],
            vec![],
        ),
        NodeKind::Group => (vec![], vec![]),
    };
    node.inputs = inputs;
    node.outputs = outputs;
    if kind == NodeKind::Provider {
        node.config = NodeConfig::Provider(ProviderConfig {
            asset_id: "wallet-asset".to_owned(),
            selected_models: vec!["default".to_owned()],
        });
    }
    node
}

fn edge(id: &str, from: &str, from_port: &str, to: &str, to_port: &str) -> Edge {
    Edge {
        id: id.into(),
        from: Endpoint {
            node: from.into(),
            port: from_port.into(),
        },
        to: Endpoint {
            node: to.into(),
            port: to_port.into(),
        },
        enabled: true,
        label: None,
    }
}

#[test]
fn accepts_provider_composer_publisher_service_plan() {
    let graph = WorkflowGraph {
        schema_version: GRAPH_SCHEMA_VERSION,
        id: "main".into(),
        nodes: vec![
            node("provider", NodeKind::Provider),
            node("composer", NodeKind::Composer),
            node("publisher", NodeKind::Publisher),
        ],
        edges: vec![
            edge("candidate", "provider", "candidate_out", "composer", "candidate_in"),
            edge("publish", "composer", "service_plan_out", "publisher", "service_plan_in"),
        ],
    };
    assert!(graph.validate().is_ok());
}

#[test]
fn rejects_candidate_connected_directly_to_publisher() {
    let graph = WorkflowGraph {
        schema_version: GRAPH_SCHEMA_VERSION,
        id: "main".into(),
        nodes: vec![
            node("provider", NodeKind::Provider),
            node("publisher", NodeKind::Publisher),
        ],
        edges: vec![edge("invalid", "provider", "candidate_out", "publisher", "service_plan_in")],
    };
    assert!(graph.validate().is_err());
}

#[test]
fn rejects_group_with_runtime_ports() {
    let mut group = node("group", NodeKind::Group);
    group.outputs.push(Port {
        id: "candidate_out".into(),
        data_type: PortType::Candidate,
    });
    let graph = WorkflowGraph {
        schema_version: GRAPH_SCHEMA_VERSION,
        id: "main".into(),
        nodes: vec![group],
        edges: vec![],
    };
    assert!(graph.validate().is_err());
}

#[test]
fn all_core_templates_have_one_composer_and_publisher() -> Result<(), CoreError> {
    let assets = vec![
        ("a".to_owned(), "A".to_owned()),
        ("b".to_owned(), "B".to_owned()),
    ];
    for template in [
        GraphTemplateKind::SingleProvider,
        GraphTemplateKind::PriorityFailover,
        GraphTemplateKind::MultiModel,
        GraphTemplateKind::WeightedRoundRobin,
        GraphTemplateKind::LowestLatency,
        GraphTemplateKind::FailoverWithProbe,
        GraphTemplateKind::GuardedFailover,
    ] {
        let graph = generate_graph_template("main", template, &assets)?;
        assert_eq!(
            graph
                .nodes
                .iter()
                .filter(|node| node.kind == NodeKind::Composer)
                .count(),
            1
        );
        assert_eq!(
            graph
                .nodes
                .iter()
                .filter(|node| node.kind == NodeKind::Publisher)
                .count(),
            1
        );
        graph.validate()?;
    }
    Ok(())
}

fn candidate(provider: &str, asset: &str, model: &str, upstream: &str, priority: u32, weight: u16) -> CompiledCandidate {
    CompiledCandidate {
        provider_node_id: provider.to_owned(),
        asset_id: asset.to_owned(),
        public_model: model.to_owned(),
        upstream_model: upstream.to_owned(),
        priority,
        weight,
    }
}

fn compiled_with(strategy: SelectionStrategy, candidates: Vec<CompiledCandidate>) -> CompiledCanvasGraph {
    let report = CanvasCompilationReport {
        valid: true,
        public_models: vec!["smart".to_owned()],
        candidate_count: candidates.len(),
        candidates,
        selected_strategy: strategy,
        middleware_order: Vec::new(),
        unreachable_nodes: Vec::new(),
        missing_secrets: Vec::new(),
        stale_runtime: false,
        requires_confirmation: false,
        warnings: Vec::new(),
        errors: Vec::new(),
    };
    CompiledCanvasGraph {
        routes: Vec::new(),
        middleware: Vec::new(),
        probes: Vec::new(),
        report,
    }
}

#[test]
fn route_simulation_filters_health_and_uses_latency() -> Result<(), CoreError> {
    let compiled = compiled_with(
        SelectionStrategy::LowestLatency,
        vec![
            candidate("provider-a", "a", "smart", "model-a", 0, 1),
            candidate("provider-b", "b", "smart", "model-b", 1, 1),
        ],
    );
    let result = simulate_route(
        &compiled,
        &RouteSimulationInput {
            public_model: "smart".to_owned(),
            unavailable_provider_node_ids: vec!["provider-a".to_owned()],
            latency_ms_by_provider_node: vec![
                ("provider-a".to_owned(), 20),
                ("provider-b".to_owned(), 80),
            ],
        },
    )?;
    assert_eq!(result.selected_provider_node_id.as_deref(), Some("provider-b"));
    Ok(())
}

#[test]
fn simulation_orders_by_weight_and_explains_missing_latency() -> Result<(), CoreError> {
    let candidates = vec![
        candidate("p1", "a", "smart", "m1", 0, 30),
        candidate("p2", "b", "smart", "m2", 1, 70),
        candidate("p3", "c", "other", "m3", 0, 100),
    ];
    let weighted = simulate_route(
        &compiled_with(SelectionStrategy::WeightedRoundRobin, candidates.clone()),
        &RouteSimulationInput {
            public_model: "smart".to_owned(),
            unavailable_provider_node_ids: Vec::new(),
            latency_ms_by_provider_node: Vec::new(),
        },
    )?;
    assert_eq!(weighted.ordered_candidates, vec!["p2".to_owned(), "p1".to_owned()]);
    assert_eq!(weighted.selected_upstream_model.as_deref(), Some("m2"));
    let latency = simulate_route(
        &compiled_with(SelectionStrategy::LowestLatency, candidates.clone()),
        &RouteSimulationInput {
            public_model: "smart".to_owned(),
            unavailable_provider_node_ids: Vec::new(),
            latency_ms_by_provider_node: Vec::new(),
        },
    )?;
    assert_eq!(latency.ordered_candidates, vec!["p1".to_owned(), "p2".to_owned()]);
    assert_eq!(latency.explanation, "延迟样本不足，回退到优先级顺序。");
    let none = simulate_route(
        &compiled_with(SelectionStrategy::PriorityFailover, candidates),
        &RouteSimulationInput {
            public_model: "missing".to_owned(),
            unavailable_provider_node_ids: Vec::new(),
            latency_ms_by_provider_node: Vec::new(),
        },
    )?;
    assert!(none.selected_provider_node_id.is_none());
    assert!(none.ordered_candidates.is_empty());
    assert_eq!(none.explanation, "没有满足当前健康条件的候选 Provider。");
    Ok(())
}

#[test]
fn new_canvas_is_a_composer_wired_to_the_total_output() {
    let graph = new_canvas_graph("canvas-1");
    assert_eq!(graph.id, "canvas-1");
    assert_eq!(graph.nodes.len(), 2);
    assert_eq!(graph.nodes[0].id, "composer");
    assert_eq!(graph.nodes[1].id, "total-output");
    assert_eq!(graph.edges.len(), 1);
    assert_eq!(graph.edges[0].id, "composer-to-output");
    let summary = graph.validate().expect("the empty canvas validates");
    assert_eq!(summary.topological_order, vec!["composer".to_owned(), "total-output".to_owned()]);
}

#[test]
fn templates_need_enough_assets_and_name_their_nodes() -> Result<(), CoreError> {
    let one = vec![("a".to_owned(), "A".to_owned())];
    let error = generate_graph_template("main", GraphTemplateKind::PriorityFailover, &one)
        .expect_err("two assets are needed");
    assert_eq!(error.code, ErrorCode::GraphInvalid);
    assert_eq!(error.message, "模板至少需要 2 个钱包资产");
    let graph = generate_graph_template("main", GraphTemplateKind::GuardedFailover, &[
        ("a".to_owned(), "A".to_owned()),
        ("b".to_owned(), "B".to_owned()),
    ])?;
    let ids: Vec<&str> = graph.nodes.iter().map(|node| node.id.as_str()).collect();
    assert_eq!(
        ids,
        vec![
            "provider-1",
            "provider-2",
            "composer",
            "total-output",
            "probe-1",
            "probe-2",
            "middleware-rate-limit",
            "middleware-budget"
        ]
    );
    assert_eq!(graph.nodes[4].name, "A 健康探测");
    assert!(!graph.edges.iter().any(|edge| edge.id == "composer-to-output"));
    let impact = graph.impact_of_node("provider-1")?;
    assert_eq!(
        impact.downstream_nodes,
        vec![
            "composer".to_owned(),
            "middleware-budget".to_owned(),
            "middleware-rate-limit".to_owned(),
            "total-output".to_owned()
        ]
    );
    assert_eq!(impact.affected_publishers, vec!["total-output".to_owned()]);
    let missing = graph.impact_of_node("nope").expect_err("unknown node");
    assert_eq!(missing.message, "目标节点不存在");
    Ok(())
}

fn manifest() -> ProviderManifest {
    ProviderManifest {
        schema_version: 1,
        provider: ProviderIdentity {
            id: "openai-official".to_owned(),
            name: "OpenAI".to_owned(),
            category: "ai-model".to_owned(),
            homepage: None,
            docs: None,
        },
        adapter: AdapterBinding {
            id: "openai-compatible".to_owned(),
            min_version: 1,
        },
        endpoint: EndpointDefinition {
            default_base_url: "https://api.openai.com/v1".to_owned(),
            editable: true,
            allowed_schemes: vec!["https".to_owned()],
        },
        authentication: AuthenticationDefinition {
            kind: AuthenticationType::HeaderSecret,
            fields: vec![AuthenticationField {
                id: "api_key".to_owned(),
                label: "API Key".to_owned(),
                secret: true,
                required: true,
                header: Some("Authorization".to_owned()),
                query: None,
                prefix: Some("Bearer ".to_owned()),
            }],
        },
        headers: Vec::new(),
        discovery: DiscoveryDefinition::default(),
        probes: Vec::new(),
        ui: ProviderUi::default(),
    }
}

fn asset(id: &str, instance: &str) -> ApiAsset {
    ApiAsset {
        id: id.to_owned(),
        provider_instance_id: instance.to_owned(),
        provider_id: "openai-official".to_owned(),
        name: id.to_uppercase(),
        enabled: true,
        billing: BillingPolicy::default(),
    }
}

#[test]
fn compiles_a_template_against_wallet_and_runtime() -> Result<(), CoreError> {
    let graph = generate_graph_template("main", GraphTemplateKind::PriorityFailover, &[
        ("a".to_owned(), "A".to_owned()),
        ("b".to_owned(), "B".to_owned()),
    ])?;
    let mut wallet = ApiWallet::default();
    wallet.assets = vec![
        ("a".to_owned(), asset("a", "inst-a")),
        ("b".to_owned(), asset("b", "inst-b")),
    ];
    let instance = |id: &str, with_secret: bool| ProviderInstance {
        id: id.to_owned(),
        manifest: manifest(),
        endpoint_override: None,
        secret_refs: if with_secret {
            vec![(
                "api_key".to_owned(),
                SecretRef::parse("secret://wallet/key").expect("reference"),
            )]
        } else {
            Vec::new()
        },
        enabled: true,
    };
    let runtime = RuntimeConfig {
        schema_version: 1,
        id: "rt".to_owned(),
        providers: vec![
            ("inst-a".to_owned(), instance("inst-a", true)),
            ("inst-b".to_owned(), instance("inst-b", false)),
        ],
        publishers: Vec::new(),
    };
    let compiled = compile_canvas_graph(&graph, &wallet, &runtime)?;
    let report = &compiled.report;
    assert!(!report.valid);
    assert_eq!(report.public_models, vec!["default".to_owned()]);
    assert_eq!(report.candidate_count, 2);
    assert_eq!(report.missing_secrets, vec!["b".to_owned()]);
    assert_eq!(report.errors.len(), 1);
    assert_eq!(report.errors[0].code, "SECRET_MISSING");
    assert_eq!(report.errors[0].fix_target.as_deref(), Some("node:provider-2"));
    assert_eq!(compiled.routes.len(), 1);
    assert_eq!(compiled.routes[0].policy.id, "main-route-policy");
    let upstream_ids: Vec<&str> = compiled.routes[0]
        .upstreams
        .iter()
        .map(|upstream| upstream.id.as_str())
        .collect();
    assert_eq!(upstream_ids, vec!["provider-1:default", "provider-2:default"]);
    assert_eq!(compiled.routes[0].upstreams[1].provider_instance, "inst-b");
    Ok(())
}
