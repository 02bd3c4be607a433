use apiarray::capability::{
    Capability, CapabilityManifest, Evidence, ModelCapability, ModelHealth, SupportLevel,
};
use apiarray::{CoreError, ErrorCode};

fn manifest(source: &str, model_health: ModelHealth) -> CapabilityManifest {
    CapabilityManifest {
        schema_version: 1,
        source_id: source.to_owned(),
        protocols: vec!["openai.chat_completions".to_owned()],
        capabilities: vec![(
            "streaming".to_owned(),
            Capability {
                support: SupportLevel::Supported,
                evidence: Evidence::ProviderDeclared,
                attributes: Vec::new(),
            },
        )],
        models: vec![(
            "smart".to_owned(),
            ModelCapability {
                public_name: "smart".to_owned(),
                health: model_health,
                evidence: Evidence::ProviderDeclared,
                upstreams: vec![source.to_owned()],
            },
        )],
    }
}

#[test]
fn merges_model_upstreams_and_health() -> Result<(), CoreError> {
    let merged = CapabilityManifest::merge(
        "publisher/main",
        &[
            manifest("provider/a", ModelHealth::Unavailable),
            manifest("provider/b", ModelHealth::Available),
        ],
    )?;
    let model = &merged.models[0].1;
    assert_eq!(merged.models[0].0, "smart");
    assert_eq!(model.health, ModelHealth::Available);
    assert_eq!(model.upstreams.len(), 2);
    Ok(())
}

#[test]
fn merge_keeps_the_strongest_support_and_latest_attributes() -> Result<(), CoreError> {
    let mut a = manifest("provider/a", ModelHealth::Unknown);
    a.capabilities[0].1.support = SupportLevel::Partial;
    a.capabilities[0].1.attributes = vec![("max".to_owned(), "1".to_owned())];
    a.models[0].1.evidence = Evidence::Unknown;
    let mut b = manifest("provider/b", ModelHealth::Degraded);
    b.protocols = vec!["anthropic.messages".to_owned()];
    b.capabilities[0].1.evidence = Evidence::Verified;
    b.capabilities[0].1.attributes = vec![("max".to_owned(), "2".to_owned()), ("min".to_owned(), "0".to_owned())];
    b.capabilities.push((
        "audio".to_owned(),
        Capability {
            support: SupportLevel::Unknown,
            evidence: Evidence::Unknown,
            attributes: Vec::new(),
        },
    ));
    let merged = CapabilityManifest::merge("publisher/main", &[a, b])?;
    assert_eq!(
        merged.protocols,
        vec!["anthropic.messages".to_owned(), "openai.chat_completions".to_owned()]
    );
    let names: Vec<&str> = merged.capabilities.iter().map(|(name, _)| name.as_str()).collect();
    assert_eq!(names, vec!["audio", "streaming"]);
    let streaming = &merged.capabilities[1].1;
    assert_eq!(streaming.support, SupportLevel::Supported);
    assert_eq!(streaming.evidence, Evidence::Verified);
    assert_eq!(
        streaming.attributes,
        vec![("max".to_owned(), "2".to_owned()), ("min".to_owned(), "0".to_owned())]
    );
    let model = &merged.models[0].1;
    assert_eq!(model.health, ModelHealth::Degraded);
    assert_eq!(model.evidence, Evidence::ProviderDeclared);
    assert_eq!(model.upstreams, vec!["provider/a".to_owned(), "provider/b".to_owned()]);
    Ok(())
}

#[test]
fn merge_refuses_no_manifest_an_invalid_one_and_a_blank_source() {
    let empty = CapabilityManifest::merge("publisher/main", &[]).expect_err("nothing to merge");
    assert_eq!(empty.code, ErrorCode::InvalidInput);
    assert_eq!(empty.message, "至少需要一个 Capability Manifest");
    let mut bad = manifest("provider/b", ModelHealth::Available);
    bad.models[0].1.public_name = "other".to_owned();
    let invalid = CapabilityManifest::merge(
        "publisher/main",
        &[manifest("provider/a", ModelHealth::Available), bad],
    )
    .expect_err("invalid manifest");
    assert_eq!(invalid.issues[0].code, "KEY_MISMATCH");
    let blank = CapabilityManifest::merge(" ", &[manifest("provider/a", ModelHealth::Available)])
        .expect_err("blank source");
    assert_eq!(blank.issues[0].path, "source_id");
}

#[test]
fn declared_evidence_replaces_unknown_at_the_same_support() -> Result<(), CoreError> {
    let mut first = manifest("provider/a", ModelHealth::Available);
    first.capabilities[0].1.evidence = Evidence::Unknown;
    let second = manifest("provider/b", ModelHealth::Available);
    let merged = CapabilityManifest::merge("publisher/main", &[first, second])?;
    assert_eq!(merged.capabilities[0].1.support, SupportLevel::Supported);
    assert_eq!(merged.capabilities[0].1.evidence, Evidence::ProviderDeclared);
    let mut third = manifest("provider/c", ModelHealth::Available);
    third.capabilities[0].1.evidence = Evidence::Verified;
    let merged = CapabilityManifest::merge("publisher/main", &[manifest("provider/a", ModelHealth::Available), third])?;
    assert_eq!(merged.capabilities[0].1.evidence, Evidence::ProviderDeclared);
    Ok(())
}
