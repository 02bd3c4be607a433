use apiarray::publisher::{ListenAddress, PublisherConfig};
use apiarray::{CoreError, ErrorCode};

fn config(listen_address: ListenAddress) -> PublisherConfig {
    PublisherConfig {
        schema_version: 1,
        id: "local-ai".to_owned(),
        name: "Local AI".to_owned(),
        listen_address,
        port: 6188,
        base_path: "/v1".to_owned(),
        require_token: true,
        token_ref: Some("secret://publisher/local-ai".to_owned()),
    }
}

#[test]
fn accepts_loopback_publisher() -> Result<(), CoreError> {
    let summary = PublisherConfig {
        schema_version: 1,
        id: "local-ai".to_owned(),
        name: "Local AI".to_owned(),
        listen_address: ListenAddress::V4([127, 0, 0, 1]),
        port: 6188,
        base_path: "/v1".to_owned(),
        require_token: true,
        token_ref: Some("secret://publisher/local-ai".to_owned()),
    }
    .validate()?;
    assert_eq!(summary.base_url, "http://127.0.0.1:6188/v1");
    Ok(())
}

#[test]
fn rejects_public_bind() {
    let config = PublisherConfig {
        schema_version: 1,
        id: "public".to_owned(),
        name: "Public".to_owned(),
        listen_address: ListenAddress::V4([0, 0, 0, 0]),
        port: 6188,
        base_path: "/v1".to_owned(),
        require_token: true,
        token_ref: Some("secret://publisher/public".to_owned()),
    };
    let error = config.validate().expect_err("public bind must fail");
    assert!(error
        .issues
        .iter()
        .any(|issue| issue.code == "PUBLIC_BIND_FORBIDDEN"));
}

#[test]
fn ipv6_loopback_and_trailing_slashes() -> Result<(), CoreError> {
    let mut c = config(ListenAddress::V6([0, 0, 0, 0, 0, 0, 0, 1]));
    c.base_path = "/api/v1//".to_owned();
    c.require_token = false;
    c.token_ref = None;
    let summary = c.validate()?;
    assert_eq!(summary.base_url, "http://[::1]:6188/api/v1");
    assert!(summary.loopback_only);
    assert!(!summary.authentication_enabled);
    Ok(())
}

#[test]
fn every_rule_reports_its_issue_in_order() {
    let c = PublisherConfig {
        schema_version: 2,
        id: " ".to_owned(),
        name: "".to_owned(),
        listen_address: ListenAddress::V6([0, 0, 0, 0, 0, 0, 0, 2]),
        port: 0,
        base_path: "v1/..".to_owned(),
        require_token: true,
        token_ref: Some("plain-token".to_owned()),
    };
    let error = c.validate().expect_err("invalid publisher");
    assert_eq!(error.code, ErrorCode::PublisherInvalid);
    let codes: Vec<(&str, &str)> = error
        .issues
        .iter()
        .map(|issue| (issue.path.as_str(), issue.code.as_str()))
        .collect();
    assert_eq!(
        codes,
        vec![
            ("schema_version", "UNSUPPORTED_SCHEMA"),
            ("id", "REQUIRED"),
            ("name", "REQUIRED"),
            ("listen_address", "PUBLIC_BIND_FORBIDDEN"),
            ("port", "OUT_OF_RANGE"),
            ("base_path", "INVALID_PATH"),
            ("token_ref", "SECRET_REFERENCE_REQUIRED"),
        ]
    );
}

#[test]
fn loopback_range_covers_the_whole_127_block() -> Result<(), CoreError> {
    let summary = config(ListenAddress::V4([127, 10, 20, 30])).validate()?;
    assert_eq!(summary.base_url, "http://127.10.20.30:6188/v1");
    Ok(())
}
