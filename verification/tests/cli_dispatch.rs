use apiarray::cli::{dispatch, respond, CliCommand, CliRequest, CliResponse, CliResult};
use apiarray::graph::{WorkflowGraph, GRAPH_SCHEMA_VERSION};
use apiarray::{CoreError, ErrorCode};

#[test]
fn redaction_command_does_not_echo_auth_value() -> Result<(), CoreError> {
    let response = dispatch(CliRequest {
        schema_version: 1,
        command: CliCommand::RedactDiagnostic {
            value: "Authorization: Bearer secret".to_owned(),
        },
    })?;
    assert!(response.ok);
    match response.result {
        Some(CliResult::Redacted { redacted }) => assert_eq!(redacted, "[REDACTED]"),
        _ => panic!("a redaction result"),
    }
    Ok(())
}

#[test]
fn unsupported_cli_schema_is_refused_with_its_version() {
    let error = match dispatch(CliRequest {
        schema_version: 7,
        command: CliCommand::RedactDiagnostic { value: "x".to_owned() },
    }) {
        Err(error) => error,
        Ok(_) => panic!("schema 7 is not supported"),
    };
    assert_eq!(error.code, ErrorCode::UnsupportedSchema);
    assert_eq!(error.message, "CLI 只支持 Schema 1，收到 7");
    let response = CliResponse::failure(error);
    assert!(!response.ok);
    assert_eq!(response.error.expect("error").code, ErrorCode::UnsupportedSchema);
}

#[test]
fn graph_command_reports_the_summary_or_the_issues() {
    let empty = WorkflowGraph {
        schema_version: GRAPH_SCHEMA_VERSION,
        id: "g".to_owned(),
        nodes: Vec::new(),
        edges: Vec::new(),
    };
    let response = match dispatch(CliRequest {
        schema_version: 1,
        command: CliCommand::ValidateGraph { graph: empty },
    }) {
        Ok(response) => response,
        Err(error) => panic!("an empty graph validates: {:?}", error),
    };
    match response.result {
        Some(CliResult::Graph(summary)) => assert_eq!(summary.node_count, 0),
        _ => panic!("a graph summary"),
    }
    let broken = WorkflowGraph {
        schema_version: 9,
        id: " ".to_owned(),
        nodes: Vec::new(),
        edges: Vec::new(),
    };
    match dispatch(CliRequest {
        schema_version: 1,
        command: CliCommand::ValidateGraph { graph: broken },
    }) {
        Err(error) => assert_eq!(error.issues.len(), 2),
        Ok(_) => panic!("a broken graph"),
    }
}

#[test]
fn invalid_json_returns_machine_readable_failure() {
    let reading = serde_json::from_str::<serde_json::Value>("not json")
        .map(|_| ())
        .expect_err("not JSON")
        .to_string();
    let response = respond(Err(reading.clone()));
    assert!(!response.ok);
    let error = response.error.expect("error");
    assert_eq!(error.code, ErrorCode::InvalidInput);
    assert_eq!(error.message, format!("CLI JSON 无法解析: {reading}"));
}

#[test]
fn a_read_request_is_answered_by_its_dispatch() {
    let response = respond(Ok(CliRequest {
        schema_version: 2,
        command: CliCommand::RedactDiagnostic { value: "x".to_owned() },
    }));
    assert!(!response.ok);
    assert_eq!(response.error.expect("error").code, ErrorCode::UnsupportedSchema);
    let response = respond(Ok(CliRequest {
        schema_version: 1,
        command: CliCommand::RedactDiagnostic { value: "plain".to_owned() },
    }));
    assert!(response.ok);
}
