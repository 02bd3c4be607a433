//! Stable error codes and validation issues shared by every validator.
use vstd::prelude::*;

verus! {

/// Error codes that stay stable for the CLI, the UI and the audit log.
#[derive(Debug, Clone, Copy, PartialEq, Eq, Structural)]
pub enum ErrorCode {
    InvalidInput,
    UnsupportedSchema,
    ProviderInvalid,
    AdapterUnsupported,
    RequestInvalid,
    ResponseInvalid,
    StreamInvalid,
    TemplateInvalid,
    RuntimeConfigInvalid,
    GraphInvalid,
    RouteUnavailable,
    PublisherInvalid,
    SecretInvalid,
    SerializationFailed,
    InternalRuntimeError,
}

/// The mathematical content of a [`ValidationIssue`].
pub struct IssueView {
    pub path: Seq<char>,
    pub code: Seq<char>,
    pub message: Seq<char>,
}

pub open spec fn iv(path: Seq<char>, code: Seq<char>, message: Seq<char>) -> IssueView {
    IssueView { path, code, message }
}

#[derive(Debug, Clone, PartialEq, Eq)]
pub struct ValidationIssue {
    pub path: String,
    pub code: String,
    pub message: String,
}

impl View for ValidationIssue {
    type V = IssueView;

    open spec fn view(&self) -> IssueView {
        IssueView { path: self.path@, code: self.code@, message: self.message@ }
    }
}

pub open spec fn issue_views(v: Seq<ValidationIssue>) -> Seq<IssueView> {
    v.map_values(|i: ValidationIssue| i@)
}

/// The codes of a sequence of issues, in order.
pub open spec fn issue_codes(v: Seq<IssueView>) -> Seq<Seq<char>> {
    v.map_values(|i: IssueView| i.code)
}

impl ValidationIssue {
    pub fn new(path: &str, code: &str, message: &str) -> (r: Self)
        ensures
            r@ == iv(path@, code@, message@),
    {
        ValidationIssue { path: path.to_owned(), code: code.to_owned(), message: message.to_owned() }
    }

    /// Builds an issue from an already owned path.
    pub fn at(path: String, code: &str, message: &str) -> (r: Self)
        ensures
            r@ == iv(path@, code@, message@),
    {
        ValidationIssue { path, code: code.to_owned(), message: message.to_owned() }
    }

    pub fn duplicate(&self) -> (r: Self)
        ensures
            r@ == self@,
    {
        ValidationIssue { path: self.path.clone(), code: self.code.clone(), message: self.message.clone() }
    }
}

#[derive(Debug, Clone, PartialEq, Eq)]
pub struct CoreError {
    pub code: ErrorCode,
    pub message: String,
    pub issues: Vec<ValidationIssue>,
}

pub struct ErrorView {
    pub code: ErrorCode,
    pub message: Seq<char>,
    pub issues: Seq<IssueView>,
}

impl View for CoreError {
    type V = ErrorView;

    open spec fn view(&self) -> ErrorView {
        ErrorView { code: self.code, message: self.message@, issues: issue_views(self.issues@) }
    }
}

impl CoreError {
    pub fn new(code: ErrorCode, message: &str) -> (r: Self)
        ensures
            r.code == code,
            r.message@ == message@,
            r.issues@.len() == 0,
            r@.issues == Seq::<IssueView>::empty(),
    {
        let r = CoreError { code, message: message.to_owned(), issues: Vec::new() };
        assert(issue_views(r.issues@) =~= Seq::<IssueView>::empty());
        r
    }

    pub fn validation(code: ErrorCode, message: &str, issues: Vec<ValidationIssue>) -> (r: Self)
        ensures
            r.code == code,
            r.message@ == message@,
            r.issues@ == issues@,
            r@.issues == issue_views(issues@),
    {
        CoreError { code, message: message.to_owned(), issues }
    }

    /// A human-readable rendering, `"{code:?}: {message}"`.
    pub fn describe(&self) -> (r: String)
        ensures
            r@ == error_code_name(self.code) + ": "@ + self.message@,
    {
        let mut r = String::new();
        crate::text::push_str(&mut r, error_code_str(self.code));
        crate::text::push_str(&mut r, ": ");
        crate::text::push_str(&mut r, self.message.as_str());
        r
    }
}

pub open spec fn error_code_name(code: ErrorCode) -> Seq<char> {
    match code {
        ErrorCode::InvalidInput => "InvalidInput"@,
        ErrorCode::UnsupportedSchema => "UnsupportedSchema"@,
        ErrorCode::ProviderInvalid => "ProviderInvalid"@,
        ErrorCode::AdapterUnsupported => "AdapterUnsupported"@,
        ErrorCode::RequestInvalid => "RequestInvalid"@,
        ErrorCode::ResponseInvalid => "ResponseInvalid"@,
        ErrorCode::StreamInvalid => "StreamInvalid"@,
        ErrorCode::TemplateInvalid => "TemplateInvalid"@,
        ErrorCode::RuntimeConfigInvalid => "RuntimeConfigInvalid"@,
        ErrorCode::GraphInvalid => "GraphInvalid"@,
        ErrorCode::RouteUnavailable => "RouteUnavailable"@,
        ErrorCode::PublisherInvalid => "PublisherInvalid"@,
        ErrorCode::SecretInvalid => "SecretInvalid"@,
        ErrorCode::SerializationFailed => "SerializationFailed"@,
        ErrorCode::InternalRuntimeError => "InternalRuntimeError"@,
    }
}

/// The variant name of an error code, as `{:?}` renders it.
pub fn error_code_str(code: ErrorCode) -> (r: &'static str)
    ensures
        r@ == error_code_name(code),
{
    match code {
        ErrorCode::InvalidInput => "InvalidInput",
        ErrorCode::UnsupportedSchema => "UnsupportedSchema",
        ErrorCode::ProviderInvalid => "ProviderInvalid",
        ErrorCode::AdapterUnsupported => "AdapterUnsupported",
        ErrorCode::RequestInvalid => "RequestInvalid",
        ErrorCode::ResponseInvalid => "ResponseInvalid",
        ErrorCode::StreamInvalid => "StreamInvalid",
        ErrorCode::TemplateInvalid => "TemplateInvalid",
        ErrorCode::RuntimeConfigInvalid => "RuntimeConfigInvalid",
        ErrorCode::GraphInvalid => "GraphInvalid",
        ErrorCode::RouteUnavailable => "RouteUnavailable",
        ErrorCode::PublisherInvalid => "PublisherInvalid",
        ErrorCode::SecretInvalid => "SecretInvalid",
        ErrorCode::SerializationFailed => "SerializationFailed",
        ErrorCode::InternalRuntimeError => "InternalRuntimeError",
    }
}

/// Collapses a list of issues into the validator's result: `Ok` when there
/// are none, otherwise an error carrying all of them.
pub fn finish(issues: Vec<ValidationIssue>, code: ErrorCode, message: &str) -> (r: Result<(), CoreError>)
    ensures
        issues@.len() == 0 ==> r is Ok,
        issues@.len() > 0 ==> (r matches Err(e) && e.code == code && e.message@ == message@
            && e.issues@ == issues@),
{
    if issues.len() == 0 {
        Ok(())
    } else {
        Err(CoreError::validation(code, message, issues))
    }
}

} // verus!
