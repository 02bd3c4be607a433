//! Local publishers: the OpenAI-compatible endpoints the gateway exposes.
//! The first release only binds loopback addresses and requires a token
//! referenced through the secret store.
use crate::adapter::trim_slashes_end;
use crate::error::{issue_views, iv, CoreError, ErrorCode, IssueView, ValidationIssue};
use crate::routing::opt_issue;
use crate::text::{self, contains, decimal, is_blank, starts_with};
use crate::SCHEMA_VERSION;
use vstd::prelude::*;

verus! {

/// An IP address to listen on: four IPv4 octets or eight IPv6 segments.
#[derive(Debug, Clone, Copy, PartialEq, Eq)]
pub enum ListenAddress {
    V4([u8; 4]),
    V6([u16; 8]),
}

/// `IpAddr::is_loopback`: `127.0.0.0/8` or `::1`.
pub open spec fn is_loopback(a: ListenAddress) -> bool {
    match a {
        ListenAddress::V4(o) => o@[0] == 127,
        ListenAddress::V6(s) => s@[0] == 0 && s@[1] == 0 && s@[2] == 0 && s@[3] == 0 && s@[4] == 0
            && s@[5] == 0 && s@[6] == 0 && s@[7] == 1,
    }
}

impl ListenAddress {
    pub fn is_loopback(&self) -> (r: bool)
        ensures
            r == is_loopback(*self),
    {
        match self {
            ListenAddress::V4(o) => o[0] == 127,
            ListenAddress::V6(s) => s[0] == 0 && s[1] == 0 && s[2] == 0 && s[3] == 0 && s[4] == 0
                && s[5] == 0 && s[6] == 0 && s[7] == 1,
        }
    }
}

#[derive(Debug, Clone, PartialEq, Eq)]
pub struct PublisherConfig {
    pub schema_version: u32,
    pub id: String,
    pub name: String,
    pub listen_address: ListenAddress,
    pub port: u16,
    pub base_path: String,
    pub require_token: bool,
    pub token_ref: Option<String>,
}

#[derive(Debug, Clone, PartialEq, Eq)]
pub struct PublisherSummary {
    pub id: String,
    pub base_url: String,
    pub loopback_only: bool,
    pub authentication_enabled: bool,
}

/// The issues that publisher validation reports, in order.
pub open spec fn publisher_issues(c: PublisherConfig) -> Seq<IssueView> {
    opt_issue(
        c.schema_version != SCHEMA_VERSION,
        iv("schema_version"@, "UNSUPPORTED_SCHEMA"@, "Publisher Schema 版本不受支持"@),
    ) + opt_issue(is_blank(c.id@), iv("id"@, "REQUIRED"@, "Publisher ID 不能为空"@)) + opt_issue(
        is_blank(c.name@),
        iv("name"@, "REQUIRED"@, "Publisher 名称不能为空"@),
    ) + opt_issue(
        !is_loopback(c.listen_address),
        iv("listen_address"@, "PUBLIC_BIND_FORBIDDEN"@, "MVP 只允许监听回环地址"@),
    ) + opt_issue(c.port == 0, iv("port"@, "OUT_OF_RANGE"@, "端口必须大于 0"@)) + opt_issue(
        !starts_with(c.base_path@, "/"@) || contains(c.base_path@, ".."@) || contains(
            c.base_path@,
            "?"@,
        ) || contains(c.base_path@, "#"@),
        iv("base_path"@, "INVALID_PATH"@, "Base Path 必须是安全的绝对 URL Path"@),
    ) + opt_issue(
        c.require_token && !(c.token_ref matches Some(t) && starts_with(t@, "secret://"@)),
        iv("token_ref"@, "SECRET_REFERENCE_REQUIRED"@, "启用鉴权时必须使用 secret:// 引用"@),
    )
}

/// The host part of a URL for a loopback address: dotted IPv4, or the
/// bracketed IPv6 loopback.
pub open spec fn host_of(a: ListenAddress) -> Seq<char> {
    match a {
        ListenAddress::V4(o) => decimal(o@[0] as nat) + "."@ + decimal(o@[1] as nat) + "."@ + decimal(
            o@[2] as nat,
        ) + "."@ + decimal(o@[3] as nat),
        ListenAddress::V6(_) => "[::1]"@,
    }
}

/// The base URL a valid publisher serves under.
pub open spec fn publisher_base_url(c: PublisherConfig) -> Seq<char> {
    "http://"@ + host_of(c.listen_address) + ":"@ + decimal(c.port as nat) + trim_slashes_end(c.base_path@)
}

fn host_exec(a: &ListenAddress) -> (r: String)
    requires
        is_loopback(*a),
    ensures
        r@ == host_of(*a),
{
    match a {
        ListenAddress::V4(o) => {
            let mut r = text::decimal_string(o[0] as u64);
            text::push_str(&mut r, ".");
            let d1 = text::decimal_string(o[1] as u64);
            text::push_str(&mut r, d1.as_str());
            text::push_str(&mut r, ".");
            let d2 = text::decimal_string(o[2] as u64);
            text::push_str(&mut r, d2.as_str());
            text::push_str(&mut r, ".");
            let d3 = text::decimal_string(o[3] as u64);
            text::push_str(&mut r, d3.as_str());
            r
        },
        ListenAddress::V6(_) => text::owned("[::1]"),
    }
}

fn push_if(issues: &mut Vec<ValidationIssue>, cond: bool, path: &str, code: &str, message: &str)
    ensures
        issue_views(final(issues)@) == issue_views(old(issues)@) + opt_issue(cond, iv(path@, code@, message@)),
{
    if cond {
        issues.push(ValidationIssue::new(path, code, message));
        assert(issue_views(final(issues)@) =~= issue_views(old(issues)@) + opt_issue(cond, iv(path@, code@, message@)));
    } else {
        assert(issue_views(final(issues)@) =~= issue_views(old(issues)@) + opt_issue(cond, iv(path@, code@, message@)));
    }
}

impl PublisherConfig {
    fn issues(&self) -> (r: Vec<ValidationIssue>)
        ensures
            issue_views(r@) == publisher_issues(*self),
    {
        let mut issues: Vec<ValidationIssue> = Vec::new();
        assert(issue_views(issues@) =~= seq![]);
        push_if(&mut issues, self.schema_version != SCHEMA_VERSION, "schema_version", "UNSUPPORTED_SCHEMA", "Publisher Schema 版本不受支持");
        push_if(&mut issues, text::is_blank_str(self.id.as_str()), "id", "REQUIRED", "Publisher ID 不能为空");
        push_if(&mut issues, text::is_blank_str(self.name.as_str()), "name", "REQUIRED", "Publisher 名称不能为空");
        push_if(&mut issues, !self.listen_address.is_loopback(), "listen_address", "PUBLIC_BIND_FORBIDDEN", "MVP 只允许监听回环地址");
        push_if(&mut issues, self.port == 0, "port", "OUT_OF_RANGE", "端口必须大于 0");
        let path = self.base_path.as_str();
        let bad_path = !text::starts_with_exec(path, "/") || text::contains_exec(path, "..") || text::contains_exec(path, "?")
            || text::contains_exec(path, "#");
        push_if(&mut issues, bad_path, "base_path", "INVALID_PATH", "Base Path 必须是安全的绝对 URL Path");
        let token_ok = match &self.token_ref {
            Some(t) => text::starts_with_exec(t.as_str(), "secret://"),
            None => false,
        };
        push_if(&mut issues, self.require_token && !token_ok, "token_ref", "SECRET_REFERENCE_REQUIRED", "启用鉴权时必须使用 secret:// 引用");
        issues
    }
}

impl PublisherConfig {
    /// Validates the publisher: supported schema, non-blank id and name, a
    /// loopback address, a non-zero port, a safe absolute base path, and a
    /// `secret://` token reference when a token is required. A valid
    /// publisher is summarised with the base URL it serves under.
    pub fn validate(&self) -> (r: Result<PublisherSummary, CoreError>)
        ensures
            match r {
                Ok(s) => publisher_issues(*self).len() == 0 && s.id@ == self.id@ && s.base_url@
                    == publisher_base_url(*self) && s.loopback_only && s.authentication_enabled
                    == self.require_token,
                Err(e) => publisher_issues(*self).len() > 0 && e.code == ErrorCode::PublisherInvalid
                    && e.message@ == "Publisher 配置校验失败"@ && e@.issues == publisher_issues(*self),
            },
    {
        let issues = self.issues();
        let path = self.base_path.as_str();
        if issues.len() == 0 {
            let mut base_url = text::owned("http://");
            let host = host_exec(&self.listen_address);
            text::push_str(&mut base_url, host.as_str());
            text::push_str(&mut base_url, ":");
            let port = text::decimal_string(self.port as u64);
            text::push_str(&mut base_url, port.as_str());
            let trimmed = crate::adapter::join_url(path, "");
            proof {
                reveal_strlit("");
                assert(trim_slashes_end(path@) + ""@ =~= trim_slashes_end(path@));
            }
            text::push_str(&mut base_url, trimmed.as_str());
            Ok(PublisherSummary {
                id: self.id.clone(),
                base_url,
                loopback_only: true,
                authentication_enabled: self.require_token,
            })
        } else {
            Err(CoreError::validation(ErrorCode::PublisherInvalid, "Publisher 配置校验失败", issues))
        }
    }
}

/// A publisher that validates listens on a loopback address only.
pub proof fn law_valid_publisher_is_loopback(c: PublisherConfig)
    requires
        publisher_issues(c).len() == 0,
    ensures
        is_loopback(c.listen_address),
{
    if !is_loopback(c.listen_address) {
        assert(publisher_issues(c).len() > 0) by {
            let pre = opt_issue(
                c.schema_version != SCHEMA_VERSION,
                iv("schema_version"@, "UNSUPPORTED_SCHEMA"@, "Publisher Schema 版本不受支持"@),
            ) + opt_issue(is_blank(c.id@), iv("id"@, "REQUIRED"@, "Publisher ID 不能为空"@)) + opt_issue(
                is_blank(c.name@),
                iv("name"@, "REQUIRED"@, "Publisher 名称不能为空"@),
            );
            assert(publisher_issues(c).len() >= pre.len() + 1);
        }
    }
}

} // verus!
