//! Secret references (`secret://...`) and diagnostic redaction.
//! A workspace never stores a secret value, only a reference to one.
use crate::error::{CoreError, ErrorCode};
use crate::text::{self, contains, is_ascii_alnum, lower, starts_with};
use vstd::prelude::*;

verus! {

pub open spec fn secret_prefix() -> Seq<char> {
    seq!['s', 'e', 'c', 'r', 'e', 't', ':', '/', '/']
}

pub open spec fn secret_id_char(c: char) -> bool {
    is_ascii_alnum(c) || c == '-' || c == '_' || c == '/' || c == '.' || c == ':'
}

/// The identifier after `secret://` is non-empty, does not start or end with
/// `/`, and holds only ASCII letters, digits and `-_/.:`.
pub open spec fn secret_id_valid(id: Seq<char>) -> bool {
    &&& id.len() > 0
    &&& id[0] != '/'
    &&& id.last() != '/'
    &&& forall|i: int| 0 <= i < id.len() ==> secret_id_char(#[trigger] id[i])
}

pub open spec fn secret_ref_valid(v: Seq<char>) -> bool {
    starts_with(v, secret_prefix()) && secret_id_valid(v.skip(9))
}

/// A serialisable reference to a secret. It never holds the secret value.
#[derive(Debug, PartialEq, Eq, Hash)]
pub struct SecretRef {
    value: String,
}

impl View for SecretRef {
    type V = Seq<char>;

    closed spec fn view(&self) -> Seq<char> {
        self.value@
    }
}

impl SecretRef {
    #[verifier::type_invariant]
    closed spec fn wf(self) -> bool {
        secret_ref_valid(self.value@)
    }

    /// Parses and checks a reference that holds no secret value.
    pub fn parse(value: &str) -> (r: Result<SecretRef, CoreError>)
        ensures
            match r {
                Ok(reference) => secret_ref_valid(value@) && reference@ == value@,
                Err(e) => {
                    &&& !secret_ref_valid(value@)
                    &&& e.code == ErrorCode::SecretInvalid
                    &&& e@.issues.len() == 0
                    &&& e.message@ == (if starts_with(value@, secret_prefix()) {
                        "Secret 引用包含非法或空的标识符"@
                    } else {
                        "Secret 引用必须以 secret:// 开头"@
                    })
                },
            },
    {
        proof {
            reveal_strlit("secret://");
        }
        assert("secret://"@ == secret_prefix());
        if !text::starts_with_exec(value, "secret://") {
            return Err(CoreError::new(ErrorCode::SecretInvalid, "Secret 引用必须以 secret:// 开头"));
        }
        let chars = text::chars_of(value);
        let n = chars.len();
        let ghost id = value@.skip(9);
        let mut ok = n > 9 && chars[9] != '/' && chars[n - 1] != '/';
        let mut i: usize = 9;
        while ok && i < n
            invariant
                chars@ == value@,
                n == value@.len(),
                9 <= i <= n,
                id == value@.skip(9),
                ok ==> forall|j: int| 0 <= j < i - 9 ==> secret_id_char(#[trigger] id[j]),
                ok ==> id.len() > 0 && id[0] != '/' && id.last() != '/',
                !ok ==> !secret_id_valid(id),
            decreases n - i,
        {
            let c = chars[i];
            if !((c >= 'a' && c <= 'z') || (c >= 'A' && c <= 'Z') || (c >= '0' && c <= '9') || c
                == '-' || c == '_' || c == '/' || c == '.' || c == ':') {
                assert(id[i - 9] == c);
                ok = false;
            }
            i = i + 1;
        }
        if !ok {
            return Err(CoreError::new(ErrorCode::SecretInvalid, "Secret 引用包含非法或空的标识符"));
        }
        Ok(SecretRef { value: value.to_owned() })
    }

    pub fn as_str(&self) -> (r: &str)
        ensures
            r@ == self@,
            secret_ref_valid(r@),
    {
        proof {
            use_type_invariant(self);
        }
        self.value.as_str()
    }

    pub fn duplicate(&self) -> (r: SecretRef)
        ensures
            r@ == self@,
    {
        proof {
            use_type_invariant(self);
        }
        SecretRef { value: self.value.clone() }
    }
}

impl Clone for SecretRef {
    fn clone(&self) -> (r: Self)
        ensures
            r@ == self@,
    {
        self.duplicate()
    }
}

/// What a redacted value shows: `***` and at most its last four characters.
pub open spec fn redacted(v: Seq<char>) -> Seq<char> {
    seq!['*', '*', '*'] + (if v.len() <= 4 {
        v
    } else {
        v.subrange(v.len() - 4, v.len() as int)
    })
}

/// For diagnostics only: keeps at most four trailing characters.
pub fn redact_secret(value: &str) -> (r: String)
    ensures
        r@ == redacted(value@),
{
    let chars = text::chars_of(value);
    let n = chars.len();
    let start = if n <= 4 {
        0
    } else {
        n - 4
    };
    let mut r = String::new();
    text::push_char(&mut r, '*');
    text::push_char(&mut r, '*');
    text::push_char(&mut r, '*');
    let mut i: usize = start;
    while i < n
        invariant
            chars@ == value@,
            n == value@.len(),
            start <= i <= n,
            start == (if n <= 4 { 0 } else { n - 4 }),
            r@ == seq!['*', '*', '*'] + value@.subrange(start as int, i as int),
        decreases n - i,
    {
        text::push_char(&mut r, chars[i]);
        i = i + 1;
        assert(value@.subrange(start as int, i as int) == value@.subrange(start as int, i - 1).push(
            chars@[i - 1],
        ));
    }
    assert(n <= 4 ==> value@.subrange(0, n as int) == value@);
    r
}

/// Words whose presence marks a diagnostic as carrying credentials.
pub open spec fn mentions_credentials(v: Seq<char>) -> bool {
    let l = lower(v);
    contains(l, "authorization"@) || contains(l, "api_key"@) || contains(l, "api-key"@) || contains(
        l,
        "apikey"@,
    ) || contains(l, "bearer "@)
}

/// Conservative redaction of authentication text; other text is kept as is.
pub fn redact_diagnostic(value: &str) -> (r: String)
    ensures
        r@ == (if mentions_credentials(value@) {
            "[REDACTED]"@
        } else {
            value@
        }),
{
    let l = text::to_lower(value);
    let s = l.as_str();
    if text::contains_exec(s, "authorization") || text::contains_exec(s, "api_key")
        || text::contains_exec(s, "api-key") || text::contains_exec(s, "apikey")
        || text::contains_exec(s, "bearer ") {
        "[REDACTED]".to_owned()
    } else {
        value.to_owned()
    }
}

/// A redacted value shows at most seven characters, all of which are
/// asterisks or trailing characters of the value.
pub proof fn law_redaction_reveals_only_a_short_suffix(v: Seq<char>)
    ensures
        redacted(v).len() <= 7,
        redacted(v).len() == 3 + (if v.len() <= 4 { v.len() } else { 4 }),
        text::ends_with(v, redacted(v).skip(3)),
{
    let s = redacted(v).skip(3);
    if v.len() <= 4 {
        assert(s == v);
        assert(v.subrange(0, v.len() as int) == v);
    } else {
        assert(s == v.subrange(v.len() - 4, v.len() as int));
    }
}

} // verus!
