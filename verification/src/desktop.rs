//! Naming and identity rules of the desktop host: workspace and display names,
//! identifiers derived from user input, collision-free ids, and the ids of
//! the managed instances shown in the instance rack.
use crate::json;
use crate::text::{self, decimal, is_ascii_alnum, is_blank, lower, trim};
use vstd::prelude::*;

verus! {

/// What a managed instance is: an audited direct endpoint or a canvas.
#[derive(Debug, Clone, Copy, PartialEq, Eq, Structural)]
pub enum ManagedInstanceKind {
    DirectEndpoint,
    Canvas,
}

pub open spec fn string_views(v: Seq<String>) -> Seq<Seq<char>> {
    v.map_values(|s: String| s@)
}

/// The name used when the user gives none.
pub open spec fn default_workspace_name() -> Seq<char> {
    "我的 API ARRAY 工作区"@
}

/// At most the first `n` characters.
pub open spec fn first_chars(s: Seq<char>, n: nat) -> Seq<char> {
    if s.len() <= n {
        s
    } else {
        s.take(n as int)
    }
}

/// A workspace name: the trimmed input cut to 80 characters, or the default
/// name when the input is blank.
pub open spec fn workspace_name_of(input: Seq<char>) -> Seq<char> {
    if is_blank(input) {
        default_workspace_name()
    } else {
        first_chars(trim(input), 80)
    }
}

pub fn workspace_name(input: &str) -> (r: String)
    ensures
        r@ == workspace_name_of(input@),
{
    let name = text::trim_str(input);
    proof {
        text::lemma_blank_iff_trim_empty(input@);
    }
    if name.as_str().unicode_len() == 0 {
        return "我的 API ARRAY 工作区".to_owned();
    }
    text::take_chars(name.as_str(), 80)
}

/// A display name: the trimmed input, or the fallback when the input is
/// blank, cut to 80 characters.
pub open spec fn limited_name_of(input: Seq<char>, fallback: Seq<char>) -> Seq<char> {
    if is_blank(input) {
        first_chars(fallback, 80)
    } else {
        first_chars(trim(input), 80)
    }
}

pub fn limited_name(input: &str, fallback: &str) -> (r: String)
    ensures
        r@ == limited_name_of(input@, fallback@),
{
    let trimmed = text::trim_str(input);
    proof {
        text::lemma_blank_iff_trim_empty(input@);
    }
    if trimmed.as_str().unicode_len() == 0 {
        text::take_chars(fallback, 80)
    } else {
        text::take_chars(trimmed.as_str(), 80)
    }
}

pub open spec fn is_id_char(c: char) -> bool {
    is_ascii_alnum(c) || c == '-' || c == '_'
}

/// The characters of `s` that may appear in an identifier, in order.
pub open spec fn id_chars(s: Seq<char>) -> Seq<char>
    decreases s.len(),
{
    if s.len() == 0 {
        seq![]
    } else {
        id_chars(s.drop_last()) + (if is_id_char(s.last()) {
            seq![s.last()]
        } else {
            seq![]
        })
    }
}

/// An identifier from user input: its ASCII letters, digits, `-` and `_`
/// after trimming, at most 64 of them; `{kind}-default` when none remain.
pub open spec fn normalized_id(input: Seq<char>, kind: Seq<char>) -> Seq<char> {
    let kept = first_chars(id_chars(trim(input)), 64);
    if kept.len() == 0 {
        kind + "-default"@
    } else {
        kept
    }
}

pub fn normalize_id(input: &str, kind: &str) -> (r: String)
    ensures
        r@ == normalized_id(input@, kind@),
{
    let trimmed = text::trim_str(input);
    let v = text::chars_of(trimmed.as_str());
    let mut kept = String::new();
    let mut i: usize = 0;
    while i < v.len()
        invariant
            v@ == trim(input@),
            i <= v@.len(),
            kept@ == id_chars(v@.take(i as int)),
        decreases v.len() - i,
    {
        assert(v@.take(i + 1).drop_last() == v@.take(i as int));
        let c = v[i];
        if text::char_is_ascii_alnum(c) || c == '-' || c == '_' {
            text::push_char(&mut kept, c);
        }
        assert(kept@ =~= id_chars(v@.take(i + 1)));
        i = i + 1;
    }
    assert(v@.take(v@.len() as int) == v@);
    let limited = text::take_chars(kept.as_str(), 64);
    if limited.as_str().unicode_len() == 0 {
        let mut r = text::owned(kind);
        text::push_str(&mut r, "-default");
        r
    } else {
        limited
    }
}

/// Whether the web assets changed since the recorded build id.
pub open spec fn assets_changed(previous: Option<Seq<char>>, current: Seq<char>) -> bool {
    match previous {
        None => true,
        Some(p) => trim(p) != current,
    }
}

pub fn webview_assets_changed(previous: Option<&str>, current: &str) -> (r: bool)
    ensures
        r == assets_changed(
            match previous {
                Some(p) => Some(p@),
                None => None,
            },
            current@,
        ),
{
    match previous {
        None => true,
        Some(p) => {
            let t = text::trim_str(p);
            !text::str_eq(t.as_str(), current)
        },
    }
}

/// How many models an OpenAI `/v1/models` reply lists: the length of its
/// `data` array, zero when there is none. `payload` is the reply's JSON text.
pub fn model_count_from_payload(payload: &str) -> (r: usize)
    ensures
        r == match json::json_array_len_at(payload@, "/data"@) {
            Some(n) => n,
            None => 0,
        },
{
    match json::json_array_len(payload, "/data") {
        Some(n) => n,
        None => 0,
    }
}

pub open spec fn suffixed(base: Seq<char>, sep: char, index: nat) -> Seq<char> {
    base.push(sep) + decimal(index)
}

/// Whether a candidate is among the existing names, comparing in ASCII lower
/// case when `fold_case` is set.
pub open spec fn is_taken(existing: Seq<Seq<char>>, candidate: Seq<char>, fold_case: bool) -> bool {
    if fold_case {
        existing.contains(lower(candidate))
    } else {
        existing.contains(candidate)
    }
}

/// The first of `base{sep}{index}`, ..., `base{sep}9999` that is not taken;
/// `base{sep}{last}` when all are.
pub open spec fn first_free(existing: Seq<Seq<char>>, fold_case: bool, base: Seq<char>, sep: char, index: nat, last: Seq<char>) -> Seq<char>
    decreases 10000 - index,
{
    if index >= 10000 {
        base.push(sep) + last
    } else if !is_taken(existing, suffixed(base, sep, index), fold_case) {
        suffixed(base, sep, index)
    } else {
        first_free(existing, fold_case, base, sep, index + 1, last)
    }
}

/// An id not among `existing`: `base` itself, else the first free
/// `base-2` ... `base-9999`, else `base-overflow`.
pub open spec fn unique_id_of(existing: Seq<Seq<char>>, base: Seq<char>) -> Seq<char> {
    if !existing.contains(base) {
        base
    } else {
        first_free(existing, false, base, '-', 2, "overflow"@)
    }
}

fn contains_string(v: &Vec<String>, s: &str) -> (r: bool)
    ensures
        r == string_views(v@).contains(s@),
{
    let mut i: usize = 0;
    while i < v.len()
        invariant
            i <= v@.len(),
            forall|k: int| 0 <= k < i ==> v@[k]@ != s@,
        decreases v.len() - i,
    {
        if text::str_eq(v[i].as_str(), s) {
            assert(string_views(v@)[i as int] == s@);
            return true;
        }
        i = i + 1;
    }
    proof {
        if string_views(v@).contains(s@) {
            let k = choose|k: int| 0 <= k < string_views(v@).len() && string_views(v@)[k] == s@;
            assert(v@[k]@ == s@);
        }
    }
    false
}

fn suffixed_exec(base: &str, sep: char, index: u64) -> (r: String)
    ensures
        r@ == suffixed(base@, sep, index as nat),
{
    let mut r = text::owned(base);
    text::push_char(&mut r, sep);
    let d = text::decimal_string(index);
    text::push_str(&mut r, d.as_str());
    r
}

/// An id for a new entry of a keyed collection: `base` when it is free,
/// else the first free `base-{n}` for `n` from 2 to 9999, else
/// `base-overflow`.
pub fn unique_map_id(existing: &Vec<String>, base: &str) -> (r: String)
    ensures
        r@ == unique_id_of(string_views(existing@), base@),
{
    let ghost ex = string_views(existing@);
    if !contains_string(existing, base) {
        return text::owned(base);
    }
    let mut index: u64 = 2;
    while index < 10000
        invariant
            2 <= index <= 10000,
            ex == string_views(existing@),
            ex.contains(base@),
            first_free(ex, false, base@, '-', 2, "overflow"@) == first_free(
                ex,
                false,
                base@,
                '-',
                index as nat,
                "overflow"@,
            ),
        decreases 10000 - index,
    {
        let candidate = suffixed_exec(base, '-', index);
        if !contains_string(existing, candidate.as_str()) {
            return candidate;
        }
        index = index + 1;
    }
    let mut r = text::owned(base);
    text::push_char(&mut r, '-');
    text::push_str(&mut r, "overflow");
    r
}

/// A display name that differs, ignoring ASCII case, from every existing
/// one: the limited name itself, else `"{name} 2"` ... `"{name} 9999"`,
/// else `"{name} 10000"`.
pub open spec fn unique_display_name_of(existing: Seq<Seq<char>>, requested: Seq<char>, fallback: Seq<char>) -> Seq<char> {
    let base = limited_name_of(requested, fallback);
    let lowered = existing.map_values(|n: Seq<char>| lower(n));
    if !lowered.contains(lower(base)) {
        base
    } else {
        first_free(lowered, true, base, ' ', 2, "10000"@)
    }
}

fn lowered_names(names: &Vec<String>) -> (r: Vec<String>)
    ensures
        string_views(r@) == string_views(names@).map_values(|n: Seq<char>| lower(n)),
{
    let mut r: Vec<String> = Vec::new();
    let mut i: usize = 0;
    while i < names.len()
        invariant
            i <= names@.len(),
            string_views(r@) == string_views(names@).take(i as int).map_values(|n: Seq<char>| lower(n)),
        decreases names.len() - i,
    {
        let ghost prev = r@;
        r.push(text::to_lower(names[i].as_str()));
        assert(string_views(r@) =~= string_views(prev).push(lower(names@[i as int]@)));
        assert(string_views(names@).take(i + 1) == string_views(names@).take(i as int).push(names@[i as int]@));
        assert(string_views(r@) =~= string_views(names@).take(i + 1).map_values(|n: Seq<char>| lower(n)));
        i = i + 1;
    }
    assert(string_views(names@).take(names@.len() as int) == string_views(names@));
    r
}

pub fn unique_display_name(existing: &Vec<String>, requested: &str, fallback: &str) -> (r: String)
    ensures
        r@ == unique_display_name_of(string_views(existing@), requested@, fallback@),
{
    let base = limited_name(requested, fallback);
    let lowered = lowered_names(existing);
    let ghost lw = string_views(lowered@);
    let base_lower = text::to_lower(base.as_str());
    if !contains_string(&lowered, base_lower.as_str()) {
        return base;
    }
    let mut index: u64 = 2;
    while index < 10000
        invariant
            2 <= index <= 10000,
            lw == string_views(lowered@),
            lw == string_views(existing@).map_values(|n: Seq<char>| lower(n)),
            lw.contains(lower(base@)),
            base@ == limited_name_of(requested@, fallback@),
            first_free(lw, true, base@, ' ', 2, "10000"@) == first_free(
                lw,
                true,
                base@,
                ' ',
                index as nat,
                "10000"@,
            ),
        decreases 10000 - index,
    {
        let candidate = suffixed_exec(base.as_str(), ' ', index);
        let candidate_lower = text::to_lower(candidate.as_str());
        if !contains_string(&lowered, candidate_lower.as_str()) {
            return candidate;
        }
        index = index + 1;
    }
    let mut r = base;
    text::push_char(&mut r, ' ');
    text::push_str(&mut r, "10000");
    r
}

/// The URL of an audited direct endpoint on the local gateway.
pub open spec fn direct_endpoint_url_of(listen_address: Seq<char>, port: u16, alias: Seq<char>) -> Seq<char> {
    "http://"@ + listen_address + ":"@ + decimal(port as nat) + "/direct/"@ + alias + "/v1"@
}

pub fn direct_endpoint_url(listen_address: &str, port: u16, alias: &str) -> (r: String)
    ensures
        r@ == direct_endpoint_url_of(listen_address@, port, alias@),
{
    let mut r = text::owned("http://");
    text::push_str(&mut r, listen_address);
    text::push_str(&mut r, ":");
    let p = text::decimal_string(port as u64);
    text::push_str(&mut r, p.as_str());
    text::push_str(&mut r, "/direct/");
    text::push_str(&mut r, alias);
    text::push_str(&mut r, "/v1");
    r
}

/// The id of a managed instance: `direct:{endpoint}` or
/// `canvas:{project}:{canvas}`.
pub open spec fn managed_id_of(kind: ManagedInstanceKind, first: Seq<char>, second: Option<Seq<char>>) -> Seq<char> {
    match kind {
        ManagedInstanceKind::DirectEndpoint => "direct"@ + seq![':'] + first,
        ManagedInstanceKind::Canvas => "canvas"@ + seq![':'] + first + seq![':'] + match second {
            Some(s) => s,
            None => seq![],
        },
    }
}

pub fn managed_instance_id(kind: ManagedInstanceKind, first: &str, second: Option<&str>) -> (r: String)
    ensures
        r@ == managed_id_of(
            kind,
            first@,
            match second {
                Some(s) => Some(s@),
                None => None,
            },
        ),
{
    match kind {
        ManagedInstanceKind::DirectEndpoint => {
            let mut r = text::owned("direct");
            text::push_char(&mut r, ':');
            text::push_str(&mut r, first);
            r
        },
        ManagedInstanceKind::Canvas => {
            let mut r = text::owned("canvas");
            text::push_char(&mut r, ':');
            text::push_str(&mut r, first);
            text::push_char(&mut r, ':');
            match second {
                Some(s) => text::push_str(&mut r, s),
                None => {},
            }
            r
        },
    }
}

/// The pieces of `s` between `:` separators, as `str::split(':')` gives them.
pub open spec fn split_colon(s: Seq<char>) -> Seq<Seq<char>>
    decreases s.len(),
{
    if s.len() == 0 {
        seq![seq![]]
    } else {
        let prev = split_colon(s.drop_last());
        if s.last() == ':' {
            prev.push(seq![])
        } else {
            prev.update(prev.len() - 1, prev.last().push(s.last()))
        }
    }
}

proof fn lemma_split_nonempty(s: Seq<char>)
    ensures
        split_colon(s).len() >= 1,
    decreases s.len(),
{
    if s.len() > 0 {
        lemma_split_nonempty(s.drop_last());
    }
}

/// A managed instance id read back: its kind, its first part and, for a
/// canvas, its second part; `None` when the id has another shape.
pub open spec fn parsed_managed_id(id: Seq<char>) -> Option<(ManagedInstanceKind, Seq<char>, Option<Seq<char>>)> {
    let parts = split_colon(id);
    if parts.len() == 2 && parts[0] == "direct"@ && parts[1].len() > 0 {
        Some((ManagedInstanceKind::DirectEndpoint, parts[1], None))
    } else if parts.len() == 3 && parts[0] == "canvas"@ && parts[1].len() > 0 && parts[2].len() > 0 {
        Some((ManagedInstanceKind::Canvas, parts[1], Some(parts[2])))
    } else {
        None
    }
}

fn split_colon_exec(id: &str) -> (r: Vec<String>)
    ensures
        string_views(r@) == split_colon(id@),
{
    let v = text::chars_of(id);
    let mut done: Vec<String> = Vec::new();
    let mut current = String::new();
    let mut i: usize = 0;
    assert(id@.take(0) =~= seq![]);
    assert(string_views(done@).push(current@) =~= seq![seq![]]);
    while i < v.len()
        invariant
            v@ == id@,
            i <= v@.len(),
            string_views(done@).push(current@) == split_colon(id@.take(i as int)),
        decreases v.len() - i,
    {
        let ghost prev = split_colon(id@.take(i as int));
        assert(id@.take(i + 1).drop_last() == id@.take(i as int));
        let c = v[i];
        if c == ':' {
            let finished = current;
            done.push(finished);
            current = String::new();
            assert(string_views(done@).push(current@) =~= prev.push(seq![]));
        } else {
            text::push_char(&mut current, c);
            assert(string_views(done@).push(current@) =~= prev.update(prev.len() - 1, prev.last().push(c)));
        }
        i = i + 1;
    }
    assert(id@.take(v@.len() as int) == id@);
    done.push(current);
    done
}

/// Reads a managed instance id back into its kind and parts.
pub fn parse_managed_instance_id(id: &str) -> (r: Result<(ManagedInstanceKind, String, Option<String>), String>)
    ensures
        match parsed_managed_id(id@) {
            Some((kind, first, second)) => r matches Ok((k, f, s)) && k == kind && f@ == first && match s {
                Some(x) => second == Some(x@),
                None => second is None,
            },
            None => r matches Err(m) && m@ == "实例 ID 无效。"@,
        },
{
    let parts = split_colon_exec(id);
    let ghost ps = split_colon(id@);
    if parts.len() == 2 && text::str_eq(parts[0].as_str(), "direct") && parts[1].as_str().unicode_len() > 0 {
        assert(ps[1] == parts@[1]@);
        return Ok((ManagedInstanceKind::DirectEndpoint, parts[1].clone(), None));
    }
    if parts.len() == 3 && text::str_eq(parts[0].as_str(), "canvas") && parts[1].as_str().unicode_len() > 0
        && parts[2].as_str().unicode_len() > 0 {
        assert(ps[1] == parts@[1]@ && ps[2] == parts@[2]@);
        return Ok((ManagedInstanceKind::Canvas, parts[1].clone(), Some(parts[2].clone())));
    }
    proof {
        if ps.len() == 2 {
            assert(ps[0] == parts@[0]@ && ps[1] == parts@[1]@);
        }
        if ps.len() == 3 {
            assert(ps[0] == parts@[0]@ && ps[1] == parts@[1]@ && ps[2] == parts@[2]@);
        }
    }
    Err("实例 ID 无效。".to_owned())
}

pub open spec fn has_colon(s: Seq<char>) -> bool {
    exists|i: int| 0 <= i < s.len() && s[i] == ':'
}

proof fn lemma_split_append(s: Seq<char>, a: Seq<char>)
    requires
        !has_colon(a),
    ensures
        split_colon(s + a) == split_colon(s).update(
            split_colon(s).len() - 1,
            split_colon(s).last() + a,
        ),
    decreases a.len(),
{
    lemma_split_nonempty(s);
    if a.len() == 0 {
        assert(s + a =~= s);
        assert(split_colon(s).last() + a =~= split_colon(s).last());
        assert(split_colon(s).update(split_colon(s).len() - 1, split_colon(s).last()) =~= split_colon(s));
    } else {
        let b = a.drop_last();
        assert(!has_colon(b)) by {
            if has_colon(b) {
                let i = choose|i: int| 0 <= i < b.len() && b[i] == ':';
                assert(a[i] == ':');
            }
        }
        lemma_split_append(s, b);
        assert((s + a).drop_last() =~= s + b);
        assert(a.last() != ':') by {
            assert(a[a.len() - 1] == a.last());
        }
        assert((s + a).last() == a.last());
        let p = split_colon(s);
        assert(p.last() + a =~= (p.last() + b).push(a.last()));
        assert(split_colon(s + a) =~= p.update(p.len() - 1, p.last() + a));
    }
}

proof fn lemma_split_colon_sep(s: Seq<char>)
    ensures
        split_colon(s.push(':')) == split_colon(s).push(seq![]),
{
    assert(s.push(':').drop_last() =~= s);
}

/// Reading back the id of a managed instance gives its kind and parts, when
/// the parts are non-empty and hold no `:`.
pub proof fn law_managed_instance_id_round_trip(kind: ManagedInstanceKind, first: Seq<char>, second: Option<Seq<char>>)
    requires
        first.len() > 0,
        !has_colon(first),
        kind == ManagedInstanceKind::Canvas ==> (second matches Some(s) && s.len() > 0 && !has_colon(s)),
        kind == ManagedInstanceKind::DirectEndpoint ==> second is None,
    ensures
        parsed_managed_id(managed_id_of(kind, first, second)) == Some((kind, first, second)),
{
    reveal_strlit("direct");
    reveal_strlit("canvas");
    let e: Seq<char> = seq![];
    match kind {
        ManagedInstanceKind::DirectEndpoint => {
            let w = "direct"@;
            assert(!has_colon(w));
            lemma_split_append(e, w);
            assert(e + w =~= w);
            lemma_split_colon_sep(w);
            lemma_split_append(w.push(':'), first);
            assert(w + seq![':'] =~= w.push(':'));
            assert(seq![e].update(0, e + w) =~= seq![w]);
            let parts = split_colon(managed_id_of(kind, first, second));
            assert(parts =~= seq![w, first]);
        },
        ManagedInstanceKind::Canvas => {
            let w = "canvas"@;
            let s = second->Some_0;
            assert(!has_colon(w));
            lemma_split_append(e, w);
            assert(e + w =~= w);
            lemma_split_colon_sep(w);
            lemma_split_append(w.push(':'), first);
            let x = w.push(':') + first;
            lemma_split_colon_sep(x);
            lemma_split_append(x.push(':'), s);
            assert(w + seq![':'] =~= w.push(':'));
            assert(w + seq![':'] + first + seq![':'] =~= x.push(':'));
            assert(seq![e].update(0, e + w) =~= seq![w]);
            let parts = split_colon(managed_id_of(kind, first, second));
            assert(parts =~= seq![w, first, s]);
        },
    }
}

} // verus!
