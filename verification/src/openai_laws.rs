//! The token counts that the OpenAI-compatible face reports: where each
//! count of a usage lands in the JSON text of a response or of a stream
//! chunk.
use crate::canonical::{CanonicalResponse, Usage};
use crate::json::{json_escape_char, json_escaped, json_string_literal};
use crate::openai::{chunk_text, event_frames, response_json, usage_json};
use crate::protocol::EventView;
use crate::text::decimal;
use crate::translate::{joined_by, kv, obj};
use vstd::prelude::*;

verus! {

/// An object member written out: the key between double quotes, a colon,
/// then the value.
pub open spec fn member(key: Seq<char>, value: Seq<char>) -> Seq<char> {
    "\""@ + key + "\":"@ + value
}

/// The plain text of a key: lowercase ASCII letters and underscores.
pub open spec fn plain_key(k: Seq<char>) -> bool {
    forall|i: int| 0 <= i < k.len() ==> ('a' <= #[trigger] k[i] && k[i] <= 'z') || k[i] == '_'
}

/// `a + b`, capped at `u64::MAX`.
pub open spec fn capped_total(a: u64, b: u64) -> nat {
    if a + b > u64::MAX {
        u64::MAX as nat
    } else {
        (a + b) as nat
    }
}

/// The cached token count, 0 when unknown.
pub open spec fn cached_or_zero(u: Usage) -> nat {
    match u.cached_input_tokens {
        Some(c) => c as nat,
        None => 0,
    }
}

proof fn lemma_plain_escaped(k: Seq<char>)
    requires
        plain_key(k),
    ensures
        json_escaped(k) == k,
    decreases k.len(),
{
    if k.len() > 0 {
        let c = k.last();
        assert(plain_key(k.drop_last())) by {
            assert forall|i: int| 0 <= i < k.drop_last().len() implies ('a' <= #[trigger] k.drop_last()[i] && k.drop_last()[i] <= 'z') || k.drop_last()[i] == '_' by {
                assert(k.drop_last()[i] == k[i]);
            }
        }
        lemma_plain_escaped(k.drop_last());
        assert(('a' <= k[k.len() - 1] && k[k.len() - 1] <= 'z') || k[k.len() - 1] == '_');
        assert(json_escape_char(c) == seq![c]);
        assert(k.drop_last() + seq![c] =~= k);
    }
}

/// A member whose key is plain text is written with the key as it is.
proof fn lemma_kv_plain(k: Seq<char>, v: Seq<char>)
    requires
        plain_key(k),
    ensures
        kv(k, v) == member(k, v),
{
    lemma_plain_escaped(k);
    reveal(json_string_literal);
    reveal_strlit("\"");
    reveal_strlit("\":");
    reveal_strlit(":");
    assert(seq!['"'] + k + seq!['"'] + ":"@ + v =~= "\""@ + k + "\":"@ + v);
}

proof fn lemma_joined4(a: Seq<char>, b: Seq<char>, c: Seq<char>, d: Seq<char>)
    ensures
        joined_by(seq![a, b, c, d], ","@) == a + ","@ + b + ","@ + c + ","@ + d,
{
    let s = seq![a, b, c, d];
    assert(s.drop_last() =~= seq![a, b, c]);
    assert(seq![a, b, c].drop_last() =~= seq![a, b]);
    assert(seq![a, b].drop_last() =~= seq![a]);
    assert(joined_by(seq![a], ","@) == a);
    assert(joined_by(seq![a, b], ","@) == a + ","@ + b);
    assert(joined_by(seq![a, b, c], ","@) == a + ","@ + b + ","@ + c);
}

proof fn lemma_joined3(a: Seq<char>, b: Seq<char>, c: Seq<char>)
    ensures
        joined_by(seq![a, b, c], ","@) == a + ","@ + b + ","@ + c,
{
    assert(seq![a, b, c].drop_last() =~= seq![a, b]);
    assert(seq![a, b].drop_last() =~= seq![a]);
    assert(joined_by(seq![a], ","@) == a);
    assert(joined_by(seq![a, b], ","@) == a + ","@ + b);
}

/// The usage object of a Chat Completions response, member by member:
/// `completion_tokens` is the output count, `prompt_tokens` the input
/// count, `prompt_tokens_details.cached_tokens` the cached count (0 when
/// unknown), and `total_tokens` the sum of input and output, capped at
/// `u64::MAX`.
pub proof fn law_usage_members(u: Usage)
    ensures
        usage_json(u) == "{"@ + member("completion_tokens"@, decimal(u.output_tokens as nat)) + ","@
            + member("prompt_tokens"@, decimal(u.input_tokens as nat)) + ","@
            + member("prompt_tokens_details"@, "{"@ + member("cached_tokens"@, decimal(cached_or_zero(u))) + "}"@)
            + ","@ + member("total_tokens"@, decimal(capped_total(u.input_tokens, u.output_tokens))) + "}"@,
{
    reveal_strlit("completion_tokens");
    reveal_strlit("prompt_tokens");
    reveal_strlit("prompt_tokens_details");
    reveal_strlit("cached_tokens");
    reveal_strlit("total_tokens");
    let c = crate::openai::decimal_text(crate::openai::cached_count(u));
    let details = obj(seq![kv("cached_tokens"@, c)]);
    lemma_kv_plain("cached_tokens"@, c);
    assert(joined_by(seq![kv("cached_tokens"@, c)], ","@) == kv("cached_tokens"@, c));
    let a = kv("completion_tokens"@, decimal(u.output_tokens as nat));
    let b = kv("prompt_tokens"@, decimal(u.input_tokens as nat));
    let d = kv("prompt_tokens_details"@, details);
    let e = kv("total_tokens"@, decimal(capped_total(u.input_tokens, u.output_tokens)));
    lemma_kv_plain("completion_tokens"@, decimal(u.output_tokens as nat));
    lemma_kv_plain("prompt_tokens"@, decimal(u.input_tokens as nat));
    lemma_kv_plain("prompt_tokens_details"@, details);
    lemma_kv_plain("total_tokens"@, decimal(capped_total(u.input_tokens, u.output_tokens)));
    lemma_joined4(a, b, d, e);
    assert(c == decimal(cached_or_zero(u)));
    assert(crate::openai::decimal_text(crate::openai::sat_sum(u.input_tokens, u.output_tokens)) == decimal(
        capped_total(u.input_tokens, u.output_tokens),
    ));
    assert(usage_json(u) == obj(seq![a, b, d, e]));
}

/// The Chat Completions response for `r` ends with its usage member, whose
/// object reports the usage of `r` as `law_usage_members` lays it out.
pub proof fn law_response_reports_usage(r: CanonicalResponse)
    ensures
        exists|head: Seq<char>|
            #![trigger head + ","@]
            response_json(r) == head + ","@ + member("usage"@, usage_json(r.usage)) + "}"@,
{
    reveal_strlit("usage");
    law_usage_members(r.usage);
    let items = seq![
        kv(
            "choices"@,
            crate::translate::arr(seq![obj(seq![kv("finish_reason"@, crate::translate::q(crate::openai::finish_name(r.finish_reason))), kv("index"@, "0"@), kv("message"@, crate::openai::message_json(r.content@))])]),
        ),
        kv("id"@, crate::translate::q(crate::openai::response_id_text(r))),
        kv("model"@, crate::translate::q(crate::openai::response_model_text(r))),
        kv("object"@, crate::translate::q("chat.completion"@)),
        kv("usage"@, usage_json(r.usage)),
    ];
    assert(response_json(r) == obj(items));
    assert(items.len() == 5);
    lemma_kv_plain("usage"@, usage_json(r.usage));
    let head = "{"@ + joined_by(items.drop_last(), ","@);
    assert(joined_by(items, ","@) == joined_by(items.drop_last(), ","@) + ","@ + items.last());
    assert(response_json(r) =~= head + ","@ + member("usage"@, usage_json(r.usage)) + "}"@);
}

/// The stream chunk written for a usage event carries a usage member whose
/// `completion_tokens` is the output count, `prompt_tokens` the input count
/// and `total_tokens` their sum, capped at `u64::MAX`.
pub proof fn law_stream_usage_chunk(id: Seq<char>, model: Seq<char>, u: Usage)
    ensures
        event_frames(id, model, EventView::Usage { usage: u }).len() == 1,
        exists|head: Seq<char>|
            #![trigger head + ","@]
            event_frames(id, model, EventView::Usage { usage: u })[0] == head + ","@ + member(
                "usage"@,
                "{"@ + member("completion_tokens"@, decimal(u.output_tokens as nat)) + ","@
                    + member("prompt_tokens"@, decimal(u.input_tokens as nat)) + ","@
                    + member("total_tokens"@, decimal(capped_total(u.input_tokens, u.output_tokens))) + "}"@,
            ) + "}"@ + "\n\n"@,
{
    reveal_strlit("usage");
    reveal_strlit("completion_tokens");
    reveal_strlit("prompt_tokens");
    reveal_strlit("total_tokens");
    let a = kv("completion_tokens"@, decimal(u.output_tokens as nat));
    let b = kv("prompt_tokens"@, decimal(u.input_tokens as nat));
    let c = kv("total_tokens"@, decimal(capped_total(u.input_tokens, u.output_tokens)));
    lemma_kv_plain("completion_tokens"@, decimal(u.output_tokens as nat));
    lemma_kv_plain("prompt_tokens"@, decimal(u.input_tokens as nat));
    lemma_kv_plain("total_tokens"@, decimal(capped_total(u.input_tokens, u.output_tokens)));
    lemma_joined3(a, b, c);
    let usage = obj(seq![a, b, c]);
    let items = seq![
        kv("choices"@, crate::translate::arr(seq![obj(seq![kv("delta"@, obj(seq![])), kv("finish_reason"@, "null"@), kv("index"@, "0"@)])])),
        kv("id"@, crate::translate::q(id)),
        kv("model"@, crate::translate::q(model)),
        kv("object"@, crate::translate::q("chat.completion.chunk"@)),
    ] + seq![kv("usage"@, usage)];
    let frame = event_frames(id, model, EventView::Usage { usage: u })[0];
    assert(crate::openai::decimal_text(crate::openai::sat_sum(u.input_tokens, u.output_tokens)) == decimal(
        capped_total(u.input_tokens, u.output_tokens),
    ));
    assert(frame == chunk_text(id, model, obj(seq![]), "null"@, Some(usage)));
    assert(frame == "data: "@ + obj(items) + "\n\n"@);
    assert(items.len() == 5);
    lemma_kv_plain("usage"@, usage);
    let head = "data: "@ + "{"@ + joined_by(items.drop_last(), ","@);
    assert(joined_by(items, ","@) == joined_by(items.drop_last(), ","@) + ","@ + items.last());
    assert(items.last() == kv("usage"@, usage));
    assert(frame =~= head + ","@ + member("usage"@, usage) + "}"@ + "\n\n"@);
}

} // verus!
