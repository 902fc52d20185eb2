//! Laws tying the propagation engine's pieces together: what the injected
//! headers of a started request carry, and how extracted identifiers
//! survive the round trip back into outgoing headers.

use vstd::prelude::*;
use crate::context::{context_valid, TraceContextV};
use crate::headers::{is_ascii_key, is_ascii_text};
use crate::hex::{hex_rep, hex_val, lemma_hex_rep_val, lemma_hex_val_rep, lemma_pow16_32};
use crate::propagators::{
    b3_sampled_key, b3_spanid_key, b3_traceid_key, baggage_key, parse_b3_spec,
    parse_traceparent_spec, traceparent_key, traceparent_rep, lemma_traceparent_roundtrip,
    lemma_traceparent_trace_field,
};
use crate::registry::{extract_all, extract_spec, inject_all, inject_spec, writes_spec, Propagator};
use crate::trace::{child_context, parent_of};

verus! {

/// The five header keys of the registered codecs are pairwise distinct.
pub proof fn lemma_distinct_header_keys()
    ensures
        traceparent_key() != b3_traceid_key(),
        traceparent_key() != b3_spanid_key(),
        traceparent_key() != b3_sampled_key(),
        traceparent_key() != baggage_key(),
        b3_traceid_key() != b3_spanid_key(),
        b3_traceid_key() != b3_sampled_key(),
        b3_traceid_key() != baggage_key(),
        b3_spanid_key() != b3_sampled_key(),
        b3_spanid_key() != baggage_key(),
        b3_sampled_key() != baggage_key(),
{
    reveal_strlit("traceparent");
    reveal_strlit("x-b3-traceid");
    reveal_strlit("x-b3-spanid");
    reveal_strlit("x-b3-sampled");
    reveal_strlit("baggage");
    assert(traceparent_key().len() == 11);
    assert(b3_traceid_key().len() == 12);
    assert(b3_spanid_key().len() == 11);
    assert(b3_sampled_key().len() == 12);
    assert(baggage_key().len() == 7);
    assert(traceparent_key()[0] != b3_spanid_key()[0]);
    assert(b3_traceid_key()[5] != b3_sampled_key()[5]);
}

/// When the single-header trace-context codec is registered, injection of
/// a valid context writes a `traceparent` header carrying exactly that
/// context, whatever else is registered around it and whatever the
/// carrier held before.
pub proof fn lemma_inject_writes_traceparent(
    ps: Seq<Propagator>,
    c: TraceContextV,
    m: Map<Seq<int>, Seq<char>>,
)
    requires
        context_valid(c),
        ps.contains(Propagator::W3cTraceContext),
    ensures
        inject_all(ps, c, m).contains_key(traceparent_key()),
        inject_all(ps, c, m)[traceparent_key()] == traceparent_rep(c.trace_id, c.span_id, c.flags),
    decreases ps.len(),
{
    lemma_distinct_header_keys();
    let last = ps.last();
    let rest = ps.drop_last();
    if last == Propagator::W3cTraceContext {
        assert(writes_spec(last, c).contains_key(traceparent_key()));
    } else {
        assert(!writes_spec(last, c).contains_key(traceparent_key()));
        let i = choose|i: int| 0 <= i < ps.len() && ps[i] == Propagator::W3cTraceContext;
        assert(i < ps.len() - 1);
        assert(rest[i] == ps[i]);
        assert(rest.contains(Propagator::W3cTraceContext));
        lemma_inject_writes_traceparent(rest, c, m);
    }
}

/// A request with no recognizable trace headers starts a root span (there
/// is no remote parent), under a context made of exactly the fresh
/// identifiers; with the single-header trace-context codec registered,
/// the outgoing `traceparent` header decodes back to exactly that fresh,
/// internally consistent identifier pair.
pub proof fn lemma_root_span_fresh_ids(
    ps: Seq<Propagator>,
    m: Map<Seq<int>, Seq<char>>,
    fresh_trace_id: u128,
    fresh_span_id: u64,
)
    requires
        !extract_all(ps, m).is_remote,
        fresh_trace_id != 0,
        fresh_span_id != 0,
        ps.contains(Propagator::W3cTraceContext),
    ensures
        ({
            let child = child_context(extract_all(ps, m), fresh_trace_id, fresh_span_id);
            let out = inject_all(ps, child, Map::empty());
            &&& parent_of(extract_all(ps, m)) is None
            &&& child.trace_id == fresh_trace_id
            &&& child.span_id == fresh_span_id
            &&& !child.is_remote
            &&& out.contains_key(traceparent_key())
            &&& parse_traceparent_spec(out[traceparent_key()]) == Some(
                (fresh_trace_id, fresh_span_id, 1u8),
            )
        }),
{
    let child = child_context(extract_all(ps, m), fresh_trace_id, fresh_span_id);
    lemma_inject_writes_traceparent(ps, child, Map::empty());
    lemma_traceparent_roundtrip(fresh_trace_id, fresh_span_id, 1u8);
}

/// For a request carrying only a valid `traceparent` header, the
/// extracted trace id survives unchanged into the `traceparent` header
/// injected for the child context: the trace-id field of the outgoing
/// header is character for character the trace-id field that came in.
pub proof fn lemma_w3c_trace_id_roundtrip(
    m: Map<Seq<int>, Seq<char>>,
    fresh_trace_id: u128,
    fresh_span_id: u64,
)
    requires
        m.contains_key(traceparent_key()),
        parse_traceparent_spec(m[traceparent_key()]) is Some,
        fresh_trace_id != 0,
        fresh_span_id != 0,
    ensures
        ({
            let ps = seq![Propagator::W3cTraceContext];
            let extracted = extract_all(ps, m);
            let child = child_context(extracted, fresh_trace_id, fresh_span_id);
            let out = inject_all(ps, child, Map::empty());
            &&& extracted.is_remote
            &&& child.trace_id == parse_traceparent_spec(m[traceparent_key()])->Some_0.0
            &&& out.contains_key(traceparent_key())
            &&& out[traceparent_key()].subrange(3, 35) == m[traceparent_key()].subrange(3, 35)
        }),
{
    let ps = seq![Propagator::W3cTraceContext];
    assert(ps.last() == Propagator::W3cTraceContext);
    assert(ps.drop_last() =~= Seq::<Propagator>::empty());
    let (t, sp, f) = parse_traceparent_spec(m[traceparent_key()])->Some_0;
    lemma_pow16_32();
    crate::hex::lemma_pow16_increases(2, 16);
    crate::hex::lemma_pow16_increases(16, 32);
    lemma_hex_val_rep(m[traceparent_key()].subrange(3, 35));
    lemma_hex_val_rep(m[traceparent_key()].subrange(36, 52));
    let extracted = extract_all(ps, m);
    assert(extracted == extract_spec(Propagator::W3cTraceContext, m, extract_all(Seq::empty(), m)));
    assert(extracted.trace_id == t && extracted.span_id == sp && extracted.flags == f
        && extracted.is_remote);
    let child = child_context(extracted, fresh_trace_id, fresh_span_id);
    assert(context_valid(child));
    lemma_inject_writes_traceparent(ps, child, Map::empty());
    let rep = traceparent_rep(t, fresh_span_id, f);
    lemma_pow16_32();
    crate::hex::lemma_pow16_increases(2, 16);
    crate::hex::lemma_pow16_increases(16, 32);
    lemma_hex_rep_val(t as nat, 32);
    lemma_hex_rep_val(fresh_span_id as nat, 16);
    lemma_hex_rep_val(f as nat, 2);
    reveal_strlit("00-");
    reveal_strlit("-");
    assert(rep.subrange(3, 35) =~= hex_rep(t as nat, 32));
    lemma_traceparent_trace_field(m[traceparent_key()]);
}

/// For a request carrying only valid legacy identifier headers, the
/// extracted trace id survives unchanged into the legacy trace-id header
/// injected for the child context: the outgoing header equals the
/// incoming one exactly.
pub proof fn lemma_b3_trace_id_roundtrip(
    m: Map<Seq<int>, Seq<char>>,
    fresh_trace_id: u128,
    fresh_span_id: u64,
)
    requires
        parse_b3_spec(m) is Some,
        fresh_trace_id != 0,
        fresh_span_id != 0,
    ensures
        ({
            let ps = seq![Propagator::LegacyMultiHeader];
            let extracted = extract_all(ps, m);
            let child = child_context(extracted, fresh_trace_id, fresh_span_id);
            let out = inject_all(ps, child, Map::empty());
            &&& extracted.is_remote
            &&& out.contains_key(b3_traceid_key())
            &&& out[b3_traceid_key()] == m[b3_traceid_key()]
        }),
{
    lemma_distinct_header_keys();
    let ps = seq![Propagator::LegacyMultiHeader];
    assert(ps.last() == Propagator::LegacyMultiHeader);
    assert(ps.drop_last() =~= Seq::<Propagator>::empty());
    let (t, sp, f) = parse_b3_spec(m)->Some_0;
    lemma_pow16_32();
    lemma_hex_val_rep(m[b3_traceid_key()]);
    lemma_hex_val_rep(m[b3_spanid_key()]);
    let extracted = extract_all(ps, m);
    assert(extracted == extract_spec(
        Propagator::LegacyMultiHeader,
        m,
        extract_all(Seq::empty(), m),
    ));
    let child = child_context(extracted, fresh_trace_id, fresh_span_id);
    assert(context_valid(child));
    let ts = m[b3_traceid_key()];
    assert(child.trace_id == t);
    assert(t as nat == hex_val(ts));
    assert(hex_rep(child.trace_id as nat, 32) == ts);
    assert(inject_all(Seq::<Propagator>::empty(), child, Map::<Seq<int>, Seq<char>>::empty())
        == Map::<Seq<int>, Seq<char>>::empty());
    assert(inject_all(ps, child, Map::empty()) == inject_spec(
        Propagator::LegacyMultiHeader,
        child,
        Map::empty(),
    ));
}

/// The `traceparent` key and any written `traceparent` value are ASCII,
/// so the injected header always passes byte-level validation and is
/// never dropped from the outgoing header list.
pub proof fn lemma_traceparent_survives_validation(c: TraceContextV)
    requires
        context_valid(c),
    ensures
        is_ascii_key(traceparent_key()),
        is_ascii_text(traceparent_rep(c.trace_id, c.span_id, c.flags)),
{
    reveal_strlit("traceparent");
    assert forall|i: int| 0 <= i < traceparent_key().len() implies 0 <= #[trigger] traceparent_key()[i]
        < 128 by {
        assert(traceparent_key()[i] == crate::carrier::lower_code(
            "traceparent"@[i] as u32 as int,
        ));
    }
    lemma_pow16_32();
    crate::hex::lemma_pow16_increases(2, 16);
    crate::hex::lemma_pow16_increases(16, 32);
    lemma_hex_rep_val(c.trace_id as nat, 32);
    lemma_hex_rep_val(c.span_id as nat, 16);
    lemma_hex_rep_val(c.flags as nat, 2);
    reveal_strlit("00-");
    reveal_strlit("-");
    let rep = traceparent_rep(c.trace_id, c.span_id, c.flags);
    assert forall|i: int| 0 <= i < rep.len() implies ((#[trigger] rep[i]) as u32) < 128 by {
        if 3 <= i < 35 {
            assert(rep[i] == hex_rep(c.trace_id as nat, 32)[i - 3]);
            lemma_hex_digit_ascii(hex_rep(c.trace_id as nat, 32)[i - 3]);
        } else if 36 <= i < 52 {
            assert(rep[i] == hex_rep(c.span_id as nat, 16)[i - 36]);
            lemma_hex_digit_ascii(hex_rep(c.span_id as nat, 16)[i - 36]);
        } else if 53 <= i < 55 {
            assert(rep[i] == hex_rep(c.flags as nat, 2)[i - 53]);
            lemma_hex_digit_ascii(hex_rep(c.flags as nat, 2)[i - 53]);
        }
    }
}

/// A hexadecimal digit is an ASCII character.
proof fn lemma_hex_digit_ascii(c: char)
    requires
        crate::hex::is_hex_digit(c),
    ensures
        (c as u32) < 128,
{
}

} // verus!
