//! The propagator registry: an ordered list of codecs combined into one
//! composite propagator.
//!
//! Both directions iterate the list in registration order.  On extraction a
//! later codec that parses successfully overwrites the context fields it
//! understands; on injection a later codec may overwrite header keys set by
//! an earlier one.  This last-registered-wins merge is deliberate: operators
//! choose format precedence by ordering.

use vstd::prelude::*;
use crate::carrier::HeaderCarrier;
use crate::context::{context_valid, empty_context, pairs_view, TraceContext, TraceContextV};
use crate::hex::hex_rep;
use crate::propagators::{
    b3_flags_spec, b3_sampled_key, b3_spanid_key, b3_traceid_key, baggage_key, baggage_rep,
    parse_b3, parse_b3_spec, parse_baggage, parse_baggage_spec, parse_traceparent,
    parse_traceparent_spec, render_b3, render_baggage, render_traceparent, traceparent_key,
    traceparent_rep,
};

verus! {

/// One registered codec.
#[derive(Clone, Copy, PartialEq, Eq, Structural, Debug)]
pub enum Propagator {
    /// The legacy multi-header correlation format (`x-b3-*`).
    LegacyMultiHeader,
    /// The generic baggage key-value format (`baggage`).
    Baggage,
    /// The single-header trace-context format (`traceparent`).
    W3cTraceContext,
}

/// What one codec's extraction makes of a carrier, given the context the
/// earlier codecs produced: a codec that parses successfully overwrites the
/// fields it understands, any other leaves the context unchanged.
pub open spec fn extract_spec(p: Propagator, m: Map<Seq<int>, Seq<char>>, c: TraceContextV) -> TraceContextV {
    match p {
        Propagator::W3cTraceContext => {
            if m.contains_key(traceparent_key()) && parse_traceparent_spec(m[traceparent_key()])
                is Some {
                let (t, sp, f) = parse_traceparent_spec(m[traceparent_key()])->Some_0;
                TraceContextV {
                    trace_id: t,
                    span_id: sp,
                    flags: f,
                    is_remote: true,
                    baggage: c.baggage,
                }
            } else {
                c
            }
        },
        Propagator::LegacyMultiHeader => {
            if parse_b3_spec(m) is Some {
                let (t, sp, f) = parse_b3_spec(m)->Some_0;
                TraceContextV {
                    trace_id: t,
                    span_id: sp,
                    flags: f,
                    is_remote: true,
                    baggage: c.baggage,
                }
            } else {
                c
            }
        },
        Propagator::Baggage => {
            if m.contains_key(baggage_key()) && parse_baggage_spec(m[baggage_key()]).len() > 0 {
                TraceContextV {
                    trace_id: c.trace_id,
                    span_id: c.span_id,
                    flags: c.flags,
                    is_remote: c.is_remote,
                    baggage: parse_baggage_spec(m[baggage_key()]),
                }
            } else {
                c
            }
        },
    }
}

/// The context a whole registration list extracts from a carrier, starting
/// from the empty context.
pub open spec fn extract_all(ps: Seq<Propagator>, m: Map<Seq<int>, Seq<char>>) -> TraceContextV
    decreases ps.len(),
{
    if ps.len() == 0 {
        empty_context()
    } else {
        extract_spec(ps.last(), m, extract_all(ps.drop_last(), m))
    }
}

/// The headers one codec writes for a context.  A codec given a context
/// without valid identifiers writes nothing; the baggage codec writes only
/// when there are entries to carry.
pub open spec fn writes_spec(p: Propagator, c: TraceContextV) -> Map<Seq<int>, Seq<char>> {
    match p {
        Propagator::W3cTraceContext => {
            if context_valid(c) {
                Map::empty().insert(traceparent_key(), traceparent_rep(c.trace_id, c.span_id, c.flags))
            } else {
                Map::empty()
            }
        },
        Propagator::LegacyMultiHeader => {
            if context_valid(c) {
                Map::empty().insert(b3_traceid_key(), hex_rep(c.trace_id as nat, 32)).insert(
                    b3_spanid_key(),
                    hex_rep(c.span_id as nat, 16),
                ).insert(
                    b3_sampled_key(),
                    if c.flags % 2 == 1 {
                        "1"@
                    } else {
                        "0"@
                    },
                )
            } else {
                Map::empty()
            }
        },
        Propagator::Baggage => {
            if c.baggage.len() > 0 {
                Map::empty().insert(baggage_key(), baggage_rep(c.baggage))
            } else {
                Map::empty()
            }
        },
    }
}

/// The carrier after one codec's injection: its writes laid over the
/// carrier, the codec's own value winning on a key collision.
pub open spec fn inject_spec(p: Propagator, c: TraceContextV, m: Map<Seq<int>, Seq<char>>) -> Map<
    Seq<int>,
    Seq<char>,
> {
    m.union_prefer_right(writes_spec(p, c))
}

/// The carrier after a whole registration list's injection, in order.
pub open spec fn inject_all(ps: Seq<Propagator>, c: TraceContextV, m: Map<Seq<int>, Seq<char>>) -> Map<
    Seq<int>,
    Seq<char>,
>
    decreases ps.len(),
{
    if ps.len() == 0 {
        m
    } else {
        inject_spec(ps.last(), c, inject_all(ps.drop_last(), c, m))
    }
}

/// Runs one codec's extraction against a carrier.
fn extract_one(p: Propagator, carrier: &HeaderCarrier, c: TraceContext) -> (r: TraceContext)
    ensures
        r@ == extract_spec(p, carrier@, c@),
{
    match p {
        Propagator::W3cTraceContext => {
            match carrier.get("traceparent") {
                Some(v) => {
                    match parse_traceparent(v.as_str()) {
                        Some((t, sp, f)) => {
                            TraceContext {
                                trace_id: t,
                                span_id: sp,
                                flags: f,
                                is_remote: true,
                                baggage: c.baggage,
                            }
                        },
                        None => c,
                    }
                },
                None => c,
            }
        },
        Propagator::LegacyMultiHeader => {
            match parse_b3(carrier) {
                Some((t, sp, f)) => {
                    TraceContext {
                        trace_id: t,
                        span_id: sp,
                        flags: f,
                        is_remote: true,
                        baggage: c.baggage,
                    }
                },
                None => c,
            }
        },
        Propagator::Baggage => {
            match carrier.get("baggage") {
                Some(v) => {
                    let parsed = parse_baggage(v.as_str());
                    if parsed.len() > 0 {
                        TraceContext {
                            trace_id: c.trace_id,
                            span_id: c.span_id,
                            flags: c.flags,
                            is_remote: c.is_remote,
                            baggage: parsed,
                        }
                    } else {
                        c
                    }
                },
                None => c,
            }
        },
    }
}

/// Runs one codec's injection against a carrier.
fn inject_one(p: Propagator, c: &TraceContext, carrier: &mut HeaderCarrier)
    ensures
        final(carrier)@ == inject_spec(p, c@, old(carrier)@),
{
    match p {
        Propagator::W3cTraceContext => {
            if c.trace_id != 0 && c.span_id != 0 {
                let value = render_traceparent(c.trace_id, c.span_id, c.flags);
                carrier.set(String::from_str("traceparent"), value);
            }
            proof {
                assert(carrier@ =~= inject_spec(p, c@, old(carrier)@));
            }
        },
        Propagator::LegacyMultiHeader => {
            if c.trace_id != 0 && c.span_id != 0 {
                render_b3(c.trace_id, c.span_id, c.flags, carrier);
            }
            proof {
                assert(carrier@ =~= inject_spec(p, c@, old(carrier)@));
            }
        },
        Propagator::Baggage => {
            if c.baggage.len() > 0 {
                let value = render_baggage(&c.baggage);
                carrier.set(String::from_str("baggage"), value);
            }
            proof {
                assert(carrier@ =~= inject_spec(p, c@, old(carrier)@));
            }
        },
    }
}

/// The ordered set of registered codecs, read-only after initialization.
#[derive(Debug)]
pub struct PropagatorRegistry {
    entries: Vec<Propagator>,
}

impl View for PropagatorRegistry {
    type V = Seq<Propagator>;

    closed spec fn view(&self) -> Seq<Propagator> {
        self.entries@
    }
}

impl PropagatorRegistry {
    /// A registry with no codecs.
    pub fn new() -> (r: Self)
        ensures
            r@ == Seq::<Propagator>::empty(),
    {
        let r = PropagatorRegistry { entries: Vec::new() };
        proof {
            assert(r@ =~= Seq::<Propagator>::empty());
        }
        r
    }

    /// Registers one more codec, after all registered so far.
    pub fn register(&mut self, p: Propagator)
        ensures
            final(self)@ == old(self)@.push(p),
    {
        self.entries.push(p);
    }

    /// The typical blend, in registration order: the legacy multi-header
    /// format, then baggage, then the single-header trace-context format.
    pub fn with_defaults() -> (r: Self)
        ensures
            r@ == seq![
                Propagator::LegacyMultiHeader,
                Propagator::Baggage,
                Propagator::W3cTraceContext,
            ],
    {
        let mut r = PropagatorRegistry::new();
        r.register(Propagator::LegacyMultiHeader);
        r.register(Propagator::Baggage);
        r.register(Propagator::W3cTraceContext);
        proof {
            assert(r@ =~= seq![
                Propagator::LegacyMultiHeader,
                Propagator::Baggage,
                Propagator::W3cTraceContext,
            ]);
        }
        r
    }

    /// Runs every codec's extraction, in registration order, starting from
    /// the empty context; a codec that parses successfully overwrites the
    /// fields it understands.
    pub fn extract(&self, carrier: &HeaderCarrier) -> (r: TraceContext)
        ensures
            r@ == extract_all(self@, carrier@),
    {
        let mut c = TraceContext::empty();
        let n = self.entries.len();
        let mut i: usize = 0;
        proof {
            assert(self@.subrange(0, 0) =~= Seq::<Propagator>::empty());
        }
        while i < n
            invariant
                0 <= i <= n,
                n == self@.len(),
                self@ == self.entries@,
                c@ == extract_all(self@.subrange(0, i as int), carrier@),
            decreases n - i,
        {
            c = extract_one(self.entries[i], carrier, c);
            proof {
                let cur = self@.subrange(0, i + 1);
                assert(cur.drop_last() =~= self@.subrange(0, i as int));
                assert(cur.last() == self@[i as int]);
            }
            i = i + 1;
        }
        proof {
            assert(self@.subrange(0, n as int) =~= self@);
        }
        c
    }

    /// Runs every codec's injection, in registration order; a later codec's
    /// value wins on a key collision.
    pub fn inject(&self, c: &TraceContext, carrier: &mut HeaderCarrier)
        ensures
            final(carrier)@ == inject_all(self@, c@, old(carrier)@),
    {
        let n = self.entries.len();
        let mut i: usize = 0;
        proof {
            assert(self@.subrange(0, 0) =~= Seq::<Propagator>::empty());
        }
        while i < n
            invariant
                0 <= i <= n,
                n == self@.len(),
                self@ == self.entries@,
                carrier@ == inject_all(self@.subrange(0, i as int), c@, old(carrier)@),
            decreases n - i,
        {
            inject_one(self.entries[i], c, carrier);
            proof {
                let cur = self@.subrange(0, i + 1);
                assert(cur.drop_last() =~= self@.subrange(0, i as int));
                assert(cur.last() == self@[i as int]);
            }
            i = i + 1;
        }
        proof {
            assert(self@.subrange(0, n as int) =~= self@);
        }
    }
}

/// When two codecs registered in order both write a header key, the
/// injected carrier holds the later one's value for it: the last
/// registered codec wins, whatever the context and whatever the carrier
/// held before.
pub proof fn lemma_last_registered_wins(
    a: Propagator,
    b: Propagator,
    c: TraceContextV,
    m: Map<Seq<int>, Seq<char>>,
    k: Seq<int>,
)
    requires
        writes_spec(a, c).contains_key(k),
        writes_spec(b, c).contains_key(k),
    ensures
        inject_all(seq![a, b], c, m).contains_key(k),
        inject_all(seq![a, b], c, m)[k] == writes_spec(b, c)[k],
{
    let s = seq![a, b];
    assert(s.drop_last() =~= seq![a]);
    assert(seq![a].drop_last() =~= Seq::<Propagator>::empty());
    assert(inject_all(Seq::<Propagator>::empty(), c, m) == m);
    assert(seq![a].last() == a);
    assert(s.last() == b);
    assert(inject_all(seq![a], c, m) == inject_spec(a, c, m));
    assert(inject_all(s, c, m) == inject_spec(b, c, inject_spec(a, c, m)));
}

} // verus!
