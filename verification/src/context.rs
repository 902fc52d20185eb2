//! The trace context: the identifying tuple that links spans across process
//! boundaries, together with its baggage entries.

use vstd::prelude::*;

verus! {

/// The mathematical value of a [`TraceContext`].
#[verifier::ext_equal]
pub ghost struct TraceContextV {
    pub trace_id: u128,
    pub span_id: u64,
    pub flags: u8,
    pub is_remote: bool,
    pub baggage: Seq<(Seq<char>, Seq<char>)>,
}

/// The value of a list of owned string pairs.
pub open spec fn pairs_view(s: Seq<(String, String)>) -> Seq<(Seq<char>, Seq<char>)> {
    s.map_values(|p: (String, String)| (p.0@, p.1@))
}

/// The identifying tuple (trace id, span id, flags, baggage) of one traced
/// request, together with whether it was received from a remote peer.
/// A context is derived, never mutated, when a child span starts.
pub struct TraceContext {
    pub trace_id: u128,
    pub span_id: u64,
    pub flags: u8,
    pub is_remote: bool,
    pub baggage: Vec<(String, String)>,
}

impl View for TraceContext {
    type V = TraceContextV;

    open spec fn view(&self) -> TraceContextV {
        TraceContextV {
            trace_id: self.trace_id,
            span_id: self.span_id,
            flags: self.flags,
            is_remote: self.is_remote,
            baggage: pairs_view(self.baggage@),
        }
    }
}

/// The empty context: no identifiers, no baggage, not remote.
pub open spec fn empty_context() -> TraceContextV {
    TraceContextV {
        trace_id: 0,
        span_id: 0,
        flags: 0,
        is_remote: false,
        baggage: Seq::empty(),
    }
}

/// A context identifies a span only when both identifiers are nonzero.
pub open spec fn context_valid(c: TraceContextV) -> bool {
    c.trace_id != 0 && c.span_id != 0
}

impl TraceContext {
    /// The empty context.
    pub fn empty() -> (c: Self)
        ensures
            c@ == empty_context(),
    {
        let c = TraceContext {
            trace_id: 0,
            span_id: 0,
            flags: 0,
            is_remote: false,
            baggage: Vec::new(),
        };
        proof {
            assert(c@.baggage =~= empty_context().baggage);
        }
        c
    }
}

} // verus!
