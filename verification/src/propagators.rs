//! The three header conventions that trace context is read from and written
//! to: a modern single-header trace-context format (`traceparent`), a legacy
//! multi-header correlation format (`x-b3-*`), and a generic baggage
//! key-value format (`baggage`).
//!
//! A malformed header is never an error: a codec that finds nothing it
//! recognizes leaves the context unchanged.

use vstd::prelude::*;
use crate::carrier::{key_of, HeaderCarrier};
use crate::context::pairs_view;
use crate::hex::{
    hex_rep, hex_str, hex_val, is_hex_seq, lemma_hex_rep_val, lemma_hex_val_rep, lemma_pow16_32,
    parse_hex, pow16,
};

verus! {

/// The case-folded key of the `traceparent` header.
pub open spec fn traceparent_key() -> Seq<int> {
    key_of("traceparent"@)
}

/// The case-folded key of the legacy trace-id header.
pub open spec fn b3_traceid_key() -> Seq<int> {
    key_of("x-b3-traceid"@)
}

/// The case-folded key of the legacy span-id header.
pub open spec fn b3_spanid_key() -> Seq<int> {
    key_of("x-b3-spanid"@)
}

/// The case-folded key of the legacy sampling header.
pub open spec fn b3_sampled_key() -> Seq<int> {
    key_of("x-b3-sampled"@)
}

/// The case-folded key of the baggage header.
pub open spec fn baggage_key() -> Seq<int> {
    key_of("baggage"@)
}

// ------------------------------------------------------------------
// The single-header trace-context format:
// `00-<32 hex trace id>-<16 hex span id>-<2 hex flags>`.
// ------------------------------------------------------------------

/// What a `traceparent` value denotes: the trace id, span id and flags, or
/// nothing when the value is not a version-zero header of exactly the
/// required shape with nonzero identifiers.
pub open spec fn parse_traceparent_spec(s: Seq<char>) -> Option<(u128, u64, u8)> {
    if s.len() == 55 && s[0] == '0' && s[1] == '0' && s[2] == '-' && s[35] == '-' && s[52] == '-'
        && is_hex_seq(s.subrange(3, 35)) && is_hex_seq(s.subrange(36, 52)) && is_hex_seq(
        s.subrange(53, 55),
    ) && hex_val(s.subrange(3, 35)) != 0 && hex_val(s.subrange(36, 52)) != 0 {
        Some(
            (
                hex_val(s.subrange(3, 35)) as u128,
                hex_val(s.subrange(36, 52)) as u64,
                hex_val(s.subrange(53, 55)) as u8,
            ),
        )
    } else {
        None
    }
}

/// The `traceparent` value written for a context.
pub open spec fn traceparent_rep(trace_id: u128, span_id: u64, flags: u8) -> Seq<char> {
    "00-"@ + hex_rep(trace_id as nat, 32) + "-"@ + hex_rep(span_id as nat, 16) + "-"@ + hex_rep(
        flags as nat,
        2,
    )
}

/// Decodes a `traceparent` value.
pub fn parse_traceparent(s: &str) -> (r: Option<(u128, u64, u8)>)
    ensures
        r == parse_traceparent_spec(s@),
{
    if s.unicode_len() != 55 {
        return None;
    }
    if !(s.get_char(0) == '0' && s.get_char(1) == '0' && s.get_char(2) == '-' && s.get_char(35)
        == '-' && s.get_char(52) == '-') {
        return None;
    }
    let tid_s = s.substring_char(3, 35);
    let t = match parse_hex(tid_s, 32) {
        Some(v) => v,
        None => {
            return None;
        },
    };
    let sid_s = s.substring_char(36, 52);
    let sp = match parse_hex(sid_s, 16) {
        Some(v) => v,
        None => {
            return None;
        },
    };
    let fl_s = s.substring_char(53, 55);
    let fl = match parse_hex(fl_s, 2) {
        Some(v) => v,
        None => {
            return None;
        },
    };
    if t == 0 || sp == 0 {
        return None;
    }
    proof {
        lemma_pow16_32();
        lemma_hex_val_rep(sid_s@);
        lemma_hex_val_rep(fl_s@);
        crate::hex::lemma_pow16_increases(2, 16);
    }
    Some((t, sp as u64, fl as u8))
}

/// Writes the `traceparent` value for a context.
pub fn render_traceparent(trace_id: u128, span_id: u64, flags: u8) -> (r: String)
    ensures
        r@ == traceparent_rep(trace_id, span_id, flags),
{
    let mut r = String::from_str("00-");
    let tid = hex_str(trace_id, 32);
    r.append(tid.as_str());
    r.append("-");
    let sid = hex_str(span_id as u128, 16);
    r.append(sid.as_str());
    r.append("-");
    let fl = hex_str(flags as u128, 2);
    r.append(fl.as_str());
    proof {
        assert(r@ =~= traceparent_rep(trace_id, span_id, flags));
    }
    r
}

/// Writing a context and reading the result recovers the context's
/// identifiers and flags exactly.
pub proof fn lemma_traceparent_roundtrip(trace_id: u128, span_id: u64, flags: u8)
    requires
        trace_id != 0,
        span_id != 0,
    ensures
        parse_traceparent_spec(traceparent_rep(trace_id, span_id, flags)) == Some(
            (trace_id, span_id, flags),
        ),
{
    lemma_pow16_32();
    crate::hex::lemma_pow16_increases(2, 16);
    crate::hex::lemma_pow16_increases(16, 32);
    lemma_hex_rep_val(trace_id as nat, 32);
    lemma_hex_rep_val(span_id as nat, 16);
    lemma_hex_rep_val(flags as nat, 2);
    reveal_strlit("00-");
    reveal_strlit("-");
    let s = traceparent_rep(trace_id, span_id, flags);
    assert(s.len() == 55);
    assert(s.subrange(3, 35) =~= hex_rep(trace_id as nat, 32));
    assert(s.subrange(36, 52) =~= hex_rep(span_id as nat, 16));
    assert(s.subrange(53, 55) =~= hex_rep(flags as nat, 2));
    assert(s[0] == '0');
    assert(s[1] == '0');
    assert(s[2] == '-');
    assert(s[35] == '-');
    assert(s[52] == '-');
}

/// The trace-id field of a well-formed `traceparent` value re-encodes to
/// the very characters it was read from.
pub proof fn lemma_traceparent_trace_field(s: Seq<char>)
    requires
        parse_traceparent_spec(s) is Some,
    ensures
        hex_rep(parse_traceparent_spec(s)->Some_0.0 as nat, 32) == s.subrange(3, 35),
{
    lemma_pow16_32();
    lemma_hex_val_rep(s.subrange(3, 35));
}

// ------------------------------------------------------------------
// The legacy multi-header correlation format: `x-b3-traceid` (32 hex),
// `x-b3-spanid` (16 hex) and the optional `x-b3-sampled` (`1` or `0`).
// ------------------------------------------------------------------

/// The sampling flags the legacy headers denote: one exactly when an
/// `x-b3-sampled` header holds the single character `1`.
pub open spec fn b3_flags_spec(m: Map<Seq<int>, Seq<char>>) -> u8 {
    if m.contains_key(b3_sampled_key()) && m[b3_sampled_key()] == "1"@ {
        1u8
    } else {
        0u8
    }
}

/// What the legacy headers of a carrier denote: trace id, span id and
/// flags, or nothing when either identifier header is absent, malformed
/// or zero.
pub open spec fn parse_b3_spec(m: Map<Seq<int>, Seq<char>>) -> Option<(u128, u64, u8)> {
    if m.contains_key(b3_traceid_key()) && m.contains_key(b3_spanid_key()) {
        let ts = m[b3_traceid_key()];
        let ss = m[b3_spanid_key()];
        if ts.len() == 32 && is_hex_seq(ts) && hex_val(ts) != 0 && ss.len() == 16 && is_hex_seq(ss)
            && hex_val(ss) != 0 {
            Some((hex_val(ts) as u128, hex_val(ss) as u64, b3_flags_spec(m)))
        } else {
            None
        }
    } else {
        None
    }
}

/// Reads the legacy headers from a carrier.
pub fn parse_b3(carrier: &HeaderCarrier) -> (r: Option<(u128, u64, u8)>)
    ensures
        r == parse_b3_spec(carrier@),
{
    let ts = match carrier.get("x-b3-traceid") {
        Some(v) => v,
        None => {
            return None;
        },
    };
    let ss = match carrier.get("x-b3-spanid") {
        Some(v) => v,
        None => {
            return None;
        },
    };
    let t = match parse_hex(ts.as_str(), 32) {
        Some(v) => v,
        None => {
            return None;
        },
    };
    let sp = match parse_hex(ss.as_str(), 16) {
        Some(v) => v,
        None => {
            return None;
        },
    };
    if t == 0 || sp == 0 {
        return None;
    }
    let flags: u8 = match carrier.get("x-b3-sampled") {
        Some(v) => {
            let one = String::from_str("1");
            if v.eq(&one) {
                1
            } else {
                0
            }
        },
        None => 0,
    };
    proof {
        lemma_pow16_32();
        lemma_hex_val_rep(ss@);
    }
    Some((t, sp as u64, flags))
}

/// Writes the legacy headers for a context: both identifiers and the
/// sampling flag derived from the low bit of the flags.
pub fn render_b3(trace_id: u128, span_id: u64, flags: u8, carrier: &mut HeaderCarrier)
    ensures
        final(carrier)@ == old(carrier)@.insert(b3_traceid_key(), hex_rep(trace_id as nat, 32))
            .insert(b3_spanid_key(), hex_rep(span_id as nat, 16)).insert(
            b3_sampled_key(),
            if flags % 2 == 1 {
                "1"@
            } else {
                "0"@
            },
        ),
{
    let tid = hex_str(trace_id, 32);
    carrier.set(String::from_str("x-b3-traceid"), tid);
    let sid = hex_str(span_id as u128, 16);
    carrier.set(String::from_str("x-b3-spanid"), sid);
    let sampled = if flags % 2 == 1 {
        String::from_str("1")
    } else {
        String::from_str("0")
    };
    carrier.set(String::from_str("x-b3-sampled"), sampled);
}

// ------------------------------------------------------------------
// The baggage key-value format: `baggage: k1=v1,k2=v2`.  Entries without
// an `=` or with an empty key are skipped; keys and values are taken
// verbatim.
// ------------------------------------------------------------------

/// The first position of a character in a sequence, or `-1`.
pub open spec fn find_index(s: Seq<char>, c: char) -> int
    decreases s.len(),
{
    if s.len() == 0 {
        -1
    } else if s[0] == c {
        0
    } else {
        let r = find_index(s.drop_first(), c);
        if r < 0 {
            -1
        } else {
            r + 1
        }
    }
}

/// `find_index` yields the first position of the character, or `-1` when
/// the character does not occur.
pub proof fn lemma_find_index(s: Seq<char>, c: char)
    ensures
        -1 <= find_index(s, c) < s.len(),
        find_index(s, c) >= 0 ==> s[find_index(s, c)] == c && forall|j: int|
            0 <= j < find_index(s, c) ==> s[j] != c,
        find_index(s, c) == -1 ==> forall|j: int| 0 <= j < s.len() ==> s[j] != c,
    decreases s.len(),
{
    if s.len() > 0 && s[0] != c {
        let t = s.drop_first();
        lemma_find_index(t, c);
        let r = find_index(s, c);
        if r >= 0 {
            assert(t[r - 1] == s[r]);
            assert forall|j: int| 0 <= j < r implies s[j] != c by {
                if j > 0 {
                    assert(t[j - 1] == s[j]);
                    assert(t[j - 1] != c);
                }
            }
        } else {
            assert forall|j: int| 0 <= j < s.len() implies s[j] != c by {
                if j > 0 {
                    assert(t[j - 1] == s[j]);
                    assert(t[j - 1] != c);
                }
            }
        }
    }
}

/// The entries denoted by one comma-separated baggage segment: the pair
/// around the first `=`, or nothing when there is no `=` or the key would
/// be empty.
pub open spec fn entry_opt(s: Seq<char>) -> Seq<(Seq<char>, Seq<char>)> {
    let j = find_index(s, '=');
    if j <= 0 {
        Seq::empty()
    } else {
        seq![(s.subrange(0, j), s.subrange(j + 1, s.len() as int))]
    }
}

/// The entries a baggage value denotes: one per comma-separated segment
/// that has an `=` after a nonempty key.
pub open spec fn parse_baggage_spec(s: Seq<char>) -> Seq<(Seq<char>, Seq<char>)>
    decreases s.len(),
    via parse_baggage_spec_dec
{
    let i = find_index(s, ',');
    if i < 0 {
        entry_opt(s)
    } else {
        entry_opt(s.subrange(0, i)) + parse_baggage_spec(s.subrange(i + 1, s.len() as int))
    }
}

#[via_fn]
proof fn parse_baggage_spec_dec(s: Seq<char>) {
    lemma_find_index(s, ',');
}

/// The first position of a character, scanning left to right.
fn find_char(s: &str, c: char) -> (r: Option<usize>)
    ensures
        match r {
            Some(i) => find_index(s@, c) == i,
            None => find_index(s@, c) == -1,
        },
{
    proof {
        lemma_find_index(s@, c);
    }
    let n = s.unicode_len();
    let mut i: usize = 0;
    while i < n
        invariant
            0 <= i <= n,
            n == s@.len(),
            forall|j: int| 0 <= j < i ==> s@[j] != c,
        decreases n - i,
    {
        if s.get_char(i) == c {
            proof {
                lemma_find_index(s@, c);
            }
            return Some(i);
        }
        i = i + 1;
    }
    None
}

/// Appends the entry of one baggage segment, if the segment has one.
fn push_entry(v: &mut Vec<(String, String)>, s: &str)
    ensures
        pairs_view(final(v)@) == pairs_view(old(v)@) + entry_opt(s@),
{
    let n = s.unicode_len();
    proof {
        lemma_find_index(s@, '=');
    }
    match find_char(s, '=') {
        Some(j) => {
            if j > 0 {
                let key = String::from_str(s.substring_char(0, j));
                let value = String::from_str(s.substring_char(j + 1, n));
                v.push((key, value));
                proof {
                    assert(pairs_view(v@) =~= pairs_view(old(v)@) + entry_opt(s@));
                }
            } else {
                proof {
                    assert(pairs_view(v@) =~= pairs_view(old(v)@) + entry_opt(s@));
                }
            }
        },
        None => {
            proof {
                assert(pairs_view(v@) =~= pairs_view(old(v)@) + entry_opt(s@));
            }
        },
    }
}

/// Decodes a baggage value into its entries.
pub fn parse_baggage(s: &str) -> (r: Vec<(String, String)>)
    ensures
        pairs_view(r@) == parse_baggage_spec(s@),
    decreases s@.len(),
{
    let n = s.unicode_len();
    proof {
        lemma_find_index(s@, ',');
    }
    match find_char(s, ',') {
        None => {
            let mut v: Vec<(String, String)> = Vec::new();
            push_entry(&mut v, s);
            proof {
                assert(pairs_view(v@) =~= parse_baggage_spec(s@));
            }
            v
        },
        Some(i) => {
            let head = s.substring_char(0, i);
            let tail = s.substring_char(i + 1, n);
            let mut v: Vec<(String, String)> = Vec::new();
            push_entry(&mut v, head);
            let mut rest = parse_baggage(tail);
            v.append(&mut rest);
            proof {
                assert(pairs_view(v@) =~= parse_baggage_spec(s@));
            }
            v
        },
    }
}

/// The baggage value written for a list of entries: `k=v` segments joined
/// by commas.
pub open spec fn baggage_rep(b: Seq<(Seq<char>, Seq<char>)>) -> Seq<char>
    decreases b.len(),
{
    if b.len() == 0 {
        Seq::empty()
    } else if b.len() == 1 {
        b[0].0 + "="@ + b[0].1
    } else {
        baggage_rep(b.drop_last()) + ","@ + b.last().0 + "="@ + b.last().1
    }
}

/// Writes the baggage value for a list of entries.
pub fn render_baggage(b: &Vec<(String, String)>) -> (r: String)
    ensures
        r@ == baggage_rep(pairs_view(b@)),
{
    let mut r = String::new();
    let n = b.len();
    let mut i: usize = 0;
    while i < n
        invariant
            0 <= i <= n,
            n == b@.len(),
            r@ == baggage_rep(pairs_view(b@).subrange(0, i as int)),
        decreases n - i,
    {
        if i > 0 {
            r.append(",");
        }
        r.append(b[i].0.as_str());
        r.append("=");
        r.append(b[i].1.as_str());
        proof {
            let pv = pairs_view(b@);
            let cur = pv.subrange(0, i + 1);
            assert(cur.drop_last() =~= pv.subrange(0, i as int));
            assert(cur.last() == pv[i as int]);
            if i == 0 {
                assert(r@ =~= baggage_rep(cur));
            } else {
                assert(r@ =~= baggage_rep(cur));
            }
        }
        i = i + 1;
    }
    proof {
        assert(pairs_view(b@).subrange(0, n as int) =~= pairs_view(b@));
    }
    r
}

} // verus!
