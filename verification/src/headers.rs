//! Byte-level validity of outgoing headers.  A computed header whose name
//! or value is not valid for transmission is dropped; the request is never
//! failed on its account.
//!
//! Validity is decided by the `http_types` crate, the same library a host
//! server uses to hold headers.

use vstd::prelude::*;
use crate::carrier::{key_of, lower_code, HeaderCarrier};

verus! {

/// Every character's code is below 128, so the text's bytes are its
/// character codes.
pub open spec fn is_ascii_text(s: Seq<char>) -> bool {
    forall|i: int| 0 <= i < s.len() ==> ((#[trigger] s[i]) as u32) < 128
}

/// Every code of a case-folded key is below 128.
pub open spec fn is_ascii_key(k: Seq<int>) -> bool {
    forall|i: int| 0 <= i < k.len() ==> 0 <= #[trigger] k[i] < 128
}

/// Relies on `http_types::headers::HeaderName::from_string`: it returns
/// `Ok` exactly when the string is ASCII, and the name it returns is the
/// ASCII-lowercase form of the input.
#[verifier::external_body]
fn try_header_name(s: &str) -> (r: Option<String>)
    ensures
        match r {
            Some(n) => is_ascii_text(s@) && n@.len() == s@.len() && forall|i: int|
                0 <= i < s@.len() ==> (#[trigger] n@[i]) as u32 as int == lower_code(
                    s@[i] as u32 as int,
                ),
            None => !is_ascii_text(s@),
        },
{
    http_types::headers::HeaderName::from_string(s.to_string()).ok().map(|n| n.as_str().to_string())
}

/// Relies on `http_types::headers::HeaderValue::from_bytes`: it returns
/// `Ok` exactly when the bytes are ASCII, and stores the input unchanged.
#[verifier::external_body]
fn is_valid_header_value(s: &str) -> (r: bool)
    ensures
        r == is_ascii_text(s@),
{
    http_types::headers::HeaderValue::from_bytes(s.as_bytes().to_vec()).is_ok()
}

/// Folding a code twice folds it once.
proof fn lemma_lower_code_idempotent(x: int)
    ensures
        lower_code(lower_code(x)) == lower_code(x),
{
}

/// The headers of a carrier that are valid for transmission, with each
/// name in its canonical lowercase form.  Every returned pair is a binding
/// of the carrier, and every ASCII binding of the carrier is returned;
/// the rest are dropped.
pub fn validated_headers(carrier: HeaderCarrier) -> (r: Vec<(String, String)>)
    ensures
        forall|l: int|
            0 <= l < r@.len() ==> {
                &&& is_ascii_text(#[trigger] r@[l].0@)
                &&& is_ascii_text(r@[l].1@)
                &&& carrier@.contains_key(key_of(r@[l].0@))
                &&& carrier@[key_of(r@[l].0@)] == r@[l].1@
            },
        forall|k: Seq<int>|
            carrier@.contains_key(k) && #[trigger] is_ascii_key(k) && is_ascii_text(carrier@[k])
                ==> exists|l: int|
                0 <= l < r@.len() && key_of(#[trigger] r@[l].0@) == k && r@[l].1@ == carrier@[k],
{
    let ghost m = carrier@;
    let entries = carrier.into_entries();
    let mut out: Vec<(String, String)> = Vec::new();
    let n = entries.len();
    let mut i: usize = 0;
    while i < n
        invariant
            0 <= i <= n,
            n == entries@.len(),
            forall|j: int|
                0 <= j < entries@.len() ==> m.contains_key(key_of(#[trigger] entries@[j].0@))
                    && m[key_of(entries@[j].0@)] == entries@[j].1@,
            forall|l: int|
                0 <= l < out@.len() ==> {
                    &&& is_ascii_text(#[trigger] out@[l].0@)
                    &&& is_ascii_text(out@[l].1@)
                    &&& m.contains_key(key_of(out@[l].0@))
                    &&& m[key_of(out@[l].0@)] == out@[l].1@
                },
            forall|j: int|
                0 <= j < i && is_ascii_text(#[trigger] entries@[j].0@) && is_ascii_text(
                    entries@[j].1@,
                ) ==> exists|l: int|
                    0 <= l < out@.len() && key_of(#[trigger] out@[l].0@) == key_of(entries@[j].0@)
                        && out@[l].1@ == entries@[j].1@,
        decreases n - i,
    {
        let ghost out0 = out@;
        let ghost mut pushed = false;
        let name = try_header_name(entries[i].0.as_str());
        match name {
            Some(folded) => {
                if is_valid_header_value(entries[i].1.as_str()) {
                    proof {
                        assert forall|j: int| 0 <= j < folded@.len() implies key_of(folded@)[j]
                            == key_of(entries@[i as int].0@)[j] by {
                            lemma_lower_code_idempotent(entries@[i as int].0@[j] as u32 as int);
                        }
                        assert(key_of(folded@) =~= key_of(entries@[i as int].0@));
                        assert forall|j: int| 0 <= j < folded@.len() implies ((
                        #[trigger] folded@[j]) as u32) < 128 by {
                            assert(folded@[j] as u32 as int == lower_code(
                                entries@[i as int].0@[j] as u32 as int,
                            ));
                        }
                    }
                    let value = clone_string(&entries[i].1);
                    out.push((folded, value));
                    proof {
                        pushed = true;
                        let l = out@.len() - 1;
                        assert(out@[l].0@ == folded@);
                        assert(out@[l].1@ == entries@[i as int].1@);
                        assert(is_ascii_text(out@[l].0@));
                        assert(is_ascii_text(out@[l].1@));
                        assert(m.contains_key(key_of(out@[l].0@)));
                        assert(m[key_of(out@[l].0@)] == out@[l].1@);
                        assert forall|x: int|
                            0 <= x < out@.len() implies {
                            &&& is_ascii_text(#[trigger] out@[x].0@)
                            &&& is_ascii_text(out@[x].1@)
                            &&& m.contains_key(key_of(out@[x].0@))
                            &&& m[key_of(out@[x].0@)] == out@[x].1@
                        } by {
                            if x < out@.len() - 1 {
                                assert(out@[x] == out0[x]);
                                assert(is_ascii_text(out0[x].0@));
                            }
                        }
                    }
                }
            },
            None => {},
        }
        proof {
            assert forall|j: int|
                0 <= j < i + 1 && is_ascii_text(#[trigger] entries@[j].0@) && is_ascii_text(
                    entries@[j].1@,
                ) implies exists|l: int|
                0 <= l < out@.len() && key_of(#[trigger] out@[l].0@) == key_of(entries@[j].0@)
                    && out@[l].1@ == entries@[j].1@ by {
                if j == i {
                    let l = out@.len() - 1;
                    assert(pushed);
                    assert(0 <= l < out@.len() && key_of(out@[l].0@) == key_of(entries@[j].0@)
                        && out@[l].1@ == entries@[j].1@);
                } else {
                    let l0 = choose|l0: int|
                        0 <= l0 < out0.len() && key_of(#[trigger] out0[l0].0@) == key_of(
                            entries@[j].0@,
                        ) && out0[l0].1@ == entries@[j].1@;
                    assert(out@[l0] == out0[l0]);
                }
            }
        }
        i = i + 1;
    }
    proof {
        assert forall|k: Seq<int>|
            m.contains_key(k) && #[trigger] is_ascii_key(k) && is_ascii_text(m[k]) implies exists|
            l: int,
        |
            0 <= l < out@.len() && key_of(#[trigger] out@[l].0@) == k && out@[l].1@ == m[k] by {
            let j = choose|j: int|
                0 <= j < entries@.len() && key_of(#[trigger] entries@[j].0@) == k;
            assert forall|x: int| 0 <= x < entries@[j].0@.len() implies ((
            #[trigger] entries@[j].0@[x]) as u32) < 128 by {
                assert(key_of(entries@[j].0@)[x] == lower_code(entries@[j].0@[x] as u32 as int));
                assert(0 <= k[x] < 128);
            }
            assert(is_ascii_text(entries@[j].0@));
            assert(is_ascii_text(entries@[j].1@));
        }
    }
    out
}

/// A fresh owned copy of a string.
fn clone_string(s: &String) -> (r: String)
    ensures
        r@ == s@,
{
    String::from_str(s.as_str())
}

} // verus!
