//! The header carrier: a case-insensitive string-keyed mapping used to read
//! and write HTTP headers without depending on a concrete request or
//! response type.
//!
//! A carrier is modelled as a `Map` from the *case-folded key* of a header
//! name (the sequence of character codes with ASCII uppercase letters folded
//! to lowercase) to the header value.

use vstd::prelude::*;

verus! {

/// The case-folded code of one character: codes of ASCII uppercase letters
/// map to the code of their lowercase counterpart, every other character to
/// its own code.
pub open spec fn lower_code(x: int) -> int {
    if 65 <= x <= 90 {
        x + 32
    } else {
        x
    }
}

/// The case-insensitive lookup key of a header name: its sequence of
/// case-folded character codes.
pub open spec fn key_of(s: Seq<char>) -> Seq<int> {
    s.map_values(|c: char| lower_code(c as u32 as int))
}

/// Compares two header names, ignoring ASCII case.
pub fn eq_ignore_case(a: &str, b: &str) -> (r: bool)
    ensures
        r == (key_of(a@) == key_of(b@)),
{
    let la = a.unicode_len();
    let lb = b.unicode_len();
    if la != lb {
        proof {
            assert(key_of(a@).len() != key_of(b@).len());
        }
        return false;
    }
    let mut i: usize = 0;
    while i < la
        invariant
            0 <= i <= la,
            a@.len() == la,
            b@.len() == la,
            forall|j: int| 0 <= j < i ==> key_of(a@)[j] == key_of(b@)[j],
        decreases la - i,
    {
        let ca = a.get_char(i) as u32;
        let cb = b.get_char(i) as u32;
        let fa = if 65 <= ca && ca <= 90 { ca + 32 } else { ca };
        let fb = if 65 <= cb && cb <= 90 { cb + 32 } else { cb };
        if fa != fb {
            proof {
                assert(key_of(a@)[i as int] != key_of(b@)[i as int]);
            }
            return false;
        }
        proof {
            assert(key_of(a@)[i as int] == key_of(b@)[i as int]);
        }
        i = i + 1;
    }
    proof {
        assert(key_of(a@) =~= key_of(b@));
    }
    true
}

/// The mapping denoted by an ordered list of header entries; when several
/// entries share a case-folded key, the earliest one is the one seen.
pub open spec fn entries_map(s: Seq<(String, String)>) -> Map<Seq<int>, Seq<char>>
    decreases s.len(),
{
    if s.len() == 0 {
        Map::empty()
    } else {
        entries_map(s.drop_first()).insert(key_of(s.first().0@), s.first().1@)
    }
}

/// The earliest entry with a given key determines the map's value at it.
proof fn lemma_entries_map_match(s: Seq<(String, String)>, k: Seq<int>, j: int)
    requires
        0 <= j < s.len(),
        key_of(s[j].0@) == k,
        forall|i: int| 0 <= i < j ==> key_of(#[trigger] s[i].0@) != k,
    ensures
        entries_map(s).contains_key(k),
        entries_map(s)[k] == s[j].1@,
    decreases s.len(),
{
    if j == 0 {
    } else {
        lemma_entries_map_match(s.drop_first(), k, j - 1);
    }
}

/// A key that no entry carries is absent from the map.
proof fn lemma_entries_map_no_match(s: Seq<(String, String)>, k: Seq<int>)
    requires
        forall|i: int| 0 <= i < s.len() ==> key_of(#[trigger] s[i].0@) != k,
    ensures
        !entries_map(s).contains_key(k),
    decreases s.len(),
{
    if s.len() > 0 {
        lemma_entries_map_no_match(s.drop_first(), k);
    }
}

/// Replacing the earliest entry with a given key by another entry of the
/// same key updates the map at that key alone.
proof fn lemma_entries_map_update(s: Seq<(String, String)>, j: int, p: (String, String))
    requires
        0 <= j < s.len(),
        key_of(p.0@) == key_of(s[j].0@),
        forall|i: int| 0 <= i < j ==> key_of(#[trigger] s[i].0@) != key_of(s[j].0@),
    ensures
        entries_map(s.update(j, p)) == entries_map(s).insert(key_of(s[j].0@), p.1@),
    decreases s.len(),
{
    let t = s.update(j, p);
    if j == 0 {
        assert(t.drop_first() =~= s.drop_first());
        assert(entries_map(t) =~= entries_map(s).insert(key_of(s[0].0@), p.1@));
    } else {
        assert(t.drop_first() =~= s.drop_first().update(j - 1, p));
        lemma_entries_map_update(s.drop_first(), j - 1, p);
        assert(entries_map(t) =~= entries_map(s).insert(key_of(s[j].0@), p.1@));
    }
}

/// Appending an entry whose key no earlier entry carries inserts its pair.
proof fn lemma_entries_map_push(s: Seq<(String, String)>, p: (String, String))
    requires
        forall|i: int| 0 <= i < s.len() ==> key_of(#[trigger] s[i].0@) != key_of(p.0@),
    ensures
        entries_map(s.push(p)) == entries_map(s).insert(key_of(p.0@), p.1@),
    decreases s.len(),
{
    let t = s.push(p);
    if s.len() == 0 {
        assert(t.drop_first() =~= Seq::<(String, String)>::empty());
        assert(t.first() == p);
        assert(entries_map(t.drop_first()) == Map::<Seq<int>, Seq<char>>::empty());
        assert(entries_map(t) =~= entries_map(s).insert(key_of(p.0@), p.1@));
    } else {
        assert(t.drop_first() =~= s.drop_first().push(p));
        lemma_entries_map_push(s.drop_first(), p);
        assert(entries_map(t) =~= entries_map(s).insert(key_of(p.0@), p.1@));
    }
}

/// A case-insensitive string-keyed mapping of header names to values.
pub struct HeaderCarrier {
    entries: Vec<(String, String)>,
}

impl View for HeaderCarrier {
    type V = Map<Seq<int>, Seq<char>>;

    closed spec fn view(&self) -> Map<Seq<int>, Seq<char>> {
        entries_map(self.entries@)
    }
}

impl HeaderCarrier {
    /// No two entries share a case-folded key, so the earliest match found
    /// by a scan is the only one.
    #[verifier::type_invariant]
    spec fn wf(&self) -> bool {
        forall|i: int, j: int|
            0 <= i < j < self.entries@.len() ==> key_of(#[trigger] self.entries@[i].0@) != key_of(
                #[trigger] self.entries@[j].0@,
            )
    }

    /// An empty carrier.
    pub fn new() -> (c: Self)
        ensures
            c@ == Map::<Seq<int>, Seq<char>>::empty(),
    {
        let c = HeaderCarrier { entries: Vec::new() };
        proof {
            assert(c@ =~= Map::<Seq<int>, Seq<char>>::empty());
        }
        c
    }

    /// Looks a header up by name, ignoring ASCII case.
    pub fn get(&self, name: &str) -> (r: Option<String>)
        ensures
            match r {
                Some(v) => self@.contains_key(key_of(name@)) && v@ == self@[key_of(name@)],
                None => !self@.contains_key(key_of(name@)),
            },
    {
        let ghost k = key_of(name@);
        let n = self.entries.len();
        let mut i: usize = 0;
        while i < n
            invariant
                0 <= i <= n,
                n == self.entries@.len(),
                k == key_of(name@),
                forall|j: int| 0 <= j < i ==> key_of(#[trigger] self.entries@[j].0@) != k,
            decreases n - i,
        {
            if eq_ignore_case(self.entries[i].0.as_str(), name) {
                proof {
                    lemma_entries_map_match(self.entries@, k, i as int);
                }
                return Some(self.entries[i].1.clone());
            }
            i = i + 1;
        }
        proof {
            lemma_entries_map_no_match(self.entries@, k);
        }
        None
    }

    /// Binds a header name to a value, overwriting any existing binding of a
    /// name that is equal to it ignoring ASCII case.
    pub fn set(&mut self, name: String, value: String)
        ensures
            final(self)@ == old(self)@.insert(key_of(name@), value@),
    {
        proof {
            use_type_invariant(&*self);
        }
        let ghost k = key_of(name@);
        let mut entries: Vec<(String, String)> = Vec::new();
        core::mem::swap(&mut self.entries, &mut entries);
        let n = entries.len();
        let mut idx: usize = n;
        let mut i: usize = 0;
        while i < n
            invariant
                0 <= i <= n,
                n == entries@.len(),
                k == key_of(name@),
                entries@ == old(self).entries@,
                old(self).wf(),
                idx == n || (idx < i && key_of(entries@[idx as int].0@) == k),
                idx == n ==> forall|j: int| 0 <= j < i ==> key_of(
                    #[trigger] entries@[j].0@,
                ) != k,
                idx < n ==> forall|j: int| 0 <= j < idx ==> key_of(
                    #[trigger] entries@[j].0@,
                ) != k,
            decreases n - i,
        {
            if idx == n && eq_ignore_case(entries[i].0.as_str(), name.as_str()) {
                idx = i;
            }
            i = i + 1;
        }
        if idx < n {
            proof {
                lemma_entries_map_update(entries@, idx as int, (name, value));
                let t = entries@.update(idx as int, (name, value));
                assert forall|a: int, b: int| 0 <= a < b < t.len() implies key_of(
                    #[trigger] t[a].0@,
                ) != key_of(#[trigger] t[b].0@) by {
                    assert(key_of(entries@[a].0@) != key_of(entries@[b].0@));
                }
            }
            entries[idx] = (name, value);
        } else {
            proof {
                lemma_entries_map_push(entries@, (name, value));
                let t = entries@.push((name, value));
                assert forall|a: int, b: int| 0 <= a < b < t.len() implies key_of(
                    #[trigger] t[a].0@,
                ) != key_of(#[trigger] t[b].0@) by {
                    if b < t.len() - 1 {
                        assert(key_of(entries@[a].0@) != key_of(entries@[b].0@));
                    }
                }
            }
            entries.push((name, value));
        }
        core::mem::swap(&mut self.entries, &mut entries);
    }

    /// The entries, in insertion order.  Every entry's case-folded name is
    /// bound in the mapping to that entry's value, and every key of the
    /// mapping is the case-folded name of some entry.
    pub fn into_entries(self) -> (r: Vec<(String, String)>)
        ensures
            forall|i: int|
                0 <= i < r@.len() ==> self@.contains_key(key_of(#[trigger] r@[i].0@))
                    && self@[key_of(r@[i].0@)] == r@[i].1@,
            forall|k: Seq<int>|
                self@.contains_key(k) ==> exists|i: int|
                    0 <= i < r@.len() && key_of(#[trigger] r@[i].0@) == k,
    {
        proof {
            use_type_invariant(&self);
            lemma_entries_map_covered(self.entries@);
            assert forall|i: int| 0 <= i < self.entries@.len() implies self@.contains_key(
                key_of(#[trigger] self.entries@[i].0@),
            ) && self@[key_of(self.entries@[i].0@)] == self.entries@[i].1@ by {
                lemma_entries_map_match(self.entries@, key_of(self.entries@[i].0@), i);
            }
        }
        self.entries
    }
}

/// Every entry of a list either binds its own value in the entry map or is
/// shadowed by an earlier entry with the same key, and every key of the map
/// comes from some entry.
proof fn lemma_entries_map_covered(s: Seq<(String, String)>)
    ensures
        forall|i: int|
            0 <= i < s.len() ==> entries_map(s).contains_key(key_of(#[trigger] s[i].0@)),
        forall|k: Seq<int>|
            entries_map(s).contains_key(k) ==> exists|i: int|
                0 <= i < s.len() && key_of(#[trigger] s[i].0@) == k,
    decreases s.len(),
{
    if s.len() > 0 {
        lemma_entries_map_covered(s.drop_first());
        assert forall|i: int| 0 <= i < s.len() implies entries_map(s).contains_key(
            key_of(#[trigger] s[i].0@),
        ) by {
            if i > 0 {
                assert(entries_map(s.drop_first()).contains_key(key_of(s.drop_first()[i - 1].0@)));
                assert(s.drop_first()[i - 1] == s[i]);
            }
        }
        assert forall|k: Seq<int>| entries_map(s).contains_key(k) implies exists|i: int|
            0 <= i < s.len() && key_of(#[trigger] s[i].0@) == k by {
            if k == key_of(s.first().0@) {
                assert(key_of(s[0].0@) == k);
            } else {
                assert(entries_map(s.drop_first()).contains_key(k));
                let i = choose|i: int|
                    0 <= i < s.drop_first().len() && key_of(#[trigger] s.drop_first()[i].0@) == k;
                assert(s.drop_first()[i] == s[i + 1]);
                assert(key_of(s[i + 1].0@) == k);
            }
        }
    }
}

} // verus!
