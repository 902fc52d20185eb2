//! Fixed-width lowercase hexadecimal encoding and decoding, used for the
//! trace and span identifiers carried in propagation headers.

use vstd::prelude::*;

verus! {

/// A lowercase hexadecimal digit.
pub open spec fn is_hex_digit(c: char) -> bool {
    ('0' <= c && c <= '9') || ('a' <= c && c <= 'f')
}

/// Every character of the sequence is a lowercase hexadecimal digit.
pub open spec fn is_hex_seq(s: Seq<char>) -> bool {
    forall|i: int| 0 <= i < s.len() ==> is_hex_digit(#[trigger] s[i])
}

/// The numeric value of one lowercase hexadecimal digit.
pub open spec fn nibble_val(c: char) -> nat {
    if '0' <= c && c <= '9' {
        ((c as u32) - ('0' as u32)) as nat
    } else {
        ((c as u32) - ('a' as u32) + 10) as nat
    }
}

/// The number denoted by a big-endian sequence of hexadecimal digits.
pub open spec fn hex_val(s: Seq<char>) -> nat
    decreases s.len(),
{
    if s.len() == 0 {
        0
    } else {
        16 * hex_val(s.drop_last()) + nibble_val(s.last())
    }
}

/// The lowercase digit character for a value below sixteen.
pub open spec fn hex_digit(d: nat) -> char {
    if d == 0 { '0' }
    else if d == 1 { '1' }
    else if d == 2 { '2' }
    else if d == 3 { '3' }
    else if d == 4 { '4' }
    else if d == 5 { '5' }
    else if d == 6 { '6' }
    else if d == 7 { '7' }
    else if d == 8 { '8' }
    else if d == 9 { '9' }
    else if d == 10 { 'a' }
    else if d == 11 { 'b' }
    else if d == 12 { 'c' }
    else if d == 13 { 'd' }
    else if d == 14 { 'e' }
    else { 'f' }
}

/// The fixed-width big-endian lowercase hexadecimal form of `n`.
pub open spec fn hex_rep(n: nat, width: nat) -> Seq<char>
    decreases width,
{
    if width == 0 {
        Seq::empty()
    } else {
        hex_rep(n / 16, (width - 1) as nat).push(hex_digit(n % 16))
    }
}

/// Sixteen raised to the given power.
pub open spec fn pow16(w: nat) -> nat
    decreases w,
{
    if w == 0 {
        1
    } else {
        16 * pow16((w - 1) as nat)
    }
}

/// The powers of sixteen the identifier widths rest on.
pub proof fn lemma_pow16_32()
    ensures
        pow16(2) == 0x100,
        pow16(16) == 0x10000000000000000,
        pow16(32) == 0x100000000000000000000000000000000,
{
    reveal_with_fuel(pow16, 33);
}

/// Powers of sixteen grow with the exponent.
pub proof fn lemma_pow16_increases(a: nat, b: nat)
    requires
        a <= b,
    ensures
        pow16(a) <= pow16(b),
    decreases b,
{
    if a < b {
        lemma_pow16_increases(a, (b - 1) as nat);
        assert(pow16(b) == 16 * pow16((b - 1) as nat));
        assert(pow16((b - 1) as nat) >= 1) by {
            lemma_pow16_pos((b - 1) as nat);
        }
    }
}

/// Powers of sixteen are positive.
pub proof fn lemma_pow16_pos(w: nat)
    ensures
        pow16(w) >= 1,
    decreases w,
{
    if w > 0 {
        lemma_pow16_pos((w - 1) as nat);
    }
}

/// A digit's value is recovered from its character.
pub proof fn lemma_digit_roundtrip(d: nat)
    requires
        d < 16,
    ensures
        is_hex_digit(hex_digit(d)),
        nibble_val(hex_digit(d)) == d,
{
}

/// A hexadecimal digit character is recovered from its value.
pub proof fn lemma_char_roundtrip(c: char)
    requires
        is_hex_digit(c),
    ensures
        nibble_val(c) < 16,
        hex_digit(nibble_val(c)) == c,
{
}

/// Decoding the encoding of a number below `pow16(width)` yields the number
/// back, and the encoding is a hexadecimal string of exactly that width.
pub proof fn lemma_hex_rep_val(n: nat, width: nat)
    requires
        n < pow16(width),
    ensures
        hex_rep(n, width).len() == width,
        is_hex_seq(hex_rep(n, width)),
        hex_val(hex_rep(n, width)) == n,
    decreases width,
{
    if width == 0 {
    } else {
        let q = n / 16;
        let r = n % 16;
        assert(q < pow16((width - 1) as nat) && r < 16 && n == 16 * q + r) by (nonlinear_arith)
            requires
                n < pow16(width),
                pow16(width) == 16 * pow16((width - 1) as nat),
                q == n / 16,
                r == n % 16,
        ;
        lemma_hex_rep_val(q, (width - 1) as nat);
        lemma_digit_roundtrip(r);
        let tail = hex_rep(q, (width - 1) as nat);
        let s = tail.push(hex_digit(r));
        assert(s.drop_last() =~= tail);
        assert(s.last() == hex_digit(r));
        assert(forall|i: int| 0 <= i < s.len() ==> is_hex_digit(#[trigger] s[i])) by {
            assert(forall|i: int| 0 <= i < tail.len() ==> s[i] == #[trigger] tail[i]);
        }
    }
}

/// Encoding the value of a hexadecimal string at its own width yields the
/// string back, and the value is below `pow16` of the width.
pub proof fn lemma_hex_val_rep(s: Seq<char>)
    requires
        is_hex_seq(s),
    ensures
        hex_val(s) < pow16(s.len()),
        hex_rep(hex_val(s), s.len()) == s,
    decreases s.len(),
{
    if s.len() == 0 {
        assert(hex_rep(0, 0) =~= s);
    } else {
        let tail = s.drop_last();
        let c = s.last();
        assert(is_hex_seq(tail)) by {
            assert(forall|i: int| 0 <= i < tail.len() ==> tail[i] == #[trigger] s[i]);
        }
        lemma_hex_val_rep(tail);
        lemma_char_roundtrip(c);
        let v = hex_val(tail);
        let d = nibble_val(c);
        let n = hex_val(s);
        assert(n == 16 * v + d);
        assert(n < pow16(s.len()) && n / 16 == v && n % 16 == d) by (nonlinear_arith)
            requires
                n == 16 * v + d,
                d < 16,
                v < pow16((s.len() - 1) as nat),
                pow16(s.len()) == 16 * pow16((s.len() - 1) as nat),
        ;
        assert(hex_rep(n, s.len()) =~= s);
    }
}

/// One lowercase hexadecimal digit as a borrowed string.
pub fn hex_digit_str(d: u8) -> (r: &'static str)
    requires
        d < 16,
    ensures
        r@ =~= seq![hex_digit(d as nat)],
{
    proof {
        reveal_strlit("0");
        reveal_strlit("1");
        reveal_strlit("2");
        reveal_strlit("3");
        reveal_strlit("4");
        reveal_strlit("5");
        reveal_strlit("6");
        reveal_strlit("7");
        reveal_strlit("8");
        reveal_strlit("9");
        reveal_strlit("a");
        reveal_strlit("b");
        reveal_strlit("c");
        reveal_strlit("d");
        reveal_strlit("e");
        reveal_strlit("f");
    }
    match d {
        0 => "0",
        1 => "1",
        2 => "2",
        3 => "3",
        4 => "4",
        5 => "5",
        6 => "6",
        7 => "7",
        8 => "8",
        9 => "9",
        10 => "a",
        11 => "b",
        12 => "c",
        13 => "d",
        14 => "e",
        _ => "f",
    }
}

/// Encodes `n` as exactly `width` lowercase hexadecimal characters,
/// big-endian, zero-padded on the left.
pub fn hex_str(n: u128, width: usize) -> (r: String)
    requires
        1 <= width <= 32,
    ensures
        r@ == hex_rep(n as nat, width as nat),
    decreases width,
{
    let d: u8 = (n % 16) as u8;
    proof {
        assert(d as nat == (n as nat) % 16);
    }
    let digit = hex_digit_str(d);
    if width == 1 {
        let r = String::from_str(digit);
        proof {
            assert(hex_rep((n as nat) / 16, 0) =~= Seq::<char>::empty());
            assert(hex_rep(n as nat, 1) =~= r@);
        }
        r
    } else {
        let mut r = hex_str(n / 16, width - 1);
        r.append(digit);
        proof {
            assert(hex_rep(n as nat, width as nat) =~= r@);
        }
        r
    }
}

/// Decodes a string of exactly `width` lowercase hexadecimal characters;
/// rejects any other input.
pub fn parse_hex(s: &str, width: usize) -> (r: Option<u128>)
    requires
        1 <= width <= 32,
    ensures
        match r {
            Some(v) => s@.len() == width && is_hex_seq(s@) && v as nat == hex_val(s@),
            None => !(s@.len() == width && is_hex_seq(s@)),
        },
{
    if s.unicode_len() != width {
        return None;
    }
    let mut acc: u128 = 0;
    let mut i: usize = 0;
    proof {
        assert(s@.subrange(0, 0) =~= Seq::<char>::empty());
        lemma_pow16_32();
    }
    while i < width
        invariant
            0 <= i <= width <= 32,
            s@.len() == width,
            is_hex_seq(s@.subrange(0, i as int)),
            acc as nat == hex_val(s@.subrange(0, i as int)),
            (acc as nat) < pow16(i as nat),
            pow16(32) == 0x100000000000000000000000000000000,
        decreases width - i,
    {
        let c = s.get_char(i);
        let code = c as u32;
        let d: u32 = if 0x30 <= code && code <= 0x39 {
            code - 0x30
        } else if 0x61 <= code && code <= 0x66 {
            code - 0x61 + 10
        } else {
            proof {
                assert(!is_hex_digit(s@[i as int]));
            }
            return None;
        };
        proof {
            assert(is_hex_digit(s@[i as int]));
            assert(d as nat == nibble_val(s@[i as int]));
            lemma_pow16_increases((i + 1) as nat, 32);
            assert(16 * (acc as nat) + (d as nat) < pow16((i + 1) as nat)) by (nonlinear_arith)
                requires
                    (acc as nat) < pow16(i as nat),
                    d < 16,
                    pow16((i + 1) as nat) == 16 * pow16(i as nat),
            ;
        }
        let next = acc * 16 + (d as u128);
        proof {
            let pre = s@.subrange(0, i as int);
            let cur = s@.subrange(0, i + 1);
            assert(cur.drop_last() =~= pre);
            assert(cur.last() == s@[i as int]);
            assert(forall|j: int| 0 <= j < cur.len() ==> cur[j] == #[trigger] s@[j]);
        }
        acc = next;
        i = i + 1;
    }
    proof {
        assert(s@.subrange(0, width as int) =~= s@);
    }
    Some(acc)
}

} // verus!
