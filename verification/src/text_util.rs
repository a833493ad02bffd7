//! Verified text helpers: decimal rendering of counters and sizes, and hex
//! rendering of digest bytes. Both carry exact character-level contracts.

use vstd::prelude::*;

verus! {

/// The decimal digit character for `d` (expected in `0..10`).
pub open spec fn dec_digit(d: int) -> char {
    if d == 0 {
        '0'
    } else if d == 1 {
        '1'
    } else if d == 2 {
        '2'
    } else if d == 3 {
        '3'
    } else if d == 4 {
        '4'
    } else if d == 5 {
        '5'
    } else if d == 6 {
        '6'
    } else if d == 7 {
        '7'
    } else if d == 8 {
        '8'
    } else {
        '9'
    }
}

/// The usual decimal rendering of a non-negative integer, most significant
/// digit first, with no leading zeroes (except for zero itself).
pub open spec fn dec_rep(n: int) -> Seq<char>
    decreases n,
{
    if n < 10 {
        seq![dec_digit(n)]
    } else {
        dec_rep(n / 10).push(dec_digit(n % 10))
    }
}

fn dec_digit_str(d: u64) -> (s: &'static str)
    requires
        d < 10,
    ensures
        s@ == seq![dec_digit(d as int)],
{
    if d == 0 {
        proof { reveal_strlit("0"); }
        let s = "0";
        assert(s@ =~= seq![dec_digit(d as int)]);
        s
    } else if d == 1 {
        proof { reveal_strlit("1"); }
        let s = "1";
        assert(s@ =~= seq![dec_digit(d as int)]);
        s
    } else if d == 2 {
        proof { reveal_strlit("2"); }
        let s = "2";
        assert(s@ =~= seq![dec_digit(d as int)]);
        s
    } else if d == 3 {
        proof { reveal_strlit("3"); }
        let s = "3";
        assert(s@ =~= seq![dec_digit(d as int)]);
        s
    } else if d == 4 {
        proof { reveal_strlit("4"); }
        let s = "4";
        assert(s@ =~= seq![dec_digit(d as int)]);
        s
    } else if d == 5 {
        proof { reveal_strlit("5"); }
        let s = "5";
        assert(s@ =~= seq![dec_digit(d as int)]);
        s
    } else if d == 6 {
        proof { reveal_strlit("6"); }
        let s = "6";
        assert(s@ =~= seq![dec_digit(d as int)]);
        s
    } else if d == 7 {
        proof { reveal_strlit("7"); }
        let s = "7";
        assert(s@ =~= seq![dec_digit(d as int)]);
        s
    } else if d == 8 {
        proof { reveal_strlit("8"); }
        let s = "8";
        assert(s@ =~= seq![dec_digit(d as int)]);
        s
    } else {
        proof { reveal_strlit("9"); }
        let s = "9";
        assert(s@ =~= seq![dec_digit(d as int)]);
        s
    }
}

/// Renders `n` in decimal.
pub fn u64_to_string(n: u64) -> (s: String)
    ensures
        s@ == dec_rep(n as int),
    decreases n,
{
    if n < 10 {
        String::from_str(dec_digit_str(n))
    } else {
        let mut s = u64_to_string(n / 10);
        s.append(dec_digit_str(n % 10));
        proof {
            assert(n as int / 10 == (n / 10) as int);
            assert(s@ =~= dec_rep(n as int));
        }
        s
    }
}

/// The lower-case hex digit character for `d` (expected in `0..16`).
pub open spec fn hex_digit(d: int) -> char {
    if d < 10 {
        dec_digit(d)
    } else if d == 10 {
        'a'
    } else if d == 11 {
        'b'
    } else if d == 12 {
        'c'
    } else if d == 13 {
        'd'
    } else if d == 14 {
        'e'
    } else {
        'f'
    }
}

/// The lower-case hex rendering of a byte sequence, two digits per byte.
pub open spec fn hex_of(bytes: Seq<u8>) -> Seq<char>
    decreases bytes.len(),
{
    if bytes.len() == 0 {
        Seq::empty()
    } else {
        hex_of(bytes.drop_last()).push(hex_digit(bytes.last() as int / 16)).push(
            hex_digit(bytes.last() as int % 16),
        )
    }
}

fn hex_digit_str(d: u8) -> (s: &'static str)
    requires
        d < 16,
    ensures
        s@ == seq![hex_digit(d as int)],
{
    if d < 10 {
        let s = dec_digit_str(d as u64);
        assert(s@ =~= seq![hex_digit(d as int)]);
        s
    } else if d == 10 {
        proof { reveal_strlit("a"); }
        let s = "a";
        assert(s@ =~= seq![hex_digit(d as int)]);
        s
    } else if d == 11 {
        proof { reveal_strlit("b"); }
        let s = "b";
        assert(s@ =~= seq![hex_digit(d as int)]);
        s
    } else if d == 12 {
        proof { reveal_strlit("c"); }
        let s = "c";
        assert(s@ =~= seq![hex_digit(d as int)]);
        s
    } else if d == 13 {
        proof { reveal_strlit("d"); }
        let s = "d";
        assert(s@ =~= seq![hex_digit(d as int)]);
        s
    } else if d == 14 {
        proof { reveal_strlit("e"); }
        let s = "e";
        assert(s@ =~= seq![hex_digit(d as int)]);
        s
    } else {
        proof { reveal_strlit("f"); }
        let s = "f";
        assert(s@ =~= seq![hex_digit(d as int)]);
        s
    }
}

/// Renders a byte string (for example a digest) as lower-case hex.
pub fn hex_string(bytes: &Vec<u8>) -> (s: String)
    ensures
        s@ == hex_of(bytes@),
{
    let mut s = String::new();
    let mut i: usize = 0;
    while i < bytes.len()
        invariant
            i <= bytes@.len(),
            s@ == hex_of(bytes@.take(i as int)),
        decreases bytes@.len() - i,
    {
        let b = bytes[i];
        s.append(hex_digit_str(b / 16));
        s.append(hex_digit_str(b % 16));
        proof {
            let t = bytes@.take(i + 1 as int);
            assert(t.drop_last() =~= bytes@.take(i as int));
            assert(t.last() == bytes@[i as int]);
            assert(s@ =~= hex_of(t));
        }
        i = i + 1;
    }
    proof {
        assert(bytes@.take(bytes@.len() as int) =~= bytes@);
    }
    s
}

} // verus!
