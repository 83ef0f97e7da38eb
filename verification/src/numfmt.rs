//! Decimal rendering of the integer ids and row counts that the service
//! writes into id lists and status messages, together with the facts the
//! rest of the library needs about it: a rendering is never empty, holds
//! digits only (so never a comma), and is injective.

use vstd::prelude::*;

verus! {

pub open spec fn digit_char(d: nat) -> char {
    if d == 0 {
        '0'
    } else if d == 1 {
        '1'
    } else if d == 2 {
        '2'
    } else if d == 3 {
        '3'
    } else if d == 4 {
        '4'
    } else if d == 5 {
        '5'
    } else if d == 6 {
        '6'
    } else if d == 7 {
        '7'
    } else if d == 8 {
        '8'
    } else {
        '9'
    }
}

pub open spec fn is_digit_char(c: char) -> bool {
    c == '0' || c == '1' || c == '2' || c == '3' || c == '4' || c == '5' || c == '6' || c == '7'
        || c == '8' || c == '9'
}

/// The decimal rendering of a natural number, most significant digit first.
pub open spec fn dec_str(n: nat) -> Seq<char>
    decreases n,
{
    if n < 10 {
        seq![digit_char(n)]
    } else {
        dec_str(n / 10) + seq![digit_char(n % 10)]
    }
}

/// The decimal rendering of an integer: a leading minus sign when negative.
pub open spec fn int_str(n: int) -> Seq<char> {
    if n >= 0 {
        dec_str(n as nat)
    } else {
        seq!['-'] + dec_str((-n) as nat)
    }
}

pub proof fn lemma_dec_str_len(n: nat)
    ensures
        dec_str(n).len() >= 1,
        n < 10 <==> dec_str(n).len() == 1,
    decreases n,
{
    if n >= 10 {
        lemma_dec_str_len(n / 10);
    }
}

pub proof fn lemma_dec_str_digits(n: nat)
    ensures
        forall|i: int| 0 <= i < dec_str(n).len() ==> is_digit_char(#[trigger] dec_str(n)[i]),
    decreases n,
{
    if n < 10 {
        assert(dec_str(n)[0] == digit_char(n));
    } else {
        lemma_dec_str_digits(n / 10);
        assert forall|i: int| 0 <= i < dec_str(n).len() implies is_digit_char(
            #[trigger] dec_str(n)[i],
        ) by {
            if i < dec_str(n / 10).len() {
                assert(dec_str(n)[i] == dec_str(n / 10)[i]);
            } else {
                assert(dec_str(n)[i] == digit_char(n % 10));
            }
        }
    }
}

/// Two distinct numbers never share a decimal rendering.
pub proof fn lemma_dec_str_injective(a: nat, b: nat)
    requires
        dec_str(a) == dec_str(b),
    ensures
        a == b,
    decreases a + b,
{
    lemma_dec_str_len(a);
    lemma_dec_str_len(b);
    if a < 10 && b < 10 {
        assert(dec_str(a) =~= seq![digit_char(a)]);
        assert(dec_str(b) =~= seq![digit_char(b)]);
        assert(seq![digit_char(a)][0] == digit_char(a));
        assert(seq![digit_char(b)][0] == digit_char(b));
        assert(digit_char(a) == digit_char(b));
    } else if a >= 10 && b >= 10 {
        let la = dec_str(a / 10);
        let lb = dec_str(b / 10);
        assert(dec_str(a).len() == la.len() + 1);
        assert(dec_str(b).len() == lb.len() + 1);
        assert(dec_str(a).last() == digit_char(a % 10));
        assert(dec_str(b).last() == digit_char(b % 10));
        assert(a % 10 == b % 10);
        assert(la =~= dec_str(a).subrange(0, dec_str(a).len() - 1));
        assert(lb =~= dec_str(b).subrange(0, dec_str(b).len() - 1));
        lemma_dec_str_injective(a / 10, b / 10);
        assert(a == 10 * (a / 10) + a % 10);
        assert(b == 10 * (b / 10) + b % 10);
    } else {
        // One is a single digit, the other at least two: the lengths differ.
        assert(dec_str(a).len() == dec_str(b).len());
        assert(false);
    }
}

fn append_digit(s: &mut String, d: u64)
    requires
        d < 10,
    ensures
        final(s)@ == old(s)@ + seq![digit_char(d as nat)],
{
    match d {
        0 => {
            proof { reveal_strlit("0"); assert("0"@ =~= seq![digit_char(d as nat)]); }
            s.append("0");
        },
        1 => {
            proof { reveal_strlit("1"); assert("1"@ =~= seq![digit_char(d as nat)]); }
            s.append("1");
        },
        2 => {
            proof { reveal_strlit("2"); assert("2"@ =~= seq![digit_char(d as nat)]); }
            s.append("2");
        },
        3 => {
            proof { reveal_strlit("3"); assert("3"@ =~= seq![digit_char(d as nat)]); }
            s.append("3");
        },
        4 => {
            proof { reveal_strlit("4"); assert("4"@ =~= seq![digit_char(d as nat)]); }
            s.append("4");
        },
        5 => {
            proof { reveal_strlit("5"); assert("5"@ =~= seq![digit_char(d as nat)]); }
            s.append("5");
        },
        6 => {
            proof { reveal_strlit("6"); assert("6"@ =~= seq![digit_char(d as nat)]); }
            s.append("6");
        },
        7 => {
            proof { reveal_strlit("7"); assert("7"@ =~= seq![digit_char(d as nat)]); }
            s.append("7");
        },
        8 => {
            proof { reveal_strlit("8"); assert("8"@ =~= seq![digit_char(d as nat)]); }
            s.append("8");
        },
        _ => {
            proof { reveal_strlit("9"); assert("9"@ =~= seq![digit_char(d as nat)]); }
            s.append("9");
        },
    }
}

/// Renders a number in decimal, exactly as `dec_str` describes.
pub fn u64_to_string(n: u64) -> (s: String)
    ensures
        s@ == dec_str(n as nat),
    decreases n,
{
    if n < 10 {
        let mut s = String::new();
        append_digit(&mut s, n);
        proof {
            assert(s@ =~= dec_str(n as nat));
        }
        s
    } else {
        let mut s = u64_to_string(n / 10);
        append_digit(&mut s, n % 10);
        proof {
            assert((n / 10) as nat == (n as nat) / 10);
            assert((n % 10) as nat == (n as nat) % 10);
        }
        s
    }
}

/// Renders a signed number in decimal, exactly as `int_str` describes.
pub fn i64_to_string(n: i64) -> (s: String)
    ensures
        s@ == int_str(n as int),
{
    if n >= 0 {
        u64_to_string(n as u64)
    } else {
        // `-(n + 1)` stays in range even for the smallest value.
        let mag: u64 = ((-(n + 1)) as u64) + 1;
        proof { reveal_strlit("-"); }
        let mut s = String::from_str("-");
        let digits = u64_to_string(mag);
        s.append(digits.as_str());
        proof {
            assert(mag as nat == (-(n as int)) as nat);
            assert(s@ =~= int_str(n as int));
        }
        s
    }
}

/// Does a row id, rendered in decimal, equal the given query text?
/// This is how handlers match the ids carried in request paths and id lists
/// against the integer keys of stored rows.
pub open spec fn row_id_matches(id: int, q: Seq<char>) -> bool {
    id >= 0 && dec_str(id as nat) == q
}

pub fn id_matches_string(id: i32, q: &String) -> (b: bool)
    ensures
        b == row_id_matches(id as int, q@),
{
    if id < 0 {
        false
    } else {
        let s = u64_to_string(id as u64);
        s == *q
    }
}

} // verus!
