//! Textual renderings the worker writes out: decimal numbers and the debug
//! form of a raw input.
//!
//! The debug-dump branch writes the input bytes as a bracketed, comma-
//! separated decimal list — `[]`, `[7]`, `[0, 255]` — which encodes the
//! bytes unambiguously.  Diagnostics render numeric status codes in
//! decimal.

use vstd::prelude::*;

verus! {

/// The decimal digit character for a value below ten.
pub open spec fn digit_char(d: nat) -> char {
    ((d + 48) as u8) as char
}

/// The decimal rendering of a number, most significant digit first.
pub open spec fn dec_of(n: nat) -> Seq<char>
    decreases n,
{
    if n < 10 {
        seq![digit_char(n)]
    } else {
        dec_of(n / 10).push(digit_char(n % 10))
    }
}

/// The debug rendering of one byte list's items, comma separated.
pub open spec fn dec_items(s: Seq<u8>) -> Seq<char>
    decreases s.len(),
{
    if s.len() == 0 {
        Seq::empty()
    } else if s.len() == 1 {
        dec_of(s[0] as nat)
    } else {
        dec_items(s.drop_last()) + seq![',', ' '] + dec_of(s.last() as nat)
    }
}

/// The debug rendering of a byte list: the items between brackets.
pub open spec fn debug_bytes_of(s: Seq<u8>) -> Seq<char> {
    seq!['['] + dec_items(s) + seq![']']
}

/// The one-character string for a decimal digit.
pub fn digit_str(d: u64) -> (r: &'static str)
    requires
        d < 10,
    ensures
        r@ == seq![digit_char(d as nat)],
{
    let r: &'static str = if d == 0 {
        "0"
    } else if d == 1 {
        "1"
    } else if d == 2 {
        "2"
    } else if d == 3 {
        "3"
    } else if d == 4 {
        "4"
    } else if d == 5 {
        "5"
    } else if d == 6 {
        "6"
    } else if d == 7 {
        "7"
    } else if d == 8 {
        "8"
    } else {
        "9"
    };
    proof {
        reveal_strlit("0");
        reveal_strlit("1");
        reveal_strlit("2");
        reveal_strlit("3");
        reveal_strlit("4");
        reveal_strlit("5");
        reveal_strlit("6");
        reveal_strlit("7");
        reveal_strlit("8");
        reveal_strlit("9");
        assert(r@ =~= seq![digit_char(d as nat)]);
    }
    r
}

/// The decimal rendering of a number.
pub fn dec_u64(n: u64) -> (r: String)
    ensures
        r@ == dec_of(n as nat),
    decreases n,
{
    if n < 10 {
        String::from_str(digit_str(n))
    } else {
        proof {
            assert(n / 10 < n) by (nonlinear_arith)
                requires
                    n >= 10,
            ;
        }
        let mut s = dec_u64(n / 10);
        s.append(digit_str(n % 10));
        proof {
            assert(s@ =~= dec_of((n / 10) as nat).push(digit_char((n % 10) as nat)));
        }
        s
    }
}

/// The debug rendering of an input: its bytes in decimal between
/// brackets.  Two different inputs render to two different strings.
pub fn debug_bytes(bytes: &Vec<u8>) -> (r: String)
    ensures
        r@ == debug_bytes_of(bytes@),
{
    let mut s = String::from_str("[");
    proof {
        reveal_strlit("[");
        reveal_strlit("]");
        reveal_strlit(", ");
        assert("["@ =~= seq!['[']);
        assert("]"@ =~= seq![']']);
        assert(", "@ =~= seq![',', ' ']);
    }
    let mut i: usize = 0;
    while i < bytes.len()
        invariant
            i <= bytes@.len(),
            s@ == seq!['['] + dec_items(bytes@.subrange(0, i as int)),
        decreases bytes@.len() - i,
    {
        let ghost prefix = bytes@.subrange(0, i as int);
        if i > 0 {
            s.append(", ");
        }
        let d = dec_u64(bytes[i] as u64);
        s.append(d.as_str());
        proof {
            reveal_strlit(", ");
            assert(", "@ =~= seq![',', ' ']);
            let next = bytes@.subrange(0, i + 1);
            assert(next.drop_last() =~= prefix);
            assert(next.last() == bytes@[i as int]);
            assert(next[0] == bytes@[0]);
            if i == 0 {
                assert(s@ =~= seq!['['] + dec_items(next));
            } else {
                assert(s@ =~= seq!['['] + dec_items(next));
            }
        }
        i = i + 1;
    }
    s.append("]");
    proof {
        assert(bytes@.subrange(0, bytes@.len() as int) =~= bytes@);
        assert(s@ =~= debug_bytes_of(bytes@));
    }
    s
}

} // verus!
