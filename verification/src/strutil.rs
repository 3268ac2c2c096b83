//! Small verified string utilities: decimal rendering of payload integers
//! and ASCII-case-insensitive comparison of mode names.

use vstd::prelude::*;

verus! {

/// The character for a single decimal digit `d` in `0..10`.
pub open spec fn digit_char(d: int) -> char {
    if d == 0 {
        '0'
    } else if d == 1 {
        '1'
    } else if d == 2 {
        '2'
    } else if d == 3 {
        '3'
    } else if d == 4 {
        '4'
    } else if d == 5 {
        '5'
    } else if d == 6 {
        '6'
    } else if d == 7 {
        '7'
    } else if d == 8 {
        '8'
    } else {
        '9'
    }
}

/// Decimal representation of a non-negative integer, most significant
/// digit first, without leading zeros (`0` is rendered as `"0"`).
pub open spec fn dec_rep(n: int) -> Seq<char>
    decreases n,
{
    if n < 10 {
        seq![digit_char(n)]
    } else {
        dec_rep(n / 10).push(digit_char(n % 10))
    }
}

fn digit_str(d: u8) -> (s: &'static str)
    requires
        d < 10,
    ensures
        s@ == seq![digit_char(d as int)],
{
    proof {
        reveal_strlit("0");
        reveal_strlit("1");
        reveal_strlit("2");
        reveal_strlit("3");
        reveal_strlit("4");
        reveal_strlit("5");
        reveal_strlit("6");
        reveal_strlit("7");
        reveal_strlit("8");
        reveal_strlit("9");
    }
    let s = if d == 0 {
        "0"
    } else if d == 1 {
        "1"
    } else if d == 2 {
        "2"
    } else if d == 3 {
        "3"
    } else if d == 4 {
        "4"
    } else if d == 5 {
        "5"
    } else if d == 6 {
        "6"
    } else if d == 7 {
        "7"
    } else if d == 8 {
        "8"
    } else {
        "9"
    };
    proof {
        assert(s@ =~= seq![digit_char(d as int)]);
    }
    s
}

/// Renders `v` as its ASCII decimal representation, as used for
/// percentage-state payloads.
pub fn u8_to_dec_string(v: u8) -> (s: String)
    ensures
        s@ == dec_rep(v as int),
{
    let mut s = String::new();
    if v >= 100 {
        s = s.concat(digit_str(v / 100));
    }
    if v >= 10 {
        s = s.concat(digit_str((v / 10) % 10));
    }
    s = s.concat(digit_str(v % 10));
    proof {
        let n = v as int;
        if n < 10 {
            assert(s@ =~= dec_rep(n));
        } else if n < 100 {
            assert(dec_rep(n) == dec_rep(n / 10).push(digit_char(n % 10)));
            assert(dec_rep(n / 10) == seq![digit_char(n / 10)]);
            assert((n / 10) % 10 == n / 10);
            assert(s@ =~= dec_rep(n));
        } else {
            vstd::arithmetic::div_mod::lemma_div_denominator(n, 10, 10);
            assert(n / 10 / 10 == n / 100);
            assert(dec_rep(n) == dec_rep(n / 10).push(digit_char(n % 10)));
            assert(dec_rep(n / 10) == dec_rep(n / 10 / 10).push(digit_char((n / 10) % 10)));
            assert(n / 100 < 10);
            assert(dec_rep(n / 100) == seq![digit_char(n / 100)]);
            assert(s@ =~= dec_rep(n));
        }
    }
    s
}

/// Lowercases an ASCII uppercase letter given as a character code;
/// any other code is unchanged.
pub open spec fn lower_code(u: u32) -> u32 {
    if 65 <= u && u <= 90 {
        (u + 32) as u32
    } else {
        u
    }
}

/// Two character sequences are equal up to ASCII case.
pub open spec fn eq_ignore_ascii_case(a: Seq<char>, b: Seq<char>) -> bool {
    &&& a.len() == b.len()
    &&& forall|i: int|
        0 <= i < a.len() ==> lower_code(#[trigger] a[i] as u32) == lower_code(b[i] as u32)
}

/// Compares two strings for equality up to ASCII case.
pub fn str_eq_ignore_ascii_case(a: &str, b: &str) -> (r: bool)
    ensures
        r == eq_ignore_ascii_case(a@, b@),
{
    let alen = a.unicode_len();
    let blen = b.unicode_len();
    if alen != blen {
        return false;
    }
    let mut i: usize = 0;
    while i < alen
        invariant
            alen == a@.len(),
            alen == b@.len(),
            0 <= i <= alen,
            forall|j: int| 0 <= j < i ==> lower_code(#[trigger] a@[j] as u32) == lower_code(b@[j] as u32),
        decreases alen - i,
    {
        let ca = a.get_char(i) as u32;
        let cb = b.get_char(i) as u32;
        let fa = if 65 <= ca && ca <= 90 {
            ca + 32
        } else {
            ca
        };
        let fb = if 65 <= cb && cb <= 90 {
            cb + 32
        } else {
            cb
        };
        if fa != fb {
            return false;
        }
        i = i + 1;
    }
    true
}

/// Compares two strings for exact (case-sensitive) equality.
pub fn str_eq(a: &str, b: &str) -> (r: bool)
    ensures
        r == (a@ == b@),
{
    let alen = a.unicode_len();
    let blen = b.unicode_len();
    if alen != blen {
        return false;
    }
    let mut i: usize = 0;
    while i < alen
        invariant
            alen == a@.len(),
            alen == b@.len(),
            0 <= i <= alen,
            forall|j: int| 0 <= j < i ==> #[trigger] a@[j] == b@[j],
        decreases alen - i,
    {
        let ca = a.get_char(i);
        let cb = b.get_char(i);
        if ca != cb {
            return false;
        }
        i = i + 1;
    }
    proof {
        assert(a@ =~= b@);
    }
    true
}

} // verus!
