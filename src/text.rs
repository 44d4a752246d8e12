//! Rendering integers and lists of them as text.

use vstd::prelude::*;
use vstd::string::*;

verus! {

/// The character of decimal digit `d`.
pub open spec fn digit_char(d: nat) -> char {
    seq!['0', '1', '2', '3', '4', '5', '6', '7', '8', '9'][d as int]
}

/// The decimal digits of `n`, most significant first, with no leading zero.
pub open spec fn decimal_digits(n: nat) -> Seq<char>
    decreases n,
{
    if n < 10 {
        seq![digit_char(n)]
    } else {
        decimal_digits(n / 10).push(digit_char(n % 10))
    }
}

/// `v` in decimal, with a leading minus sign when it is negative.
pub open spec fn decimal(v: int) -> Seq<char> {
    if v < 0 {
        seq!['-'] + decimal_digits((-v) as nat)
    } else {
        decimal_digits(v as nat)
    }
}

/// The values in decimal, separated by a comma and a space.
pub open spec fn joined(vals: Seq<i32>) -> Seq<char>
    decreases vals.len(),
{
    if vals.len() == 0 {
        Seq::empty()
    } else if vals.len() == 1 {
        decimal(vals[0] as int)
    } else {
        joined(vals.drop_last()) + seq![',', ' '] + decimal(vals.last() as int)
    }
}

/// The values as a bracketed list: `[1, 2, 3]`, or `[]`.
pub open spec fn list_text(vals: Seq<i32>) -> Seq<char> {
    seq!['['] + joined(vals) + seq![']']
}

/// The one-character string of digit `d`.
fn digit_str(d: u32) -> (r: &'static str)
    requires
        d < 10,
    ensures
        r@ == seq![digit_char(d as nat)],
{
    proof {
        reveal_strlit("0");
        reveal_strlit("1");
        reveal_strlit("2");
        reveal_strlit("3");
        reveal_strlit("4");
        reveal_strlit("5");
        reveal_strlit("6");
        reveal_strlit("7");
        reveal_strlit("8");
        reveal_strlit("9");
    }
    let r = if d == 0 {
        "0"
    } else if d == 1 {
        "1"
    } else if d == 2 {
        "2"
    } else if d == 3 {
        "3"
    } else if d == 4 {
        "4"
    } else if d == 5 {
        "5"
    } else if d == 6 {
        "6"
    } else if d == 7 {
        "7"
    } else if d == 8 {
        "8"
    } else {
        "9"
    };
    assert(r@ =~= seq![digit_char(d as nat)]);
    r
}

/// Appends the decimal digits of `n`.
fn push_digits(s: &mut String, n: u32)
    ensures
        final(s)@ == old(s)@ + decimal_digits(n as nat),
    decreases n,
{
    if n >= 10 {
        push_digits(s, n / 10);
    }
    s.append(digit_str(n % 10));
    assert(final(s)@ =~= old(s)@ + decimal_digits(n as nat));
}

/// Appends `v` in decimal.
pub fn push_decimal(s: &mut String, v: i32)
    ensures
        final(s)@ == old(s)@ + decimal(v as int),
{
    if v < 0 {
        proof {
            reveal_strlit("-");
        }
        s.append("-");
        let magnitude: u32 = (-(v as i64)) as u32;
        push_digits(s, magnitude);
        assert(final(s)@ =~= old(s)@ + decimal(v as int));
    } else {
        push_digits(s, v as u32);
    }
}

/// Appends `vals` as a bracketed, comma-separated list.
pub fn push_list(s: &mut String, vals: &[i32])
    ensures
        final(s)@ == old(s)@ + list_text(vals@),
{
    proof {
        reveal_strlit("[");
        reveal_strlit("]");
    }
    s.append("[");
    let ghost start = s@;
    let mut i: usize = 0;
    while i < vals.len()
        invariant
            i <= vals@.len(),
            start == old(s)@ + seq!['['],
            s@ == start + joined(vals@.subrange(0, i as int)),
        decreases vals@.len() - i,
    {
        let ghost before = s@;
        if i > 0 {
            s.append(", ");
        }
        push_decimal(s, vals[i]);
        proof {
            let p = vals@.subrange(0, i as int + 1);
            assert(p.drop_last() =~= vals@.subrange(0, i as int));
            assert(p.last() == vals@[i as int]);
            if i == 0 {
                assert(joined(vals@.subrange(0, 0)) =~= Seq::<char>::empty());
                assert(s@ =~= start + joined(p));
            } else {
                reveal_strlit(", ");
                assert(", "@ =~= seq![',', ' ']);
                assert(joined(p) == joined(p.drop_last()) + seq![',', ' '] + decimal(p.last() as int));
                assert(s@ =~= start + joined(p));
            }
        }
        i = i + 1;
    }
    s.append("]");
    assert(vals@.subrange(0, vals@.len() as int) =~= vals@);
    assert(final(s)@ =~= old(s)@ + list_text(vals@));
}

} // verus!
