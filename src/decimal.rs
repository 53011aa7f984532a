//! Decimal text of unsigned integers, as response bodies carry it.
use vstd::prelude::*;

verus! {

/// The character of the decimal digit `d`.
pub open spec fn digit_char(d: nat) -> char {
    if d == 0 {
        '0'
    } else if d == 1 {
        '1'
    } else if d == 2 {
        '2'
    } else if d == 3 {
        '3'
    } else if d == 4 {
        '4'
    } else if d == 5 {
        '5'
    } else if d == 6 {
        '6'
    } else if d == 7 {
        '7'
    } else if d == 8 {
        '8'
    } else {
        '9'
    }
}

/// The decimal text of `n`: its digits, most significant first, with no
/// leading zero (`0` is the single digit `0`).
pub open spec fn decimal(n: nat) -> Seq<char>
    decreases n,
{
    if n < 10 {
        seq![digit_char(n)]
    } else {
        decimal(n / 10).push(digit_char(n % 10))
    }
}

/// The text of digits kept least significant first.
spec fn text_of_reversed(rev: Seq<u8>) -> Seq<char> {
    Seq::new(rev.len(), |i: int| digit_char(rev[rev.len() - 1 - i] as nat))
}

/// The text of one digit.
fn digit_text(d: u8) -> (r: &'static str)
    requires
        d < 10,
    ensures
        r@ == seq![digit_char(d as nat)],
{
    if d == 0 {
        proof { reveal_strlit("0"); }
        "0"
    } else if d == 1 {
        proof { reveal_strlit("1"); }
        "1"
    } else if d == 2 {
        proof { reveal_strlit("2"); }
        "2"
    } else if d == 3 {
        proof { reveal_strlit("3"); }
        "3"
    } else if d == 4 {
        proof { reveal_strlit("4"); }
        "4"
    } else if d == 5 {
        proof { reveal_strlit("5"); }
        "5"
    } else if d == 6 {
        proof { reveal_strlit("6"); }
        "6"
    } else if d == 7 {
        proof { reveal_strlit("7"); }
        "7"
    } else if d == 8 {
        proof { reveal_strlit("8"); }
        "8"
    } else {
        proof { reveal_strlit("9"); }
        "9"
    }
}

/// The decimal text of `n`.
pub fn to_decimal(n: u128) -> (r: String)
    ensures
        r@ == decimal(n as nat),
{
    let mut rev: Vec<u8> = Vec::new();
    rev.push((n % 10) as u8);
    let mut m: u128 = n / 10;
    assert(text_of_reversed(rev@) =~= seq![digit_char((n % 10) as nat)]);
    while m > 0
        invariant
            forall|i: int| 0 <= i < rev.len() ==> rev@[i] < 10,
            rev.len() >= 1,
            decimal(n as nat) == (if m > 0 { decimal(m as nat) } else { Seq::empty() })
                + text_of_reversed(rev@),
        decreases m,
    {
        let d: u8 = (m % 10) as u8;
        let ghost old_rev = rev@;
        rev.push(d);
        let next: u128 = m / 10;
        assert(text_of_reversed(rev@) =~= seq![digit_char(d as nat)] + text_of_reversed(old_rev));
        assert(decimal(m as nat) == (if next > 0 { decimal(next as nat) } else { Seq::empty() })
            + seq![digit_char(d as nat)]) by {
            if m >= 10 {
                assert(next > 0);
            } else {
                assert(seq![digit_char(m as nat)] =~= Seq::<char>::empty() + seq![digit_char(d as nat)]);
            }
        }
        m = next;
        assert(decimal(n as nat) =~= (if m > 0 { decimal(m as nat) } else { Seq::empty() })
            + text_of_reversed(rev@));
    }
    assert(decimal(n as nat) =~= text_of_reversed(rev@));
    let mut r = String::new();
    let mut i: usize = rev.len();
    while i > 0
        invariant
            i <= rev.len(),
            forall|t: int| 0 <= t < rev.len() ==> rev@[t] < 10,
            r@ == text_of_reversed(rev@).subrange(0, rev.len() - i),
        decreases i,
    {
        i = i - 1;
        r.append(digit_text(rev[i]));
        assert(r@ =~= text_of_reversed(rev@).subrange(0, rev.len() - i));
    }
    assert(r@ =~= text_of_reversed(rev@));
    r
}

} // verus!
