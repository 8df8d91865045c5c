//! Decimal rendering of unsigned integers, as the exposition format needs
//! it for counter and integer-gauge values and for timestamps.

use vstd::prelude::*;

verus! {

/// The decimal digit character for a value below ten.
pub open spec fn digit_char(d: int) -> char {
    if d == 0 {
        '0'
    } else if d == 1 {
        '1'
    } else if d == 2 {
        '2'
    } else if d == 3 {
        '3'
    } else if d == 4 {
        '4'
    } else if d == 5 {
        '5'
    } else if d == 6 {
        '6'
    } else if d == 7 {
        '7'
    } else if d == 8 {
        '8'
    } else {
        '9'
    }
}

/// The decimal digits of `n`, most significant first, with no leading
/// zeroes (zero itself is a single digit).
pub open spec fn dec_digits(n: nat) -> Seq<char>
    decreases n,
{
    if n < 10 {
        seq![digit_char(n as int)]
    } else {
        dec_digits(n / 10) + seq![digit_char((n % 10) as int)]
    }
}

/// The digits of a least-significant-first digit list, read back most
/// significant first.
pub open spec fn rev_digit_chars(ds: Seq<u8>) -> Seq<char> {
    Seq::new(ds.len(), |i: int| digit_char(ds[ds.len() - 1 - i] as int))
}

/// The one-character text of a single decimal digit.
fn digit_str(d: u8) -> (s: &'static str)
    requires
        d < 10,
    ensures
        s@ == seq![digit_char(d as int)],
{
    proof {
        reveal_strlit("0");
        reveal_strlit("1");
        reveal_strlit("2");
        reveal_strlit("3");
        reveal_strlit("4");
        reveal_strlit("5");
        reveal_strlit("6");
        reveal_strlit("7");
        reveal_strlit("8");
        reveal_strlit("9");
        assert("0"@ =~= seq!['0']);
        assert("1"@ =~= seq!['1']);
        assert("2"@ =~= seq!['2']);
        assert("3"@ =~= seq!['3']);
        assert("4"@ =~= seq!['4']);
        assert("5"@ =~= seq!['5']);
        assert("6"@ =~= seq!['6']);
        assert("7"@ =~= seq!['7']);
        assert("8"@ =~= seq!['8']);
        assert("9"@ =~= seq!['9']);
    }
    if d == 0 {
        "0"
    } else if d == 1 {
        "1"
    } else if d == 2 {
        "2"
    } else if d == 3 {
        "3"
    } else if d == 4 {
        "4"
    } else if d == 5 {
        "5"
    } else if d == 6 {
        "6"
    } else if d == 7 {
        "7"
    } else if d == 8 {
        "8"
    } else {
        "9"
    }
}

/// Renders `n` in decimal.
pub fn u64_to_dec(n: u64) -> (s: String)
    ensures
        s@ == dec_digits(n as nat),
{
    let mut lows: Vec<u8> = Vec::new();
    let mut m: u64 = n;
    proof {
        assert(rev_digit_chars(lows@) =~= Seq::<char>::empty());
        assert(dec_digits(n as nat) =~= dec_digits(m as nat) + rev_digit_chars(lows@));
    }
    while m >= 10
        invariant
            dec_digits(n as nat) == dec_digits(m as nat) + rev_digit_chars(lows@),
            forall|i: int| 0 <= i < lows@.len() ==> (#[trigger] lows@[i]) < 10,
        decreases m,
    {
        let ghost m0 = m as nat;
        let ghost lows0 = lows@;
        let d: u8 = (m % 10) as u8;
        lows.push(d);
        m = m / 10;
        proof {
            assert(dec_digits(m0) == dec_digits(m0 / 10) + seq![digit_char((m0 % 10) as int)]);
            assert(rev_digit_chars(lows@) =~= seq![digit_char(d as int)] + rev_digit_chars(
                lows0,
            ));
            assert(dec_digits(n as nat) =~= dec_digits(m as nat) + rev_digit_chars(lows@));
        }
    }
    let mut s: String = digit_str(m as u8).to_owned();
    let ghost whole = rev_digit_chars(lows@);
    let mut j: usize = lows.len();
    proof {
        assert(s@ =~= dec_digits(m as nat) + whole.take(lows@.len() - j));
    }
    while j > 0
        invariant
            j <= lows@.len(),
            whole == rev_digit_chars(lows@),
            dec_digits(n as nat) == dec_digits(m as nat) + whole,
            forall|i: int| 0 <= i < lows@.len() ==> (#[trigger] lows@[i]) < 10,
            s@ == dec_digits(m as nat) + whole.take(lows@.len() - j),
        decreases j,
    {
        j = j - 1;
        s.append(digit_str(lows[j]));
        proof {
            assert(whole[lows@.len() - 1 - j] == digit_char(lows@[j as int] as int));
            assert(s@ =~= dec_digits(m as nat) + whole.take(lows@.len() - j));
        }
    }
    proof {
        assert(whole.take(lows@.len() as int) =~= whole);
        assert(s@ =~= dec_digits(n as nat));
    }
    s
}

} // verus!

