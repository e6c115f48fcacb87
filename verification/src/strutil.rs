use vstd::prelude::*;
use vstd::string::*;

verus! {

/// Equality of two string slices, decided character by character.
pub fn str_eq(a: &str, b: &str) -> (r: bool)
    ensures
        r == (a@ == b@),
{
    let la = a.unicode_len();
    let lb = b.unicode_len();
    if la != lb {
        return false;
    }
    let mut i: usize = 0;
    while i < la
        invariant
            la == a@.len(),
            lb == b@.len(),
            la == lb,
            0 <= i <= la,
            forall|j: int| 0 <= j < i ==> a@[j] == b@[j],
        decreases la - i,
    {
        if a.get_char(i) != b.get_char(i) {
            return false;
        }
        i += 1;
    }
    proof {
        assert(a@ =~= b@);
    }
    true
}

/// The character of one decimal digit.
pub open spec fn dec_digit_char(d: nat) -> char {
    if d == 0 {
        '0'
    } else if d == 1 {
        '1'
    } else if d == 2 {
        '2'
    } else if d == 3 {
        '3'
    } else if d == 4 {
        '4'
    } else if d == 5 {
        '5'
    } else if d == 6 {
        '6'
    } else if d == 7 {
        '7'
    } else if d == 8 {
        '8'
    } else {
        '9'
    }
}

/// The decimal numeral of a number, without leading zeros.
pub open spec fn dec_str(n: nat) -> Seq<char>
    decreases n,
{
    if n < 10 {
        seq![dec_digit_char(n)]
    } else {
        dec_str(n / 10).push(dec_digit_char(n % 10))
    }
}

fn digit_str(d: u64) -> (s: &'static str)
    requires
        d < 10,
    ensures
        s@ == seq![dec_digit_char(d as nat)],
{
    proof {
        reveal_strlit("0");
        reveal_strlit("1");
        reveal_strlit("2");
        reveal_strlit("3");
        reveal_strlit("4");
        reveal_strlit("5");
        reveal_strlit("6");
        reveal_strlit("7");
        reveal_strlit("8");
        reveal_strlit("9");
    }
    let s: &'static str = match d {
        0 => "0",
        1 => "1",
        2 => "2",
        3 => "3",
        4 => "4",
        5 => "5",
        6 => "6",
        7 => "7",
        8 => "8",
        _ => "9",
    };
    proof {
        assert(s@ =~= seq![dec_digit_char(d as nat)]);
    }
    s
}

/// The digits of a numeral read back to front.
spec fn rev_digits(ds: Seq<u64>) -> Seq<char> {
    Seq::new(ds.len(), |i: int| dec_digit_char(ds[ds.len() - 1 - i] as nat))
}

/// A number written as its decimal numeral.
pub fn u64_to_string(n: u64) -> (s: String)
    ensures
        s@ == dec_str(n as nat),
{
    let mut rev: Vec<u64> = Vec::new();
    rev.push(n % 10);
    let mut m = n / 10;
    proof {
        assert(rev_digits(rev@) =~= seq![dec_digit_char((n % 10) as nat)]);
        if m == 0 {
            assert(dec_str(n as nat) == rev_digits(rev@));
        } else {
            assert(dec_str(n as nat) == dec_str((n / 10) as nat).push(
                dec_digit_char((n % 10) as nat),
            ));
            assert(dec_str((n / 10) as nat).push(dec_digit_char((n % 10) as nat)) =~= dec_str(
                (n / 10) as nat,
            ) + rev_digits(rev@));
        }
    }
    while m != 0
        invariant
            rev@.len() >= 1,
            forall|i: int| 0 <= i < rev@.len() ==> #[trigger] rev@[i] < 10,
            dec_str(n as nat) == (if m == 0 {
                rev_digits(rev@)
            } else {
                dec_str(m as nat) + rev_digits(rev@)
            }),
        decreases m,
    {
        let d = m % 10;
        let ghost prev = rev@;
        rev.push(d);
        let m2 = m / 10;
        proof {
            assert(rev_digits(prev.push(d)) =~= seq![dec_digit_char(d as nat)] + rev_digits(prev));
            if m2 == 0 {
                assert(m < 10);
                assert(dec_str(m as nat) == seq![dec_digit_char(d as nat)]);
                assert(dec_str(m as nat) + rev_digits(prev) =~= rev_digits(prev.push(d)));
            } else {
                assert(dec_str(m as nat) == dec_str(m2 as nat).push(dec_digit_char(d as nat)));
                assert(dec_str(m2 as nat).push(dec_digit_char(d as nat)) =~= dec_str(m2 as nat)
                    + seq![dec_digit_char(d as nat)]);
                assert((dec_str(m2 as nat) + seq![dec_digit_char(d as nat)]) + rev_digits(prev)
                    =~= dec_str(m2 as nat) + rev_digits(prev.push(d)));
            }
        }
        m = m2;
    }
    let mut s = String::new();
    let mut k = rev.len();
    proof {
        assert(s@ =~= rev_digits(rev@).subrange(0, 0));
    }
    while k > 0
        invariant
            k <= rev@.len(),
            forall|i: int| 0 <= i < rev@.len() ==> #[trigger] rev@[i] < 10,
            dec_str(n as nat) == rev_digits(rev@),
            s@ == rev_digits(rev@).subrange(0, rev@.len() - k),
        decreases k,
    {
        k -= 1;
        let d = rev[k];
        s.append(digit_str(d));
        proof {
            let full = rev_digits(rev@);
            let done = rev@.len() - k;
            assert(full[done - 1] == dec_digit_char(rev@[k as int] as nat));
            assert(full.subrange(0, done - 1).push(full[done - 1]) =~= full.subrange(0, done));
            assert(s@ =~= full.subrange(0, done));
        }
    }
    proof {
        assert(rev_digits(rev@).subrange(0, rev@.len() as int) =~= rev_digits(rev@));
    }
    s
}

/// A port number written as its decimal numeral.
pub fn u16_to_string(n: u16) -> (s: String)
    ensures
        s@ == dec_str(n as nat),
{
    u64_to_string(n as u64)
}

/// A decimal digit character.
pub open spec fn is_dec_digit(c: char) -> bool {
    '0' <= c && c <= '9'
}

/// Every character of a decimal numeral is a digit, and there is at least
/// one.
pub proof fn lemma_dec_str_digits(n: nat)
    ensures
        dec_str(n).len() >= 1,
        forall|q: int| 0 <= q < dec_str(n).len() ==> is_dec_digit(#[trigger] dec_str(n)[q]),
    decreases n,
{
    if n >= 10 {
        lemma_dec_str_digits(n / 10);
    }
}

/// Two distinct numbers have distinct decimal numerals.
pub proof fn lemma_dec_str_injective(a: nat, b: nat)
    requires
        dec_str(a) == dec_str(b),
    ensures
        a == b,
    decreases a + b,
{
    lemma_dec_str_digits(a / 10);
    lemma_dec_str_digits(b / 10);
    if a < 10 && b < 10 {
        assert(dec_str(a)[0] == dec_digit_char(a));
        assert(dec_str(b)[0] == dec_digit_char(b));
    } else if a >= 10 && b >= 10 {
        assert(dec_str(a).last() == dec_digit_char(a % 10));
        assert(dec_str(b).last() == dec_digit_char(b % 10));
        assert(dec_str(a / 10).push(dec_digit_char(a % 10)).drop_last() =~= dec_str(a / 10));
        assert(dec_str(b / 10).push(dec_digit_char(b % 10)).drop_last() =~= dec_str(b / 10));
        assert(dec_str(a / 10) == dec_str(b / 10));
        lemma_dec_str_injective(a / 10, b / 10);
    } else {
        // one numeral has one character, the other at least two
        if a < 10 {
            assert(dec_str(a).len() == 1);
            assert(dec_str(b) == dec_str(b / 10).push(dec_digit_char(b % 10)));
            assert(dec_str(b).len() >= 2);
        } else {
            assert(dec_str(b).len() == 1);
            assert(dec_str(a) == dec_str(a / 10).push(dec_digit_char(a % 10)));
            assert(dec_str(a).len() >= 2);
        }
        assert(false);
    }
}

} // verus!
