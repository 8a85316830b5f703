//! Decimal digit sequences: the specification of fixed-width and plain decimal
//! renderings of numbers, and executable helpers to emit and parse them.

use vstd::prelude::*;
use vstd::string::{StrSliceExecFns, StringExecFns};

verus! {

/// 10 to the power `w`.
pub open spec fn pow10(w: nat) -> nat
    decreases w,
{
    if w == 0 {
        1
    } else {
        10 * pow10((w - 1) as nat)
    }
}

/// `c` is an ASCII decimal digit.
pub open spec fn is_digit(c: char) -> bool {
    48 <= c as int <= 57
}

/// The digit character for a value in 0..=9.
pub open spec fn digit_char(d: int) -> char {
    if d == 0 {
        '0'
    } else if d == 1 {
        '1'
    } else if d == 2 {
        '2'
    } else if d == 3 {
        '3'
    } else if d == 4 {
        '4'
    } else if d == 5 {
        '5'
    } else if d == 6 {
        '6'
    } else if d == 7 {
        '7'
    } else if d == 8 {
        '8'
    } else {
        '9'
    }
}

/// The numeric value of a digit character.
pub open spec fn digit_val(c: char) -> int {
    c as int - 48
}

/// Every character of `s` is a decimal digit.
pub open spec fn all_digits(s: Seq<char>) -> bool {
    forall|i: int| 0 <= i < s.len() ==> is_digit(#[trigger] s[i])
}

/// `n` written in decimal, zero-padded to exactly `w` digits.
pub open spec fn dec_digits(n: nat, w: nat) -> Seq<char>
    decreases w,
{
    if w == 0 {
        Seq::empty()
    } else {
        dec_digits(n / 10, (w - 1) as nat).push(digit_char((n % 10) as int))
    }
}

/// `n` written in decimal with no padding (a single `0` for zero).
pub open spec fn dec_chars(n: nat) -> Seq<char>
    decreases n,
{
    if n < 10 {
        seq![digit_char(n as int)]
    } else {
        dec_chars(n / 10).push(digit_char((n % 10) as int))
    }
}

/// The number denoted by a digit sequence, most significant digit first.
pub open spec fn num_of(s: Seq<char>) -> int
    decreases s.len(),
{
    if s.len() == 0 {
        0
    } else {
        num_of(s.drop_last()) * 10 + digit_val(s.last())
    }
}

pub proof fn lemma_digit_char_val(d: int)
    requires
        0 <= d < 10,
    ensures
        is_digit(digit_char(d)),
        digit_val(digit_char(d)) == d,
{
}

pub proof fn lemma_pow10_pos(w: nat)
    ensures
        pow10(w) >= 1,
    decreases w,
{
    if w > 0 {
        lemma_pow10_pos((w - 1) as nat);
    }
}

pub proof fn lemma_pow10_le(a: nat, b: nat)
    requires
        a <= b,
    ensures
        pow10(a) <= pow10(b),
        pow10(a) >= 1,
    decreases b,
{
    lemma_pow10_pos(a);
    if a < b {
        lemma_pow10_le(a, (b - 1) as nat);
        assert(pow10(b) == 10 * pow10((b - 1) as nat));
    }
}

pub proof fn lemma_pow10_8()
    ensures
        pow10(1) == 10,
        pow10(2) == 100,
        pow10(3) == 1000,
        pow10(4) == 10000,
        pow10(6) == 1000000,
        pow10(8) == 100000000,
        pow10(9) == 1000000000,
{
    assert(pow10(0) == 1);
    assert(pow10(1) == 10);
    assert(pow10(2) == 100);
    assert(pow10(3) == 1000);
    assert(pow10(4) == 10000);
    assert(pow10(5) == 100000);
    assert(pow10(6) == 1000000);
    assert(pow10(7) == 10000000);
    assert(pow10(8) == 100000000);
    assert(pow10(9) == 1000000000);
}

/// The fixed-width rendering of `n < 10^w` has width `w`, holds only digits,
/// and denotes `n` again.
pub proof fn lemma_dec_digits(n: nat, w: nat)
    requires
        n < pow10(w),
    ensures
        dec_digits(n, w).len() == w,
        all_digits(dec_digits(n, w)),
        num_of(dec_digits(n, w)) == n,
    decreases w,
{
    if w == 0 {
    } else {
        let w1 = (w - 1) as nat;
        assert(pow10(w) == 10 * pow10(w1));
        assert(n / 10 < pow10(w1)) by (nonlinear_arith)
            requires
                n < 10 * pow10(w1),
                pow10(w1) >= 0,
        ;
        lemma_dec_digits(n / 10, w1);
        lemma_digit_char_val((n % 10) as int);
        let s = dec_digits(n / 10, w1);
        let c = digit_char((n % 10) as int);
        assert(s.push(c).drop_last() =~= s);
        assert(s.push(c).last() == c);
        assert(num_of(s.push(c)) == (n / 10) * 10 + (n % 10));
        assert(forall|i: int|
            0 <= i < s.push(c).len() ==> is_digit(#[trigger] s.push(c)[i])) by {
            assert(forall|i: int| 0 <= i < s.len() ==> s.push(c)[i] == #[trigger] s[i]);
        }
    }
}

/// A digit sequence of width `w` denotes a number below `10^w`.
pub proof fn lemma_num_of_bound(s: Seq<char>)
    requires
        all_digits(s),
    ensures
        0 <= num_of(s) < pow10(s.len()),
    decreases s.len(),
{
    if s.len() == 0 {
    } else {
        let d = s.drop_last();
        assert(forall|i: int| 0 <= i < d.len() ==> d[i] == #[trigger] s[i]);
        lemma_num_of_bound(d);
        assert(is_digit(s.last()));
        assert(pow10(s.len()) == 10 * pow10(d.len()));
    }
}

/// The single-character string for a digit value.
pub fn digit_to_str(d: u32) -> (r: &'static str)
    requires
        d < 10,
    ensures
        r@ == seq![digit_char(d as int)],
{
    proof {
        reveal_strlit("0");
        reveal_strlit("1");
        reveal_strlit("2");
        reveal_strlit("3");
        reveal_strlit("4");
        reveal_strlit("5");
        reveal_strlit("6");
        reveal_strlit("7");
        reveal_strlit("8");
        reveal_strlit("9");
    }
    let r: &'static str = if d == 0 {
        "0"
    } else if d == 1 {
        "1"
    } else if d == 2 {
        "2"
    } else if d == 3 {
        "3"
    } else if d == 4 {
        "4"
    } else if d == 5 {
        "5"
    } else if d == 6 {
        "6"
    } else if d == 7 {
        "7"
    } else if d == 8 {
        "8"
    } else {
        "9"
    };
    proof {
        assert(r@ =~= seq![digit_char(d as int)]);
    }
    r
}

/// Appends `n` to `s`, zero-padded to exactly `width` digits.
pub fn append_padded(s: &mut String, n: u32, width: usize)
    requires
        (n as nat) < pow10(width as nat),
        width <= 9,
    ensures
        final(s)@ == old(s)@ + dec_digits(n as nat, width as nat),
    decreases width,
{
    if width == 0 {
        proof {
            assert(s@ =~= s@ + dec_digits(n as nat, 0));
        }
    } else {
        let w1 = width - 1;
        proof {
            assert(pow10(width as nat) == 10 * pow10(w1 as nat));
            assert(((n / 10) as nat) < pow10(w1 as nat)) by (nonlinear_arith)
                requires
                    (n as nat) < 10 * pow10(w1 as nat),
                    pow10(w1 as nat) >= 0,
            ;
        }
        append_padded(s, n / 10, w1);
        let ds = digit_to_str(n % 10);
        s.append(ds);
        proof {
            let mid = dec_digits((n / 10) as nat, w1 as nat);
            assert(dec_digits(n as nat, width as nat) == mid.push(digit_char((n % 10) as int)));
            assert(s@ =~= old(s)@ + dec_digits(n as nat, width as nat));
        }
    }
}

/// Appends `n` to `s` in plain decimal.
pub fn append_u64_dec(s: &mut String, n: u64)
    ensures
        final(s)@ == old(s)@ + dec_chars(n as nat),
    decreases n,
{
    if n < 10 {
        let ds = digit_to_str(n as u32);
        s.append(ds);
        proof {
            assert(s@ =~= old(s)@ + dec_chars(n as nat));
        }
    } else {
        append_u64_dec(s, n / 10);
        let ds = digit_to_str((n % 10) as u32);
        s.append(ds);
        proof {
            let mid = dec_chars((n / 10) as nat);
            assert(dec_chars(n as nat) == mid.push(digit_char((n % 10) as int)));
            assert(s@ =~= old(s)@ + dec_chars(n as nat));
        }
    }
}

/// Reads the characters of `s` in `from..to` as a decimal number, or reports
/// that one of them is not a digit.
pub fn parse_digits(s: &str, from: usize, to: usize) -> (r: Option<u32>)
    requires
        from <= to <= s@.len(),
        to - from <= 8,
    ensures
        match r {
            Some(v) => all_digits(s@.subrange(from as int, to as int)) && v as int == num_of(
                s@.subrange(from as int, to as int),
            ),
            None => !all_digits(s@.subrange(from as int, to as int)),
        },
{
    let mut i = from;
    let mut acc: u32 = 0;
    proof {
        assert(s@.subrange(from as int, from as int) =~= Seq::<char>::empty());
        lemma_pow10_8();
    }
    while i < to
        invariant
            from <= i <= to <= s@.len(),
            to - from <= 8,
            all_digits(s@.subrange(from as int, i as int)),
            acc as int == num_of(s@.subrange(from as int, i as int)),
            (acc as nat) < pow10((i - from) as nat),
            pow10(8) == 100000000,
        decreases to - i,
    {
        let c = s.get_char(i);
        let cv = c as u32;
        proof {
            assert(c as int == cv as int);
        }
        if cv < 48 || cv > 57 {
            proof {
                assert(s@.subrange(from as int, to as int)[i - from] == c);
                assert(!is_digit(c));
            }
            return None;
        }
        proof {
            let sub0 = s@.subrange(from as int, i as int);
            let sub1 = s@.subrange(from as int, (i + 1) as int);
            assert(sub1.drop_last() =~= sub0);
            assert(sub1.last() == c);
            assert(forall|k: int| 0 <= k < sub1.len() ==> sub1[k] == #[trigger] s@[from + k]);
            assert(all_digits(sub1)) by {
                assert(forall|k: int| 0 <= k < sub0.len() ==> sub1[k] == #[trigger] sub0[k]);
            }
            assert(pow10((i + 1 - from) as nat) == 10 * pow10((i - from) as nat));
            lemma_pow10_le((i + 1 - from) as nat, 8);
        }
        acc = acc * 10 + (cv - 48);
        i = i + 1;
    }
    proof {
        assert(s@.subrange(from as int, to as int) == s@.subrange(from as int, i as int));
    }
    Some(acc)
}

/// Whether `lit` is a prefix of `s`.
pub fn has_prefix(s: &str, lit: &str) -> (r: bool)
    ensures
        r <==> (lit@.len() <= s@.len() && s@.subrange(0, lit@.len() as int) == lit@),
{
    let ln = lit.unicode_len();
    let sn = s.unicode_len();
    if ln > sn {
        return false;
    }
    let mut j: usize = 0;
    while j < ln
        invariant
            j <= ln,
            ln == lit@.len(),
            sn == s@.len(),
            ln <= sn,
            forall|k: int| 0 <= k < j ==> s@[k] == lit@[k],
        decreases ln - j,
    {
        if s.get_char(j) != lit.get_char(j) {
            proof {
                assert(s@.subrange(0, lit@.len() as int)[j as int] != lit@[j as int]);
            }
            return false;
        }
        j = j + 1;
    }
    proof {
        assert(s@.subrange(0, lit@.len() as int) =~= lit@);
    }
    true
}

/// Whether two strings hold the same characters.
pub fn str_eq(a: &str, b: &str) -> (r: bool)
    ensures
        r <==> a@ == b@,
{
    let na = a.unicode_len();
    let nb = b.unicode_len();
    if na != nb {
        return false;
    }
    let mut j: usize = 0;
    while j < na
        invariant
            j <= na,
            na == a@.len(),
            nb == b@.len(),
            na == nb,
            forall|k: int| 0 <= k < j ==> a@[k] == b@[k],
        decreases na - j,
    {
        if a.get_char(j) != b.get_char(j) {
            proof {
                assert(a@[j as int] != b@[j as int]);
            }
            return false;
        }
        j = j + 1;
    }
    proof {
        assert(a@ =~= b@);
    }
    true
}

} // verus!
