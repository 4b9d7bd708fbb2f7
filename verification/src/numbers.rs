//! Verified decimal codec for 32-bit integers: parsing integer literals and
//! rendering values back to decimal text.

use vstd::prelude::*;
use vstd::string::{StrSliceExecFns, StringExecFns};

verus! {

pub open spec fn is_digit(c: char) -> bool {
    48 <= (c as u32) && (c as u32) <= 57
}

pub open spec fn digit_val(c: char) -> int {
    (c as u32) as int - 48
}

pub open spec fn all_digits(s: Seq<char>) -> bool {
    forall|i: int| 0 <= i < s.len() ==> is_digit(#[trigger] s[i])
}

/// The value of a digit string, most significant digit first.
pub open spec fn digits_val(s: Seq<char>) -> int
    decreases s.len(),
{
    if s.len() == 0 {
        0
    } else {
        digits_val(s.drop_last()) * 10 + digit_val(s.last())
    }
}

/// What `str::parse::<i32>` accepts: an optional sign followed by at least
/// one digit, the whole string, with the value in `i32` range.
pub open spec fn int_of_text(s: Seq<char>) -> Option<i32> {
    if s.len() == 0 {
        None
    } else {
        let neg = s[0] == '-';
        let ds = if s[0] == '-' || s[0] == '+' {
            s.drop_first()
        } else {
            s
        };
        if ds.len() == 0 || !all_digits(ds) {
            None
        } else {
            let v = if neg {
                -digits_val(ds)
            } else {
                digits_val(ds)
            };
            if i32::MIN <= v <= i32::MAX {
                Some(v as i32)
            } else {
                None
            }
        }
    }
}

pub proof fn lemma_digits_val_nonneg(s: Seq<char>)
    requires
        all_digits(s),
    ensures
        digits_val(s) >= 0,
    decreases s.len(),
{
    if s.len() > 0 {
        lemma_digits_val_nonneg(s.drop_last());
    }
}

/// Extending a digit string on the right never shrinks its value.
pub proof fn lemma_digits_val_prefix(s: Seq<char>, k: int)
    requires
        all_digits(s),
        0 <= k <= s.len(),
    ensures
        digits_val(s.subrange(0, k)) <= digits_val(s),
    decreases s.len() - k,
{
    if k < s.len() {
        lemma_digits_val_prefix(s, k + 1);
        let p = s.subrange(0, k);
        let q = s.subrange(0, k + 1);
        assert(q.drop_last() =~= p);
        assert(all_digits(p));
        lemma_digits_val_nonneg(p);
    } else {
        assert(s.subrange(0, k) =~= s);
    }
}

/// A digit string whose value has left `i32` range parses as `None`,
/// whatever the sign.
proof fn lemma_int_of_text_overflow(s: Seq<char>, ds: Seq<char>, start: int)
    requires
        s.len() > 0,
        start == (if s[0] == '-' || s[0] == '+' { 1int } else { 0int }),
        start < s.len(),
        ds == s.subrange(start, s.len() as int),
        all_digits(ds),
        digits_val(ds) > 0x8000_0000u64,
    ensures
        int_of_text(s) is None,
{
    assert(ds.len() > 0);
    if s[0] == '-' || s[0] == '+' {
        assert(s.drop_first() =~= ds);
    } else {
        assert(s.subrange(0, s.len() as int) =~= s);
    }
    if s[0] == '-' {
        assert(-digits_val(ds) < i32::MIN);
    } else {
        assert(digits_val(ds) > i32::MAX);
    }
}

/// Parses an integer literal exactly as `str::parse::<i32>` does.
pub fn parse_int(s: &str) -> (r: Option<i32>)
    ensures
        r == int_of_text(s@),
{
    let n = s.unicode_len();
    if n == 0 {
        return None;
    }
    let c0 = s.get_char(0);
    let neg = c0 == '-';
    let start: usize = if c0 == '-' || c0 == '+' {
        1
    } else {
        0
    };
    let ghost ds = if s@[0] == '-' || s@[0] == '+' {
        s@.drop_first()
    } else {
        s@
    };
    proof {
        assert(ds =~= s@.subrange(start as int, n as int));
    }
    if start == n {
        return None;
    }
    let mut acc: u64 = 0;
    let mut i: usize = start;
    while i < n
        invariant
            start <= i <= n,
            n == s@.len(),
            start == (if s@[0] == '-' || s@[0] == '+' { 1int } else { 0int }),
            ds == s@.subrange(start as int, n as int),
            all_digits(s@.subrange(start as int, i as int)),
            acc == digits_val(s@.subrange(start as int, i as int)),
            acc <= 0x8000_0000u64,
        decreases n - i,
    {
        let c = s.get_char(i);
        let cu = c as u32;
        if cu < 48 || cu > 57 {
            proof {
                assert(!is_digit(s@[i as int]));
                assert(0 <= i - start < ds.len());
                assert(ds[i - start] == s@[i as int]);
                assert(!all_digits(ds));
            }
            return None;
        }
        let d: u64 = (cu - 48) as u64;
        proof {
            let p = s@.subrange(start as int, i as int);
            let q = s@.subrange(start as int, i + 1);
            assert(q.drop_last() =~= p);
            assert(q.last() == s@[i as int]);
            assert(is_digit(s@[i as int]));
            assert(forall|j: int| 0 <= j < q.len() ==> is_digit(#[trigger] q[j]));
            assert(digits_val(q) == digits_val(p) * 10 + digit_val(s@[i as int]));
        }
        acc = acc * 10 + d;
        i = i + 1;
        if acc > 0x8000_0000u64 {
            // The value can only keep growing, so it is already out of range
            // for either sign; whether or not the remaining characters are
            // digits, the parse comes out `None`.
            proof {
                let p = s@.subrange(start as int, i as int);
                assert(acc == digits_val(p));
                if all_digits(ds) {
                    lemma_digits_val_prefix(ds, i - start);
                    assert(ds.subrange(0, i - start) =~= p);
                    assert(digits_val(ds) >= digits_val(p));
                    lemma_int_of_text_overflow(s@, ds, start as int);
                } else {
                    assert(int_of_text(s@) is None);
                }
            }
            return None;
        }
    }
    proof {
        assert(s@.subrange(start as int, n as int) =~= ds);
        lemma_digits_val_nonneg(ds);
    }
    if neg {
        if acc > 0x8000_0000u64 {
            return None;
        }
        Some((-(acc as i64)) as i32)
    } else {
        if acc > 0x7FFF_FFFFu64 {
            return None;
        }
        Some(acc as i32)
    }
}

pub proof fn lemma_digit_char_val(d: int)
    requires
        0 <= d < 10,
    ensures
        digit_val(digit_char(d)) == d,
        is_digit(digit_char(d)),
{
    assert(('0' as u32) == 48 && ('1' as u32) == 49 && ('2' as u32) == 50 && ('3' as u32) == 51
        && ('4' as u32) == 52 && ('5' as u32) == 53 && ('6' as u32) == 54 && ('7' as u32) == 55
        && ('8' as u32) == 56 && ('9' as u32) == 57);
}

pub open spec fn digit_char(d: int) -> char {
    if d == 0 {
        '0'
    } else if d == 1 {
        '1'
    } else if d == 2 {
        '2'
    } else if d == 3 {
        '3'
    } else if d == 4 {
        '4'
    } else if d == 5 {
        '5'
    } else if d == 6 {
        '6'
    } else if d == 7 {
        '7'
    } else if d == 8 {
        '8'
    } else {
        '9'
    }
}

/// The decimal rendering of an integer: a possible `-` sign, then the digits
/// most significant first, without leading zeroes.
pub open spec fn dec_str(n: int) -> Seq<char>
    decreases (if n < 0 {
        1 - n
    } else {
        n
    }),
{
    if n < 0 {
        seq!['-'] + dec_str(-n)
    } else if n < 10 {
        seq![digit_char(n)]
    } else {
        dec_str(n / 10) + seq![digit_char(n % 10)]
    }
}

fn push_digit(s: &mut String, d: u32)
    requires
        d < 10,
    ensures
        final(s)@ == old(s)@ + seq![digit_char(d as int)],
{
    proof {
        reveal_strlit("0");
        reveal_strlit("1");
        reveal_strlit("2");
        reveal_strlit("3");
        reveal_strlit("4");
        reveal_strlit("5");
        reveal_strlit("6");
        reveal_strlit("7");
        reveal_strlit("8");
        reveal_strlit("9");
    }
    if d == 0 {
        s.append("0");
    } else if d == 1 {
        s.append("1");
    } else if d == 2 {
        s.append("2");
    } else if d == 3 {
        s.append("3");
    } else if d == 4 {
        s.append("4");
    } else if d == 5 {
        s.append("5");
    } else if d == 6 {
        s.append("6");
    } else if d == 7 {
        s.append("7");
    } else if d == 8 {
        s.append("8");
    } else {
        s.append("9");
    }
    proof {
        assert(s@ =~= old(s)@ + seq![digit_char(d as int)]);
    }
}

fn push_digits(s: &mut String, m: u32)
    ensures
        final(s)@ == old(s)@ + dec_str(m as int),
    decreases m,
{
    if m >= 10 {
        push_digits(s, m / 10);
    }
    push_digit(s, m % 10);
    proof {
        assert(s@ =~= old(s)@ + dec_str(m as int));
    }
}

/// Renders an `i32` in decimal, exactly as `dec_str` describes.
pub fn int_text(n: i32) -> (r: String)
    ensures
        r@ == dec_str(n as int),
{
    let mut s = String::new();
    if n < 0 {
        proof {
            reveal_strlit("-");
        }
        s.append("-");
        let m: u32 = if n == i32::MIN {
            0x8000_0000u32
        } else {
            (-n) as u32
        };
        push_digits(&mut s, m);
        proof {
            assert(s@ =~= dec_str(n as int));
        }
    } else {
        push_digits(&mut s, n as u32);
    }
    s
}

/// Rendering inverts parsing: the decimal text of a non-negative `i32` reads
/// back as the same value.
pub proof fn lemma_int_round_trip(n: i32)
    requires
        n >= 0,
    ensures
        int_of_text(dec_str(n as int)) == Some(n),
{
    lemma_dec_str_digits(n as int);
    lemma_digits_of_dec_str(n as int);
    let s = dec_str(n as int);
    assert(s[0] != '-' && s[0] != '+') by {
        lemma_dec_str_shape(n as int);
    }
}

/// The rendering of a non-negative value consists of digits only.
pub proof fn lemma_dec_str_digits(n: int)
    requires
        n >= 0,
    ensures
        all_digits(dec_str(n)),
        dec_str(n).len() >= 1,
    decreases n,
{
    if n < 10 {
        assert(is_digit(dec_str(n)[0]));
    } else {
        lemma_dec_str_digits(n / 10);
        assert forall|i: int| 0 <= i < dec_str(n).len() implies is_digit(
            #[trigger] dec_str(n)[i],
        ) by {
            if i < dec_str(n / 10).len() {
                assert(dec_str(n)[i] == dec_str(n / 10)[i]);
            } else {
                assert(dec_str(n)[i] == digit_char(n % 10));
            }
        }
    }
}

/// The first character of a non-negative rendering is a digit.
pub proof fn lemma_dec_str_shape(n: int)
    requires
        n >= 0,
    ensures
        is_digit(dec_str(n)[0]),
        dec_str(n)[0] != '-',
        dec_str(n)[0] != '+',
    decreases n,
{
    lemma_dec_str_digits(n);
    assert(is_digit(dec_str(n)[0]));
}

/// The digits of the rendering read back as the value itself.
pub proof fn lemma_digits_of_dec_str(n: int)
    requires
        n >= 0,
    ensures
        digits_val(dec_str(n)) == n,
    decreases n,
{
    let s0 = dec_str(n);
    if n < 10 {
        lemma_digit_char_val(n);
        assert(digits_val(s0) == digits_val(s0.drop_last()) * 10 + digit_val(s0.last()));
        assert(s0.drop_last() =~= Seq::<char>::empty());
        assert(s0.last() == digit_char(n));
    } else {
        lemma_digits_of_dec_str(n / 10);
        lemma_digit_char_val(n % 10);
        assert(digits_val(s0) == digits_val(s0.drop_last()) * 10 + digit_val(s0.last()));
        assert(s0.drop_last() =~= dec_str(n / 10));
        assert(s0.last() == digit_char(n % 10));
    }
}

} // verus!
