use vstd::prelude::*;

use crate::text::{chars_of, lacks, push_char};

verus! {

broadcast use vstd::string::group_string_axioms;

/// `c` is an ASCII decimal digit.
pub open spec fn is_digit(c: char) -> bool {
    '0' <= c <= '9'
}

/// Every character of `d` is a decimal digit.
pub open spec fn all_digits(d: Seq<char>) -> bool {
    forall|i: int| 0 <= i < d.len() ==> is_digit(#[trigger] d[i])
}

/// The number the decimal digits `d` write.
pub open spec fn digits_value(d: Seq<char>) -> int
    decreases d.len(),
{
    if d.len() == 0 {
        0
    } else {
        digits_value(d.drop_last()) * 10 + (d.last() as int - '0' as int)
    }
}

/// The integer a decimal text writes: an optional `+` or `-`, then one digit or more.
pub open spec fn decimal_value(s: Seq<char>) -> Option<int> {
    if s.len() > 0 && (s[0] == '+' || s[0] == '-') {
        let d = s.drop_first();
        if d.len() > 0 && all_digits(d) {
            Some(
                if s[0] == '-' {
                    -digits_value(d)
                } else {
                    digits_value(d)
                },
            )
        } else {
            None
        }
    } else if s.len() > 0 && all_digits(s) {
        Some(digits_value(s))
    } else {
        None
    }
}

/// What `str::parse::<i64>` gives for `s`.
pub open spec fn parsed_i64(s: Seq<char>) -> Option<i64> {
    match decimal_value(s) {
        Some(v) => if i64::MIN <= v <= i64::MAX {
            Some(v as i64)
        } else {
            None
        },
        None => None,
    }
}

/// What `str::parse::<u16>` gives for `s`: as for `i64`, but a `-` sign is refused.
pub open spec fn parsed_u16(s: Seq<char>) -> Option<u16> {
    if s.len() > 0 && s[0] == '-' {
        None
    } else {
        match decimal_value(s) {
            Some(v) => if 0 <= v <= u16::MAX {
                Some(v as u16)
            } else {
                None
            },
            None => None,
        }
    }
}

proof fn lemma_digits_value_nonneg(d: Seq<char>)
    requires
        all_digits(d),
    ensures
        digits_value(d) >= 0,
    decreases d.len(),
{
    if d.len() > 0 {
        assert(all_digits(d.drop_last())) by {
            assert forall|i: int| 0 <= i < d.drop_last().len() implies is_digit(
                #[trigger] d.drop_last()[i],
            ) by {
                assert(is_digit(d[i]));
            }
        }
        lemma_digits_value_nonneg(d.drop_last());
        assert(is_digit(d[d.len() - 1]));
    }
}

/// The value of the digits `v[lo..hi]`, or `None` when they are not all digits or write a
/// number above `bound`.
fn digits_up_to(v: &[char], lo: usize, hi: usize, bound: u64) -> (r: Option<u64>)
    requires
        lo <= hi <= v@.len(),
        9 <= bound <= 0x8000_0000_0000_0000,
    ensures
        match r {
            Some(n) => all_digits(v@.subrange(lo as int, hi as int)) && n == digits_value(
                v@.subrange(lo as int, hi as int),
            ) && n <= bound,
            None => !all_digits(v@.subrange(lo as int, hi as int)) || digits_value(
                v@.subrange(lo as int, hi as int),
            ) > bound,
        },
{
    let mut acc: u64 = 0;
    let mut i = lo;
    assert(v@.subrange(lo as int, lo as int) =~= Seq::<char>::empty());
    while i < hi
        invariant
            lo <= i <= hi <= v@.len(),
            9 <= bound <= 0x8000_0000_0000_0000,
            all_digits(v@.subrange(lo as int, i as int)),
            acc == digits_value(v@.subrange(lo as int, i as int)),
            acc <= bound,
        decreases hi - i,
    {
        let c = v[i];
        let ghost sub = v@.subrange(lo as int, i + 1);
        assert(sub.drop_last() =~= v@.subrange(lo as int, i as int));
        if !('0' <= c && c <= '9') {
            proof {
                let whole = v@.subrange(lo as int, hi as int);
                assert(whole[i - lo] == c);
                assert(!is_digit(whole[i - lo]));
            }
            return None;
        }
        let d = (c as u32 - '0' as u32) as u64;
        assert(all_digits(sub)) by {
            assert forall|k: int| 0 <= k < sub.len() implies is_digit(#[trigger] sub[k]) by {
                if k < sub.len() - 1 {
                    assert(sub[k] == v@.subrange(lo as int, i as int)[k]);
                }
            }
        }
        if acc > (bound - d) / 10 {
            proof {
                assert(digits_value(sub) > bound) by (nonlinear_arith)
                    requires
                        digits_value(sub) == acc * 10 + d,
                        acc > (bound - d) / 10,
                        d <= 9,
                        acc >= 0,
                ;
                lemma_tail_grows(v@, lo as int, i + 1, hi as int);
            }
            return None;
        }
        proof {
            assert(acc * 10 + d <= bound) by (nonlinear_arith)
                requires
                    acc <= (bound - d) / 10,
                    d <= 9,
                    9 <= bound,
            ;
        }
        acc = acc * 10 + d;
        i = i + 1;
    }
    Some(acc)
}

proof fn lemma_tail_grows(v: Seq<char>, lo: int, j: int, hi: int)
    requires
        0 <= lo <= j <= hi <= v.len(),
        all_digits(v.subrange(lo, j)),
    ensures
        all_digits(v.subrange(lo, hi)) ==> digits_value(v.subrange(lo, hi)) >= digits_value(
            v.subrange(lo, j),
        ),
    decreases hi - j,
{
    if j < hi && all_digits(v.subrange(lo, hi)) {
        let sub = v.subrange(lo, j + 1);
        assert(sub.drop_last() =~= v.subrange(lo, j));
        assert(all_digits(sub)) by {
            assert forall|k: int| 0 <= k < sub.len() implies is_digit(#[trigger] sub[k]) by {
                assert(sub[k] == v.subrange(lo, hi)[k]);
            }
        }
        assert(is_digit(sub[sub.len() - 1]));
        lemma_digits_value_nonneg(v.subrange(lo, j));
        lemma_tail_grows(v, lo, j + 1, hi);
    }
}

/// `str::parse::<i64>`.
pub fn parse_i64(s: &str) -> (r: Option<i64>)
    ensures
        r == parsed_i64(s@),
{
    let v = chars_of(s);
    let n = v.len();
    if n == 0 {
        return None;
    }
    let (neg, lo) = if v[0] == '-' {
        (true, 1usize)
    } else if v[0] == '+' {
        (false, 1usize)
    } else {
        (false, 0usize)
    };
    if lo == n {
        return None;
    }
    proof {
        assert(v@.subrange(1, n as int) =~= v@.drop_first());
        assert(v@.subrange(0, n as int) =~= v@);
    }
    let bound: u64 = if neg {
        0x8000_0000_0000_0000
    } else {
        0x7fff_ffff_ffff_ffff
    };
    match digits_up_to(v.as_slice(), lo, n, bound) {
        Some(m) => {
            if neg {
                if m == 0x8000_0000_0000_0000 {
                    Some(i64::MIN)
                } else {
                    Some(-(m as i64))
                }
            } else {
                Some(m as i64)
            }
        },
        None => None,
    }
}

/// `str::parse::<u16>`.
pub fn parse_u16(s: &str) -> (r: Option<u16>)
    ensures
        r == parsed_u16(s@),
{
    let v = chars_of(s);
    let n = v.len();
    if n == 0 || v[0] == '-' {
        return None;
    }
    let lo: usize = if v[0] == '+' {
        1
    } else {
        0
    };
    if lo == n {
        return None;
    }
    proof {
        assert(v@.subrange(1, n as int) =~= v@.drop_first());
        assert(v@.subrange(0, n as int) =~= v@);
    }
    match digits_up_to(v.as_slice(), lo, n, 65535) {
        Some(m) => Some(m as u16),
        None => None,
    }
}

/// The decimal digit character for `d`.
pub open spec fn digit_char(d: int) -> char {
    ('0' as int + d) as char
}

/// The decimal text of a natural number, without leading zeros.
pub open spec fn nat_text(n: nat) -> Seq<char>
    decreases n,
{
    if n < 10 {
        seq![digit_char(n as int)]
    } else {
        nat_text(n / 10) + seq![digit_char((n % 10) as int)]
    }
}

/// The decimal text `i64`'s `Display` writes: `-` for negatives, then the magnitude.
pub open spec fn int_text(n: int) -> Seq<char> {
    if n < 0 {
        seq!['-'] + nat_text((-n) as nat)
    } else {
        nat_text(n as nat)
    }
}

pub(crate) fn push_nat(s: &mut String, n: u64)
    ensures
        final(s)@ == old(s)@ + nat_text(n as nat),
    decreases n,
{
    if n < 10 {
        push_char(s, ((48u64 + n) as u8) as char);
        assert(old(s)@.push(((48u64 + n) as u8) as char) =~= old(s)@ + nat_text(n as nat));
    } else {
        push_nat(s, n / 10);
        let d = n % 10;
        push_char(s, ((48u64 + d) as u8) as char);
        assert(old(s)@ + nat_text((n / 10) as nat) + seq![((48u64 + d) as u8) as char] =~= old(s)@
            + nat_text(n as nat));
    }
}

/// The decimal text of a natural number holds digits only, and reads back as that number.
pub proof fn lemma_nat_text_reads_back(n: nat)
    ensures
        all_digits(nat_text(n)),
        nat_text(n).len() > 0,
        digits_value(nat_text(n)) == n,
    decreases n,
{
    if n >= 10 {
        lemma_nat_text_reads_back(n / 10);
        let t = nat_text(n / 10);
        let d = seq![digit_char((n % 10) as int)];
        assert((t + d).drop_last() =~= t);
        assert((t + d).last() == digit_char((n % 10) as int));
        assert forall|i: int| 0 <= i < (t + d).len() implies is_digit(#[trigger] (t + d)[i]) by {
            if i < t.len() {
                assert((t + d)[i] == t[i]);
            }
        }
        assert(n == (n / 10) * 10 + n % 10) by (nonlinear_arith);
        assert(digit_char((n % 10) as int) as int == '0' as int + n % 10);
        assert(digits_value(t + d) == digits_value(t) * 10 + (n % 10));
        assert(nat_text(n) == t + d);
        assert(digits_value(t) == n / 10);
    } else {
        let t = nat_text(n);
        assert(t.drop_last() =~= Seq::<char>::empty());
        assert(digits_value(Seq::<char>::empty()) == 0);
        assert(digit_char(n as int) as int == '0' as int + n);
        assert(digits_value(t) == digits_value(t.drop_last()) * 10 + (t.last() as int - '0' as int));
    }
}

/// The decimal text of an integer holds no comma.
pub proof fn lemma_int_text_lacks_comma(n: int)
    ensures
        lacks(int_text(n), ','),
{
    if n < 0 {
        lemma_nat_text_reads_back((-n) as nat);
        let t = nat_text((-n) as nat);
        assert forall|i: int| 0 <= i < int_text(n).len() implies int_text(n)[i] != ',' by {
            if i > 0 {
                assert(int_text(n)[i] == t[i - 1]);
                assert(is_digit(t[i - 1]));
            }
        }
    } else {
        lemma_nat_text_reads_back(n as nat);
        assert forall|i: int| 0 <= i < int_text(n).len() implies int_text(n)[i] != ',' by {
            assert(is_digit(nat_text(n as nat)[i]));
        }
    }
}

/// `i64::to_string`.
pub fn i64_text(n: i64) -> (s: String)
    ensures
        s@ == int_text(n as int),
{
    let mut s = String::new();
    if n < 0 {
        push_char(&mut s, '-');
        let m: u64 = if n == i64::MIN {
            0x8000_0000_0000_0000
        } else {
            (-n) as u64
        };
        push_nat(&mut s, m);
    } else {
        push_nat(&mut s, n as u64);
        assert(s@ =~= int_text(n as int));
    }
    s
}

/// `u16::to_string`.
pub fn u16_text(n: u16) -> (s: String)
    ensures
        s@ == int_text(n as int),
{
    let mut s = String::new();
    push_nat(&mut s, n as u64);
    assert(s@ =~= int_text(n as int));
    s
}

} // verus!
