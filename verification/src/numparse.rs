//! Decimal number parsing as std's `str::parse` does it.
use vstd::prelude::*;
use crate::text::chars_of;

verus! {

/// Is `c` an ASCII decimal digit?
pub open spec fn is_digit(c: char) -> bool {
    '0' <= c && c <= '9'
}

/// The value of a non-empty run of decimal digits.
pub open spec fn digits_value(d: Seq<char>) -> int
    decreases d.len(),
{
    if d.len() == 0 {
        0
    } else {
        digits_value(d.drop_last()) * 10 + (d.last() as int - '0' as int)
    }
}

/// The digits after an optional leading `sign` character.
pub open spec fn unsigned_part(s: Seq<char>, sign: char) -> Seq<char> {
    if s.len() > 0 && s[0] == sign {
        s.drop_first()
    } else {
        s
    }
}

/// A non-empty run made only of decimal digits.
pub open spec fn all_digits(d: Seq<char>) -> bool {
    d.len() > 0 && forall|i: int| 0 <= i < d.len() ==> is_digit(#[trigger] d[i])
}

/// `str::parse::<u64>`: an optional `+`, then one or more decimal digits
/// whose value fits in `u64`.
pub open spec fn spec_parse_u64(s: Seq<char>) -> Option<u64> {
    let d = unsigned_part(s, '+');
    if all_digits(d) && digits_value(d) <= u64::MAX {
        Some(digits_value(d) as u64)
    } else {
        None
    }
}

/// `str::parse::<i64>`: an optional `+` or `-`, then one or more decimal
/// digits whose signed value fits in `i64`.
pub open spec fn spec_parse_i64(s: Seq<char>) -> Option<i64> {
    if s.len() > 0 && s[0] == '-' {
        let d = s.drop_first();
        if all_digits(d) && digits_value(d) <= 0x8000_0000_0000_0000 {
            Some((-digits_value(d)) as i64)
        } else {
            None
        }
    } else {
        let d = unsigned_part(s, '+');
        if all_digits(d) && digits_value(d) <= i64::MAX {
            Some(digits_value(d) as i64)
        } else {
            None
        }
    }
}

/// A run of digits is worth at least as much as any of its prefixes.
proof fn lemma_prefix_value(d: Seq<char>, k: int)
    requires
        all_digits(d),
        0 < k <= d.len(),
    ensures
        digits_value(d.take(k)) <= digits_value(d),
        digits_value(d.take(k)) >= 0,
    decreases d.len(),
{
    lemma_value_nonneg(d);
    if k < d.len() {
        let p = d.drop_last();
        assert(all_digits(p)) by {
            assert forall|i: int| 0 <= i < p.len() implies is_digit(#[trigger] p[i]) by {
                assert(p[i] == d[i]);
            }
        }
        assert(p.take(k) =~= d.take(k));
        lemma_prefix_value(p, k);
        lemma_value_nonneg(p);
    } else {
        assert(d.take(k) =~= d);
    }
}

/// The value of a run of digits is not negative.
proof fn lemma_value_nonneg(d: Seq<char>)
    requires
        forall|i: int| 0 <= i < d.len() ==> is_digit(#[trigger] d[i]),
    ensures
        digits_value(d) >= 0,
    decreases d.len(),
{
    if d.len() > 0 {
        let p = d.drop_last();
        assert forall|i: int| 0 <= i < p.len() implies is_digit(#[trigger] p[i]) by {
            assert(p[i] == d[i]);
        }
        lemma_value_nonneg(p);
        assert(is_digit(d[d.len() - 1]));
    }
}

/// The value of the digits of `d` from `start` on, when they are all digits
/// and their value is at most `limit`.
fn digits_up_to(d: &Vec<char>, start: usize, limit: u64) -> (r: Option<u64>)
    requires
        start <= d@.len(),
        limit >= 9,
    ensures
        ({
            let t = d@.skip(start as int);
            r == if all_digits(t) && digits_value(t) <= limit {
                Some(digits_value(t) as u64)
            } else {
                None
            }
        }),
        r matches Some(v) ==> v <= limit && v as int == digits_value(d@.skip(start as int)),
{
    let ghost t = d@.skip(start as int);
    if start == d.len() {
        return None;
    }
    let mut acc: u64 = 0;
    let mut i: usize = start;
    assert(t.take(0) =~= Seq::<char>::empty());
    while i < d.len()
        invariant
            start <= i <= d@.len(),
            start < d@.len(),
            t == d@.skip(start as int),
            forall|j: int| 0 <= j < i - start ==> is_digit(#[trigger] t[j]),
            acc == digits_value(t.take(i - start)),
            acc <= limit,
            limit >= 9,
        decreases d@.len() - i,
    {
        let c = d[i];
        assert(t[i - start] == c);
        if !('0' <= c && c <= '9') {
            return None;
        }
        let digit: u64 = (c as u32 - '0' as u32) as u64;
        assert(digit <= 9);
        let ghost k: int = i - start + 1;
        assert(t.take(k).drop_last() =~= t.take(k - 1));
        assert(t.take(k).last() == c);
        assert(digits_value(t.take(k)) == acc * 10 + digit);
        if acc > (limit - digit) / 10 {
            assert(acc * 10 + digit > limit) by (nonlinear_arith)
                requires
                    acc > (limit - digit) / 10,
                    digit <= limit,
            {
            }
            proof {
                if all_digits(t) {
                    lemma_prefix_value(t, k);
                }
            }
            return None;
        }
        assert(acc * 10 + digit <= limit) by (nonlinear_arith)
            requires
                acc <= (limit - digit) / 10,
                digit <= limit,
        {
        }
        acc = acc * 10 + digit;
        i = i + 1;
    }
    assert(t.take(i - start) =~= t);
    Some(acc)
}

/// `str::parse::<u64>` as std does it, with the error mapped to `None`.
pub fn parse_u64(s: &str) -> (r: Option<u64>)
    ensures
        r == spec_parse_u64(s@),
{
    let d = chars_of(s);
    let start: usize = if d.len() > 0 && d[0] == '+' { 1 } else { 0 };
    assert(d@.skip(start as int) =~= unsigned_part(s@, '+'));
    digits_up_to(&d, start, u64::MAX)
}

/// `str::parse::<i64>` as std does it, with the error mapped to `None`.
pub fn parse_i64(s: &str) -> (r: Option<i64>)
    ensures
        r == spec_parse_i64(s@),
{
    let d = chars_of(s);
    if d.len() > 0 && d[0] == '-' {
        assert(d@.skip(1) =~= s@.drop_first());
        match digits_up_to(&d, 1, 0x8000_0000_0000_0000) {
            None => None,
            Some(v) => {
                if v == 0x8000_0000_0000_0000 {
                    Some(i64::MIN)
                } else {
                    assert(v < 0x8000_0000_0000_0000);
                    let w: i64 = v as i64;
                    Some(-w)
                }
            },
        }
    } else {
        let start: usize = if d.len() > 0 && d[0] == '+' { 1 } else { 0 };
        assert(d@.skip(start as int) =~= unsigned_part(s@, '+'));
        match digits_up_to(&d, start, 0x7fff_ffff_ffff_ffff) {
            None => None,
            Some(v) => {
                assert(v <= 0x7fff_ffff_ffff_ffff);
                let w: i64 = v as i64;
                Some(w)
            },
        }
    }
}

} // verus!
