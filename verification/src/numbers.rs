//! Decimal numbers: parsing as `u32::from_str`/`u64::from_str` accept them,
//! and formatting as `Display` writes them.
use vstd::prelude::*;

verus! {

/// Whether `c` is an ASCII decimal digit.
pub open spec fn is_digit(c: char) -> bool {
    '0' <= c && c <= '9'
}

/// The value of an ASCII decimal digit.
pub open spec fn digit_value(c: char) -> int {
    (c as int) - ('0' as int)
}

/// Whether every character of `p` is a decimal digit.
pub open spec fn all_digits(p: Seq<char>) -> bool {
    forall|i: int| 0 <= i < p.len() ==> is_digit(#[trigger] p[i])
}

/// The value of a string of decimal digits, most significant first.
pub open spec fn digits_value(p: Seq<char>) -> int
    decreases p.len(),
{
    if p.len() == 0 {
        0
    } else {
        digits_value(p.drop_last()) * 10 + digit_value(p.last())
    }
}

/// The digits of an unsigned-integer literal: `p` without one leading `+`.
pub open spec fn unsigned_digits(p: Seq<char>) -> Seq<char> {
    if p.len() > 0 && p[0] == '+' {
        p.drop_first()
    } else {
        p
    }
}

/// What `from_str` of an unsigned integer type whose largest value is `max`
/// gives for `p`: an optional `+`, then one or more decimal digits whose value
/// is at most `max`.
pub open spec fn parse_unsigned(p: Seq<char>, max: int) -> Option<int> {
    let d = unsigned_digits(p);
    if d.len() > 0 && all_digits(d) && digits_value(d) <= max {
        Some(digits_value(d))
    } else {
        None
    }
}

/// The character of a digit value below ten.
pub open spec fn digit_char(n: nat) -> char {
    (('0' as nat) + n) as char
}

/// The decimal representation of `n`, as `Display` writes an unsigned integer.
pub open spec fn decimal(n: nat) -> Seq<char>
    decreases n,
{
    if n < 10 {
        seq![digit_char(n)]
    } else {
        decimal(n / 10).push(digit_char(n % 10))
    }
}

proof fn lemma_digits_value_nonneg(p: Seq<char>)
    requires
        all_digits(p),
    ensures
        digits_value(p) >= 0,
    decreases p.len(),
{
    if p.len() > 0 {
        assert(all_digits(p.drop_last())) by {
            assert forall|i: int| 0 <= i < p.drop_last().len() implies is_digit(#[trigger] p.drop_last()[i]) by {
                assert(p.drop_last()[i] == p[i]);
            }
        }
        lemma_digits_value_nonneg(p.drop_last());
        assert(is_digit(p[p.len() - 1]));
    }
}

/// The value of the digits `v[from..to]`, or `None` when a character is not a
/// digit or the value exceeds `max`.
fn digits_in_range(v: &Vec<char>, from: usize, to: usize, max: u64) -> (res: Option<u64>)
    requires
        from <= to <= v@.len(),
        max >= 9,
    ensures
        ({
            let p = v@.subrange(from as int, to as int);
            match res {
                Some(n) => all_digits(p) && digits_value(p) == n && n <= max,
                None => !(all_digits(p) && digits_value(p) <= max),
            }
        }),
{
    let mut acc: u64 = 0;
    let mut i: usize = from;
    while i < to
        invariant
            from <= i <= to <= v@.len(),
            all_digits(v@.subrange(from as int, i as int)),
            digits_value(v@.subrange(from as int, i as int)) == acc,
            acc <= max,
            max >= 9,
        decreases to - i,
    {
        let c = v[i];
        let ghost prev = v@.subrange(from as int, i as int);
        let ghost next = v@.subrange(from as int, i + 1);
        assert(next.drop_last() =~= prev);
        assert(next.last() == c);
        if !('0' <= c && c <= '9') {
            assert(!all_digits(v@.subrange(from as int, to as int))) by {
                assert(v@.subrange(from as int, to as int)[i - from] == c);
            }
            return None;
        }
        let d: u64 = (c as u32 - '0' as u32) as u64;
        assert(d as int == digit_value(c));
        assert(all_digits(next)) by {
            assert forall|j: int| 0 <= j < next.len() implies is_digit(#[trigger] next[j]) by {
                if j < prev.len() {
                    assert(next[j] == prev[j]);
                }
            }
        }
        if acc > (max - d) / 10 {
            proof {
                assert(acc * 10 + d > max) by (nonlinear_arith)
                    requires
                        acc > (max - d) / 10,
                        d <= max,
                ;
                assert(digits_value(next) == digits_value(prev) * 10 + digit_value(c));
                assert(digits_value(next) > max);
                assert(v@.subrange(from as int, to as int).take((i + 1 - from) as int) =~= next);
                lemma_prefix_value_bound(v@.subrange(from as int, to as int), (i + 1 - from) as int, max as int);
            }
            return None;
        }
        acc = acc * 10 + d;
        i = i + 1;
    }
    Some(acc)
}

/// A string of digits is worth at least any of its prefixes.
proof fn lemma_prefix_value_bound(p: Seq<char>, k: int, max: int)
    requires
        0 <= k <= p.len(),
        digits_value(p.take(k)) > max,
        max >= 0,
    ensures
        !(all_digits(p) && digits_value(p) <= max),
    decreases p.len() - k,
{
    if all_digits(p) && k < p.len() {
        let q = p.take(k + 1);
        assert(q.drop_last() =~= p.take(k));
        assert(is_digit(p[k]));
        assert(q.last() == p[k]);
        assert(digits_value(q) >= digits_value(p.take(k)));
        lemma_prefix_value_bound(p, k + 1, max);
    } else if all_digits(p) {
        assert(p.take(k) =~= p);
    }
}

/// What `from_str` of an unsigned type with largest value `max` gives for
/// the characters `v[from..to]`.
pub fn parse_unsigned_range(v: &Vec<char>, from: usize, to: usize, max: u64) -> (res: Option<u64>)
    requires
        from <= to <= v@.len(),
        max >= 9,
    ensures
        match res {
            Some(n) => parse_unsigned(v@.subrange(from as int, to as int), max as int) == Some(n as int),
            None => parse_unsigned(v@.subrange(from as int, to as int), max as int) is None,
        },
{
    let ghost p = v@.subrange(from as int, to as int);
    let mut start = from;
    if from < to && v[from] == '+' {
        start = from + 1;
    }
    assert(unsigned_digits(p) =~= v@.subrange(start as int, to as int));
    if start == to {
        return None;
    }
    digits_in_range(v, start, to, max)
}

/// The decimal representation of `n`.
pub fn decimal_string(n: u64) -> (res: String)
    ensures
        res@ == decimal(n as nat),
{
    let mut digits: Vec<char> = Vec::new();
    let mut m: u64 = n;
    let ghost mut rest: Seq<char> = Seq::empty();
    // Collect the digits least significant first; `decimal(n)` is
    // `decimal(m)` followed by `rest`, and `digits` holds `rest` reversed.
    while m >= 10
        invariant
            digits@.len() == rest.len(),
            forall|i: int| 0 <= i < rest.len() ==> #[trigger] digits@[i] == rest[rest.len() - 1 - i],
            decimal(n as nat) == decimal(m as nat) + rest,
        decreases m,
    {
        let d: u64 = m % 10;
        let c: char = ((d as u8) + 48) as char;
        assert(c == digit_char(d as nat));
        let ghost r2 = seq![c] + rest;
        proof {
            assert(decimal(m as nat) == decimal((m / 10) as nat).push(c));
            assert(decimal((m / 10) as nat).push(c) + rest =~= decimal((m / 10) as nat) + r2);
        }
        digits.push(c);
        proof {
            assert forall|i: int| 0 <= i < r2.len() implies #[trigger] digits@[i] == r2[r2.len() - 1 - i] by {
                if i < rest.len() {
                    assert(r2[r2.len() - 1 - i] == rest[rest.len() - 1 - i]);
                }
            }
            rest = r2;
        }
        m = m / 10;
    }
    let c: char = ((m as u8) + 48) as char;
    assert(c == digit_char(m as nat));
    assert(decimal(m as nat) == seq![c]);
    let ghost r2 = seq![c] + rest;
    digits.push(c);
    proof {
        assert forall|i: int| 0 <= i < r2.len() implies #[trigger] digits@[i] == r2[r2.len() - 1 - i] by {
            if i < rest.len() {
                assert(r2[r2.len() - 1 - i] == rest[rest.len() - 1 - i]);
            }
        }
        rest = r2;
    }
    assert(decimal(n as nat) == rest);
    let mut s = String::new();
    let mut k: usize = digits.len();
    while k > 0
        invariant
            k <= digits@.len(),
            digits@.len() == rest.len(),
            forall|i: int| 0 <= i < rest.len() ==> #[trigger] digits@[i] == rest[rest.len() - 1 - i],
            s@ == rest.take(rest.len() - k),
        decreases k,
    {
        k = k - 1;
        crate::text::push_char(&mut s, digits[k]);
        assert(rest.take(rest.len() - k) =~= rest.take(rest.len() - k - 1).push(rest[rest.len() - 1 - k]));
    }
    assert(rest.take(rest.len() as int) =~= rest);
    s
}

} // verus!
