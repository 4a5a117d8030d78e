use vstd::prelude::*;

verus! {

/// `c` is an ASCII decimal digit.
pub open spec fn is_digit(c: char) -> bool {
    '0' <= c && c <= '9'
}

/// Every character of `s` is a decimal digit.
pub open spec fn all_digits(s: Seq<char>) -> bool {
    forall|i: int| 0 <= i < s.len() ==> is_digit(#[trigger] s[i])
}

/// The value of a string of decimal digits.
pub open spec fn digits_value(s: Seq<char>) -> int
    decreases s.len(),
{
    if s.len() == 0 {
        0
    } else {
        digits_value(s.drop_last()) * 10 + (s.last() as int - '0' as int)
    }
}

/// `s` without its leading sign, where it has one.
pub open spec fn unsigned_part(s: Seq<char>) -> Seq<char> {
    if s.len() > 0 && (s[0] == '-' || s[0] == '+') { s.drop_first() } else { s }
}

/// What `str::parse::<i32>` gives: an optional `+` or `-`, then one or more
/// decimal digits, whose value must fit in an `i32`.
pub open spec fn spec_parse_i32(s: Seq<char>) -> Option<i32> {
    let neg = s.len() > 0 && s[0] == '-';
    let body = unsigned_part(s);
    let v = if neg { -digits_value(body) } else { digits_value(body) };
    if body.len() == 0 || !all_digits(body) || v < i32::MIN || v > i32::MAX {
        None
    } else {
        Some(v as i32)
    }
}

/// Appending a digit never makes the value smaller.
proof fn lemma_digits_value_grows(s: Seq<char>, c: char)
    requires
        all_digits(s),
        is_digit(c),
    ensures
        digits_value(s.push(c)) >= digits_value(s),
        digits_value(s) >= 0,
    decreases s.len(),
{
    assert(s.push(c).drop_last() =~= s);
    if s.len() > 0 {
        assert(all_digits(s.drop_last()));
        lemma_digits_value_grows(s.drop_last(), s.last());
        assert(s.drop_last().push(s.last()) =~= s);
    }
}

/// A string of digits whose prefix is already too large is too large.
proof fn lemma_digits_value_prefix(s: Seq<char>, k: int)
    requires
        all_digits(s),
        0 <= k <= s.len(),
    ensures
        digits_value(s) >= digits_value(s.take(k)),
    decreases s.len() - k,
{
    if k < s.len() {
        lemma_digits_value_prefix(s, k + 1);
        assert(s.take(k + 1) =~= s.take(k).push(s[k]));
        assert(all_digits(s.take(k)));
        lemma_digits_value_grows(s.take(k), s[k]);
    } else {
        assert(s.take(k) =~= s);
    }
}

/// Reads `s` as an `i32` as `str::parse` does, `None` where it would fail.
pub fn parse_i32(s: &str) -> (r: Option<i32>)
    ensures
        r == spec_parse_i32(s@),
{
    let n = s.unicode_len();
    let mut start: usize = 0;
    let mut neg = false;
    if n > 0 {
        let c0 = s.get_char(0);
        if c0 == '-' {
            neg = true;
            start = 1;
        } else if c0 == '+' {
            start = 1;
        }
    }
    let ghost body = unsigned_part(s@);
    assert(body =~= s@.subrange(start as int, s@.len() as int));
    if start >= n {
        return None;
    }
    // One more than the largest magnitude any `i32` has.
    let limit: i64 = 2147483649;
    let mut acc: i64 = 0;
    let mut big = false;
    let mut i: usize = start;
    while i < n
        invariant
            n == s@.len(),
            start <= i <= n,
            body =~= s@.subrange(start as int, s@.len() as int),
            all_digits(body.take(i - start)),
            !big ==> acc == digits_value(body.take(i - start)) && 0 <= acc < limit,
            big ==> digits_value(body.take(i - start)) >= limit,
            limit == 2147483649,
            body == unsigned_part(s@),
        decreases n - i,
    {
        let c = s.get_char(i);
        let ghost k = i - start;
        assert(body[k] == c);
        if !('0' <= c && c <= '9') {
            assert(!all_digits(body));

            return None;
        }
        assert(body.take(k + 1) =~= body.take(k).push(c));
        assert(body.take(k + 1).drop_last() =~= body.take(k));
        proof {
            lemma_digits_value_grows(body.take(k), c);
        }
        if !big {
            let d: i64 = (c as u32 - '0' as u32) as i64;
            let next = acc * 10 + d;
            if next >= limit {
                big = true;
            } else {
                acc = next;
            }
        }
        i += 1;
    }
    assert(body.take(body.len() as int) =~= body);
    if big {
        return None;
    }
    if neg {
        if acc > 2147483648 {
            None
        } else {
            Some((0 - acc) as i32)
        }
    } else if acc > 2147483647 {
        None
    } else {
        Some(acc as i32)
    }
}

/// What `str::parse::<u32>` gives: an optional `+`, then one or more
/// decimal digits, whose value must fit in a `u32`.
pub open spec fn spec_parse_u32(s: Seq<char>) -> Option<u32> {
    let body = if s.len() > 0 && s[0] == '+' { s.drop_first() } else { s };
    if body.len() == 0 || !all_digits(body) || digits_value(body) > u32::MAX {
        None
    } else {
        Some(digits_value(body) as u32)
    }
}

/// Reads `s` as a `u32` as `str::parse` does, `None` where it would fail.
pub fn parse_u32(s: &str) -> (r: Option<u32>)
    ensures
        r == spec_parse_u32(s@),
{
    let n = s.unicode_len();
    let mut start: usize = 0;
    if n > 0 && s.get_char(0) == '+' {
        start = 1;
    }
    let ghost body = if s@.len() > 0 && s@[0] == '+' { s@.drop_first() } else { s@ };
    assert(body =~= s@.subrange(start as int, s@.len() as int));
    if start >= n {
        return None;
    }
    let limit: u64 = 4294967296;
    let mut acc: u64 = 0;
    let mut big = false;
    let mut i: usize = start;
    while i < n
        invariant
            n == s@.len(),
            start <= i <= n,
            body =~= s@.subrange(start as int, s@.len() as int),
            body == (if s@.len() > 0 && s@[0] == '+' { s@.drop_first() } else { s@ }),
            all_digits(body.take(i - start)),
            !big ==> acc == digits_value(body.take(i - start)) && acc < limit,
            big ==> digits_value(body.take(i - start)) >= limit,
            limit == 4294967296,
        decreases n - i,
    {
        let c = s.get_char(i);
        let ghost k = i - start;
        assert(body[k] == c);
        if !('0' <= c && c <= '9') {
            assert(!all_digits(body));
            return None;
        }
        assert(body.take(k + 1) =~= body.take(k).push(c));
        assert(body.take(k + 1).drop_last() =~= body.take(k));
        proof {
            lemma_digits_value_grows(body.take(k), c);
        }
        if !big {
            let d: u64 = (c as u32 - '0' as u32) as u64;
            let next = acc * 10 + d;
            if next >= limit {
                big = true;
            } else {
                acc = next;
            }
        }
        i += 1;
    }
    assert(body.take(body.len() as int) =~= body);
    if big {
        None
    } else {
        Some(acc as u32)
    }
}

} // verus!
