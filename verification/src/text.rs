//! Reading the text that commands and files hand back: surrounding white
//! space, and the process id kept in the board's pid file.

use vstd::prelude::*;

verus! {

/// Characters with Unicode's White_Space property.
pub open spec fn is_white_space(c: char) -> bool {
    let u = c as u32;
    (0x9 <= u <= 0xd) || u == 0x20 || u == 0x85 || u == 0xa0 || u == 0x1680 || (0x2000 <= u
        <= 0x200a) || u == 0x2028 || u == 0x2029 || u == 0x202f || u == 0x205f || u == 0x3000
}

pub open spec fn without_leading_space(s: Seq<char>) -> Seq<char>
    decreases s.len(),
{
    if s.len() > 0 && is_white_space(s[0]) {
        without_leading_space(s.drop_first())
    } else {
        s
    }
}

pub open spec fn without_trailing_space(s: Seq<char>) -> Seq<char>
    decreases s.len(),
{
    if s.len() > 0 && is_white_space(s.last()) {
        without_trailing_space(s.drop_last())
    } else {
        s
    }
}

/// The text without white space at either end.
pub open spec fn trimmed(s: Seq<char>) -> Seq<char> {
    without_leading_space(without_trailing_space(s))
}

fn white_space(c: char) -> (ws: bool)
    ensures
        ws == is_white_space(c),
{
    let u = c as u32;
    (0x9 <= u && u <= 0xd) || u == 0x20 || u == 0x85 || u == 0xa0 || u == 0x1680 || (0x2000 <= u
        && u <= 0x200a) || u == 0x2028 || u == 0x2029 || u == 0x202f || u == 0x205f || u == 0x3000
}

/// `s` without leading and trailing white space, as `str::trim` gives it.
pub fn trim(s: &str) -> (t: &str)
    ensures
        t@ == trimmed(s@),
{
    let ghost p = s@;
    let n = s.unicode_len();
    let mut end = n;
    assert(p.take(n as int) =~= p);
    while end > 0 && white_space(s.get_char(end - 1))
        invariant
            p == s@,
            end <= n == p.len(),
            without_trailing_space(p) == without_trailing_space(p.take(end as int)),
        decreases end,
    {
        assert(p.take(end as int).drop_last() =~= p.take(end - 1));
        end = end - 1;
    }
    let ghost kept = p.take(end as int);
    assert(without_trailing_space(kept) == kept);
    let mut start: usize = 0;
    assert(p.subrange(0, end as int) =~= kept);
    while start < end && white_space(s.get_char(start))
        invariant
            p == s@,
            start <= end <= n == p.len(),
            kept == p.take(end as int),
            without_leading_space(kept) == without_leading_space(
                p.subrange(start as int, end as int),
            ),
        decreases end - start,
    {
        assert(p.subrange(start as int, end as int).drop_first() =~= p.subrange(
            start + 1,
            end as int,
        ));
        start = start + 1;
    }
    s.substring_char(start, end)
}

pub open spec fn is_digit(c: char) -> bool {
    0x30 <= (c as u32) <= 0x39
}

/// The number written by a run of decimal digits.
pub open spec fn digits_value(s: Seq<char>) -> nat
    decreases s.len(),
{
    if s.len() == 0 {
        0
    } else {
        digits_value(s.drop_last()) * 10 + ((s.last() as u32) - 0x30) as nat
    }
}

/// The text starts with a sign.
pub open spec fn has_sign(s: Seq<char>) -> bool {
    s.len() > 0 && (s[0] == '-' || s[0] == '+')
}

/// The text after its sign, if any.
pub open spec fn unsigned_part(s: Seq<char>) -> Seq<char> {
    if has_sign(s) {
        s.drop_first()
    } else {
        s
    }
}

pub open spec fn all_digits(s: Seq<char>) -> bool {
    forall|i: int| 0 <= i < s.len() ==> is_digit(#[trigger] s[i])
}

/// The `i32` written in `s`, as `i32::from_str` reads it: an optional sign,
/// then at least one decimal digit and nothing else, in range.
pub open spec fn i32_of(s: Seq<char>) -> Option<i32> {
    let digits = unsigned_part(s);
    let value: int = if has_sign(s) && s[0] == '-' {
        -digits_value(digits)
    } else {
        digits_value(digits) as int
    };
    if digits.len() == 0 || !all_digits(digits) {
        None
    } else if i32::MIN <= value <= i32::MAX {
        Some(value as i32)
    } else {
        None
    }
}

/// Digit values at and above this bound are all out of `i32`'s range.
const DIGITS_CAP: i64 = 2147483649;

/// Reads a decimal `i32`, as `str::parse::<i32>` does.
pub fn parse_i32(s: &str) -> (value: Option<i32>)
    ensures
        value == i32_of(s@),
{
    let ghost p = s@;
    let n = s.unicode_len();
    let mut start: usize = 0;
    let mut negative = false;
    if n > 0 {
        let first = s.get_char(0);
        if first == '-' || first == '+' {
            start = 1;
            negative = first == '-';
        }
    }
    let ghost digits = p.subrange(start as int, n as int);
    proof {
        if start == 1 {
            assert(digits =~= p.drop_first());
        } else {
            assert(digits =~= p);
        }
    }
    if start == n {
        return None;
    }
    let mut acc: i64 = 0;
    let mut i = start;
    assert(digits.take(0) =~= Seq::<char>::empty());
    while i < n
        invariant
            p == s@,
            start <= i <= n == p.len(),
            digits == p.subrange(start as int, n as int),
            digits == unsigned_part(p),
            negative == (has_sign(p) && p[0] == '-'),
            forall|k: int| 0 <= k < i - start ==> is_digit(#[trigger] digits[k]),
            acc == if digits_value(digits.take(i - start)) > DIGITS_CAP {
                DIGITS_CAP as int
            } else {
                digits_value(digits.take(i - start)) as int
            },
        decreases n - i,
    {
        let c = s.get_char(i);
        if !(0x30 <= c as u32 && c as u32 <= 0x39) {
            assert(digits[i - start] == c);
            assert(!is_digit(digits[i - start]));
            return None;
        }
        proof {
            let before = digits.take(i - start);
            assert(digits.take(i - start + 1).drop_last() =~= before);
            assert(digits.take(i - start + 1).last() == c);
        }
        acc = acc * 10 + (c as u32 - 0x30) as i64;
        if acc > DIGITS_CAP {
            acc = DIGITS_CAP;
        }
        i = i + 1;
    }
    assert(digits.take(n - start) =~= digits);
    if negative {
        if acc <= 2147483648 {
            Some((0 - acc) as i32)
        } else {
            None
        }
    } else if acc <= 2147483647 {
        Some(acc as i32)
    } else {
        None
    }
}

/// The process id in the board's pid file: the file's text, trimmed, read as
/// an `i32`.
pub fn parse_pid(content: &str) -> (pid: Option<i32>)
    ensures
        pid == i32_of(trimmed(content@)),
{
    parse_i32(trim(content))
}

proof fn lemma_leading_space_gone(s: Seq<char>)
    ensures
        without_leading_space(s).len() > 0 ==> !is_white_space(without_leading_space(s)[0]),
        without_leading_space(s).len() <= s.len(),
        without_leading_space(s) == s.subrange(s.len() - without_leading_space(s).len(), s.len() as int),
    decreases s.len(),
{
    if s.len() > 0 && is_white_space(s[0]) {
        lemma_leading_space_gone(s.drop_first());
        assert(s.drop_first().subrange(
            s.drop_first().len() - without_leading_space(s).len(),
            s.drop_first().len() as int,
        ) =~= s.subrange(s.len() - without_leading_space(s).len(), s.len() as int));
    } else {
        assert(s.subrange(0, s.len() as int) =~= s);
    }
}

proof fn lemma_trailing_space_gone(s: Seq<char>)
    ensures
        without_trailing_space(s).len() > 0 ==> !is_white_space(without_trailing_space(s).last()),
        without_trailing_space(s).len() <= s.len(),
        without_trailing_space(s) == s.take(without_trailing_space(s).len() as int),
    decreases s.len(),
{
    if s.len() > 0 && is_white_space(s.last()) {
        lemma_trailing_space_gone(s.drop_last());
        assert(s.drop_last().take(without_trailing_space(s).len() as int) =~= s.take(
            without_trailing_space(s).len() as int,
        ));
    } else {
        assert(s.take(s.len() as int) =~= s);
    }
}

/// Law: trimmed text neither starts nor ends with white space, so trimming
/// it again changes nothing.
pub proof fn lemma_trimmed_is_bare(s: Seq<char>)
    ensures
        trimmed(s).len() > 0 ==> !is_white_space(trimmed(s)[0]) && !is_white_space(
            trimmed(s).last(),
        ),
        trimmed(trimmed(s)) == trimmed(s),
{
    let t = without_trailing_space(s);
    lemma_trailing_space_gone(s);
    lemma_leading_space_gone(t);
    let r = without_leading_space(t);
    if r.len() > 0 {
        assert(r.last() == t.last());
    }
    lemma_bare_unchanged(r);
}

proof fn lemma_bare_unchanged(r: Seq<char>)
    requires
        r.len() > 0 ==> !is_white_space(r[0]) && !is_white_space(r.last()),
    ensures
        trimmed(r) == r,
{
}

} // verus!
