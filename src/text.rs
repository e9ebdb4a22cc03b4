use vstd::prelude::*;

verus! {

/// The pieces of `s` between ASCII spaces, as `str::split(' ')` gives them:
/// two spaces in a row enclose an empty field, and there is always at least one field.
pub open spec fn split_spaces(s: Seq<char>) -> Seq<Seq<char>>
    decreases s.len(),
{
    if s.len() == 0 {
        seq![Seq::<char>::empty()]
    } else {
        let prev = split_spaces(s.drop_last());
        if s.last() == ' ' {
            prev.push(Seq::<char>::empty())
        } else {
            prev.drop_last().push(prev.last().push(s.last()))
        }
    }
}

pub proof fn lemma_split_spaces_nonempty(s: Seq<char>)
    ensures
        split_spaces(s).len() >= 1,
    decreases s.len(),
{
    if s.len() > 0 {
        lemma_split_spaces_nonempty(s.drop_last());
    }
}

pub open spec fn is_digit(c: char) -> bool {
    '0' <= c <= '9'
}

pub open spec fn digit_value(c: char) -> int {
    c as int - '0' as int
}

/// A non-empty run of decimal digits.
pub open spec fn is_decimal(s: Seq<char>) -> bool {
    s.len() > 0 && forall|i: int| 0 <= i < s.len() ==> is_digit(#[trigger] s[i])
}

/// The number that a run of decimal digits writes.
pub open spec fn decimal_value(s: Seq<char>) -> int
    decreases s.len(),
{
    if s.len() == 0 {
        0
    } else {
        decimal_value(s.drop_last()) * 10 + digit_value(s.last())
    }
}

/// A run of digits never writes a negative number.
pub proof fn lemma_decimal_value_nonneg(s: Seq<char>)
    requires
        forall|i: int| 0 <= i < s.len() ==> is_digit(#[trigger] s[i]),
    ensures
        decimal_value(s) >= 0,
    decreases s.len(),
{
    if s.len() > 0 {
        assert(is_digit(s[s.len() - 1]));
        lemma_decimal_value_nonneg(s.drop_last());
    }
}

/// Whether `c` occurs in `s`.
pub open spec fn occurs(s: Seq<char>, c: char) -> bool {
    exists|i: int| 0 <= i < s.len() && s[i] == c
}

/// Splits `s` at every ASCII space.
pub fn split_fields(s: &str) -> (r: Vec<&str>)
    ensures
        r@.len() == split_spaces(s@).len(),
        forall|i: int| 0 <= i < r@.len() ==> (#[trigger] r@[i])@ == split_spaces(s@)[i],
{
    let mut fields: Vec<&str> = Vec::new();
    let mut start: usize = 0;
    let mut pos: usize = 0;
    let len = s.unicode_len();
    for c in it: s.chars()
        invariant
            it.seq() == s@,
            len == s@.len(),
            pos == it.index(),
            start <= pos <= len,
            fields@.len() + 1 == split_spaces(s@.take(pos as int)).len(),
            forall|i: int| 0 <= i < fields@.len() ==>
                (#[trigger] fields@[i])@ == split_spaces(s@.take(pos as int))[i],
            s@.subrange(start as int, pos as int) == split_spaces(s@.take(pos as int)).last(),
    {
        let ghost pre = s@.take(pos as int);
        assert(s@.take(pos + 1).drop_last() == pre);
        proof { lemma_split_spaces_nonempty(pre); }
        if c == ' ' {
            fields.push(s.substring_char(start, pos));
            start = pos + 1;
            assert(s@.subrange(start as int, pos + 1) == Seq::<char>::empty());
        } else {
            assert(s@.subrange(start as int, pos + 1) == s@.subrange(start as int, pos as int).push(c));
        }
        pos = pos + 1;
    }
    assert(s@.take(pos as int) == s@);
    fields.push(s.substring_char(start, pos));
    fields
}

/// Reads a run of decimal digits as a number no larger than `max`.
pub fn parse_decimal(s: &str, max: u64) -> (r: Option<u64>)
    requires
        max <= u32::MAX,
    ensures
        r == (if is_decimal(s@) && decimal_value(s@) <= max {
            Some(decimal_value(s@) as u64)
        } else {
            None::<u64>
        }),
        r matches Some(n) ==> n as int == decimal_value(s@),
{
    let mut acc: u64 = 0;
    let mut too_big = false;
    let mut n: usize = 0;
    let len = s.unicode_len();
    for c in it: s.chars()
        invariant
            it.seq() == s@,
            len == s@.len(),
            n == it.index(),
            forall|i: int| 0 <= i < n ==> is_digit(#[trigger] s@[i]),
            acc <= max,
            too_big ==> decimal_value(s@.take(n as int)) > max,
            !too_big ==> acc == decimal_value(s@.take(n as int)),
            max <= u32::MAX,
    {
        let ghost pre = s@.take(n as int);
        assert(s@.take(n + 1).drop_last() == pre);
        if !('0' <= c && c <= '9') {
            assert(!is_decimal(s@));
            return None;
        }
        let d = (c as u32 - '0' as u32) as u64;
        assert(d == digit_value(c));
        if !too_big {
            if acc * 10 + d > max {
                too_big = true;
            } else {
                acc = acc * 10 + d;
            }
        } else {
            assert(decimal_value(pre) * 10 + d > max) by (nonlinear_arith)
                requires
                    decimal_value(pre) > max,
                    d >= 0,
                    max >= 0,
            ;
        }
        n = n + 1;
    }
    assert(s@.take(n as int) == s@);
    proof { lemma_decimal_value_nonneg(s@); }
    if n == 0 || too_big {
        None
    } else {
        Some(acc)
    }
}

/// Whether `c` occurs in `s`.
pub fn contains_char(s: &str, c: char) -> (r: bool)
    ensures
        r == occurs(s@, c),
{
    let mut seen = false;
    for x in it: s.chars()
        invariant
            it.seq() == s@,
            seen == occurs(s@.take(it.index() as int), c),
    {
        let ghost k = it.index();
        if x == c {
            seen = true;
            assert(s@.take(k + 1)[k] == c);
        }
        assert(seen == occurs(s@.take(k + 1), c)) by {
            if occurs(s@.take(k + 1), c) && !seen {
                let j = choose|j: int| 0 <= j < k + 1 && #[trigger] s@.take(k + 1)[j] == c;
                assert(s@.take(k as int)[j] == c);
            }
        }
    }
    assert(s@.take(s@.len() as int) == s@);
    seen
}

/// Relies on `String::push`: appends the one character to the end.
#[verifier::external_body]
pub(crate) fn push_char(s: &mut String, c: char)
    ensures
        final(s)@ == old(s)@.push(c),
{
    s.push(c);
}

} // verus!
