use vstd::prelude::*;

use crate::source::IntErrorKind;

verus! {

/// Whether the character has Unicode's White_Space property, which is what
/// `char::is_whitespace` tells: tab through carriage return, space, next
/// line, no-break space, Ogham space mark, the spaces from en quad to hair
/// space, line and paragraph separators, narrow no-break space, medium
/// mathematical space and ideographic space.
pub open spec fn white_space(c: char) -> bool {
    let u = c as u32;
    ||| 0x09 <= u <= 0x0d
    ||| u == 0x20
    ||| u == 0x85
    ||| u == 0xa0
    ||| u == 0x1680
    ||| 0x2000 <= u <= 0x200a
    ||| u == 0x2028
    ||| u == 0x2029
    ||| u == 0x202f
    ||| u == 0x205f
    ||| u == 0x3000
}

/// Whether the character is white space, as `char::is_whitespace` tells.
pub fn is_white_space(c: char) -> (r: bool)
    ensures
        r == white_space(c),
{
    let u = c as u32;
    (0x09 <= u && u <= 0x0d) || u == 0x20 || u == 0x85 || u == 0xa0 || u == 0x1680 || (0x2000
        <= u && u <= 0x200a) || u == 0x2028 || u == 0x2029 || u == 0x202f || u == 0x205f || u
        == 0x3000
}

/// The characters of the text, in order.
pub(crate) fn chars_of(s: &str) -> (r: Vec<char>)
    ensures
        r@ == s@,
{
    broadcast use vstd::string::axiom_spec_iter, vstd::string::next_postcondition;

    let mut it = s.chars();
    let mut r: Vec<char> = Vec::new();
    loop
        invariant
            r@ + vstd::std_specs::iter::IteratorSpec::remaining(&it) == s@,
            vstd::std_specs::iter::IteratorSpec::obeys_prophetic_iter_laws(&it),
            vstd::std_specs::iter::IteratorSpec::decrease(&it) is Some,
        ensures
            r@ == s@,
        decreases vstd::std_specs::iter::IteratorSpec::decrease(&it)->0,
    {
        match it.next() {
            Some(c) => {
                r.push(c);
            },
            None => {
                assert(r@ =~= s@);
                break;
            },
        }
    }
    r
}

/// Relies on `String`'s `FromIterator<&char>`: the text of these
/// characters, in order.
#[verifier::external_body]
pub(crate) fn string_of(cs: &[char]) -> (r: String)
    ensures
        r@ == cs@,
{
    cs.iter().collect()
}

/// The text without its trailing white space, as `str::trim_end` leaves it.
pub open spec fn trim_end_seq(s: Seq<char>) -> Seq<char>
    decreases s.len(),
{
    if s.len() > 0 && white_space(s.last()) {
        trim_end_seq(s.drop_last())
    } else {
        s
    }
}

/// The text without its leading white space, as `str::trim_start` leaves it.
pub open spec fn trim_start_seq(s: Seq<char>) -> Seq<char>
    decreases s.len(),
{
    if s.len() > 0 && white_space(s[0]) {
        trim_start_seq(s.drop_first())
    } else {
        s
    }
}

/// The text without white space at either end, as `str::trim` leaves it.
pub open spec fn trim_seq(s: Seq<char>) -> Seq<char> {
    trim_start_seq(trim_end_seq(s))
}

/// The characters `cs[from..to]`.
pub(crate) fn sub_chars(cs: &Vec<char>, from: usize, to: usize) -> (r: Vec<char>)
    requires
        from <= to <= cs@.len(),
    ensures
        r@ == cs@.subrange(from as int, to as int),
{
    let mut r: Vec<char> = Vec::new();
    let mut i = from;
    while i < to
        invariant
            from <= i <= to <= cs@.len(),
            r@ == cs@.subrange(from as int, i as int),
        decreases to - i,
    {
        r.push(cs[i]);
        i = i + 1;
    }
    r
}

/// The characters `cs[..to]` without trailing white space.
pub(crate) fn trim_end(cs: &Vec<char>, to: usize) -> (r: Vec<char>)
    requires
        to <= cs@.len(),
    ensures
        r@ == trim_end_seq(cs@.take(to as int)),
{
    let mut e = to;
    while e > 0 && is_white_space(cs[e - 1])
        invariant
            e <= to <= cs@.len(),
            trim_end_seq(cs@.take(to as int)) == trim_end_seq(cs@.take(e as int)),
        decreases e,
    {
        assert(cs@.take(e as int).drop_last() =~= cs@.take(e - 1));
        e = e - 1;
    }
    sub_chars(cs, 0, e)
}

/// The characters without white space at either end.
pub(crate) fn trim(cs: &Vec<char>) -> (r: Vec<char>)
    ensures
        r@ == trim_seq(cs@),
{
    let t = trim_end(cs, cs.len());
    assert(cs@.take(cs@.len() as int) =~= cs@);
    let n = t.len();
    let mut b: usize = 0;
    assert(t@.subrange(0, n as int) =~= t@);
    while b < n && is_white_space(t[b])
        invariant
            b <= n == t@.len(),
            trim_start_seq(t@) == trim_start_seq(t@.subrange(b as int, n as int)),
        decreases n - b,
    {
        assert(t@.subrange(b as int, n as int).drop_first() =~= t@.subrange(b + 1, n as int));
        b = b + 1;
    }
    sub_chars(&t, b, n)
}

/// Whether `needle` occurs in `hay` starting at `i`.
pub open spec fn occurs_at(hay: Seq<char>, needle: Seq<char>, i: int) -> bool {
    0 <= i && i + needle.len() <= hay.len() && hay.subrange(i, i + needle.len()) == needle
}

/// Whether `needle` occurs in `hay`, as `str::contains` tells.
pub open spec fn contains_seq(hay: Seq<char>, needle: Seq<char>) -> bool {
    exists|i: int| occurs_at(hay, needle, i)
}

fn occurs_at_exec(hay: &Vec<char>, needle: &Vec<char>, i: usize) -> (r: bool)
    requires
        i + needle@.len() <= hay@.len(),
    ensures
        r == occurs_at(hay@, needle@, i as int),
{
    let hn = hay.len();
    let mut k: usize = 0;
    while k < needle.len()
        invariant
            hn == hay@.len(),
            i + needle@.len() <= hay@.len(),
            k <= needle@.len(),
            forall|j: int| 0 <= j < k ==> hay@[i + j] == needle@[j],
        decreases needle@.len() - k,
    {
        if hay[i + k] != needle[k] {
            assert(hay@.subrange(i as int, i + needle@.len())[k as int] != needle@[k as int]);
            return false;
        }
        k = k + 1;
    }
    assert(hay@.subrange(i as int, i + needle@.len()) =~= needle@);
    true
}

/// Whether `needle` occurs in `hay`.
pub(crate) fn contains(hay: &Vec<char>, needle: &Vec<char>) -> (r: bool)
    ensures
        r == contains_seq(hay@, needle@),
{
    if needle.len() == 0 {
        assert(hay@.subrange(0, 0) =~= needle@);
        assert(occurs_at(hay@, needle@, 0));
        return true;
    }
    if needle.len() > hay.len() {
        assert forall|j: int| !occurs_at(hay@, needle@, j) by {}
        return false;
    }
    let hn = hay.len();
    let last = hn - needle.len();
    let mut i: usize = 0;
    while i <= last
        invariant
            hn == hay@.len(),
            i <= last + 1,
            needle@.len() > 0,
            last + needle@.len() == hay@.len(),
            forall|j: int| 0 <= j < i ==> !occurs_at(hay@, needle@, j),
        decreases last + 1 - i,
    {
        if occurs_at_exec(hay, needle, i) {
            return true;
        }
        i = i + 1;
    }
    assert forall|j: int| !occurs_at(hay@, needle@, j) by {}
    false
}

/// Whether the character is an ASCII decimal digit.
pub open spec fn is_digit(c: char) -> bool {
    '0' <= c && c <= '9'
}

/// The value of an ASCII decimal digit.
pub open spec fn digit_value(c: char) -> int {
    c as int - '0' as int
}

/// Reads decimal digits from `digits[i..]` onto `acc`, within `[min, max]`,
/// subtracting them when `negative`: the first bad digit or overflow ends it.
pub open spec fn accumulate(
    digits: Seq<char>,
    i: int,
    acc: int,
    negative: bool,
    min: int,
    max: int,
) -> Result<int, IntErrorKind>
    decreases digits.len() - i,
{
    if i < 0 || i >= digits.len() {
        Ok(acc)
    } else if !is_digit(digits[i]) {
        Err(IntErrorKind::InvalidDigit)
    } else if negative {
        let next = acc * 10 - digit_value(digits[i]);
        if next < min {
            Err(IntErrorKind::NegOverflow)
        } else {
            accumulate(digits, i + 1, next, negative, min, max)
        }
    } else {
        let next = acc * 10 + digit_value(digits[i]);
        if next > max {
            Err(IntErrorKind::PosOverflow)
        } else {
            accumulate(digits, i + 1, next, negative, min, max)
        }
    }
}

/// What `str::parse` gives for an integer type whose values are
/// `[min, max]`: an optional sign (`-` only when `min < 0`), then decimal
/// digits.
pub open spec fn parse_int(s: Seq<char>, min: int, max: int) -> Result<int, IntErrorKind> {
    if s.len() == 0 {
        Err(IntErrorKind::Empty)
    } else {
        let negative = min < 0 && s[0] == '-';
        let digits = if s[0] == '+' || negative {
            s.drop_first()
        } else {
            s
        };
        if digits.len() == 0 {
            Err(IntErrorKind::InvalidDigit)
        } else {
            accumulate(digits, 0, 0, negative, min, max)
        }
    }
}

/// Reads a decimal integer of `[min, max]` as `str::parse` does.
pub(crate) fn parse_int_chars(s: &Vec<char>, min: i64, max: i64) -> (r: Result<i64, IntErrorKind>)
    requires
        -0x1_0000_0000 <= min <= 0 <= max <= 0x1_0000_0000,
    ensures
        match r {
            Ok(v) => parse_int(s@, min as int, max as int) == Ok::<int, IntErrorKind>(v as int),
            Err(k) => parse_int(s@, min as int, max as int) == Err::<int, IntErrorKind>(k),
        },
        r matches Ok(v) ==> min <= v <= max,
{
    let n = s.len();
    if n == 0 {
        return Err(IntErrorKind::Empty);
    }
    let negative = min < 0 && s[0] == '-';
    let start: usize = if s[0] == '+' || negative {
        1
    } else {
        0
    };
    let ghost digits = if s@[0] == '+' || negative {
        s@.drop_first()
    } else {
        s@
    };
    assert(digits =~= s@.subrange(start as int, n as int));
    assert(parse_int(s@, min as int, max as int) == if digits.len() == 0 {
        Err(IntErrorKind::InvalidDigit)
    } else {
        accumulate(digits, 0, 0, negative, min as int, max as int)
    });
    if start == n {
        return Err(IntErrorKind::InvalidDigit);
    }
    let mut acc: i64 = 0;
    let mut i = start;
    while i < n
        invariant
            start <= i <= n == s@.len(),
            digits == s@.subrange(start as int, n as int),
            parse_int(s@, min as int, max as int) == accumulate(
                digits,
                0,
                0,
                negative,
                min as int,
                max as int,
            ),
            min <= acc <= max,
            negative ==> acc <= 0,
            !negative ==> acc >= 0,
            negative == (min < 0 && s@[0] == '-'),
            -0x1_0000_0000 <= min <= 0 <= max <= 0x1_0000_0000,
            accumulate(digits, 0, 0, negative, min as int, max as int) == accumulate(
                digits,
                i - start,
                acc as int,
                negative,
                min as int,
                max as int,
            ),
        decreases n - i,
    {
        let c = s[i];
        assert(digits[i - start] == c);
        if !('0' <= c && c <= '9') {
            return Err(IntErrorKind::InvalidDigit);
        }
        let d = (c as u32 - '0' as u32) as i64;
        if negative {
            let next = acc * 10 - d;
            if next < min {
                return Err(IntErrorKind::NegOverflow);
            }
            acc = next;
        } else {
            let next = acc * 10 + d;
            if next > max {
                return Err(IntErrorKind::PosOverflow);
            }
            acc = next;
        }
        i = i + 1;
    }
    Ok(acc)
}

} // verus!
