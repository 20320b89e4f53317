//! Bytes as text: classes of bytes, runs of them, comparison without regard
//! to ASCII case, trimming, and decimal numbers.

use vstd::prelude::*;
use vstd::slice::slice_subrange;
use vstd::string::StringExecFns;
use vstd::utf8::{decode_utf8, encode_utf8, encode_utf8_decode_utf8, valid_utf8};

verus! {

/// Line feed.
pub const LF: u8 = 10;

/// Carriage return.
pub const CR: u8 = 13;

/// The colon between a header's name and its value.
pub const COLON: u8 = 58;

/// A set of bytes that a run is made of.
#[derive(Clone, Copy, Debug, PartialEq, Eq, Structural)]
pub enum Class {
    /// ASCII white space: space, tab, line feed, vertical tab, form feed,
    /// carriage return.
    Space,
    /// Every byte that is no ASCII white space.
    Word,
    /// Every byte but the given one.
    Except(u8),
}

/// ASCII white space.
pub open spec fn is_space(b: u8) -> bool {
    b == 32 || (9 <= b && b <= 13)
}

/// Whether `b` belongs to `class`.
pub open spec fn in_class(class: Class, b: u8) -> bool {
    match class {
        Class::Space => is_space(b),
        Class::Word => !is_space(b),
        Class::Except(x) => b != x,
    }
}

/// The length of the longest prefix of `s` made of bytes in `class`.
pub open spec fn leading(s: Seq<u8>, class: Class) -> int
    decreases s.len(),
{
    if s.len() > 0 && in_class(class, s[0]) {
        1 + leading(s.drop_first(), class)
    } else {
        0
    }
}

/// The length of the longest suffix of `s` made of bytes in `class`.
pub open spec fn trailing(s: Seq<u8>, class: Class) -> int
    decreases s.len(),
{
    if s.len() > 0 && in_class(class, s.last()) {
        1 + trailing(s.drop_last(), class)
    } else {
        0
    }
}

/// `s` without the white space at its two ends.
pub open spec fn trimmed(s: Seq<u8>) -> Seq<u8> {
    let t = s.skip(leading(s, Class::Space));
    t.take(t.len() - trailing(t, Class::Space))
}

/// A prefix of `n` bytes in `class` that ends at the end of `s` or before a
/// byte outside the class is the longest one.
pub proof fn lemma_leading(s: Seq<u8>, class: Class, n: int)
    requires
        0 <= n <= s.len(),
        forall|i: int| 0 <= i < n ==> in_class(class, #[trigger] s[i]),
        n < s.len() ==> !in_class(class, s[n]),
    ensures
        leading(s, class) == n,
    decreases s.len(),
{
    if n > 0 {
        let t = s.drop_first();
        assert forall|i: int| 0 <= i < n - 1 implies in_class(class, #[trigger] t[i]) by {
            assert(t[i] == s[i + 1]);
        }
        lemma_leading(t, class, n - 1);
    }
}

/// The longest prefix in `class` is a prefix, is made of the class, and is
/// followed by nothing of it.
pub proof fn lemma_leading_is_run(s: Seq<u8>, class: Class)
    ensures
        0 <= leading(s, class) <= s.len(),
        forall|i: int| 0 <= i < leading(s, class) ==> in_class(class, #[trigger] s[i]),
        leading(s, class) < s.len() ==> !in_class(class, s[leading(s, class)]),
    decreases s.len(),
{
    if s.len() > 0 && in_class(class, s[0]) {
        let t = s.drop_first();
        lemma_leading_is_run(t, class);
        assert forall|i: int| 0 <= i < leading(s, class) implies in_class(
            class,
            #[trigger] s[i],
        ) by {
            if i > 0 {
                assert(s[i] == t[i - 1]);
            }
        }
    }
}

/// A suffix of `n` bytes in `class` that starts at the start of `s` or behind
/// a byte outside the class is the longest one.
pub proof fn lemma_trailing(s: Seq<u8>, class: Class, n: int)
    requires
        0 <= n <= s.len(),
        forall|i: int| s.len() - n <= i < s.len() ==> in_class(class, #[trigger] s[i]),
        n < s.len() ==> !in_class(class, s[s.len() - n - 1]),
    ensures
        trailing(s, class) == n,
    decreases s.len(),
{
    if n > 0 {
        let t = s.drop_last();
        assert forall|i: int| t.len() - (n - 1) <= i < t.len() implies in_class(
            class,
            #[trigger] t[i],
        ) by {
            assert(t[i] == s[i]);
        }
        lemma_trailing(t, class, n - 1);
    }
}

/// The longest suffix in `class` is a suffix, is made of the class, and is
/// preceded by nothing of it.
pub proof fn lemma_trailing_is_run(s: Seq<u8>, class: Class)
    ensures
        0 <= trailing(s, class) <= s.len(),
        forall|i: int|
            s.len() - trailing(s, class) <= i < s.len() ==> in_class(class, #[trigger] s[i]),
        trailing(s, class) < s.len() ==> !in_class(class, s[s.len() - trailing(s, class) - 1]),
    decreases s.len(),
{
    if s.len() > 0 && in_class(class, s.last()) {
        let t = s.drop_last();
        lemma_trailing_is_run(t, class);
        assert forall|i: int| s.len() - trailing(s, class) <= i < s.len() implies in_class(
            class,
            #[trigger] s[i],
        ) by {
            if i < s.len() - 1 {
                assert(s[i] == t[i]);
            }
        }
    }
}

/// Tells whether `b` belongs to `class`.
pub fn byte_in_class(class: Class, b: u8) -> (r: bool)
    ensures
        r == in_class(class, b),
{
    match class {
        Class::Space => b == 32 || (9 <= b && b <= 13),
        Class::Word => !(b == 32 || (9 <= b && b <= 13)),
        Class::Except(x) => b != x,
    }
}

/// Counts the bytes of `class` at the start of `s`.
pub fn count_leading(s: &[u8], class: Class) -> (n: usize)
    ensures
        n == leading(s@, class),
        n <= s.len(),
{
    let mut n: usize = 0;
    while n < s.len() && byte_in_class(class, s[n])
        invariant
            n <= s.len(),
            forall|i: int| 0 <= i < n ==> in_class(class, #[trigger] s@[i]),
        decreases s.len() - n,
    {
        n = n + 1;
    }
    proof {
        lemma_leading(s@, class, n as int);
    }
    n
}

/// Counts the bytes of `class` at the end of `s`.
pub fn count_trailing(s: &[u8], class: Class) -> (n: usize)
    ensures
        n == trailing(s@, class),
        n <= s.len(),
{
    let mut n: usize = 0;
    while n < s.len() && byte_in_class(class, s[s.len() - n - 1])
        invariant
            n <= s.len(),
            forall|i: int| s.len() - n <= i < s.len() ==> in_class(class, #[trigger] s@[i]),
        decreases s.len() - n,
    {
        n = n + 1;
    }
    proof {
        lemma_trailing(s@, class, n as int);
    }
    n
}

/// The part of `s` between the white space at its two ends.
pub fn trim(s: &[u8]) -> (t: &[u8])
    ensures
        t@ == trimmed(s@),
{
    let a: usize = count_leading(s, Class::Space);
    let rest = slice_subrange(s, a, s.len());
    let b: usize = count_trailing(rest, Class::Space);
    let t = slice_subrange(rest, 0, rest.len() - b);
    proof {
        assert(rest@ == s@.skip(a as int));
        assert(t@ == rest@.take(rest@.len() - b));
    }
    t
}

/// `b` in lower case, where it is an ASCII capital letter.
pub open spec fn lower(b: u8) -> u8 {
    if 65 <= b && b <= 90 {
        (b + 32) as u8
    } else {
        b
    }
}

/// `s` with its ASCII capital letters in lower case.
pub open spec fn folded(s: Seq<u8>) -> Seq<u8> {
    Seq::new(s.len(), |i: int| lower(s[i]))
}

/// Whether `a` and `b` differ in the case of ASCII letters at most.
pub open spec fn same_ignoring_case(a: Seq<u8>, b: Seq<u8>) -> bool {
    folded(a) == folded(b)
}

/// `b` in lower case, where it is an ASCII capital letter.
pub fn lower_byte(b: u8) -> (r: u8)
    ensures
        r == lower(b),
{
    if 65 <= b && b <= 90 {
        b + 32
    } else {
        b
    }
}

/// Compares two texts without regard to the case of ASCII letters.
pub fn eq_ignoring_case(a: &[u8], b: &[u8]) -> (r: bool)
    ensures
        r == same_ignoring_case(a@, b@),
{
    if a.len() != b.len() {
        assert(folded(a@).len() != folded(b@).len());
        return false;
    }
    let mut i: usize = 0;
    while i < a.len()
        invariant
            i <= a.len(),
            a.len() == b.len(),
            forall|j: int| 0 <= j < i ==> lower(a@[j]) == lower(b@[j]),
        decreases a.len() - i,
    {
        if lower_byte(a[i]) != lower_byte(b[i]) {
            assert(folded(a@)[i as int] != folded(b@)[i as int]);
            return false;
        }
        i = i + 1;
    }
    assert(folded(a@) =~= folded(b@));
    true
}

/// An ASCII decimal digit.
pub open spec fn is_digit(b: u8) -> bool {
    48 <= b && b <= 57
}

/// The number that a sequence of decimal digits denotes.
pub open spec fn digits_value(s: Seq<u8>) -> nat
    decreases s.len(),
{
    if s.len() == 0 {
        0
    } else {
        digits_value(s.drop_last()) * 10 + (s.last() - 48) as nat
    }
}

/// `s` without its white space, wherever it stands.
pub open spec fn compact(s: Seq<u8>) -> Seq<u8>
    decreases s.len(),
{
    if s.len() == 0 {
        s
    } else if is_space(s.last()) {
        compact(s.drop_last())
    } else {
        compact(s.drop_last()).push(s.last())
    }
}

/// `s` without a plus sign at its start.
pub open spec fn unsigned(s: Seq<u8>) -> Seq<u8> {
    if s.len() > 0 && s[0] == 43 {
        s.drop_first()
    } else {
        s
    }
}

/// The 32-bit number written in `s`: white space is passed over, a plus
/// sign may stand in front, and at least one digit follows and nothing else.
/// `None` where `s` has another form or the number does not fit.
pub open spec fn number(s: Seq<u8>) -> Option<nat> {
    let d = unsigned(compact(s));
    if d.len() > 0 && (forall|i: int| 0 <= i < d.len() ==> is_digit(#[trigger] d[i]))
        && digits_value(d) <= u32::MAX {
        Some(digits_value(d))
    } else {
        None
    }
}

/// A number written with a prefix of some digits is no smaller than the one
/// written with the prefix alone.
pub proof fn lemma_digits_prefix(s: Seq<u8>, n: int)
    requires
        0 <= n <= s.len(),
        forall|i: int| 0 <= i < s.len() ==> is_digit(#[trigger] s[i]),
    ensures
        digits_value(s.take(n)) <= digits_value(s),
    decreases s.len() - n,
{
    if n < s.len() {
        let t = s.take(n + 1);
        assert(t.drop_last() == s.take(n));
        assert(is_digit(s[n]));
        assert(digits_value(s.take(n)) <= digits_value(t));
        lemma_digits_prefix(s, n + 1);
    } else {
        assert(s.take(n) == s);
    }
}

/// Copies `s` without its white space.
pub fn compact_bytes(s: &[u8]) -> (v: Vec<u8>)
    ensures
        v@ == compact(s@),
{
    let mut v: Vec<u8> = Vec::new();
    let mut i: usize = 0;
    while i < s.len()
        invariant
            i <= s.len(),
            v@ == compact(s@.take(i as int)),
        decreases s.len() - i,
    {
        let b: u8 = s[i];
        proof {
            assert(s@.take(i + 1).drop_last() == s@.take(i as int));
        }
        if !byte_in_class(Class::Space, b) {
            v.push(b);
        }
        i = i + 1;
    }
    proof {
        assert(s@.take(i as int) == s@);
    }
    v
}

/// Reads the 32-bit number written in `s`.
pub fn parse_number(s: &[u8]) -> (r: Option<u32>)
    ensures
        match number(s@) {
            Some(n) => r == Some(n as u32),
            None => r is None,
        },
{
    let c = compact_bytes(s);
    let start: usize = if c.len() > 0 && c[0] == 43 {
        1
    } else {
        0
    };
    let d = slice_subrange(c.as_slice(), start, c.len());
    assert(d@ == unsigned(c@));
    if d.len() == 0 {
        return None;
    }
    let mut acc: u64 = 0;
    let mut i: usize = 0;
    while i < d.len()
        invariant
            i <= d.len(),
            forall|j: int| 0 <= j < i ==> is_digit(#[trigger] d@[j]),
            acc == digits_value(d@.take(i as int)),
            acc <= u32::MAX,
            d@ == unsigned(compact(s@)),
        decreases d.len() - i,
    {
        let b: u8 = d[i];
        if !(48 <= b && b <= 57) {
            assert(!is_digit(d@[i as int]));
            return None;
        }
        proof {
            assert(d@.take(i + 1).drop_last() == d@.take(i as int));
        }
        acc = acc * 10 + (b - 48) as u64;
        i = i + 1;
        if acc > 0xffff_ffff {
            proof {
                lemma_digits_prefix_partial(d@, i as int);
            }
            return None;
        }
    }
    proof {
        assert(d@.take(i as int) == d@);
    }
    Some(acc as u32)
}

/// Where a prefix of digits already denotes too large a number, no text that
/// starts with it is a 32-bit number.
pub proof fn lemma_digits_prefix_partial(s: Seq<u8>, n: int)
    requires
        0 <= n <= s.len(),
        forall|i: int| 0 <= i < n ==> is_digit(#[trigger] s[i]),
        digits_value(s.take(n)) > u32::MAX,
    ensures
        !((forall|i: int| 0 <= i < s.len() ==> is_digit(#[trigger] s[i])) && digits_value(s)
            <= u32::MAX),
{
    if forall|i: int| 0 <= i < s.len() ==> is_digit(#[trigger] s[i]) {
        lemma_digits_prefix(s, n);
    }
}

/// The text of one decimal digit.
pub open spec fn digit_text(d: nat) -> Seq<char> {
    if d == 0 {
        "0"@
    } else if d == 1 {
        "1"@
    } else if d == 2 {
        "2"@
    } else if d == 3 {
        "3"@
    } else if d == 4 {
        "4"@
    } else if d == 5 {
        "5"@
    } else if d == 6 {
        "6"@
    } else if d == 7 {
        "7"@
    } else if d == 8 {
        "8"@
    } else {
        "9"@
    }
}

/// `n` written in decimal digits, without leading zeros.
pub open spec fn decimal_text(n: nat) -> Seq<char>
    decreases n,
{
    if n < 10 {
        digit_text(n)
    } else {
        decimal_text(n / 10) + digit_text(n % 10)
    }
}

/// The text of the decimal digit `d`.
pub fn digit_str(d: u8) -> (s: &'static str)
    requires
        d < 10,
    ensures
        s@ == digit_text(d as nat),
{
    match d {
        0 => "0",
        1 => "1",
        2 => "2",
        3 => "3",
        4 => "4",
        5 => "5",
        6 => "6",
        7 => "7",
        8 => "8",
        _ => "9",
    }
}

/// Writes `n` in decimal digits.
pub fn decimal(n: u64) -> (s: String)
    ensures
        s@ == decimal_text(n as nat),
    decreases n,
{
    if n < 10 {
        String::from_str(digit_str(n as u8))
    } else {
        let mut s = decimal(n / 10);
        s.append(digit_str((n % 10) as u8));
        s
    }
}

/// Decodes `bytes` as UTF-8 by `String::from_utf8` of the standard library:
/// there is a text if and only if the bytes are a valid encoding, and it is
/// the text that they encode.
#[verifier::external_body]
pub(crate) fn string_from_utf8(bytes: Vec<u8>) -> (r: Option<String>)
    ensures
        r is Some <==> valid_utf8(bytes@),
        r matches Some(s) ==> s@ == decode_utf8(bytes@),
{
    String::from_utf8(bytes).ok()
}

/// Tells whether two texts are the same.
pub fn same_text(a: &str, b: &str) -> (r: bool)
    ensures
        r == (a@ == b@),
{
    let x = a.as_bytes();
    let y = b.as_bytes();
    proof {
        encode_utf8_decode_utf8(a@);
        encode_utf8_decode_utf8(b@);
    }
    if x.len() != y.len() {
        return false;
    }
    let mut i: usize = 0;
    while i < x.len()
        invariant
            i <= x.len(),
            x.len() == y.len(),
            x@ == encode_utf8(a@),
            y@ == encode_utf8(b@),
            forall|j: int| 0 <= j < i ==> x@[j] == y@[j],
        decreases x.len() - i,
    {
        if x[i] != y[i] {
            return false;
        }
        i = i + 1;
    }
    assert(x@ =~= y@);
    true
}

} // verus!
