//! Small helpers on text values.

use vstd::prelude::*;

verus! {

/// Whether two pieces of text hold the same characters.
pub fn same_text(a: &str, b: &str) -> (r: bool)
    ensures
        r == (a@ == b@),
{
    let x = String::from_str(a);
    let y = String::from_str(b);
    x == y
}

/// A copy of an optional text.
pub fn clone_opt_text(o: &Option<String>) -> (r: Option<String>)
    ensures
        r == *o,
{
    match o {
        Some(s) => Some(s.clone()),
        None => None,
    }
}

/// The characters of an optional text.
pub open spec fn opt_chars(o: Option<String>) -> Option<Seq<char>> {
    match o {
        Some(s) => Some(s@),
        None => None,
    }
}

/// The characters of an optional borrowed text.
pub open spec fn chars_of(text: Option<&str>) -> Option<Seq<char>> {
    match text {
        Some(t) => Some(t@),
        None => None,
    }
}

/// What `opt` holds, or `fallback`.
pub open spec fn or_else<T>(opt: Option<T>, fallback: T) -> T {
    match opt {
        Some(x) => x,
        None => fallback,
    }
}

/// The character that stands for a digit.
pub open spec fn digit_char(d: nat) -> char {
    if d == 0 {
        '0'
    } else if d == 1 {
        '1'
    } else if d == 2 {
        '2'
    } else if d == 3 {
        '3'
    } else if d == 4 {
        '4'
    } else if d == 5 {
        '5'
    } else if d == 6 {
        '6'
    } else if d == 7 {
        '7'
    } else if d == 8 {
        '8'
    } else {
        '9'
    }
}

/// A number written in decimal, without leading zeros.
pub open spec fn decimal(n: nat) -> Seq<char>
    decreases n,
{
    if n < 10 {
        seq![digit_char(n)]
    } else {
        decimal(n / 10).push(digit_char(n % 10))
    }
}

/// A number written in decimal is never empty.
pub proof fn lemma_decimal_not_empty(n: nat)
    ensures
        decimal(n).len() > 0,
    decreases n,
{
    if n >= 10 {
        lemma_decimal_not_empty(n / 10);
    }
}

/// The text of one digit.
pub fn digit_text(d: u64) -> (r: &'static str)
    requires
        d < 10,
    ensures
        r@ == seq![digit_char(d as nat)],
{
    proof {
        reveal_strlit("0");
        reveal_strlit("1");
        reveal_strlit("2");
        reveal_strlit("3");
        reveal_strlit("4");
        reveal_strlit("5");
        reveal_strlit("6");
        reveal_strlit("7");
        reveal_strlit("8");
        reveal_strlit("9");
    }
    let r = if d == 0 {
        "0"
    } else if d == 1 {
        "1"
    } else if d == 2 {
        "2"
    } else if d == 3 {
        "3"
    } else if d == 4 {
        "4"
    } else if d == 5 {
        "5"
    } else if d == 6 {
        "6"
    } else if d == 7 {
        "7"
    } else if d == 8 {
        "8"
    } else {
        "9"
    };
    assert(r@ =~= seq![digit_char(d as nat)]);
    r
}

/// Writes a number in decimal.
pub fn decimal_text(n: u64) -> (r: String)
    ensures
        r@ == decimal(n as nat),
    decreases n,
{
    if n < 10 {
        String::from_str(digit_text(n))
    } else {
        let mut r = decimal_text(n / 10);
        r.append(digit_text(n % 10));
        assert(r@ =~= decimal(n as nat));
        r
    }
}

/// Whether a character is one of the ten digits.
pub open spec fn is_digit(c: char) -> bool {
    '0' <= c <= '9'
}

/// The number that a digit stands for.
pub open spec fn digit_value(c: char) -> nat {
    (c as u32 - '0' as u32) as nat
}

/// Whether every character is a digit.
pub open spec fn all_digits(s: Seq<char>) -> bool {
    forall|i: int| 0 <= i < s.len() ==> is_digit(#[trigger] s[i])
}

/// The number that a run of digits stands for, read in decimal.
pub open spec fn digits_value(s: Seq<char>) -> nat
    decreases s.len(),
{
    if s.len() == 0 {
        0
    } else {
        digits_value(s.drop_last()) * 10 + digit_value(s.last())
    }
}

/// The digits of a number text: the text without a leading plus sign.
pub open spec fn unsigned_part(s: Seq<char>) -> Seq<char> {
    if s.len() > 0 && s[0] == '+' {
        s.skip(1)
    } else {
        s
    }
}

/// The 16-bit number that a text stands for: an optional plus sign, then at
/// least one digit and nothing else, with a value of at most 65535.
pub open spec fn parsed_u16(s: Seq<char>) -> Option<u16> {
    let body = unsigned_part(s);
    if body.len() > 0 && all_digits(body) && digits_value(body) <= u16::MAX {
        Some(digits_value(body) as u16)
    } else {
        None
    }
}

/// A run of digits stands for at least as much as any of its beginnings.
pub proof fn lemma_digits_grow(s: Seq<char>, i: int)
    requires
        0 <= i <= s.len(),
    ensures
        digits_value(s.take(i)) <= digits_value(s),
    decreases s.len() - i,
{
    if i < s.len() {
        lemma_digits_grow(s, i + 1);
        assert(s.take(i + 1).drop_last() =~= s.take(i));
    } else {
        assert(s.take(i) =~= s);
    }
}

/// Reads a 16-bit number.
pub fn parse_u16(text: &str) -> (r: Option<u16>)
    ensures
        r == parsed_u16(text@),
{
    let n = text.unicode_len();
    if n == 0 {
        return None;
    }
    let start: usize = if text.get_char(0) == '+' {
        1
    } else {
        0
    };
    let ghost body = unsigned_part(text@);
    if start == n {
        return None;
    }
    let mut acc: u32 = 0;
    let mut i: usize = start;
    assert(body.take(0).len() == 0);
    while i < n
        invariant
            start <= i <= n,
            n == text@.len(),
            start <= 1,
            body == unsigned_part(text@),
            body == text@.skip(start as int),
            all_digits(body.take(i - start)),
            acc == digits_value(body.take(i - start)),
            acc <= u16::MAX,
        decreases n - i,
    {
        let c = text.get_char(i);
        let ghost k = i - start;
        assert(body[k] == c);
        assert(body.take(k + 1).drop_last() =~= body.take(k));
        assert(body.take(k + 1).last() == c);
        if !(c >= '0' && c <= '9') {
            return None;
        }
        let d: u32 = c as u32 - '0' as u32;
        acc = acc * 10 + d;
        if acc > 65535 {
            proof {
                lemma_digits_grow(body, k + 1);
            }
            return None;
        }
        assert forall|j: int| 0 <= j < k + 1 implies is_digit(#[trigger] body.take(k + 1)[j]) by {
            if j < k {
                assert(body.take(k)[j] == body[j]);
            }
        }
        i += 1;
    }
    assert(body.take(n - start) =~= body);
    Some(acc as u16)
}

/// A character with a capital letter of the English alphabet read as the
/// small one, as a code point.
pub open spec fn folded(c: char) -> u32 {
    if 'A' <= c <= 'Z' {
        (c as u32 + 32) as u32
    } else {
        c as u32
    }
}

/// Whether two texts are the same but for the case of English letters.
pub open spec fn same_but_for_case(a: Seq<char>, b: Seq<char>) -> bool {
    &&& a.len() == b.len()
    &&& forall|i: int| 0 <= i < a.len() ==> folded(#[trigger] a[i]) == folded(b[i])
}

/// A character with a capital letter of the English alphabet read as the
/// small one, as a code point.
fn fold_case(c: char) -> (r: u32)
    ensures
        r == folded(c),
{
    if c >= 'A' && c <= 'Z' {
        c as u32 + 32
    } else {
        c as u32
    }
}

/// Whether two texts are the same but for the case of English letters.
pub fn same_text_ignoring_case(a: &str, b: &str) -> (r: bool)
    ensures
        r == same_but_for_case(a@, b@),
{
    let n = a.unicode_len();
    if b.unicode_len() != n {
        return false;
    }
    let mut i: usize = 0;
    while i < n
        invariant
            0 <= i <= n,
            n == a@.len(),
            n == b@.len(),
            forall|j: int| 0 <= j < i ==> folded(#[trigger] a@[j]) == folded(b@[j]),
        decreases n - i,
    {
        if fold_case(a.get_char(i)) != fold_case(b.get_char(i)) {
            return false;
        }
        i += 1;
    }
    true
}

/// Whether `needle` occurs in `hay` at place `at`.
pub open spec fn occurs_at(hay: Seq<char>, needle: Seq<char>, at: int) -> bool {
    &&& 0 <= at
    &&& at + needle.len() <= hay.len()
    &&& hay.subrange(at, at + needle.len()) == needle
}

/// Whether `needle` occurs somewhere in `hay`.
pub open spec fn contains_text(hay: Seq<char>, needle: Seq<char>) -> bool {
    exists|at: int| occurs_at(hay, needle, at)
}

/// The characters of a text.
pub fn chars_of_text(text: &str) -> (chars: Vec<char>)
    ensures
        chars@ == text@,
{
    let n = text.unicode_len();
    let mut chars: Vec<char> = Vec::new();
    let mut i: usize = 0;
    while i < n
        invariant
            0 <= i <= n,
            n == text@.len(),
            chars@ == text@.take(i as int),
        decreases n - i,
    {
        chars.push(text.get_char(i));
        assert(chars@ =~= text@.take(i as int + 1));
        i += 1;
    }
    assert(text@.take(n as int) =~= text@);
    chars
}

/// Whether `needle` occurs in `hay` at place `at`.
fn found_at(hay: &Vec<char>, needle: &Vec<char>, at: usize) -> (b: bool)
    requires
        at + needle@.len() <= hay@.len(),
    ensures
        b == occurs_at(hay@, needle@, at as int),
{
    let m = needle.len();
    let n = hay.len();
    let mut j: usize = 0;
    while j < m
        invariant
            0 <= j <= m,
            m == needle@.len(),
            n == hay@.len(),
            at + m <= n,
            forall|k: int| 0 <= k < j ==> hay@[at + k] == needle@[k],
        decreases m - j,
    {
        if hay[at + j] != needle[j] {
            assert(hay@.subrange(at as int, at + m)[j as int] != needle@[j as int]);
            return false;
        }
        j += 1;
    }
    assert(hay@.subrange(at as int, at + m) =~= needle@);
    true
}

/// Whether `needle` occurs somewhere in `hay`.
pub fn text_contains(hay: &str, needle: &str) -> (b: bool)
    ensures
        b == contains_text(hay@, needle@),
{
    let h = chars_of_text(hay);
    let p = chars_of_text(needle);
    if p.len() > h.len() {
        return false;
    }
    let last = h.len() - p.len();
    let mut at: usize = 0;
    loop
        invariant
            0 <= at <= last,
            last == h@.len() - p@.len(),
            h@ == hay@,
            p@ == needle@,
            forall|k: int| 0 <= k < at ==> !occurs_at(h@, p@, k),
        decreases last - at,
    {
        if found_at(&h, &p, at) {
            return true;
        }
        if at == last {
            return false;
        }
        at += 1;
    }
}

/// A number written in decimal with at least two digits.
pub open spec fn two_digits(n: nat) -> Seq<char> {
    if n < 10 {
        seq!['0', digit_char(n)]
    } else {
        decimal(n)
    }
}

/// Writes a number in decimal with at least two digits.
pub fn two_digit_text(n: u64) -> (r: String)
    ensures
        r@ == two_digits(n as nat),
{
    if n < 10 {
        proof {
            reveal_strlit("0");
        }
        let mut r = String::from_str("0");
        r.append(digit_text(n));
        assert(r@ =~= two_digits(n as nat));
        r
    } else {
        decimal_text(n)
    }
}

/// A whole number written in decimal, with a minus sign where it is negative.
pub open spec fn signed_decimal(n: int) -> Seq<char> {
    if n < 0 {
        seq!['-'] + decimal((-n) as nat)
    } else {
        decimal(n as nat)
    }
}

/// Writes a whole number in decimal.
pub fn signed_decimal_text(n: i64) -> (r: String)
    ensures
        r@ == signed_decimal(n as int),
{
    if n < 0 {
        proof {
            reveal_strlit("-");
        }
        let mut r = String::from_str("-");
        let magnitude: u64 = if n == i64::MIN {
            9223372036854775808
        } else {
            (-n) as u64
        };
        let digits = decimal_text(magnitude);
        r.append(digits.as_str());
        assert(r@ =~= signed_decimal(n as int));
        r
    } else {
        decimal_text(n as u64)
    }
}

} // verus!
