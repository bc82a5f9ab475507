//! Character-sequence helpers used by the rest of the library.

use vstd::prelude::*;

verus! {

/// Whether a character has the Unicode `White_Space` property: the controls
/// U+0009 to U+000D, the space, U+0085, the no-break space, U+1680, the
/// spaces U+2000 to U+200A, the line and paragraph separators, U+202F,
/// U+205F and the ideographic space.
pub open spec fn is_white(c: char) -> bool {
    ||| '\u{9}' <= c <= '\u{d}'
    ||| c == ' '
    ||| c == '\u{85}'
    ||| c == '\u{a0}'
    ||| c == '\u{1680}'
    ||| '\u{2000}' <= c <= '\u{200a}'
    ||| c == '\u{2028}'
    ||| c == '\u{2029}'
    ||| c == '\u{202f}'
    ||| c == '\u{205f}'
    ||| c == '\u{3000}'
}

/// Whether every character of `s` is an ASCII character.
pub open spec fn all_ascii(s: Seq<char>) -> bool {
    forall|i: int| 0 <= i < s.len() ==> #[trigger] s[i] <= '\x7f'
}

/// `c` with an ASCII capital letter turned into its small letter.
pub open spec fn ascii_lower_char(c: char) -> char {
    if 'A' <= c <= 'Z' { (c as int + 32) as char } else { c }
}

/// `c` with an ASCII small letter turned into its capital letter.
pub open spec fn ascii_upper_char(c: char) -> char {
    if 'a' <= c <= 'z' { (c as int - 32) as char } else { c }
}

/// What `str::to_lowercase` returns for a string (Unicode lowercase mapping).
pub uninterp spec fn lowercase_of(s: Seq<char>) -> Seq<char>;

/// What `str::to_uppercase` returns for a string (Unicode uppercase mapping).
pub uninterp spec fn uppercase_of(s: Seq<char>) -> Seq<char>;

/// Calls `char::is_whitespace`, which its documentation gives as the Unicode
/// `White_Space` property, stated by `is_white`.
#[verifier::external_body]
pub fn char_is_whitespace(c: char) -> (b: bool)
    ensures
        b == is_white(c),
{
    c.is_whitespace()
}

/// Calls `str::to_lowercase`; its result is named by `lowercase_of`. Of an
/// all-ASCII string it is the string with each capital letter made small (so
/// the empty string stays empty); the mapping of other characters is left to
/// the name.
#[verifier::external_body]
pub fn to_lowercase(s: &str) -> (r: String)
    ensures
        r@ == lowercase_of(s@),
        all_ascii(s@) ==> r@ == s@.map_values(|c: char| ascii_lower_char(c)),
{
    s.to_lowercase()
}

/// Calls `str::to_uppercase`; its result is named by `uppercase_of`. Of an
/// all-ASCII string it is the string with each small letter made capital;
/// the mapping of other characters is left to the name.
#[verifier::external_body]
pub fn to_uppercase(s: &str) -> (r: String)
    ensures
        r@ == uppercase_of(s@),
        all_ascii(s@) ==> r@ == s@.map_values(|c: char| ascii_upper_char(c)),
{
    s.to_uppercase()
}

/// Calls `String::push`, which appends one character.
#[verifier::external_body]
pub fn push_char(s: &mut String, c: char)
    ensures
        final(s)@ == old(s)@.push(c),
{
    s.push(c)
}

/// The characters of a string, in order.
pub fn chars_of(s: &str) -> (v: Vec<char>)
    ensures
        v@ == s@,
{
    let mut v: Vec<char> = Vec::new();
    for c in it: s.chars()
        invariant
            v@ == it.seq().take(it.index() as int),
    {
        v.push(c);
    }
    v
}

/// A string holding the given characters, in order.
pub fn string_of(v: &Vec<char>) -> (s: String)
    ensures
        s@ == v@,
{
    let mut s = String::new();
    let mut i: usize = 0;
    while i < v.len()
        invariant
            i <= v.len(),
            s@ == v@.take(i as int),
        decreases v.len() - i,
    {
        push_char(&mut s, v[i]);
        assert(v@.take(i as int + 1) == v@.take(i as int).push(v@[i as int]));
        i = i + 1;
    }
    assert(v@.take(v.len() as int) == v@);
    s
}

/// `s` without its last character (unchanged when empty), as `String::pop`
/// leaves it.
pub fn pop_char(s: &mut String)
    ensures
        final(s)@ == (if old(s)@.len() == 0 { old(s)@ } else { old(s)@.drop_last() }),
{
    let v = chars_of(s.as_str());
    if v.len() > 0 {
        *s = string_of_range(&v, 0, v.len() - 1);
    }
}

/// Where the last `/`-separated segment of `s` starts: just after its last
/// `/`, or at 0 when it has none.
pub open spec fn segment_start(s: Seq<char>) -> int
    decreases s.len(),
{
    if s.len() == 0 {
        0
    } else if s.last() == '/' {
        s.len() as int
    } else {
        segment_start(s.drop_last())
    }
}

/// The last `/`-separated segment of a path: its file name.
pub open spec fn last_segment(s: Seq<char>) -> Seq<char> {
    s.subrange(segment_start(s), s.len() as int)
}

/// A string holding the characters of `v` from `start` up to `end`.
pub fn string_of_range(v: &Vec<char>, start: usize, end: usize) -> (s: String)
    requires
        start <= end <= v.len(),
    ensures
        s@ == v@.subrange(start as int, end as int),
{
    let mut s = String::new();
    let mut i: usize = start;
    while i < end
        invariant
            start <= i <= end <= v.len(),
            s@ == v@.subrange(start as int, i as int),
        decreases end - i,
    {
        push_char(&mut s, v[i]);
        assert(v@.subrange(start as int, i as int + 1) == v@.subrange(start as int, i as int).push(v@[i as int]));
        i = i + 1;
    }
    s
}

/// `s` with leading whitespace removed.
pub open spec fn trim_start_seq(s: Seq<char>) -> Seq<char>
    decreases s.len(),
{
    if s.len() > 0 && is_white(s[0]) {
        trim_start_seq(s.drop_first())
    } else {
        s
    }
}

/// `s` with trailing whitespace removed.
pub open spec fn trim_end_seq(s: Seq<char>) -> Seq<char>
    decreases s.len(),
{
    if s.len() > 0 && is_white(s.last()) {
        trim_end_seq(s.drop_last())
    } else {
        s
    }
}

/// `s` with leading and trailing whitespace removed, as `str::trim` does.
pub open spec fn trim_seq(s: Seq<char>) -> Seq<char> {
    trim_end_seq(trim_start_seq(s))
}

proof fn lemma_trim_start_skip(s: Seq<char>, i: int)
    requires
        0 <= i <= s.len(),
        forall|j: int| 0 <= j < i ==> is_white(#[trigger] s[j]),
    ensures
        trim_start_seq(s) == trim_start_seq(s.subrange(i, s.len() as int)),
    decreases i,
{
    if i > 0 {
        assert(is_white(s[0]));
        let t = s.drop_first();
        assert forall|j: int| 0 <= j < i - 1 implies is_white(#[trigger] t[j]) by {
            assert(t[j] == s[j + 1]);
        }
        lemma_trim_start_skip(t, i - 1);
        assert(t.subrange(i - 1, t.len() as int) == s.subrange(i, s.len() as int));
    } else {
        assert(s.subrange(0, s.len() as int) == s);
    }
}

proof fn lemma_trim_end_cut(s: Seq<char>, e: int)
    requires
        0 <= e <= s.len(),
        forall|j: int| e <= j < s.len() ==> is_white(#[trigger] s[j]),
    ensures
        trim_end_seq(s) == trim_end_seq(s.subrange(0, e)),
    decreases s.len() - e,
{
    if e < s.len() {
        assert(is_white(s.last()));
        let t = s.drop_last();
        assert forall|j: int| e <= j < t.len() implies is_white(#[trigger] t[j]) by {
            assert(t[j] == s[j]);
        }
        lemma_trim_end_cut(t, e);
        assert(t.subrange(0, e) == s.subrange(0, e));
    } else {
        assert(s.subrange(0, e) == s);
    }
}

/// The string with leading and trailing whitespace removed (`str::trim`).
pub fn trim(s: &str) -> (r: String)
    ensures
        r@ == trim_seq(s@),
{
    let v = chars_of(s);
    let mut i: usize = 0;
    while i < v.len() && char_is_whitespace(v[i])
        invariant
            i <= v.len(),
            v@ == s@,
            forall|j: int| 0 <= j < i ==> is_white(#[trigger] v@[j]),
        decreases v.len() - i,
    {
        i = i + 1;
    }
    proof {
        lemma_trim_start_skip(v@, i as int);
    }
    let ghost rest = v@.subrange(i as int, v@.len() as int);
    assert(i == v.len() || !is_white(rest[0]));
    let mut e: usize = v.len();
    while e > i && char_is_whitespace(v[e - 1])
        invariant
            i <= e <= v.len(),
            v@ == s@,
            rest == v@.subrange(i as int, v@.len() as int),
            forall|j: int| e - i <= j < rest.len() ==> is_white(#[trigger] rest[j]),
        decreases e,
    {
        e = e - 1;
    }
    proof {
        lemma_trim_end_cut(rest, e - i);
        assert(rest.subrange(0, e - i) == v@.subrange(i as int, e as int));
        if e > i {
            assert(!is_white(v@.subrange(i as int, e as int).last()));
        }
    }
    string_of_range(&v, i, e)
}

/// Whether `needle` occurs in `hay` starting at position `i`.
pub open spec fn occurs_at(hay: Seq<char>, needle: Seq<char>, i: int) -> bool {
    0 <= i && i + needle.len() <= hay.len() && hay.subrange(i, i + needle.len()) == needle
}

/// Whether `needle` occurs anywhere in `hay` (`str::contains`).
pub open spec fn contains_seq(hay: Seq<char>, needle: Seq<char>) -> bool {
    exists|i: int| occurs_at(hay, needle, i)
}

/// Whether `needle` occurs in `hay` at position `i`.
pub fn matches_at(hay: &Vec<char>, needle: &Vec<char>, i: usize) -> (b: bool)
    ensures
        b == occurs_at(hay@, needle@, i as int),
{
    if i > hay.len() || needle.len() > hay.len() - i {
        return false;
    }
    let mut k: usize = 0;
    while k < needle.len()
        invariant
            i + needle.len() <= hay.len(),
            k <= needle.len(),
            forall|j: int| 0 <= j < k ==> hay@[i + j] == needle@[j],
        decreases needle.len() - k,
    {
        if hay[i + k] != needle[k] {
            assert(hay@.subrange(i as int, i + needle.len())[k as int] != needle@[k as int]);
            return false;
        }
        k = k + 1;
    }
    assert(hay@.subrange(i as int, i + needle.len()) =~= needle@);
    true
}

/// The first position at which `needle` occurs in `hay`, if any.
pub fn find_seq(hay: &Vec<char>, needle: &Vec<char>) -> (r: Option<usize>)
    ensures
        match r {
            Some(i) => occurs_at(hay@, needle@, i as int) && forall|j: int|
                0 <= j < i ==> !occurs_at(hay@, needle@, j),
            None => !contains_seq(hay@, needle@),
        },
{
    if needle.len() > hay.len() {
        assert forall|j: int| !occurs_at(hay@, needle@, j) by {}
        return None;
    }
    let last = hay.len() - needle.len();
    let mut i: usize = 0;
    while i < last
        invariant
            last == hay.len() - needle.len(),
            i <= last,
            forall|j: int| 0 <= j < i ==> !occurs_at(hay@, needle@, j),
        decreases last - i,
    {
        if matches_at(hay, needle, i) {
            return Some(i);
        }
        i = i + 1;
    }
    if matches_at(hay, needle, last) {
        return Some(last);
    }
    assert forall|j: int| !occurs_at(hay@, needle@, j) by {
        if 0 <= j < i {
        }
    }
    None
}

/// Whether `needle` occurs in `hay` (`str::contains`).
pub fn contains(hay: &str, needle: &str) -> (b: bool)
    ensures
        b == contains_seq(hay@, needle@),
{
    let h = chars_of(hay);
    let n = chars_of(needle);
    find_seq(&h, &n).is_some()
}

/// Whether `s` begins with `prefix` (`str::starts_with`).
pub fn starts_with(s: &Vec<char>, prefix: &Vec<char>) -> (b: bool)
    ensures
        b == occurs_at(s@, prefix@, 0),
{
    matches_at(s, prefix, 0)
}

/// Whether `c` is one of the ASCII digits `0`..`9`.
pub open spec fn is_digit(c: char) -> bool {
    '0' <= c && c <= '9'
}

/// The numeric value of an ASCII digit.
pub open spec fn digit_value(c: char) -> nat {
    (c as int - '0' as int) as nat
}

/// The character of a digit value below ten.
pub open spec fn digit_char(d: nat) -> char {
    if d == 0 { '0' }
    else if d == 1 { '1' }
    else if d == 2 { '2' }
    else if d == 3 { '3' }
    else if d == 4 { '4' }
    else if d == 5 { '5' }
    else if d == 6 { '6' }
    else if d == 7 { '7' }
    else if d == 8 { '8' }
    else { '9' }
}

/// Whether every character of `s` is an ASCII digit.
pub open spec fn all_digits(s: Seq<char>) -> bool {
    forall|i: int| 0 <= i < s.len() ==> is_digit(#[trigger] s[i])
}

/// The number written by the decimal digits `s`.
pub open spec fn digits_value(s: Seq<char>) -> nat
    decreases s.len(),
{
    if s.len() == 0 {
        0
    } else {
        digits_value(s.drop_last()) * 10 + digit_value(s.last())
    }
}

/// What `str::parse` gives for an unsigned integer type whose largest value
/// is `max`: an optional `+`, then at least one ASCII digit, with a value
/// that fits.
pub open spec fn parse_unsigned_spec(s: Seq<char>, max: nat) -> Option<nat> {
    let d = if s.len() > 0 && s[0] == '+' { s.drop_first() } else { s };
    if d.len() > 0 && all_digits(d) && digits_value(d) <= max {
        Some(digits_value(d))
    } else {
        None
    }
}

/// The decimal digits of `n`, most significant first, as `to_string` writes them.
pub open spec fn decimal_seq(n: nat) -> Seq<char>
    decreases n,
{
    if n < 10 {
        seq![digit_char(n)]
    } else {
        decimal_seq(n / 10).push(digit_char(n % 10))
    }
}

/// The text of a signed number, as `to_string` writes it.
pub open spec fn signed_decimal_seq(n: int) -> Seq<char> {
    if n < 0 {
        seq!['-'] + decimal_seq((-n) as nat)
    } else {
        decimal_seq(n as nat)
    }
}

proof fn lemma_digits_value_grows(s: Seq<char>, k: int)
    requires
        0 <= k <= s.len(),
    ensures
        digits_value(s.take(k)) <= digits_value(s),
    decreases s.len() - k,
{
    if k < s.len() {
        assert(s.take(s.len() as int) == s);
        let t = s.drop_last();
        assert(t.take(k) == s.take(k));
        lemma_digits_value_grows(t, k);
    } else {
        assert(s.take(k) == s);
    }
}

/// Parses `s` as `str::parse` does for an unsigned integer type whose largest
/// value is `max`.
pub fn parse_unsigned(s: &Vec<char>, max: u64) -> (r: Option<u64>)
    ensures
        match parse_unsigned_spec(s@, max as nat) {
            Some(n) => r == Some(n as u64),
            None => r is None,
        },
{
    let mut i: usize = 0;
    if s.len() > 0 && s[0] == '+' {
        i = 1;
    }
    let ghost d = if s@.len() > 0 && s@[0] == '+' { s@.drop_first() } else { s@ };
    assert(d == s@.subrange(i as int, s@.len() as int));
    if i == s.len() {
        return None;
    }
    let start = i;
    let mut value: u64 = 0;
    while i < s.len()
        invariant
            start <= i <= s.len(),
            d == s@.subrange(start as int, s@.len() as int),
            d == (if s@.len() > 0 && s@[0] == '+' { s@.drop_first() } else { s@ }),
            d.len() > 0,
            all_digits(s@.subrange(start as int, i as int)),
            value as nat == digits_value(s@.subrange(start as int, i as int)),
            value <= max,
        decreases s.len() - i,
    {
        let c = s[i];
        let ghost pre = s@.subrange(start as int, i as int);
        let ghost next = s@.subrange(start as int, i as int + 1);
        assert(next.drop_last() == pre);
        assert(next.last() == c);
        if !(c >= '0' && c <= '9') {
            assert(d[i - start] == c);
            assert(!is_digit(d[i - start]));
            assert(!all_digits(d));
            assert(parse_unsigned_spec(s@, max as nat) is None);
            return None;
        }
        let digit: u64 = (c as u32 - '0' as u32) as u64;
        assert(digit as nat == digit_value(c));
        assert(all_digits(next));
        if digit > max || value > (max - digit) / 10 {
            proof {
                assert(digits_value(next) == value * 10 + digit);
                if digit <= max {
                    assert(value * 10 + digit > max) by (nonlinear_arith)
                        requires
                            value > (max - digit) / 10,
                            digit <= max,
                    ;
                }
                assert(digits_value(next) > max);
                assert(d.take(i - start + 1) == next);
                lemma_digits_value_grows(d, i - start + 1);
                assert(parse_unsigned_spec(s@, max as nat) is None);
            }
            return None;
        }
        value = value * 10 + digit;
        i = i + 1;
    }
    assert(s@.subrange(start as int, i as int) == d);
    Some(value)
}

/// Appends the decimal digits of `n` to `out`.
fn push_decimal(n: u64, out: &mut Vec<char>)
    ensures
        final(out)@ == old(out)@ + decimal_seq(n as nat),
    decreases n,
{
    if n >= 10 {
        push_decimal(n / 10, out);
    }
    let d = n % 10;
    let c = if d == 0 { '0' }
        else if d == 1 { '1' }
        else if d == 2 { '2' }
        else if d == 3 { '3' }
        else if d == 4 { '4' }
        else if d == 5 { '5' }
        else if d == 6 { '6' }
        else if d == 7 { '7' }
        else if d == 8 { '8' }
        else { '9' };
    out.push(c);
    proof {
        if n < 10 {
            assert(decimal_seq(n as nat) == seq![digit_char(n as nat)]);
            assert(n as nat % 10 == n as nat);
        }
    }
}

/// The decimal text of `n` (`u64::to_string`).
pub fn decimal(n: u64) -> (s: String)
    ensures
        s@ == decimal_seq(n as nat),
{
    let mut v: Vec<char> = Vec::new();
    push_decimal(n, &mut v);
    assert(v@ == decimal_seq(n as nat));
    string_of(&v)
}

/// The decimal text of a signed number (`i64::to_string`).
pub fn signed_decimal(n: i64) -> (s: String)
    ensures
        s@ == signed_decimal_seq(n as int),
{
    let mut v: Vec<char> = Vec::new();
    if n < 0 {
        v.push('-');
        let m: u64 = if n == i64::MIN { 9223372036854775808u64 } else { (-n) as u64 };
        push_decimal(m, &mut v);
    } else {
        push_decimal(n as u64, &mut v);
    }
    string_of(&v)
}

pub(crate) proof fn lemma_digit_char_value(d: nat)
    requires
        d < 10,
    ensures
        is_digit(digit_char(d)),
        digit_value(digit_char(d)) == d,
{
}

pub(crate) proof fn lemma_decimal_digits(n: nat)
    ensures
        decimal_seq(n).len() > 0,
        all_digits(decimal_seq(n)),
        digits_value(decimal_seq(n)) == n,
        decimal_seq(n)[0] != '+',
    decreases n,
{
    lemma_digit_char_value(n % 10);
    if n >= 10 {
        lemma_decimal_digits(n / 10);
        let s = decimal_seq(n);
        assert(s.drop_last() == decimal_seq(n / 10));
        assert(s[0] == decimal_seq(n / 10)[0]);
        assert(s.last() == digit_char(n % 10));
        assert(digits_value(s) == digits_value(s.drop_last()) * 10 + digit_value(s.last()));
        assert(n == (n / 10) * 10 + n % 10);
    } else {
        let s = decimal_seq(n);
        assert(s.drop_last() =~= Seq::<char>::empty());
        assert(digits_value(s) == digits_value(s.drop_last()) * 10 + digit_value(s.last()));
    }
}

/// Reading back the decimal text of a number gives the number: parsing
/// `decimal_seq(n)` as an unsigned integer type that can hold `n` yields `n`.
pub proof fn law_parse_decimal_roundtrip(n: nat, max: nat)
    requires
        n <= max,
    ensures
        parse_unsigned_spec(decimal_seq(n), max) == Some(n),
{
    lemma_decimal_digits(n);
}

/// Whether two character vectors are equal.
pub fn chars_equal(a: &Vec<char>, b: &Vec<char>) -> (r: bool)
    ensures
        r == (a@ == b@),
{
    if a.len() != b.len() {
        return false;
    }
    let mut i: usize = 0;
    while i < a.len()
        invariant
            a.len() == b.len(),
            i <= a.len(),
            forall|k: int| 0 <= k < i ==> a@[k] == b@[k],
        decreases a.len() - i,
    {
        if a[i] != b[i] {
            return false;
        }
        i = i + 1;
    }
    assert(a@ =~= b@);
    true
}

/// Whether two strings are equal.
pub fn text_eq(a: &str, b: &str) -> (r: bool)
    ensures
        r == (a@ == b@),
{
    let x = chars_of(a);
    let y = chars_of(b);
    chars_equal(&x, &y)
}

/// A copy of a string.
pub fn copy_string(s: &String) -> (r: String)
    ensures
        r@ == s@,
{
    s.clone()
}

/// Calls `String::push_str`, which appends a string.
#[verifier::external_body]
pub fn push_str(s: &mut String, t: &str)
    ensures
        final(s)@ == old(s)@ + t@,
{
    s.push_str(t)
}

/// A string holding the text of `s`.
pub fn owned(s: &str) -> (r: String)
    ensures
        r@ == s@,
{
    s.to_owned()
}

/// The part of `s` before the first occurrence of `sep`, and the part after
/// it (`str::splitn(2, sep)` when `sep` occurs).
pub open spec fn split_once_seq(s: Seq<char>, sep: Seq<char>, at: int) -> (Seq<char>, Seq<char>) {
    (s.subrange(0, at), s.subrange(at + sep.len(), s.len() as int))
}

/// The first position of `sep` in `s`; meaningful when `sep` occurs.
#[verifier::opaque]
pub open spec fn first_occurrence(s: Seq<char>, sep: Seq<char>) -> int {
    choose|i: int| occurs_at(s, sep, i) && forall|j: int| 0 <= j < i ==> !occurs_at(s, sep, j)
}

/// Splits `s` at the first occurrence of `sep`, if it occurs.
pub fn split_once(s: &str, sep: &str) -> (r: Option<(String, String)>)
    ensures
        match r {
            Some(parts) => contains_seq(s@, sep@) && parts.0@ == split_once_seq(s@, sep@, first_occurrence(s@, sep@)).0
                && parts.1@ == split_once_seq(s@, sep@, first_occurrence(s@, sep@)).1,
            None => !contains_seq(s@, sep@),
        },
{
    let v = chars_of(s);
    let p = chars_of(sep);
    match find_seq(&v, &p) {
        Some(i) => {
            proof {
                reveal(first_occurrence);
                let f = first_occurrence(s@, sep@);
                assert(occurs_at(s@, sep@, f) && forall|j: int| 0 <= j < f ==> !occurs_at(s@, sep@, j));
                if f < i {
                } else if f > i {
                    assert(!occurs_at(s@, sep@, i as int));
                }
                assert(f == i);
            }
            assert(occurs_at(v@, p@, i as int));
            let plen = p.len();
            let vlen = v.len();
            assert(i + plen <= vlen);
            Some((string_of_range(&v, 0, i), string_of_range(&v, i + plen, vlen)))
        },
        None => None,
    }
}

/// Whether every character of `s` is an ASCII digit.
pub fn is_all_digits(s: &str) -> (b: bool)
    ensures
        b == all_digits(s@),
{
    let v = chars_of(s);
    let mut i: usize = 0;
    while i < v.len()
        invariant
            i <= v.len(),
            v@ == s@,
            forall|k: int| 0 <= k < i ==> is_digit(#[trigger] v@[k]),
        decreases v.len() - i,
    {
        if !(v[i] >= '0' && v[i] <= '9') {
            assert(!is_digit(v@[i as int]));
            return false;
        }
        i = i + 1;
    }
    true
}

/// The file name of a path: what follows its last `/`.
pub fn file_name(path: &str) -> (r: String)
    ensures
        r@ == last_segment(path@),
{
    let v = chars_of(path);
    let mut i: usize = v.len();
    assert(v@.subrange(0, i as int) =~= v@);
    while i > 0 && v[i - 1] != '/'
        invariant
            i <= v@.len(),
            v@ == path@,
            segment_start(v@) == segment_start(v@.subrange(0, i as int)),
        decreases i,
    {
        assert(v@.subrange(0, i as int).drop_last() =~= v@.subrange(0, i - 1));
        i = i - 1;
    }
    proof {
        if i == 0 {
            assert(v@.subrange(0, 0) =~= Seq::<char>::empty());
        }
    }
    string_of_range(&v, i, v.len())
}

/// In `x + sep + z`, where no character of `x` starts `sep`, the first
/// occurrence of `sep` is right after `x`.
pub proof fn lemma_first_occurrence_after(x: Seq<char>, sep: Seq<char>, z: Seq<char>)
    requires
        sep.len() > 0,
        forall|k: int| 0 <= k < x.len() ==> x[k] != sep[0],
    ensures
        contains_seq(x + sep + z, sep),
        first_occurrence(x + sep + z, sep) == x.len(),
{
    let p = x + sep + z;
    let k = x.len() as int;
    assert(p.subrange(k, k + sep.len()) =~= sep);
    assert(occurs_at(p, sep, k));
    assert forall|j: int| 0 <= j < k implies !occurs_at(p, sep, j) by {
        if occurs_at(p, sep, j) {
            assert(p.subrange(j, j + sep.len())[0] == p[j]);
            assert(p[j] == x[j]);
        }
    }
    reveal(first_occurrence);
    let c = first_occurrence(p, sep);
    assert(occurs_at(p, sep, c) && forall|j: int| 0 <= j < c ==> !occurs_at(p, sep, j));
    if c > k {
        assert(!occurs_at(p, sep, k));
    }
}

} // verus!
