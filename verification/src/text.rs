//! Text building, scanning and parsing over the characters of a string.
use vstd::arithmetic::div_mod::lemma_div_denominator;
use vstd::arithmetic::power::{lemma_pow0, lemma_pow_positive, pow};
use vstd::prelude::*;
use vstd::string::*;

verus! {

/// The characters of `s`, in order.
pub fn chars_of(s: &str) -> (r: Vec<char>)
    ensures
        r@ == s@,
{
    let mut out: Vec<char> = Vec::new();
    for c in it: s.chars()
        invariant
            out@ == it.seq().take(it.index() as int),
            it.seq() == s@,
    {
        out.push(c);
    }
    out
}

// Building

/// Two texts in a row.
pub fn concat2(a: &str, b: &str) -> (r: String)
    ensures
        r@ == a@ + b@,
{
    let mut out = a.to_owned();
    out.append(b);
    out
}

/// Three texts in a row.
pub fn concat3(a: &str, b: &str, c: &str) -> (r: String)
    ensures
        r@ == a@ + b@ + c@,
{
    let mut out = concat2(a, b);
    out.append(c);
    out
}

/// Four texts in a row.
pub fn concat4(a: &str, b: &str, c: &str, d: &str) -> (r: String)
    ensures
        r@ == a@ + b@ + c@ + d@,
{
    let mut out = concat3(a, b, c);
    out.append(d);
    out
}

/// Five texts in a row.
pub fn concat5(a: &str, b: &str, c: &str, d: &str, e: &str) -> (r: String)
    ensures
        r@ == a@ + b@ + c@ + d@ + e@,
{
    let mut out = concat4(a, b, c, d);
    out.append(e);
    out
}

/// Owned copies of the texts, in order.
pub fn owned(texts: &[&str]) -> (r: Vec<String>)
    ensures
        r.deep_view() == texts.deep_view(),
{
    let mut out: Vec<String> = Vec::new();
    let mut i: usize = 0;
    while i < texts.len()
        invariant
            i <= texts@.len(),
            out@.len() == i,
            forall|j: int| 0 <= j < i ==> out@[j]@ == texts@[j]@,
        decreases texts@.len() - i,
    {
        out.push(texts[i].to_owned());
        i = i + 1;
    }
    assert(out.deep_view() =~= texts.deep_view());
    out
}

/// Appends the texts, in order.
pub fn append_all(list: &mut Vec<String>, texts: Vec<String>)
    ensures
        final(list).deep_view() == old(list).deep_view() + texts.deep_view(),
{
    let mut tail = texts;
    list.append(&mut tail);
    assert(list.deep_view() =~= old(list).deep_view() + texts.deep_view());
}

/// Appends owned copies of the texts, in order.
pub fn push_all(list: &mut Vec<String>, texts: &[&str])
    ensures
        final(list).deep_view() == old(list).deep_view() + texts.deep_view(),
{
    append_all(list, owned(texts));
}

// Decimal numbers

/// The decimal digit `d`.
pub open spec fn digit_char(d: nat) -> char {
    (48 + d) as char
}

/// `n` in decimal, without leading zeros.
pub open spec fn decimal(n: nat) -> Seq<char>
    decreases n,
{
    if n < 10 {
        seq![digit_char(n)]
    } else {
        decimal(n / 10).push(digit_char(n % 10))
    }
}

/// Writes `n` in decimal.
pub fn decimal_text(n: u64) -> (r: String)
    ensures
        r@ == decimal(n as nat),
    decreases n,
{
    let mut out = if n < 10 {
        String::new()
    } else {
        decimal_text(n / 10)
    };
    let digit = (48 + (n % 10) as u8) as char;
    out.push(digit);
    out
}

/// `n` in decimal, filled up with zeros on the left to at least `width` characters.
pub open spec fn zero_padded(n: nat, width: nat) -> Seq<char> {
    let digits = decimal(n);
    if digits.len() < width {
        Seq::new((width - digits.len()) as nat, |i: int| '0') + digits
    } else {
        digits
    }
}

/// Writes `n` in decimal, zero-filled to at least `width` characters.
pub fn zero_padded_text(n: u64, width: usize) -> (r: String)
    ensures
        r@ == zero_padded(n as nat, width as nat),
{
    let digits = decimal_text(n);
    let len: usize = chars_of(digits.as_str()).len();
    let mut out = String::new();
    let mut i: usize = len;
    while i < width
        invariant
            len <= i,
            len < width ==> i <= width,
            len >= width ==> i == len,
            out@ == Seq::new((i - len) as nat, |j: int| '0'),
        decreases width - i,
    {
        out.push('0');
        i = i + 1;
        assert(out@ =~= Seq::new((i - len) as nat, |j: int| '0'));
    }
    out.append(digits.as_str());
    assert(len >= width ==> out@ =~= digits@);
    out
}

/// Why a text is not an unsigned number within its limit.
#[derive(Clone, Copy, Debug, PartialEq, Eq, Structural)]
pub enum NumberError {
    /// There is no text at all.
    Empty,
    /// A character that is no decimal digit comes before the limit is exceeded.
    InvalidDigit,
    /// The digits exceed the limit.
    TooLarge,
}

impl NumberError {
    /// The wording of the error.
    pub open spec fn wording(self) -> Seq<char> {
        match self {
            NumberError::Empty => "cannot parse integer from empty string"@,
            NumberError::InvalidDigit => "invalid digit found in string"@,
            NumberError::TooLarge => "number too large to fit in target type"@,
        }
    }

    /// Describes the error.
    pub fn describe(self) -> (r: &'static str)
        ensures
            r@ == self.wording(),
    {
        match self {
            NumberError::Empty => "cannot parse integer from empty string",
            NumberError::InvalidDigit => "invalid digit found in string",
            NumberError::TooLarge => "number too large to fit in target type",
        }
    }
}

/// Whether `c` is one of the ten ASCII digits.
pub open spec fn is_digit(c: char) -> bool {
    '0' <= c <= '9'
}

/// What the digits `s` come to after a prefix worth `acc`, read from the left: the first
/// character that is no digit, or that carries the value past `limit`, decides the error.
pub open spec fn digits_value(s: Seq<char>, acc: nat, limit: nat) -> Result<nat, NumberError>
    decreases s.len(),
{
    if s.len() == 0 {
        Ok(acc)
    } else if !is_digit(s[0]) {
        Err(NumberError::InvalidDigit)
    } else {
        let next = acc * 10 + (s[0] as nat - 48) as nat;
        if next > limit {
            Err(NumberError::TooLarge)
        } else {
            digits_value(s.skip(1), next, limit)
        }
    }
}

/// The unsigned number that `s` spells: digits, after an optional `+`.
pub open spec fn number_value(s: Seq<char>, limit: nat) -> Result<nat, NumberError> {
    if s.len() == 0 {
        Err(NumberError::Empty)
    } else if s[0] == '+' {
        if s.len() == 1 {
            Err(NumberError::InvalidDigit)
        } else {
            digits_value(s.skip(1), 0, limit)
        }
    } else {
        digits_value(s, 0, limit)
    }
}

/// Reads an unsigned number no larger than `limit`.
pub fn parse_number(s: &str, limit: u64) -> (r: Result<u64, NumberError>)
    ensures
        match number_value(s@, limit as nat) {
            Ok(n) => r == Ok::<u64, NumberError>(n as u64) && n <= limit,
            Err(e) => r == Err::<u64, NumberError>(e),
        },
{
    let chars = chars_of(s);
    if chars.len() == 0 {
        return Err(NumberError::Empty);
    }
    let mut i: usize = 0;
    if chars[0] == '+' {
        if chars.len() == 1 {
            return Err(NumberError::InvalidDigit);
        }
        i = 1;
    }
    let mut value: u64 = 0;
    assert(s@.skip(0) =~= s@);
    while i < chars.len()
        invariant
            chars@ == s@,
            i <= chars@.len(),
            value <= limit,
            number_value(s@, limit as nat) == digits_value(
                s@.skip(i as int),
                value as nat,
                limit as nat,
            ),
        decreases chars@.len() - i,
    {
        let c = chars[i];
        if c < '0' || c > '9' {
            return Err(NumberError::InvalidDigit);
        }
        let digit: u32 = c as u32 - 48;
        let next: u128 = value as u128 * 10 + digit as u128;
        if next > limit as u128 {
            return Err(NumberError::TooLarge);
        }
        assert(s@.skip(i as int).skip(1) =~= s@.skip(i + 1));
        value = next as u64;
        i = i + 1;
    }
    Ok(value)
}

proof fn lemma_digits_value_append(s: Seq<char>, t: Seq<char>, acc: nat, limit: nat)
    requires
        digits_value(s, acc, limit) is Ok,
    ensures
        digits_value(s + t, acc, limit) == digits_value(
            t,
            digits_value(s, acc, limit)->Ok_0,
            limit,
        ),
    decreases s.len(),
{
    if s.len() == 0 {
        assert(s + t =~= t);
    } else {
        let next = acc * 10 + (s[0] as nat - 48) as nat;
        assert((s + t).skip(1) =~= s.skip(1) + t);
        lemma_digits_value_append(s.skip(1), t, next, limit);
    }
}

proof fn lemma_decimal_value(n: nat, limit: nat)
    requires
        n <= limit,
    ensures
        digits_value(decimal(n), 0, limit) == Ok::<nat, NumberError>(n),
        decimal(n).len() >= 1,
        forall|i: int| 0 <= i < decimal(n).len() ==> is_digit(decimal(n)[i]),
    decreases n,
{
    if n < 10 {
        assert(decimal(n).skip(1) =~= Seq::<char>::empty());
        reveal_with_fuel(digits_value, 2);
    } else {
        lemma_decimal_value(n / 10, limit);
        let last = seq![digit_char(n % 10)];
        assert(decimal(n) =~= decimal(n / 10) + last);
        lemma_digits_value_append(decimal(n / 10), last, 0, limit);
        assert(last.skip(1) =~= Seq::<char>::empty());
        reveal_with_fuel(digits_value, 2);
    }
}

/// Reading a number back from its decimal text gives the number.
pub proof fn law_number_round_trip(n: nat, limit: nat)
    requires
        n <= limit,
    ensures
        number_value(decimal(n), limit) == Ok::<nat, NumberError>(n),
{
    lemma_decimal_value(n, limit);
}

/// Different numbers have different decimal texts.
pub proof fn law_decimal_injective(a: nat, b: nat)
    requires
        decimal(a) == decimal(b),
    ensures
        a == b,
{
    let limit = if a < b {
        b
    } else {
        a
    };
    lemma_decimal_value(a, limit);
    lemma_decimal_value(b, limit);
}

proof fn lemma_leading_zeros(count: nat, digits: Seq<char>, limit: nat)
    ensures
        digits_value(Seq::new(count, |i: int| '0') + digits, 0, limit) == digits_value(
            digits,
            0,
            limit,
        ),
    decreases count,
{
    let all = Seq::new(count, |i: int| '0') + digits;
    if count == 0 {
        assert(all =~= digits);
    } else {
        let fewer = (count - 1) as nat;
        assert(all.skip(1) =~= Seq::new(fewer, |i: int| '0') + digits);
        lemma_leading_zeros(fewer, digits, limit);
    }
}

/// Reading a zero-filled number back gives the number.
pub proof fn law_padded_round_trip(n: nat, width: nat, limit: nat)
    requires
        n <= limit,
    ensures
        digits_value(zero_padded(n, width), 0, limit) == Ok::<nat, NumberError>(n),
{
    lemma_decimal_value(n, limit);
    let digits = decimal(n);
    if digits.len() < width {
        lemma_leading_zeros((width - digits.len()) as nat, digits, limit);
    }
}

/// Different numbers have different texts, zero-filled to one width.
pub proof fn law_padded_injective(a: nat, b: nat, width: nat)
    requires
        zero_padded(a, width) == zero_padded(b, width),
    ensures
        a == b,
{
    let limit = if a < b {
        b
    } else {
        a
    };
    law_padded_round_trip(a, width, limit);
    law_padded_round_trip(b, width, limit);
}

// Searching

/// Whether `s` begins with `prefix`.
pub open spec fn has_prefix(s: Seq<char>, prefix: Seq<char>) -> bool {
    prefix.len() <= s.len() && s.take(prefix.len() as int) == prefix
}

/// Whether `s` ends with `suffix`.
pub open spec fn has_suffix(s: Seq<char>, suffix: Seq<char>) -> bool {
    suffix.len() <= s.len() && s.skip(s.len() - suffix.len()) == suffix
}

/// Whether `needle` stands in `s` at position `at`.
pub open spec fn occurs_at(s: Seq<char>, needle: Seq<char>, at: int) -> bool {
    0 <= at && at + needle.len() <= s.len() && s.subrange(at, at + needle.len()) == needle
}

/// Whether `needle` stands anywhere in `s`.
pub open spec fn has_part(s: Seq<char>, needle: Seq<char>) -> bool {
    exists|at: int| occurs_at(s, needle, at)
}

fn matches_at(chars: &Vec<char>, needle: &Vec<char>, at: usize) -> (r: bool)
    requires
        at + needle@.len() <= chars@.len(),
    ensures
        r == occurs_at(chars@, needle@, at as int),
{
    let mut i: usize = 0;
    let end: usize = chars.len();
    while i < needle.len()
        invariant
            at + needle@.len() <= end,
            end == chars@.len(),
            i <= needle@.len(),
            forall|j: int| 0 <= j < i ==> chars@[at + j] == needle@[j],
        decreases needle@.len() - i,
    {
        if chars[at + i] != needle[i] {
            assert(chars@.subrange(at as int, at + needle@.len())[i as int] != needle@[i as int]);
            return false;
        }
        i = i + 1;
    }
    assert(chars@.subrange(at as int, at + needle@.len()) =~= needle@);
    true
}

/// The rest of `s` after `prefix`, if `s` begins with it.
pub fn strip_prefix<'a>(s: &'a str, prefix: &str) -> (r: Option<&'a str>)
    ensures
        match r {
            Some(rest) => has_prefix(s@, prefix@) && rest@ == s@.skip(prefix@.len() as int),
            None => !has_prefix(s@, prefix@),
        },
{
    let chars = chars_of(s);
    let start = chars_of(prefix);
    if start.len() > chars.len() {
        return None;
    }
    if matches_at(&chars, &start, 0) {
        Some(s.substring_char(start.len(), chars.len()))
    } else {
        None
    }
}

/// Whether `s` ends with `suffix`.
pub fn ends_with(s: &str, suffix: &str) -> (r: bool)
    ensures
        r == has_suffix(s@, suffix@),
{
    let chars = chars_of(s);
    let tail = chars_of(suffix);
    if tail.len() > chars.len() {
        return false;
    }
    matches_at(&chars, &tail, chars.len() - tail.len())
}

/// Whether `needle` stands anywhere in `s`.
pub fn contains(s: &str, needle: &str) -> (r: bool)
    ensures
        r == has_part(s@, needle@),
{
    let chars = chars_of(s);
    let part = chars_of(needle);
    let mut at: usize = 0;
    while at <= chars.len() && part.len() <= chars.len() - at
        invariant
            chars@ == s@,
            part@ == needle@,
            at <= chars@.len() + 1,
            forall|k: int| 0 <= k < at ==> !occurs_at(s@, needle@, k),
        decreases chars@.len() + 1 - at,
    {
        if matches_at(&chars, &part, at) {
            return true;
        }
        if at == chars.len() {
            return false;
        }
        at = at + 1;
    }
    false
}

/// The same character, with `A` to `Z` made small.
pub open spec fn ascii_lower(c: char) -> char {
    if 'A' <= c <= 'Z' {
        (c as u32 + 32) as char
    } else {
        c
    }
}

/// Whether the texts differ at most in the case of ASCII letters.
pub open spec fn same_ignoring_ascii_case(a: Seq<char>, b: Seq<char>) -> bool {
    a.len() == b.len() && forall|i: int| 0 <= i < a.len() ==> ascii_lower(a[i]) == ascii_lower(b[i])
}

fn lower(c: char) -> (r: char)
    ensures
        r == ascii_lower(c),
{
    if 'A' <= c && c <= 'Z' {
        (c as u8 + 32) as char
    } else {
        c
    }
}

/// Whether the texts differ at most in the case of ASCII letters.
pub fn eq_ignore_ascii_case(a: &str, b: &str) -> (r: bool)
    ensures
        r == same_ignoring_ascii_case(a@, b@),
{
    let left = chars_of(a);
    let right = chars_of(b);
    if left.len() != right.len() {
        return false;
    }
    let mut i: usize = 0;
    while i < left.len()
        invariant
            left@ == a@,
            right@ == b@,
            left@.len() == right@.len(),
            i <= left@.len(),
            forall|j: int| 0 <= j < i ==> ascii_lower(a@[j]) == ascii_lower(b@[j]),
        decreases left@.len() - i,
    {
        if lower(left[i]) != lower(right[i]) {
            return false;
        }
        i = i + 1;
    }
    true
}

/// Whether the texts are the same.
pub fn same_text(a: &str, b: &str) -> (r: bool)
    ensures
        r == (a@ == b@),
{
    let left = chars_of(a);
    let right = chars_of(b);
    if left.len() != right.len() {
        return false;
    }
    let same = matches_at(&left, &right, 0);
    assert(a@.subrange(0, a@.len() as int) =~= a@);
    same
}

// Splitting

/// The position of the first `c` in `s`, or the length of `s` where there is none.
pub open spec fn first_of(s: Seq<char>, c: char) -> int
    decreases s.len(),
{
    if s.len() == 0 || s[0] == c {
        0
    } else {
        1 + first_of(s.skip(1), c)
    }
}

proof fn lemma_first_of(s: Seq<char>, c: char, at: int)
    requires
        0 <= at <= s.len(),
        forall|i: int| 0 <= i < at ==> s[i] != c,
        at < s.len() ==> s[at] == c,
    ensures
        first_of(s, c) == at,
    decreases at,
{
    if at > 0 {
        lemma_first_of(s.skip(1), c, at - 1);
    }
}

/// The pieces of `s` between the separators `sep`; always at least one.
pub open spec fn pieces(s: Seq<char>, sep: char) -> Seq<Seq<char>>
    decreases s.len(),
{
    let at = first_of(s, sep);
    if 0 <= at < s.len() {
        seq![s.take(at)] + pieces(s.skip(at + 1), sep)
    } else {
        seq![s]
    }
}

/// A line without the carriage return before its line feed.
pub open spec fn without_carriage_return(line: Seq<char>) -> Seq<char> {
    if line.len() > 0 && line.last() == '\r' {
        line.drop_last()
    } else {
        line
    }
}

/// The lines of `s`: each ends in a line feed, alone or after a carriage return; the last
/// line may go without.
pub open spec fn lines(s: Seq<char>) -> Seq<Seq<char>>
    decreases s.len(),
{
    let at = first_of(s, '\n');
    if s.len() == 0 {
        Seq::empty()
    } else if 0 <= at < s.len() {
        seq![without_carriage_return(s.take(at))] + lines(s.skip(at + 1))
    } else {
        seq![s]
    }
}

/// Splits `s` at every `sep`.
pub fn split_at_char<'a>(s: &'a str, sep: char) -> (r: Vec<&'a str>)
    ensures
        r.deep_view() == pieces(s@, sep),
{
    let chars = chars_of(s);
    let mut out: Vec<&'a str> = Vec::new();
    let mut start: usize = 0;
    let mut i: usize = 0;
    assert(s@.skip(0) =~= s@);
    assert(out.deep_view() + pieces(s@, sep) =~= pieces(s@, sep));
    while i < chars.len()
        invariant
            chars@ == s@,
            start <= i <= chars@.len(),
            forall|j: int| start <= j < i ==> s@[j] != sep,
            out.deep_view() + pieces(s@.skip(start as int), sep) == pieces(s@, sep),
        decreases chars@.len() - i,
    {
        if chars[i] == sep {
            let piece = s.substring_char(start, i);
            let ghost before = out.deep_view();
            let ghost rest = s@.skip(start as int);
            proof {
                lemma_first_of(rest, sep, i - start);
                assert(rest.take(i - start) =~= piece@);
                assert(rest.skip(i - start + 1) =~= s@.skip(i + 1));
            }
            out.push(piece);
            assert(out.deep_view() =~= before.push(piece@));
            start = i + 1;
            assert(out.deep_view() + pieces(s@.skip(start as int), sep) =~= before + pieces(
                rest,
                sep,
            ));
        }
        i = i + 1;
    }
    let last = s.substring_char(start, chars.len());
    let ghost before = out.deep_view();
    proof {
        let rest = s@.skip(start as int);
        assert(rest =~= last@);
        lemma_first_of(rest, sep, rest.len() as int);
    }
    out.push(last);
    assert(out.deep_view() =~= before + seq![last@]);
    out
}

/// Splits `s` into its lines.
pub fn split_lines<'a>(s: &'a str) -> (r: Vec<&'a str>)
    ensures
        r.deep_view() == lines(s@),
{
    let chars = chars_of(s);
    let mut out: Vec<&'a str> = Vec::new();
    let mut start: usize = 0;
    let mut i: usize = 0;
    assert(s@.skip(0) =~= s@);
    assert(out.deep_view() + lines(s@) =~= lines(s@));
    while i < chars.len()
        invariant
            chars@ == s@,
            start <= i <= chars@.len(),
            forall|j: int| start <= j < i ==> s@[j] != '\n',
            out.deep_view() + lines(s@.skip(start as int)) == lines(s@),
        decreases chars@.len() - i,
    {
        if chars[i] == '\n' {
            let end: usize = if i > start && chars[i - 1] == '\r' {
                i - 1
            } else {
                i
            };
            let piece = s.substring_char(start, end);
            let ghost before = out.deep_view();
            let ghost rest = s@.skip(start as int);
            proof {
                lemma_first_of(rest, '\n', i - start);
                assert(without_carriage_return(rest.take(i - start)) =~= piece@);
                assert(rest.skip(i - start + 1) =~= s@.skip(i + 1));
            }
            out.push(piece);
            assert(out.deep_view() =~= before.push(piece@));
            start = i + 1;
            assert(out.deep_view() + lines(s@.skip(start as int)) =~= before + lines(rest));
        }
        i = i + 1;
    }
    let ghost before = out.deep_view();
    if start < chars.len() {
        let last = s.substring_char(start, chars.len());
        proof {
            let rest = s@.skip(start as int);
            assert(rest =~= last@);
            lemma_first_of(rest, '\n', rest.len() as int);
        }
        out.push(last);
        assert(out.deep_view() =~= before + seq![last@]);
    } else {
        assert(before + lines(s@.skip(start as int)) =~= before);
    }
    out
}

/// Whether `c` has the Unicode property White_Space.
pub open spec fn is_white_space(c: char) -> bool {
    ||| '\u{9}' <= c <= '\u{d}'
    ||| c == ' '
    ||| c == '\u{85}'
    ||| c == '\u{a0}'
    ||| c == '\u{1680}'
    ||| '\u{2000}' <= c <= '\u{200a}'
    ||| c == '\u{2028}'
    ||| c == '\u{2029}'
    ||| c == '\u{202f}'
    ||| c == '\u{205f}'
    ||| c == '\u{3000}'
}

fn white_space(c: char) -> (r: bool)
    ensures
        r == is_white_space(c),
{
    ('\u{9}' <= c && c <= '\u{d}') || c == ' ' || c == '\u{85}' || c == '\u{a0}' || c == '\u{1680}'
        || ('\u{2000}' <= c && c <= '\u{200a}') || c == '\u{2028}' || c == '\u{2029}' || c
        == '\u{202f}' || c == '\u{205f}' || c == '\u{3000}'
}

/// Whether `t` is `s` without the white space at its two ends.
pub open spec fn is_trimmed(s: Seq<char>, t: Seq<char>) -> bool {
    exists|from: int, to: int| #[trigger] trims(s, t, from, to)
}

/// Whether `t` is what lies from `from` to `to` in `s`, all outside is white space, and `t` has
/// none at its ends.
pub open spec fn trims(s: Seq<char>, t: Seq<char>, from: int, to: int) -> bool {
    &&& 0 <= from <= to <= s.len()
    &&& t == s.subrange(from, to)
    &&& forall|i: int| 0 <= i < from ==> is_white_space(s[i])
    &&& forall|i: int| to <= i < s.len() ==> is_white_space(s[i])
    &&& t.len() > 0 ==> !is_white_space(t[0]) && !is_white_space(t.last())
}

/// The text without the white space at its two ends.
pub open spec fn trimmed(s: Seq<char>) -> Seq<char> {
    choose|t: Seq<char>| is_trimmed(s, t)
}

/// A text has one trimmed form only.
pub proof fn lemma_trimmed_unique(s: Seq<char>, t: Seq<char>, u: Seq<char>)
    requires
        is_trimmed(s, t),
        is_trimmed(s, u),
    ensures
        t == u,
{
    let (a, b) = choose|a: int, b: int| #[trigger] trims(s, t, a, b);
    let (c, d) = choose|c: int, d: int| #[trigger] trims(s, u, c, d);
    if t.len() == 0 {
        if u.len() > 0 {
            assert(u[0] == s[c]);
            assert(is_white_space(s[c]));
        }
        assert(t =~= u);
    } else if u.len() == 0 {
        assert(t[0] == s[a]);
        assert(is_white_space(s[a]));
    } else {
        assert(t[0] == s[a] && t.last() == s[b - 1]);
        assert(u[0] == s[c] && u.last() == s[d - 1]);
    }
}

/// What has no white space at its ends, and lies in `s` with only white space around it, is the
/// trimmed form of `s`.
pub proof fn law_trimmed_is(s: Seq<char>, t: Seq<char>)
    requires
        is_trimmed(s, t),
    ensures
        trimmed(s) == t,
{
    lemma_trimmed_unique(s, t, trimmed(s));
}

/// Strips the white space at the two ends of `s`.
pub fn trim<'a>(s: &'a str) -> (r: &'a str)
    ensures
        r@ == trimmed(s@),
        is_trimmed(s@, r@),
{
    let chars = chars_of(s);
    let mut from: usize = 0;
    while from < chars.len() && white_space(chars[from])
        invariant
            chars@ == s@,
            from <= chars@.len(),
            forall|i: int| 0 <= i < from ==> is_white_space(s@[i]),
        decreases chars@.len() - from,
    {
        from = from + 1;
    }
    let mut to: usize = chars.len();
    while to > from && white_space(chars[to - 1])
        invariant
            chars@ == s@,
            from <= to <= chars@.len(),
            forall|i: int| to <= i < s@.len() ==> is_white_space(s@[i]),
        decreases to,
    {
        to = to - 1;
    }
    let out = s.substring_char(from, to);
    proof {
        assert(trims(s@, out@, from as int, to as int));
        assert(is_trimmed(s@, out@));
        law_trimmed_is(s@, out@);
    }
    out
}

/// How many characters at the start of `s` are white space, if `white`, or are not.
pub open spec fn span(s: Seq<char>, white: bool) -> int
    decreases s.len(),
{
    if s.len() == 0 || is_white_space(s[0]) != white {
        0
    } else {
        1 + span(s.skip(1), white)
    }
}

proof fn lemma_span(s: Seq<char>, white: bool, at: int)
    requires
        0 <= at <= s.len(),
        forall|i: int| 0 <= i < at ==> is_white_space(s[i]) == white,
        at < s.len() ==> is_white_space(s[at]) != white,
    ensures
        span(s, white) == at,
    decreases at,
{
    if at > 0 {
        lemma_span(s.skip(1), white, at - 1);
    }
}

/// The runs of characters of `s` that are not white space.
pub open spec fn words(s: Seq<char>) -> Seq<Seq<char>>
    decreases s.len(),
{
    let blank = span(s, true);
    let tail = s.skip(blank);
    let len = span(tail, false);
    if 0 <= blank < s.len() && 0 < len <= tail.len() {
        seq![tail.take(len)] + words(tail.skip(len))
    } else {
        Seq::empty()
    }
}

/// Splits `s` at white space.
pub fn split_words<'a>(s: &'a str) -> (r: Vec<&'a str>)
    ensures
        r.deep_view() == words(s@),
{
    let chars = chars_of(s);
    let mut out: Vec<&'a str> = Vec::new();
    let mut i: usize = 0;
    assert(s@.skip(0) =~= s@);
    assert(out.deep_view() + words(s@) =~= words(s@));
    while i < chars.len()
        invariant
            chars@ == s@,
            i <= chars@.len(),
            out.deep_view() + words(s@.skip(i as int)) == words(s@),
        decreases chars@.len() - i,
    {
        let begin: usize = i;
        while i < chars.len() && white_space(chars[i])
            invariant
                chars@ == s@,
                begin <= i <= chars@.len(),
                forall|j: int| begin <= j < i ==> is_white_space(s@[j]),
            decreases chars@.len() - i,
        {
            i = i + 1;
        }
        let ghost rest = s@.skip(begin as int);
        proof {
            lemma_span(rest, true, i - begin);
            assert(rest.skip(i - begin) =~= s@.skip(i as int));
        }
        if i == chars.len() {
            assert(out.deep_view() + words(rest) =~= out.deep_view());
            return out;
        }
        let start: usize = i;
        while i < chars.len() && !white_space(chars[i])
            invariant
                chars@ == s@,
                start <= i <= chars@.len(),
                forall|j: int| start <= j < i ==> !is_white_space(s@[j]),
            decreases chars@.len() - i,
        {
            i = i + 1;
        }
        let word = s.substring_char(start, i);
        let ghost before = out.deep_view();
        let ghost tail = s@.skip(start as int);
        proof {
            lemma_span(tail, false, i - start);
            assert(tail.take(i - start) =~= word@);
            assert(tail.skip(i - start) =~= s@.skip(i as int));
        }
        out.push(word);
        assert(out.deep_view() =~= before.push(word@));
        assert(out.deep_view() + words(s@.skip(i as int)) =~= before + words(rest));
    }
    assert(out.deep_view() + words(s@.skip(i as int)) =~= out.deep_view());
    out
}

// Laws of texts

/// Every character of a decimal text is the digit of its place.
pub proof fn law_decimal_is_positional(n: nat, i: int)
    requires
        0 <= i < decimal(n).len(),
    ensures
        decimal(n)[i] as int == 48 + (n as int / pow(
            10,
            (decimal(n).len() - 1 - i) as nat,
        )) % 10,
    decreases n,
{
    let len = decimal(n).len();
    if n < 10 {
        lemma_pow0(10);
    } else {
        let tens = n / 10;
        if i == len - 1 {
            lemma_pow0(10);
        } else {
            law_decimal_is_positional(tens, i);
            let e = (len - 2 - i) as nat;
            assert(decimal(n)[i] == decimal(tens)[i]);
            assert(decimal(tens).len() - 1 - i == e);
            assert((len - 1 - i) as nat == e + 1);
            assert(pow(10, (e + 1) as nat) == 10 * pow(10, e)) by {
                reveal(pow);
            }
            lemma_pow_positive(10, e);
            lemma_div_denominator(n as int, 10, pow(10, e));
        }
    }
}

/// A decimal text has no leading zero, but for zero itself.
pub proof fn law_decimal_has_no_leading_zero(n: nat)
    ensures
        decimal(n).len() >= 1,
        decimal(n)[0] == '0' <==> n == 0,
    decreases n,
{
    if n >= 10 {
        law_decimal_has_no_leading_zero(n / 10);
    }
}

/// A zero-filled text ends in the decimal text, has nothing but zeros before it, and is no longer
/// than it has to be.
pub proof fn law_padding_is_zeros(n: nat, width: nat)
    ensures
        has_suffix(zero_padded(n, width), decimal(n)),
        forall|i: int|
            0 <= i < zero_padded(n, width).len() - decimal(n).len() ==> zero_padded(n, width)[i]
                == '0',
        zero_padded(n, width).len() == if decimal(n).len() < width {
            width
        } else {
            decimal(n).len()
        },
{
    let all = zero_padded(n, width);
    assert(all.skip(all.len() - decimal(n).len()) =~= decimal(n));
}

proof fn lemma_digits_value_of_digits(s: Seq<char>, acc: nat, limit: nat)
    ensures
        match digits_value(s, acc, limit) {
            Ok(n) => (forall|i: int| 0 <= i < s.len() ==> '0' <= #[trigger] s[i] <= '9') && (acc
                <= limit ==> n <= limit),
            Err(NumberError::InvalidDigit) => exists|i: int|
                0 <= i < s.len() && !('0' <= #[trigger] s[i] <= '9'),
            Err(NumberError::TooLarge) => true,
            Err(NumberError::Empty) => false,
        },
    decreases s.len(),
{
    if s.len() > 0 && is_digit(s[0]) {
        let next = acc * 10 + (s[0] as nat - 48) as nat;
        if next <= limit {
            lemma_digits_value_of_digits(s.skip(1), next, limit);
            let rest = s.skip(1);
            match digits_value(rest, next, limit) {
                Ok(_) => {
                    assert forall|i: int| 0 <= i < s.len() implies '0' <= #[trigger] s[i] <= '9' by {
                        if i > 0 {
                            assert(s[i] == rest[i - 1]);
                        }
                    }
                },
                Err(NumberError::InvalidDigit) => {
                    let i = choose|i: int|
                        0 <= i < rest.len() && !('0' <= #[trigger] rest[i] <= '9');
                    assert(s[i + 1] == rest[i]);
                },
                _ => {},
            }
        }
    }
}

/// A number is read from digits only, after one sign at most, and never beyond the limit; what is
/// refused for a digit holds something else.
pub proof fn law_numbers_are_digits(s: Seq<char>, limit: nat)
    ensures
        match number_value(s, limit) {
            Ok(n) => n <= limit && s.len() > 0 && forall|i: int|
                0 < i < s.len() ==> '0' <= #[trigger] s[i] <= '9',
            Err(NumberError::Empty) => s.len() == 0,
            Err(NumberError::InvalidDigit) => s.len() > 0 && exists|i: int|
                0 <= i < s.len() && !('0' <= #[trigger] s[i] <= '9'),
            Err(NumberError::TooLarge) => s.len() > 0,
        },
{
    if s.len() > 0 {
        if s[0] == '+' {
            assert(!('0' <= s[0] <= '9'));
            let rest = s.skip(1);
            lemma_digits_value_of_digits(rest, 0, limit);
            if s.len() > 1 && digits_value(rest, 0, limit) is Ok {
                assert forall|i: int| 0 < i < s.len() implies '0' <= #[trigger] s[i] <= '9' by {
                    assert(s[i] == rest[i - 1]);
                }
            }
        } else {
            lemma_digits_value_of_digits(s, 0, limit);
        }
    }
}

/// A number reads the same with a sign or with more zeros in front.
pub proof fn law_sign_and_zeros_do_not_count(n: nat, zeros: nat, limit: nat)
    requires
        n <= limit,
    ensures
        number_value(seq!['+'] + decimal(n), limit) == Ok::<nat, NumberError>(n),
        number_value(Seq::new(zeros, |i: int| '0') + decimal(n), limit) == Ok::<nat, NumberError>(n),
{
    lemma_decimal_value(n, limit);
    let signed = seq!['+'] + decimal(n);
    assert(signed.skip(1) =~= decimal(n));
    lemma_leading_zeros(zeros, decimal(n), limit);
    let filled = Seq::new(zeros, |i: int| '0') + decimal(n);
    assert(filled[0] == if zeros > 0 {
        '0'
    } else {
        decimal(n)[0]
    });
    assert(is_digit(decimal(n)[0]));
}

/// A number beyond the limit is refused as too large.
pub proof fn law_large_numbers_are_refused(n: nat, limit: nat)
    requires
        n > limit,
    ensures
        number_value(decimal(n), limit) == Err::<nat, NumberError>(NumberError::TooLarge),
{
    lemma_decimal_too_large(n, limit);
    lemma_decimal_value(n, n);
}

proof fn lemma_decimal_too_large(n: nat, limit: nat)
    requires
        n > limit,
    ensures
        digits_value(decimal(n), 0, limit) == Err::<nat, NumberError>(NumberError::TooLarge),
    decreases n,
{
    if n < 10 {
        assert(is_digit(decimal(n)[0]));
    } else {
        let tens = n / 10;
        let last = seq![digit_char(n % 10)];
        assert(decimal(n) =~= decimal(tens) + last);
        if tens > limit {
            lemma_decimal_too_large(tens, limit);
            lemma_error_stays(decimal(tens), last, 0, limit);
        } else {
            lemma_decimal_value(tens, limit);
            lemma_digits_value_append(decimal(tens), last, 0, limit);
            assert(is_digit(last[0]));
        }
    }
}

proof fn lemma_error_stays(s: Seq<char>, t: Seq<char>, acc: nat, limit: nat)
    requires
        digits_value(s, acc, limit) is Err,
    ensures
        digits_value(s + t, acc, limit) == digits_value(s, acc, limit),
    decreases s.len(),
{
    if s.len() > 0 && is_digit(s[0]) {
        let next = acc * 10 + (s[0] as nat - 48) as nat;
        assert((s + t).skip(1) =~= s.skip(1) + t);
        if next <= limit {
            lemma_error_stays(s.skip(1), t, next, limit);
        }
    }
}

/// A text without the separator is one piece, and pieces that are joined by the separator come
/// apart again.
pub proof fn law_pieces_come_apart(first: Seq<char>, rest: Seq<char>, sep: char)
    requires
        !first.contains(sep),
    ensures
        pieces(first, sep) == seq![first],
        pieces(first + seq![sep] + rest, sep) == seq![first] + pieces(rest, sep),
{
    assert forall|i: int| 0 <= i < first.len() implies first[i] != sep by {
        assert(first.contains(first[i]));
    }
    lemma_first_of(first, sep, first.len() as int);
    let all = first + seq![sep] + rest;
    lemma_first_of(all, sep, first.len() as int);
    assert(all.take(first.len() as int) =~= first);
    assert(all.skip(first.len() as int + 1) =~= rest);
}

/// A text without a line feed is one line, or none where it is empty, and a line before a line
/// feed comes apart from the rest, without the carriage return at its end.
pub proof fn law_lines_come_apart(first: Seq<char>, rest: Seq<char>)
    requires
        !first.contains('\n'),
    ensures
        lines(Seq::empty()) == Seq::<Seq<char>>::empty(),
        first.len() > 0 ==> lines(first) == seq![first],
        first.len() == 0 || first.last() != '\r' ==> lines(first + seq!['\n'] + rest) == seq![first]
            + lines(rest),
        first.len() == 0 || first.last() != '\r' ==> lines(first + seq!['\r', '\n'] + rest)
            == seq![first] + lines(rest),
{
    assert forall|i: int| 0 <= i < first.len() implies first[i] != '\n' by {
        assert(first.contains(first[i]));
    }
    lemma_first_of(first, '\n', first.len() as int);
    let plain = first + seq!['\n'] + rest;
    lemma_first_of(plain, '\n', first.len() as int);
    assert(plain.take(first.len() as int) =~= first);
    assert(plain.skip(first.len() as int + 1) =~= rest);
    let both = first + seq!['\r', '\n'] + rest;
    lemma_first_of(both, '\n', first.len() as int + 1);
    assert(both.take(first.len() as int + 1) =~= first.push('\r'));
    assert(first.push('\r').drop_last() =~= first);
    assert(both.skip(first.len() as int + 2) =~= rest);
}

/// White space is split away: words before white space come apart from those after it, and
/// leading white space does not count.
pub proof fn law_words_come_apart(word: Seq<char>, blank: char, rest: Seq<char>)
    requires
        word.len() > 0,
        forall|i: int| 0 <= i < word.len() ==> !is_white_space(#[trigger] word[i]),
        is_white_space(blank),
    ensures
        words(Seq::empty()) == Seq::<Seq<char>>::empty(),
        words(word) == seq![word],
        words(word + seq![blank] + rest) == seq![word] + words(seq![blank] + rest),
        words(seq![blank] + rest) == words(rest),
{
    let none = Seq::<char>::empty();
    lemma_span(word, true, 0);
    assert(word.skip(0) =~= word);
    lemma_span(word, false, word.len() as int);
    assert(word.take(word.len() as int) =~= word);
    assert(word.skip(word.len() as int) =~= none);
    assert(seq![word] + words(none) =~= seq![word]);
    let all = word + seq![blank] + rest;
    lemma_span(all, true, 0);
    assert(all.skip(0) =~= all);
    lemma_span(all, false, word.len() as int);
    assert(all.take(word.len() as int) =~= word);
    assert(all.skip(word.len() as int) =~= seq![blank] + rest);
    let tail = seq![blank] + rest;
    assert(tail.skip(1) =~= rest);
    lemma_span_within(rest, true);
    assert(span(tail, true) == 1 + span(rest, true));
    assert(tail.skip(1 + span(rest, true)) =~= rest.skip(span(rest, true)));
}

proof fn lemma_span_within(s: Seq<char>, white: bool)
    ensures
        0 <= span(s, white) <= s.len(),
    decreases s.len(),
{
    if s.len() > 0 && is_white_space(s[0]) == white {
        lemma_span_within(s.skip(1), white);
    }
}

/// Every text has a trimmed form.
pub proof fn law_trimmed_exists(s: Seq<char>)
    ensures
        is_trimmed(s, trimmed(s)),
{
    lemma_trim_between(s, 0, s.len() as int);
}

proof fn lemma_trim_between(s: Seq<char>, from: int, to: int)
    requires
        0 <= from <= to <= s.len(),
        forall|i: int| 0 <= i < from ==> is_white_space(s[i]),
        forall|i: int| to <= i < s.len() ==> is_white_space(s[i]),
    ensures
        exists|t: Seq<char>| is_trimmed(s, t),
    decreases to - from,
{
    if from < to && is_white_space(s[from]) {
        lemma_trim_between(s, from + 1, to);
    } else if from < to && is_white_space(s[to - 1]) {
        lemma_trim_between(s, from, to - 1);
    } else {
        let t = s.subrange(from, to);
        assert(trims(s, t, from, to));
        assert(is_trimmed(s, t));
    }
}

/// White space around a text that has none at its ends is taken away, and nothing else.
pub proof fn law_trim_takes_the_ends(left: Seq<char>, core: Seq<char>, right: Seq<char>)
    requires
        forall|i: int| 0 <= i < left.len() ==> is_white_space(#[trigger] left[i]),
        forall|i: int| 0 <= i < right.len() ==> is_white_space(#[trigger] right[i]),
        core.len() > 0 ==> !is_white_space(core[0]) && !is_white_space(core.last()),
    ensures
        trimmed(left + core + right) == core,
{
    let all = left + core + right;
    let from = left.len() as int;
    let to = (left.len() + core.len()) as int;
    assert(all.subrange(from, to) =~= core);
    assert forall|i: int| to <= i < all.len() implies is_white_space(all[i]) by {
        assert(all[i] == right[i - to]);
    }
    assert forall|i: int| 0 <= i < from implies is_white_space(all[i]) by {
        assert(all[i] == left[i]);
    }
    assert(trims(all, core, from, to));
    law_trimmed_is(all, core);
}

/// Letters of one case stand for those of the other, and for no other character.
pub proof fn law_case_is_ignored_for_letters_only(a: char, b: char)
    ensures
        same_ignoring_ascii_case(seq![a], seq![b]) <==> a == b || ('A' <= a <= 'Z' && b as int == a
            as int + 32) || ('A' <= b <= 'Z' && a as int == b as int + 32),
{
    let x = seq![a];
    let y = seq![b];
    assert(x[0] == a && y[0] == b);
    if ascii_lower(a) == ascii_lower(b) {
        assert forall|i: int| 0 <= i < x.len() implies ascii_lower(x[i]) == ascii_lower(y[i]) by {}
    }
    assert(same_ignoring_ascii_case(x, y) <==> ascii_lower(a) == ascii_lower(b));
}

/// A decimal text holds nothing but digits.
pub proof fn law_decimal_is_digits(n: nat)
    ensures
        forall|c: char| decimal(n).contains(c) ==> '0' <= c <= '9',
{
    lemma_decimal_value(n, n);
}

/// A line ends at its line feed, whatever stands before it: what follows the feed is read as lines
/// of its own.
pub proof fn law_line_ends_at_the_feed(first: Seq<char>, rest: Seq<char>)
    requires
        !first.contains('\n'),
    ensures
        lines(first + seq!['\n'] + rest).len() == 1 + lines(rest).len(),
        lines(first + seq!['\n'] + rest).skip(1) == lines(rest),
{
    assert forall|i: int| 0 <= i < first.len() implies first[i] != '\n' by {
        assert(first.contains(first[i]));
    }
    let all = first + seq!['\n'] + rest;
    lemma_first_of(all, '\n', first.len() as int);
    assert(all.skip(first.len() as int + 1) =~= rest);
    assert(lines(all).skip(1) =~= lines(rest));
}

/// A text is found wherever it was put, and found only where it stands, character by character.
pub proof fn law_parts_are_found_where_they_stand(
    before: Seq<char>,
    part: Seq<char>,
    after: Seq<char>,
    text: Seq<char>,
)
    ensures
        has_part(before + part + after, part),
        has_prefix(part + after, part),
        has_suffix(before + part, part),
        has_part(text, part) ==> exists|at: int|
            0 <= at <= text.len() - part.len() && #[trigger] text.skip(at).take(part.len() as int)
                == part,
        has_prefix(text, part) ==> part.len() <= text.len() && forall|i: int|
            0 <= i < part.len() ==> text[i] == #[trigger] part[i],
        has_suffix(text, part) ==> part.len() <= text.len() && forall|i: int|
            0 <= i < part.len() ==> text[text.len() - part.len() + i] == #[trigger] part[i],
{
    let all = before + part + after;
    let at = before.len() as int;
    assert(all.subrange(at, at + part.len()) =~= part);
    assert(occurs_at(all, part, at));
    assert((part + after).take(part.len() as int) =~= part);
    assert((before + part).skip(at) =~= part);
    if has_part(text, part) {
        let here = choose|here: int| occurs_at(text, part, here);
        assert(text.skip(here).take(part.len() as int) =~= text.subrange(
            here,
            here + part.len(),
        ));
    }
    if has_prefix(text, part) {
        assert forall|i: int| 0 <= i < part.len() implies text[i] == #[trigger] part[i] by {
            assert(text.take(part.len() as int)[i] == part[i]);
        }
    }
    if has_suffix(text, part) {
        assert forall|i: int| 0 <= i < part.len() implies text[text.len() - part.len() + i]
            == #[trigger] part[i] by {
            assert(text.skip(text.len() - part.len())[i] == part[i]);
        }
    }
}

/// White space is what Unicode calls so: the controls from tabulation to carriage return, the next
/// line, the spaces of all widths, and the two separators.
pub proof fn law_white_space_is_that_of_unicode(c: char)
    ensures
        is_white_space(c) <==> {
            let code = c as int;
            9 <= code <= 13 || code == 32 || code == 133 || code == 160 || code == 5760 || 8192
                <= code <= 8202 || code == 8232 || code == 8233 || code == 8239 || code == 8287
                || code == 12288
        },
{
}

/// Texts are the same but for case just when they are as long and each character is, or is the
/// other letter of one pair.
pub proof fn law_same_but_for_case(a: Seq<char>, b: Seq<char>)
    ensures
        same_ignoring_ascii_case(a, b) <==> a.len() == b.len() && forall|i: int|
            0 <= i < a.len() ==> (#[trigger] a[i]) == b[i] || ('A' <= a[i] <= 'Z' && b[i] as int
                == a[i] as int + 32) || ('A' <= b[i] <= 'Z' && a[i] as int == b[i] as int + 32),
{
    if a.len() == b.len() {
        assert forall|i: int| 0 <= i < a.len() implies (ascii_lower(#[trigger] a[i]) == ascii_lower(
            b[i],
        ) <==> a[i] == b[i] || ('A' <= a[i] <= 'Z' && b[i] as int == a[i] as int + 32) || ('A'
            <= b[i] <= 'Z' && a[i] as int == b[i] as int + 32)) by {
            law_case_is_ignored_for_letters_only(a[i], b[i]);
            assert(seq![a[i]][0] == a[i] && seq![b[i]][0] == b[i]);
            assert(same_ignoring_ascii_case(seq![a[i]], seq![b[i]]) <==> ascii_lower(a[i])
                == ascii_lower(b[i]));
        }
    }
}

/// A carriage return before the line feed belongs to the end of the line; one at the end of a last
/// line without a feed does not.
pub proof fn law_carriage_return_ends_the_line(first: Seq<char>, rest: Seq<char>)
    requires
        !first.contains('\n'),
    ensures
        lines(first + seq!['\r', '\n'] + rest) == seq![first] + lines(rest),
        lines(first + seq!['\r']) == seq![first + seq!['\r']],
{
    let all = first + seq!['\r', '\n'] + rest;
    let line = first + seq!['\r'];
    assert forall|i: int| 0 <= i < line.len() implies line[i] != '\n' by {
        if i < first.len() {
            assert(first.contains(first[i]));
        }
    }
    assert forall|i: int| 0 <= i < first.len() + 1 implies all[i] != '\n' by {
        assert(all[i] == line[i]);
    }
    lemma_first_of(all, '\n', first.len() as int + 1);
    assert(all.take(first.len() as int + 1) =~= line);
    assert(line.drop_last() =~= first);
    assert(all.skip(first.len() as int + 2) =~= rest);
    lemma_first_of(line, '\n', line.len() as int);
}

/// What is wrong with a number is said in the words of the standard library.
pub proof fn law_number_errors_have_their_words(error: NumberError, words: &'static str)
    requires
        call_ensures(NumberError::describe, (error,), words),
    ensures
        error is Empty ==> words@ == "cannot parse integer from empty string"@,
        error is InvalidDigit ==> words@ == "invalid digit found in string"@,
        error is TooLarge ==> words@ == "number too large to fit in target type"@,
{
}

/// The functions on texts do what is said of texts.
pub proof fn law_text_functions(
    s: &str,
    t: &str,
    sep: char,
    n: u64,
    width: usize,
    written: String,
    padded: String,
    found: bool,
    ended: bool,
    same: bool,
    equal: bool,
    stripped: Option<&str>,
    core: &str,
)
    requires
        call_ensures(decimal_text, (n,), written),
        call_ensures(zero_padded_text, (n, width), padded),
        call_ensures(contains, (s, t), found),
        call_ensures(ends_with, (s, t), ended),
        call_ensures(eq_ignore_ascii_case, (s, t), same),
        call_ensures(same_text, (s, t), equal),
        call_ensures(strip_prefix, (s, t), stripped),
        call_ensures(trim, (s,), core),
    ensures
        number_value(written@, u64::MAX as nat) == Ok::<nat, NumberError>(n as nat),
        digits_value(padded@, 0, u64::MAX as nat) == Ok::<nat, NumberError>(n as nat),
        padded@.len() >= width,
        found <==> has_part(s@, t@),
        ended <==> has_suffix(s@, t@),
        same <==> same_ignoring_ascii_case(s@, t@),
        equal <==> s@ == t@,
        stripped is Some <==> has_prefix(s@, t@),
        stripped matches Some(rest) ==> s@ == t@ + rest@,
        is_trimmed(s@, core@),
{
    law_number_round_trip(n as nat, u64::MAX as nat);
    law_padded_round_trip(n as nat, width as nat, u64::MAX as nat);
    law_trimmed_exists(s@);
    if let Some(rest) = stripped {
        assert(s@ =~= s@.take(t@.len() as int) + s@.skip(t@.len() as int));
    }
}

}
