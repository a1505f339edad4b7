//! Strings as sequences of characters: trimming, affixes, substitution and numbers.
use vstd::prelude::*;
use vstd::utf8::{decode_utf8, valid_utf8};

verus! {

/// The characters with the Unicode property `White_Space`.
pub open spec fn is_white_space(c: char) -> bool {
    ||| '\u{9}' <= c <= '\u{d}'
    ||| c == '\u{20}'
    ||| c == '\u{85}'
    ||| c == '\u{a0}'
    ||| c == '\u{1680}'
    ||| '\u{2000}' <= c <= '\u{200a}'
    ||| c == '\u{2028}'
    ||| c == '\u{2029}'
    ||| c == '\u{202f}'
    ||| c == '\u{205f}'
    ||| c == '\u{3000}'
}

/// `char::is_whitespace` tells exactly the characters that the Unicode character database lists
/// with the property `White_Space`.
pub assume_specification[ char::is_whitespace ](c: char) -> (b: bool)
    ensures
        b == is_white_space(c),
;

/// `String::push` appends one character.
pub assume_specification[ String::push ](s: &mut String, c: char)
    ensures
        final(s)@ == old(s)@.push(c),
;

/// The text that an optional string holds.
pub open spec fn text_of(s: Option<String>) -> Option<Seq<char>> {
    match s {
        Some(s) => Some(s@),
        None => None,
    }
}

/// `s` without its leading white space.
pub open spec fn trimmed_start(s: Seq<char>) -> Seq<char>
    decreases s.len(),
{
    if s.len() > 0 && is_white_space(s[0]) {
        trimmed_start(s.drop_first())
    } else {
        s
    }
}

/// `s` without its trailing white space.
pub open spec fn trimmed_end(s: Seq<char>) -> Seq<char>
    decreases s.len(),
{
    if s.len() > 0 && is_white_space(s.last()) {
        trimmed_end(s.drop_last())
    } else {
        s
    }
}

/// `s` without white space at either end.
pub open spec fn trimmed(s: Seq<char>) -> Seq<char> {
    trimmed_end(trimmed_start(s))
}

/// What follows `prefix` in `s`, if `s` starts with it.
pub open spec fn without_prefix(s: Seq<char>, prefix: Seq<char>) -> Option<Seq<char>> {
    if prefix.is_prefix_of(s) {
        Some(s.skip(prefix.len() as int))
    } else {
        None
    }
}

/// What precedes `suffix` in `s`, if `s` ends with it.
pub open spec fn without_suffix(s: Seq<char>, suffix: Seq<char>) -> Option<Seq<char>> {
    if suffix.is_suffix_of(s) {
        Some(s.take(s.len() - suffix.len()))
    } else {
        None
    }
}

/// The characters of `s`.
pub fn to_chars(s: &str) -> (r: Vec<char>)
    ensures
        r@ == s@,
{
    let mut v: Vec<char> = Vec::new();
    for c in it: s.chars()
        invariant
            v@ == s@.take(it.index() as int),
            it.seq() == s@,
    {
        v.push(c);
    }
    assert(s@.take(s@.len() as int) == s@);
    v
}

/// `s` without its leading white space.
pub fn trim_start(s: &str) -> (r: &str)
    ensures
        r@ == trimmed_start(s@),
{
    let chars = to_chars(s);
    let n: usize = chars.len();
    let mut i: usize = 0;
    assert(s@.skip(0) == s@);
    while i < n && chars[i].is_whitespace()
        invariant
            n == chars.len(),
            chars@ == s@,
            i <= n,
            trimmed_start(s@) == trimmed_start(s@.skip(i as int)),
        decreases n - i,
    {
        assert(s@.skip(i as int).drop_first() == s@.skip(i + 1));
        i = i + 1;
    }
    s.substring_char(i, n)
}

/// `s` without its trailing white space.
pub fn trim_end(s: &str) -> (r: &str)
    ensures
        r@ == trimmed_end(s@),
{
    let chars = to_chars(s);
    let mut i: usize = chars.len();
    assert(s@.take(s@.len() as int) == s@);
    while i > 0 && chars[i - 1].is_whitespace()
        invariant
            chars@ == s@,
            i <= chars.len(),
            trimmed_end(s@) == trimmed_end(s@.take(i as int)),
        decreases i,
    {
        assert(s@.take(i as int).drop_last() == s@.take(i - 1));
        i = i - 1;
    }
    s.substring_char(0, i)
}

/// `s` without white space at either end.
pub fn trim(s: &str) -> (r: &str)
    ensures
        r@ == trimmed(s@),
{
    trim_end(trim_start(s))
}

/// Tells whether a text has no white space at either end.
pub open spec fn is_trimmed(s: Seq<char>) -> bool {
    s.len() > 0 ==> !is_white_space(s[0]) && !is_white_space(s.last())
}

proof fn lemma_trimmed_start(s: Seq<char>)
    ensures
        trimmed_start(s).len() > 0 ==> !is_white_space(trimmed_start(s)[0]),
    decreases s.len(),
{
    if s.len() > 0 && is_white_space(s[0]) {
        lemma_trimmed_start(s.drop_first());
    }
}

proof fn lemma_trimmed_end(s: Seq<char>)
    ensures
        trimmed_end(s).len() > 0 ==> !is_white_space(trimmed_end(s).last()) && trimmed_end(s)[0]
            == s[0],
    decreases s.len(),
{
    if s.len() > 0 && is_white_space(s.last()) {
        lemma_trimmed_end(s.drop_last());
    }
}

/// Trimming leaves no white space at either end, and leaves a text that has none as it is.
pub proof fn law_trimming(s: Seq<char>)
    ensures
        is_trimmed(trimmed(s)),
        is_trimmed(s) ==> trimmed(s) == s,
{
    lemma_trimmed_start(s);
    lemma_trimmed_end(trimmed_start(s));
}

/// Tells whether `part` stands in `s` at index `at`.
pub open spec fn occurs_at(s: Seq<char>, part: Seq<char>, at: int) -> bool {
    0 <= at <= s.len() - part.len() && s.subrange(at, at + part.len()) == part
}

/// Tells whether `at` is the first index at which `part` stands in `s`.
pub open spec fn first_at(s: Seq<char>, part: Seq<char>, at: int) -> bool {
    occurs_at(s, part, at) && forall|j: int| 0 <= j < at ==> !occurs_at(s, part, j)
}

/// Tells whether `part` stands somewhere in `s`.
pub open spec fn has_part(s: Seq<char>, part: Seq<char>) -> bool {
    exists|at: int| occurs_at(s, part, at)
}

/// What stands between two texts is a part of the whole.
pub proof fn lemma_part(before: Seq<char>, part: Seq<char>, after: Seq<char>)
    ensures
        has_part(before + part + after, part),
{
    let whole = before + part + after;
    let at = before.len() as int;
    assert(whole.subrange(at, at + part.len()) =~= part);
    assert(occurs_at(whole, part, at));
}

/// A part of a part is a part of the whole.
pub proof fn lemma_part_of_part(whole: Seq<char>, middle: Seq<char>, part: Seq<char>)
    requires
        has_part(whole, middle),
        has_part(middle, part),
    ensures
        has_part(whole, part),
{
    let a = choose|at: int| occurs_at(whole, middle, at);
    let b = choose|at: int| occurs_at(middle, part, at);
    assert(whole.subrange(a + b, a + b + part.len()) =~= whole.subrange(
        a,
        a + middle.len(),
    ).subrange(b, b + part.len()));
    assert(occurs_at(whole, part, a + b));
}

/// `s` with what stands between `at` and `at + len` replaced by `by`.
pub open spec fn spliced(s: Seq<char>, at: int, len: int, by: Seq<char>) -> Seq<char> {
    s.take(at) + by + s.skip(at + len)
}

/// Tells whether `part` stands in `chars` at index `at`.
fn stands_at(chars: &Vec<char>, part: &Vec<char>, at: usize) -> (b: bool)
    requires
        at <= chars.len(),
    ensures
        b == occurs_at(chars@, part@, at as int),
{
    if part.len() > chars.len() - at {
        return false;
    }
    let n: usize = part.len();
    let mut i: usize = 0;
    while i < n
        invariant
            n == part.len(),
            i <= n,
            at + n <= chars.len(),
            forall|j: int| 0 <= j < i ==> chars@[at + j] == part@[j],
        decreases n - i,
    {
        if chars[at + i] != part[i] {
            assert(chars@.subrange(at as int, at + n)[i as int] != part@[i as int]);
            return false;
        }
        i = i + 1;
    }
    assert(chars@.subrange(at as int, at + n) =~= part@);
    true
}

/// The first index at which `part` stands in `s`, counted in characters.
pub fn find_part(s: &str, part: &str) -> (r: Option<usize>)
    ensures
        r matches Some(at) ==> first_at(s@, part@, at as int),
        r is None ==> !has_part(s@, part@),
{
    let chars = to_chars(s);
    let wanted = to_chars(part);
    let n: usize = chars.len();
    let mut at: usize = 0;
    while at <= n
        invariant
            n == chars.len(),
            chars@ == s@,
            wanted@ == part@,
            forall|j: int| 0 <= j < at ==> !occurs_at(s@, part@, j),
        decreases n + 1 - at,
    {
        if stands_at(&chars, &wanted, at) {
            return Some(at);
        }
        if at == n {
            assert forall|j: int| !occurs_at(s@, part@, j) by {
                if 0 <= j < at {
                    assert(!occurs_at(s@, part@, j));
                }
            }
            return None;
        }
        at = at + 1;
    }
    None
}

/// What follows `prefix` in `s`, if `s` starts with it.
pub fn strip_prefix<'a>(s: &'a str, prefix: &str) -> (r: Option<&'a str>)
    ensures
        r matches Some(rest) ==> without_prefix(s@, prefix@) == Some(rest@),
        r is None ==> without_prefix(s@, prefix@) is None,
{
    let chars = to_chars(s);
    let wanted = to_chars(prefix);
    if stands_at(&chars, &wanted, 0) {
        let n: usize = wanted.len();
        assert(s@.subrange(0, n as int) =~= prefix@);
        assert(prefix@.is_prefix_of(s@));
        assert(s@.subrange(n as int, s@.len() as int) =~= s@.skip(n as int));
        Some(s.substring_char(n, chars.len()))
    } else {
        assert(prefix@.is_prefix_of(s@) ==> s@.subrange(0, prefix@.len() as int) =~= prefix@);
        None
    }
}

/// What precedes `suffix` in `s`, if `s` ends with it.
pub fn strip_suffix<'a>(s: &'a str, suffix: &str) -> (r: Option<&'a str>)
    ensures
        r matches Some(rest) ==> without_suffix(s@, suffix@) == Some(rest@),
        r is None ==> without_suffix(s@, suffix@) is None,
{
    let chars = to_chars(s);
    let wanted = to_chars(suffix);
    if wanted.len() > chars.len() {
        return None;
    }
    let at: usize = chars.len() - wanted.len();
    if stands_at(&chars, &wanted, at) {
        assert(s@.subrange(0, at as int) =~= s@.take(at as int));
        Some(s.substring_char(0, at))
    } else {
        None
    }
}

/// `s` with the `len` characters from index `at` on replaced by `by`.
pub fn splice(s: &str, at: usize, len: usize, by: &str) -> (r: String)
    requires
        at + len <= s@.len(),
    ensures
        r@ == spliced(s@, at as int, len as int, by@),
{
    let n: usize = s.unicode_len();
    let mut out = s.substring_char(0, at).to_owned();
    out.append(by);
    out.append(s.substring_char(at + len, n));
    assert(s@.subrange(0, at as int) =~= s@.take(at as int));
    assert(s@.subrange(at + len, n as int) =~= s@.skip(at + len));
    out
}

/// Tells whether every character of `s` is an ASCII digit.
pub open spec fn all_digits(s: Seq<char>) -> bool {
    forall|i: int| 0 <= i < s.len() ==> '0' <= #[trigger] s[i] <= '9'
}

/// The number that the decimal digits of `s` write.
pub open spec fn digits_value(s: Seq<char>) -> nat
    decreases s.len(),
{
    if s.len() == 0 {
        0
    } else {
        10 * digits_value(s.drop_last()) + (s.last() as nat - '0' as nat) as nat
    }
}

/// The digits of a number that may be written with a leading `+`.
pub open spec fn unsigned_digits(s: Seq<char>) -> Seq<char> {
    if s.len() > 0 && s[0] == '+' {
        s.drop_first()
    } else {
        s
    }
}

/// The number that `s` writes: at least one digit, after a `+` or nothing, and at most
/// `usize::MAX`.
pub open spec fn written_number(s: Seq<char>) -> Option<nat> {
    let digits = unsigned_digits(s);
    if digits.len() > 0 && all_digits(digits) && digits_value(digits) <= usize::MAX {
        Some(digits_value(digits))
    } else {
        None
    }
}

/// Leading digits write no larger number than all of them.
proof fn lemma_digits_value_prefix(s: Seq<char>, n: int)
    requires
        all_digits(s),
        0 <= n <= s.len(),
    ensures
        digits_value(s.take(n)) <= digits_value(s),
    decreases s.len() - n,
{
    if n < s.len() {
        lemma_digits_value_prefix(s, n + 1);
        assert(s.take(n + 1).drop_last() == s.take(n));
    } else {
        assert(s.take(n) == s);
    }
}

/// Reads a number as it is written in decimal.
pub fn parse_number(s: &str) -> (r: Option<usize>)
    ensures
        r matches Some(n) ==> written_number(s@) == Some(n as nat),
        r is None ==> written_number(s@) is None,
{
    let chars = to_chars(s);
    let start: usize = if chars.len() > 0 && chars[0] == '+' {
        1
    } else {
        0
    };
    let n: usize = chars.len();
    let ghost digits = unsigned_digits(s@);
    assert(digits =~= s@.skip(start as int));
    if start == n {
        return None;
    }
    let mut value: usize = 0;
    let mut i: usize = start;
    assert(digits.take(0).len() == 0);
    while i < n
        invariant
            n == chars.len(),
            chars@ == s@,
            start <= i <= n,
            digits == unsigned_digits(s@),
            digits == s@.skip(start as int),
            all_digits(digits.take(i - start)),
            value == digits_value(digits.take(i - start)),
        decreases n - i,
    {
        let c: char = chars[i];
        let ghost seen = digits.take(i - start);
        let ghost more = digits.take(i + 1 - start);
        assert(more.drop_last() == seen);
        assert(more.last() == c);
        assert(digits[i - start] == c);
        if c < '0' || c > '9' {
            return None;
        }
        let digit: usize = (c as u32 - '0' as u32) as usize;
        proof {
            if all_digits(digits) {
                lemma_digits_value_prefix(digits, i + 1 - start);
            }
            assert forall|j: int| 0 <= j < more.len() implies '0' <= #[trigger] more[j] <= '9' by {
                if j < seen.len() {
                    assert(seen[j] == more[j]);
                }
            }
        }
        match value.checked_mul(10) {
            None => {
                return None;
            },
            Some(tens) => {
                match tens.checked_add(digit) {
                    None => {
                        return None;
                    },
                    Some(sum) => {
                        value = sum;
                    },
                }
            },
        }
        i = i + 1;
    }
    assert(digits.take(n - start) =~= digits);
    Some(value)
}

/// How `{:?}` writes a string: in double quotes, with escapes where Rust's string literals need
/// them.
pub uninterp spec fn debug_text(s: Seq<char>) -> Seq<char>;

/// `s` between double quotes.
pub open spec fn in_quotes(s: Seq<char>) -> Seq<char> {
    "\""@ + s + "\""@
}

/// Tells whether a text holds printable characters of ASCII only, and neither `"` nor `\`.
pub open spec fn is_plain(s: Seq<char>) -> bool {
    forall|i: int|
        0 <= i < s.len() ==> ' ' <= #[trigger] s[i] <= '~' && s[i] != '"' && s[i] != '\\'
}

/// `s` as a string literal: a plain text between double quotes, another as `{:?}` writes it.
pub open spec fn literal_text(s: Seq<char>) -> Seq<char> {
    if is_plain(s) {
        in_quotes(s)
    } else {
        debug_text(s)
    }
}

/// How `format!` writes `s` for `{:?}`.
///
/// It is a function of the string alone, and of a plain text the text between double quotes. Which
/// other characters are escaped, and how, is not claimed.
#[verifier::external_body]
fn quoted(s: &str) -> (r: String)
    ensures
        r@ == debug_text(s@),
        is_plain(s@) ==> r@ == in_quotes(s@),
{
    format!("{:?}", s)
}

/// `s` as a string literal.
pub fn literal(s: &str) -> (r: String)
    ensures
        r@ == literal_text(s@),
{
    quoted(s)
}

/// The text that `bytes` encode in UTF-8, or the bytes again.
///
/// The bytes are decoded by `String::from_utf8`, which accepts well-formed UTF-8 only; where it
/// does not, the bytes come back unchanged out of its error.
#[verifier::external_body]
pub(crate) fn utf8_text(bytes: Vec<u8>) -> (r: Result<String, Vec<u8>>)
    ensures
        r is Ok <==> valid_utf8(bytes@),
        r matches Ok(s) ==> s@ == decode_utf8(bytes@),
        r matches Err(b) ==> b@ == bytes@,
{
    String::from_utf8(bytes).map_err(|e| e.into_bytes())
}

/// Tells whether a text holds white space only.
pub open spec fn all_white(s: Seq<char>) -> bool {
    forall|i: int| 0 <= i < s.len() ==> is_white_space(#[trigger] s[i])
}

/// Among the first 256 characters, white space is the space, the no-break space, the controls from
/// tabulator to carriage return, and the next-line control.
pub proof fn law_white_space(c: char)
    requires
        c < '\u{100}',
    ensures
        is_white_space(c) <==> c == ' ' || c == '\u{a0}' || c == '\u{85}' || '\t' <= c <= '\r',
{
}

/// White space before a text is taken off, and nothing else.
pub proof fn law_white_space_before_is_dropped(white: Seq<char>, s: Seq<char>)
    requires
        all_white(white),
        s.len() > 0 ==> !is_white_space(s[0]),
    ensures
        trimmed_start(white + s) == s,
    decreases white.len(),
{
    if white.len() == 0 {
        assert(white + s =~= s);
    } else {
        let rest = white.drop_first();
        assert forall|i: int| 0 <= i < rest.len() implies is_white_space(#[trigger] rest[i]) by {
            assert(is_white_space(white[i + 1]));
        }
        assert((white + s)[0] == white[0]);
        assert((white + s).drop_first() =~= rest + s);
        law_white_space_before_is_dropped(rest, s);
    }
}

/// White space after a text is taken off, and nothing else.
pub proof fn law_white_space_after_is_dropped(s: Seq<char>, white: Seq<char>)
    requires
        all_white(white),
        s.len() > 0 ==> !is_white_space(s.last()),
    ensures
        trimmed_end(s + white) == s,
    decreases white.len(),
{
    if white.len() == 0 {
        assert(s + white =~= s);
    } else {
        let rest = white.drop_last();
        assert forall|i: int| 0 <= i < rest.len() implies is_white_space(#[trigger] rest[i]) by {
            assert(is_white_space(white[i]));
        }
        assert((s + white).last() == white.last());
        assert((s + white).drop_last() =~= s + rest);
        law_white_space_after_is_dropped(s, rest);
    }
}

/// White space on both sides of a text is taken off, and nothing else.
pub proof fn law_white_space_around_is_dropped(
    before: Seq<char>,
    s: Seq<char>,
    after: Seq<char>,
)
    requires
        all_white(before),
        all_white(after),
        s.len() > 0 ==> !is_white_space(s[0]) && !is_white_space(s.last()),
    ensures
        trimmed(before + s + after) == s,
{
    if s.len() == 0 {
        let white = before + after;
        assert(before + s + after =~= white + s);
        law_white_space_before_is_dropped(white, s);
    } else {
        assert(before + s + after =~= before + (s + after));
        law_white_space_before_is_dropped(before, s + after);
        law_white_space_after_is_dropped(s, after);
    }
}

/// What a prefix or a suffix is taken off of is the rest; and only a text with the affix gives one.
pub proof fn law_affixes(affix: Seq<char>, rest: Seq<char>, s: Seq<char>)
    ensures
        without_prefix(affix + rest, affix) == Some(rest),
        without_suffix(rest + affix, affix) == Some(rest),
        without_prefix(s, affix) matches Some(r) ==> s == affix + r,
        without_suffix(s, affix) matches Some(r) ==> s == r + affix,
{
    assert((affix + rest).skip(affix.len() as int) =~= rest);
    assert((affix + rest).subrange(0, affix.len() as int) =~= affix);
    assert((rest + affix).take(rest.len() as int) =~= rest);
    let whole = rest + affix;
    assert(whole.subrange(whole.len() - affix.len(), whole.len() as int) =~= affix);
    if affix.is_prefix_of(s) {
        assert(s =~= affix + s.skip(affix.len() as int));
    }
    if affix.is_suffix_of(s) {
        assert(s =~= s.take(s.len() - affix.len()) + affix);
    }
}

/// Tells whether `s` is made of three texts, one after the other.
pub open spec fn stands_between(
    s: Seq<char>,
    before: Seq<char>,
    part: Seq<char>,
    after: Seq<char>,
) -> bool {
    s == before + part + after
}

/// A text is a part of another if and only if it stands between two texts there.
pub proof fn law_parts(s: Seq<char>, part: Seq<char>)
    ensures
        has_part(s, part) <==> exists|before: Seq<char>, after: Seq<char>|
            stands_between(s, before, part, after),
{
    if has_part(s, part) {
        let at = choose|at: int| occurs_at(s, part, at);
        assert(s =~= s.take(at) + part + s.skip(at + part.len()));
        assert(stands_between(s, s.take(at), part, s.skip(at + part.len())));
    }
    if exists|before: Seq<char>, after: Seq<char>| stands_between(s, before, part, after) {
        let (before, after) = choose|before: Seq<char>, after: Seq<char>|
            stands_between(s, before, part, after);
        lemma_part(before, part, after);
    }
}

/// Replacing what stands between two texts keeps both.
pub proof fn law_splicing(before: Seq<char>, part: Seq<char>, after: Seq<char>, by: Seq<char>)
    ensures
        spliced(before + part + after, before.len() as int, part.len() as int, by) == before + by
            + after,
{
    let whole = before + part + after;
    assert(whole.take(before.len() as int) =~= before);
    assert(whole.skip((before.len() + part.len()) as int) =~= after);
}

/// A number grows by its digits: one more digit makes ten times as much and the digit. A single
/// digit is itself, and a plus sign before digits changes nothing.
pub proof fn law_numbers_by_their_digits(s: Seq<char>, n: nat, digit: nat)
    requires
        digit < 10,
        written_number(s) == Some(n),
    ensures
        written_number(s.push(('0' as nat + digit) as char)) == if 10 * n + digit <= usize::MAX {
            Some(10 * n + digit)
        } else {
            None
        },
        written_number(seq![('0' as nat + digit) as char]) == Some(digit),
        s[0] != '+' ==> written_number(seq!['+'] + s) == Some(n),
{
    let c = ('0' as nat + digit) as char;
    assert('0' <= c <= '9' && c as nat == '0' as nat + digit);
    let one = seq![c];
    assert(one.drop_last() =~= Seq::empty());
    assert(digits_value(one.drop_last()) == 0);
    assert(unsigned_digits(one) == one);
    let more = s.push(c);
    let old_digits = unsigned_digits(s);
    assert(unsigned_digits(more) =~= old_digits.push(c));
    assert(old_digits.push(c).drop_last() =~= old_digits);
    assert forall|i: int| 0 <= i < old_digits.push(c).len() implies '0' <= #[trigger]
        old_digits.push(c)[i] <= '9' by {
        if i < old_digits.len() {
            assert('0' <= old_digits[i] <= '9');
        }
    }
    if s[0] != '+' {
        assert((seq!['+'] + s).drop_first() =~= s);
    }
}

/// What holds anything but digits, after a plus sign at most, is no number; nor is what holds none.
pub proof fn law_only_digits_are_numbers(s: Seq<char>, i: int)
    requires
        0 <= i < s.len(),
        s[i] < '0' || s[i] > '9',
        i == 0 ==> s[0] != '+' || s.len() == 1,
    ensures
        written_number(s) is None,
        written_number(Seq::empty()) is None,
{
    let digits = unsigned_digits(s);
    if s[0] == '+' {
        if i > 0 {
            assert(digits[i - 1] == s[i]);
        }
    } else {
        assert(digits[i] == s[i]);
    }
}

/// A text of printable ASCII without `"` and `\` is a literal between two double quotes, character
/// by character.
pub proof fn law_plain_literals(s: Seq<char>)
    requires
        forall|i: int|
            0 <= i < s.len() ==> ' ' <= #[trigger] s[i] <= '~' && s[i] != '"' && s[i] != '\\',
    ensures
        literal_text(s) == seq!['"'] + s + seq!['"'],
{
    reveal_strlit("\"");
    assert("\""@ =~= seq!['"']);
}

/// A text is white space and then what is left of it when that is taken off.
pub proof fn lemma_white_before(s: Seq<char>) -> (white: Seq<char>)
    ensures
        all_white(white),
        s == white + trimmed_start(s),
        trimmed_start(s).len() > 0 ==> !is_white_space(trimmed_start(s)[0]),
    decreases s.len(),
{
    if s.len() > 0 && is_white_space(s[0]) {
        let rest = lemma_white_before(s.drop_first());
        let white = seq![s[0]] + rest;
        assert(s =~= seq![s[0]] + s.drop_first());
        assert(seq![s[0]] + (rest + trimmed_start(s)) =~= white + trimmed_start(s));
        white
    } else {
        assert(s =~= Seq::empty() + s);
        Seq::empty()
    }
}

/// A text is what is left of it when white space at its end is taken off, and then white space.
pub proof fn lemma_white_after(s: Seq<char>) -> (white: Seq<char>)
    ensures
        all_white(white),
        s == trimmed_end(s) + white,
        trimmed_end(s).len() > 0 ==> !is_white_space(trimmed_end(s).last()),
    decreases s.len(),
{
    if s.len() > 0 && is_white_space(s.last()) {
        let rest = lemma_white_after(s.drop_last());
        let white = rest.push(s.last());
        assert(s =~= s.drop_last().push(s.last()));
        assert((trimmed_end(s) + rest).push(s.last()) =~= trimmed_end(s) + white);
        white
    } else {
        assert(s =~= s + Seq::empty());
        Seq::empty()
    }
}

/// The text of an optional string is the string's.
pub proof fn law_text_of_a_string(s: String)
    ensures
        text_of(Some(s)) == Some(s@),
        text_of(None) is None,
{
}

/// Digits that write too large a number stay so with one more, and a plus sign before digits changes
/// nothing, whatever they write.
pub proof fn law_too_large_numbers(digits: Seq<char>, more: char)
    requires
        digits.len() > 0,
        forall|i: int| 0 <= i < digits.len() ==> '0' <= #[trigger] digits[i] <= '9',
        '0' <= more <= '9',
    ensures
        written_number(digits) is None ==> written_number(digits.push(more)) is None,
        written_number(seq!['+'] + digits) == written_number(digits),
{
    assert(digits[0] != '+');
    assert((seq!['+'] + digits).drop_first() =~= digits);
    let longer = digits.push(more);
    assert(longer[0] == digits[0]);
    assert(longer.drop_last() =~= digits);
}

/// A text with any other character is written as `{:?}` writes it.
pub proof fn law_other_literals(s: Seq<char>, i: int)
    requires
        0 <= i < s.len(),
        s[i] < ' ' || s[i] > '~' || s[i] == '"' || s[i] == '\\',
    ensures
        literal_text(s) == debug_text(s),
{
}

} // verus!
