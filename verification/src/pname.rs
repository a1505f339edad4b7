//! The name of a package: where it comes from, and how it is spelled.
use url::Url;
use vstd::prelude::*;

use crate::command::words;
use crate::text::{law_affixes, strip_suffix, text_of, to_chars, without_suffix};

verus! {

/// The path segments of a URL, each percent-encoded, if the text is a URL that has such segments.
pub uninterp spec fn url_segments(url: Seq<char>) -> Option<Seq<Seq<char>>>;

/// The path segments of a URL.
///
/// `Url::from_str` parses the text or fails, and `Url::path_segments` splits the path of what it
/// gives, unless the URL cannot be a base; both by the text alone. Where there are segments, there
/// is at least one, which may be empty. How URLs are parsed is not claimed.
#[verifier::external_body]
fn path_segments(url: &str) -> (r: Option<Vec<String>>)
    ensures
        r is Some <==> url_segments(url@) is Some,
        r matches Some(list) ==> url_segments(url@) == Some(words(list@)) && list.len() > 0,
{
    let url = url.parse::<Url>().ok()?;
    Some(url.path_segments()?.map(|segment| segment.to_owned()).collect())
}

/// The name that a list of path segments ends with, without the extension `.git`.
pub open spec fn last_name(segments: Option<Seq<Seq<char>>>) -> Option<Seq<char>> {
    match segments {
        Some(list) => if list.len() == 0 {
            None
        } else {
            match without_suffix(list.last(), ".git"@) {
                Some(name) => Some(name),
                None => Some(list.last()),
            }
        },
        None => None,
    }
}

/// The texts of an optional list of strings.
pub open spec fn words_of(list: Option<Vec<String>>) -> Option<Seq<Seq<char>>> {
    match list {
        Some(list) => Some(words(list@)),
        None => None,
    }
}

/// The name that a list of path segments ends with, without the extension `.git`.
pub fn name_of_segments(segments: &Option<Vec<String>>) -> (r: Option<String>)
    ensures
        text_of(r) == last_name(words_of(*segments)),
{
    match segments {
        Some(list) => {
            if list.len() == 0 {
                return None;
            }
            let last = &list[list.len() - 1];
            assert(words(list@).last() == last@);
            match strip_suffix(last, ".git") {
                Some(name) => Some(name.to_owned()),
                None => Some(last.clone()),
            }
        },
        None => None,
    }
}

/// The name that the path of a URL ends with, without the extension `.git`.
pub fn name_of_url(url: &str) -> (r: Option<String>)
    ensures
        text_of(r) == last_name(url_segments(url@)),
        r is Some <==> url_segments(url@) is Some,
{
    let segments = path_segments(url);
    name_of_segments(&segments)
}

/// A text in lower case, by the rules of Unicode.
pub uninterp spec fn lowercase_text(s: Seq<char>) -> Seq<char>;

/// A character of ASCII in lower case.
pub open spec fn ascii_lower(c: char) -> char {
    if 'A' <= c <= 'Z' {
        (c as u32 + 0x20) as char
    } else {
        c
    }
}

/// Tells whether a text is made of ASCII characters alone.
pub open spec fn all_ascii(s: Seq<char>) -> bool {
    forall|i: int| 0 <= i < s.len() ==> #[trigger] s[i] < '\u{80}'
}

/// A text in lower case.
///
/// `str::to_lowercase` follows the rules of Unicode, by the text alone. A text of ASCII characters
/// has its letters from `A` to `Z` replaced and nothing else; of other texts nothing more is claimed.
#[verifier::external_body]
fn lowercase(s: &str) -> (r: String)
    ensures
        r@ == lowercase_text(s@),
        all_ascii(s@) ==> r@ == s@.map_values(|c: char| ascii_lower(c)),
{
    s.to_lowercase()
}

/// The punctuation characters of ASCII.
pub open spec fn is_punctuation(c: char) -> bool {
    '!' <= c <= '/' || ':' <= c <= '@' || '[' <= c <= '`' || '{' <= c <= '~'
}

/// A text with a dash for each punctuation character.
pub open spec fn dashed_text(s: Seq<char>) -> Seq<char> {
    s.map_values(
        |c: char|
            if is_punctuation(c) {
                '-'
            } else {
                c
            },
    )
}

/// A text with a dash for each punctuation character.
pub fn with_dashes(s: &str) -> (r: String)
    ensures
        r@ == dashed_text(s@),
{
    let chars = to_chars(s);
    let n: usize = chars.len();
    let mut out = String::new();
    let mut i: usize = 0;
    while i < n
        invariant
            n == chars.len(),
            chars@ == s@,
            i <= n,
            out@ == dashed_text(s@).take(i as int),
        decreases n - i,
    {
        let c: char = chars[i];
        let mark: bool = ('!' <= c && c <= '/') || (':' <= c && c <= '@') || ('[' <= c && c <= '`')
            || ('{' <= c && c <= '~');
        out.push(
            if mark {
                '-'
            } else {
                c
            },
        );
        assert(dashed_text(s@).take(i + 1) =~= dashed_text(s@).take(i as int).push(
            dashed_text(s@)[i as int],
        ));
        i = i + 1;
    }
    assert(dashed_text(s@).take(n as int) =~= dashed_text(s@));
    out
}

/// The spelling to suggest for a name: in lower case, with dashes for punctuation.
pub open spec fn suggested_pname(name: Seq<char>) -> Seq<char> {
    dashed_text(lowercase_text(name))
}

/// The spelling to suggest for a name: in lower case, with dashes for punctuation.
pub fn suggest_pname(name: &str) -> (r: String)
    ensures
        r@ == suggested_pname(name@),
        all_ascii(name@) ==> r@ == dashed_text(name@.map_values(|c: char| ascii_lower(c))),
{
    let lower = lowercase(name);
    with_dashes(&lower)
}

/// The only punctuation in a suggested name is the dash.
pub proof fn law_only_dashes(name: Seq<char>)
    ensures
        forall|i: int|
            0 <= i < suggested_pname(name).len() && is_punctuation(
                #[trigger] suggested_pname(name)[i],
            ) ==> suggested_pname(name)[i] == '-',
{
}

/// A spelling in ASCII that needs no dash and no lower case is suggested as it is.
pub proof fn law_plain_names_are_kept(name: Seq<char>)
    requires
        all_ascii(name),
        forall|i: int|
            0 <= i < name.len() ==> ascii_lower(#[trigger] name[i]) == name[i] && (is_punctuation(
                name[i],
            ) ==> name[i] == '-'),
    ensures
        dashed_text(name.map_values(|c: char| ascii_lower(c))) == name,
{
    assert(dashed_text(name.map_values(|c: char| ascii_lower(c))) =~= name);
}

/// What is suggested for a name in ASCII is suggested again for itself.
pub proof fn law_suggestions_are_stable(name: Seq<char>)
    requires
        all_ascii(name),
    ensures
        ({
            let once = dashed_text(name.map_values(|c: char| ascii_lower(c)));
            all_ascii(once) && dashed_text(once.map_values(|c: char| ascii_lower(c))) == once
        }),
{
    let once = dashed_text(name.map_values(|c: char| ascii_lower(c)));
    assert forall|i: int| 0 <= i < once.len() implies #[trigger] once[i] < '\u{80}' by {
        assert(name[i] < '\u{80}');
    }
    law_plain_names_are_kept(once);
}

/// The name of a path is its last segment, without `.git` if it ends so. Without a segment there is
/// none.
pub proof fn law_name_of_a_path(before: Seq<Seq<char>>, name: Seq<char>)
    ensures
        last_name(Some(before.push(name + ".git"@))) == Some(name),
        !".git"@.is_suffix_of(name) ==> last_name(Some(before.push(name))) == Some(name),
        last_name(Some(Seq::empty())) is None,
        last_name(None) is None,
{
    assert(before.push(name).last() == name);
    assert(before.push(name + ".git"@).last() == name + ".git"@);
    law_affixes(".git"@, name, name);
}

/// A suggested name differs from the name in lower case by dashes alone: letters, digits, spaces,
/// controls and all that is not ASCII stand as they are, and the rest is dashes.
pub proof fn law_suggestion_character_by_character(name: Seq<char>)
    ensures
        suggested_pname(name).len() == lowercase_text(name).len(),
        forall|i: int|
            0 <= i < lowercase_text(name).len() ==> #[trigger] suggested_pname(name)[i] == ({
                let c = lowercase_text(name)[i];
                if c <= ' ' || '0' <= c <= '9' || 'A' <= c <= 'Z' || 'a' <= c <= 'z' || c
                    >= '\u{7f}' {
                    c
                } else {
                    '-'
                }
            }),
{
}

/// Of the characters of ASCII, the upper case letters become the lower case letters at the same
/// place of the alphabet, and no other changes.
pub proof fn law_lower_case(c: char)
    ensures
        'A' <= c <= 'Z' ==> 'a' <= ascii_lower(c) <= 'z' && ascii_lower(c) as int - 'a' as int
            == c as int - 'A' as int,
        c < 'A' || c > 'Z' ==> ascii_lower(c) == c,
        all_ascii(seq![c]) <==> c <= '\u{7f}',
{
    assert(seq![c][0] == c);
}

/// The segments of a path are taken as they are.
pub proof fn law_segments_are_taken_as_they_are(list: Vec<String>, i: int)
    requires
        0 <= i < list@.len(),
    ensures
        words_of(Some(list)) matches Some(segments) && segments.len() == list@.len() && segments[i]
            == list@[i]@,
        words_of(None) is None,
{
}

} // verus!
