//! Revisions of a source, and the version that a revision suggests.
use vstd::prelude::*;

use crate::text::{has_part, occurs_at, to_chars};

verus! {

/// What is known of a revision.
#[derive(Debug)]
pub enum Version {
    /// The latest release.
    Latest,
    /// A tag.
    Tag,
    /// The newest commit of a branch.
    Head { date: String },
    /// A commit.
    Commit { date: String },
}

/// The revisions of a source: the one to take by default, and what is known of those by name.
#[derive(Debug)]
pub struct Revisions {
    pub latest: String,
    pub versions: Vec<(String, Version)>,
}

/// What a fetcher tells of a package.
#[derive(Debug)]
pub struct PackageInfo {
    pub pname: String,
    pub description: String,
    pub revisions: Revisions,
}

/// What is known of the revision `rev`.
pub open spec fn version_of(versions: Seq<(String, Version)>, rev: Seq<char>) -> Option<Version>
    decreases versions.len(),
{
    if versions.len() == 0 {
        None
    } else if versions[0].0@ == rev {
        Some(versions[0].1)
    } else {
        version_of(versions.drop_first(), rev)
    }
}

/// Tells whether no revision is listed twice.
pub open spec fn lists_once(versions: Seq<(String, Version)>) -> bool {
    forall|a: int, b: int|
        0 <= a < b < versions.len() ==> (#[trigger] versions[a]).0@ != (#[trigger] versions[b]).0@
}

impl Revisions {
    /// No revision is listed twice.
    pub open spec fn wf(self) -> bool {
        lists_once(self.versions@)
    }

    /// No revisions but the latest one's name.
    pub fn new(latest: String) -> (r: Revisions)
        ensures
            r.wf(),
            r.latest == latest,
            r.versions@ == Seq::<(String, Version)>::empty(),
    {
        Revisions { latest, versions: Vec::new() }
    }

    /// Lists a revision. What was known of it before is forgotten.
    pub fn insert(&mut self, rev: String, version: Version)
        ensures
            old(self).wf() ==> final(self).wf(),
            final(self).latest == old(self).latest,
            version_of(final(self).versions@, rev@) == Some(version),
            forall|other: Seq<char>|
                other != rev@ ==> #[trigger] version_of(final(self).versions@, other) == version_of(
                    old(self).versions@,
                    other,
                ),
    {
        let ghost before = self.versions@;
        let ghost entry = (rev, version);
        let n: usize = self.versions.len();
        let mut i: usize = 0;
        while i < n
            invariant
                n == self.versions.len(),
                i <= n,
                self.versions@ == before,
                *self == *old(self),
                entry == (rev, version),
                forall|j: int| 0 <= j < i ==> (#[trigger] before[j]).0@ != rev@,
            decreases n - i,
        {
            if self.versions[i].0 == rev {
                self.versions.set(i, (rev, version));
                proof {
                    lemma_replaced(before, i as int, entry);
                }
                return;
            }
            i = i + 1;
        }
        self.versions.push((rev, version));
        proof {
            lemma_added(before, entry);
        }
    }
}

/// Takes what is known of the revision `rev` out of a list.
pub fn take_version(versions: Vec<(String, Version)>, rev: &String) -> (r: Option<Version>)
    ensures
        r == version_of(versions@, rev@),
{
    let ghost all = versions@;
    let mut list = versions;
    let n: usize = list.len();
    let mut i: usize = 0;
    assert(all.skip(0) =~= all);
    while i < n
        invariant
            n == list.len(),
            i <= n,
            list@ == all,
            all == versions@,
            version_of(all, rev@) == version_of(all.skip(i as int), rev@),
        decreases n - i,
    {
        if list[i].0 == *rev {
            let (_, version) = list.remove(i);
            return Some(version);
        }
        assert(all.skip(i as int).drop_first() =~= all.skip(i + 1));
        i = i + 1;
    }
    None
}

/// The revision that an answer means: an empty one means the latest.
pub open spec fn meant_revision(answer: Seq<char>, latest: Seq<char>) -> Seq<char> {
    if answer.len() == 0 {
        latest
    } else {
        answer
    }
}

/// The revision that an answer means: an empty one means the latest.
pub fn choose_revision(answer: String, latest: &String) -> (r: String)
    ensures
        r@ == meant_revision(answer@, latest@),
{
    if answer.as_str().is_empty() {
        latest.clone()
    } else {
        answer
    }
}

/// Tells whether a character is of one of the Unicode categories for numbers.
pub uninterp spec fn is_number_char(c: char) -> bool;

/// `char::is_numeric` tells whether a character is of one of the categories `Nd`, `Nl` and `No`. Of
/// the characters of ASCII these are the digits.
pub assume_specification[ char::is_numeric ](c: char) -> (b: bool)
    ensures
        b == is_number_char(c),
        c < '\u{80}' ==> b == ('0' <= c <= '9'),
;

/// The index of the first numeric character.
pub open spec fn number_start(s: Seq<char>) -> Option<int>
    decreases s.len(),
{
    if s.len() == 0 {
        None
    } else if is_number_char(s[0]) {
        Some(0)
    } else {
        match number_start(s.drop_first()) {
            Some(i) => Some(i + 1),
            None => None,
        }
    }
}

/// `tag` from `start` on, or all of it.
pub open spec fn from_start(tag: Seq<char>, start: Option<int>) -> Seq<char> {
    match start {
        Some(i) => tag.skip(i),
        None => tag,
    }
}

/// The version that a tag stands for: the tag from its first numeric character on, or all of it
/// where there is none.
pub open spec fn tag_version(tag: Seq<char>) -> Seq<char> {
    from_start(tag, number_start(tag))
}

/// The version to suggest for a revision, the numbers of which start at `start`.
pub open spec fn version_text(
    rev: Seq<char>,
    version: Option<Version>,
    start: Option<int>,
) -> Seq<char> {
    match version {
        Some(Version::Latest) | Some(Version::Tag) => from_start(rev, start),
        Some(Version::Head { date }) | Some(Version::Commit { date }) => "unstable-"@ + date@,
        None => Seq::empty(),
    }
}

/// The version to suggest for a revision.
pub open spec fn suggested_version(rev: Seq<char>, version: Option<Version>) -> Seq<char> {
    version_text(rev, version, number_start(rev))
}

/// An index as an integer.
pub open spec fn index_of(i: Option<usize>) -> Option<int> {
    match i {
        Some(i) => Some(i as int),
        None => None,
    }
}

/// The first numeric character stands in the text, right after others that are not numeric.
proof fn lemma_number_start(s: Seq<char>)
    ensures
        number_start(s) matches Some(i) ==> 0 <= i < s.len() && is_number_char(s[i]) && forall|j: int|
            0 <= j < i ==> !is_number_char(#[trigger] s[j]),
        number_start(s) is None ==> forall|j: int| 0 <= j < s.len() ==> !is_number_char(#[trigger] s[j]),
    decreases s.len(),
{
    if s.len() > 0 && !is_number_char(s[0]) {
        let rest = s.drop_first();
        lemma_number_start(rest);
        let n: int = match number_start(rest) {
            Some(i) => i + 1,
            None => s.len() as int,
        };
        assert forall|j: int| 0 <= j < n implies !is_number_char(#[trigger] s[j]) by {
            if j > 0 {
                assert(rest[j - 1] == s[j]);
            }
        }
    }
}

/// The index of the first numeric character.
pub fn find_number(s: &str) -> (r: Option<usize>)
    ensures
        index_of(r) == number_start(s@),
        r matches Some(i) ==> i < s@.len(),
{
    let chars = to_chars(s);
    let n: usize = chars.len();
    let mut i: usize = 0;
    while i < n
        invariant
            n == chars.len(),
            chars@ == s@,
            i <= n,
            forall|j: int| 0 <= j < i ==> !is_number_char(#[trigger] s@[j]),
        decreases n - i,
    {
        if chars[i].is_numeric() {
            proof {
                lemma_number_start(s@);
                assert(is_number_char(s@[i as int]));
            }
            return Some(i);
        }
        i = i + 1;
    }
    proof {
        lemma_number_start(s@);
    }
    None
}

/// The version to suggest for a revision, the numbers of which start at `start`.
pub fn version_from(rev: &str, version: &Option<Version>, start: Option<usize>) -> (r: String)
    requires
        start matches Some(i) ==> i <= rev@.len(),
    ensures
        r@ == version_text(rev@, *version, index_of(start)),
{
    match version {
        Some(Version::Latest) | Some(Version::Tag) => match start {
            Some(i) => {
                let n: usize = rev.unicode_len();
                assert(rev@.subrange(i as int, n as int) =~= rev@.skip(i as int));
                rev.substring_char(i, n).to_owned()
            },
            None => rev.to_owned(),
        },
        Some(Version::Head { date }) | Some(Version::Commit { date }) => {
            let mut out = "unstable-".to_owned();
            out.append(date.as_str());
            out
        },
        None => String::new(),
    }
}

/// The version to suggest for a revision.
pub fn suggest_version(rev: &str, version: &Option<Version>) -> (r: String)
    ensures
        r@ == suggested_version(rev@, *version),
{
    let start = find_number(rev);
    version_from(rev, version, start)
}

/// The version that is suggested for a tag is an end of the tag, and starts with a number if the
/// tag holds one. So it stands in the tag.
pub proof fn law_tag_ends_with_its_version(tag: Seq<char>)
    ensures
        tag_version(tag).is_suffix_of(tag),
        (exists|i: int| 0 <= i < tag.len() && is_number_char(#[trigger] tag[i])) ==> tag_version(
            tag,
        ).len() > 0 && is_number_char(tag_version(tag)[0]),
        has_part(tag, tag_version(tag)),
{
    lemma_number_start(tag);
    let v = tag_version(tag);
    assert(tag.subrange(tag.len() - v.len(), tag.len() as int) =~= v);
    assert(occurs_at(tag, v, tag.len() - v.len()));
}

/// An empty answer means the same revision as the name of the latest one.
pub proof fn law_empty_answer_means_latest(latest: Seq<char>)
    ensures
        meant_revision(Seq::empty(), latest) == meant_revision(latest, latest),
{
}

/// The first entry for a revision is what is known of it, even if there are others.
pub proof fn law_first_entry_counts(versions: Seq<(String, Version)>, i: int)
    requires
        0 <= i < versions.len(),
        forall|j: int| 0 <= j < i ==> (#[trigger] versions[j]).0@ != versions[i].0@,
    ensures
        version_of(versions, versions[i].0@) == Some(versions[i].1),
    decreases versions.len(),
{
    if i > 0 {
        let rest = versions.drop_first();
        assert(versions[0].0@ != versions[i].0@);
        assert forall|j: int| 0 <= j < i - 1 implies (#[trigger] rest[j]).0@ != rest[i - 1].0@ by {
            assert(versions[j + 1].0@ != versions[i].0@);
        }
        law_first_entry_counts(rest, i - 1);
    }
}

/// An entry in the place of one for the same revision changes nothing of other revisions.
proof fn lemma_others_kept(
    versions: Seq<(String, Version)>,
    i: int,
    entry: (String, Version),
    other: Seq<char>,
)
    requires
        0 <= i < versions.len(),
        versions[i].0@ == entry.0@,
        other != entry.0@,
    ensures
        version_of(versions.update(i, entry), other) == version_of(versions, other),
    decreases versions.len(),
{
    let new = versions.update(i, entry);
    if i > 0 {
        assert(new.drop_first() =~= versions.drop_first().update(i - 1, entry));
        lemma_others_kept(versions.drop_first(), i - 1, entry, other);
    } else {
        assert(new.drop_first() =~= versions.drop_first());
    }
}

/// What a list says with an entry in the place of the first for the same revision.
proof fn lemma_replaced(versions: Seq<(String, Version)>, i: int, entry: (String, Version))
    requires
        0 <= i < versions.len(),
        versions[i].0@ == entry.0@,
        forall|j: int| 0 <= j < i ==> (#[trigger] versions[j]).0@ != entry.0@,
    ensures
        lists_once(versions) ==> lists_once(versions.update(i, entry)),
        version_of(versions.update(i, entry), entry.0@) == Some(entry.1),
        forall|other: Seq<char>|
            other != entry.0@ ==> #[trigger] version_of(versions.update(i, entry), other)
                == version_of(versions, other),
{
    let new = versions.update(i, entry);
    assert forall|j: int| 0 <= j < i implies (#[trigger] new[j]).0@ != new[i].0@ by {
        assert(versions[j].0@ != entry.0@);
    }
    law_first_entry_counts(new, i);
    assert forall|other: Seq<char>| other != entry.0@ implies #[trigger] version_of(new, other)
        == version_of(versions, other) by {
        lemma_others_kept(versions, i, entry, other);
    }
    if lists_once(versions) {
        assert forall|a: int, b: int| 0 <= a < b < new.len() implies (#[trigger] new[a]).0@ != (
        #[trigger] new[b]).0@ by {
            assert(versions[a].0@ != versions[b].0@);
        }
    }
}

/// An entry at the end of a list changes nothing of other revisions.
proof fn lemma_others_kept_by_last(
    versions: Seq<(String, Version)>,
    entry: (String, Version),
    other: Seq<char>,
)
    requires
        other != entry.0@,
    ensures
        version_of(versions.push(entry), other) == version_of(versions, other),
    decreases versions.len(),
{
    let new = versions.push(entry);
    if versions.len() == 0 {
        assert(new.drop_first() =~= versions);
    } else {
        assert(new.drop_first() =~= versions.drop_first().push(entry));
        lemma_others_kept_by_last(versions.drop_first(), entry, other);
    }
}

/// What a list says with an entry for a revision that it lacks.
proof fn lemma_added(versions: Seq<(String, Version)>, entry: (String, Version))
    requires
        forall|j: int| 0 <= j < versions.len() ==> (#[trigger] versions[j]).0@ != entry.0@,
    ensures
        lists_once(versions) ==> lists_once(versions.push(entry)),
        version_of(versions.push(entry), entry.0@) == Some(entry.1),
        forall|other: Seq<char>|
            other != entry.0@ ==> #[trigger] version_of(versions.push(entry), other) == version_of(
                versions,
                other,
            ),
{
    let new = versions.push(entry);
    let i = versions.len() as int;
    assert forall|j: int| 0 <= j < i implies (#[trigger] new[j]).0@ != new[i].0@ by {
        assert(versions[j].0@ != entry.0@);
    }
    law_first_entry_counts(new, i);
    assert forall|other: Seq<char>| other != entry.0@ implies #[trigger] version_of(new, other)
        == version_of(versions, other) by {
        lemma_others_kept_by_last(versions, entry, other);
    }
}

/// What is known of a listed revision is what the list says of it.
pub proof fn law_versions_are_found(revisions: Revisions, i: int)
    requires
        revisions.wf(),
        0 <= i < revisions.versions@.len(),
    ensures
        version_of(revisions.versions@, revisions.versions@[i].0@) == Some(revisions.versions@[i].1),
{
    law_first_entry_counts(revisions.versions@, i);
}

/// The version of a tag is all of it from its first number on, or all of it without one.
pub proof fn law_version_of_a_tag(before: Seq<char>, rest: Seq<char>)
    requires
        forall|i: int| 0 <= i < before.len() ==> !is_number_char(#[trigger] before[i]),
    ensures
        rest.len() > 0 && is_number_char(rest[0]) ==> tag_version(before + rest) == rest,
        tag_version(before) == before,
{
    lemma_number_start(before);
    let tag = before + rest;
    lemma_number_start(tag);
    if rest.len() > 0 && is_number_char(rest[0]) {
        let n = before.len() as int;
        assert(is_number_char(tag[n]));
        assert forall|j: int| 0 <= j < n implies !is_number_char(#[trigger] tag[j]) by {
            assert(tag[j] == before[j]);
        }
        assert(number_start(tag) == Some(n));
        assert(tag.skip(n) =~= rest);
    }
}

/// What is suggested for a revision: for a release its version, for a commit its date, and without
/// knowledge nothing.
pub proof fn law_suggestion_by_what_is_known(rev: Seq<char>, date: String)
    ensures
        suggested_version(rev, Some(Version::Latest)) == tag_version(rev),
        suggested_version(rev, Some(Version::Tag)) == tag_version(rev),
        suggested_version(rev, Some(Version::Head { date })) == "unstable-"@ + date@,
        suggested_version(rev, Some(Version::Commit { date })) == "unstable-"@ + date@,
        suggested_version(rev, None) == Seq::<char>::empty(),
{
}

/// An answer means itself, and an empty one the latest revision.
pub proof fn law_meaning_of_an_answer(answer: Seq<char>, latest: Seq<char>)
    ensures
        answer.len() > 0 ==> meant_revision(answer, latest) == answer,
        meant_revision(Seq::empty(), latest) == latest,
{
}

/// Of a revision that is not listed nothing is known.
pub proof fn law_unlisted_revisions_are_unknown(versions: Seq<(String, Version)>, rev: Seq<char>)
    requires
        forall|i: int| 0 <= i < versions.len() ==> (#[trigger] versions[i]).0@ != rev,
    ensures
        version_of(versions, rev) is None,
    decreases versions.len(),
{
    if versions.len() > 0 {
        let rest = versions.drop_first();
        assert(versions[0].0@ != rev);
        assert forall|i: int| 0 <= i < rest.len() implies (#[trigger] rest[i]).0@ != rev by {
            assert(versions[i + 1].0@ != rev);
        }
        law_unlisted_revisions_are_unknown(rest, rev);
    }
}

/// From a known start on, a release's version is the rest of the revision; without a start it is all
/// of it.
pub proof fn law_version_from_a_start(before: Seq<char>, rest: Seq<char>, i: usize)
    requires
        i == before.len(),
    ensures
        index_of(Some(i)) == Some(before.len() as int),
        index_of(None) is None,
        version_text(before + rest, Some(Version::Tag), Some(before.len() as int)) == rest,
        version_text(before + rest, Some(Version::Latest), Some(before.len() as int)) == rest,
        version_text(rest, Some(Version::Tag), None) == rest,
        version_text(rest, Some(Version::Latest), None) == rest,
{
    assert((before + rest).skip(before.len() as int) =~= rest);
}

/// The first number of a text is found where it stands.
pub proof fn law_first_number_is_found(before: Seq<char>, number: char, after: Seq<char>)
    requires
        forall|i: int| 0 <= i < before.len() ==> !is_number_char(#[trigger] before[i]),
        is_number_char(number),
    ensures
        number_start(before + seq![number] + after) == Some(before.len() as int),
        number_start(before) is None,
{
    let s = before + seq![number] + after;
    let n = before.len() as int;
    lemma_number_start(before);
    lemma_number_start(s);
    assert(is_number_char(s[n]));
    assert forall|j: int| 0 <= j < n implies !is_number_char(#[trigger] s[j]) by {
        assert(s[j] == before[j]);
    }
}

} // verus!
