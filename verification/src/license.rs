//! License files: recognising them, ranking what they match, and writing the result down.
use std::hash::BuildHasherDefault;

use askalono::{Store, TextData};
use rustc_hash::{FxHashMap, FxHasher};
use vstd::multiset::Multiset;
use vstd::prelude::*;

use crate::ranking::{license_expr, license_value, pairs, score_key, Detected};
use crate::text::to_chars;

verus! {

/// A collection of known licenses, of the crate `askalono`.
#[verifier::external_type_specification]
#[verifier::external_body]
pub struct ExStore(Store);

/// The hasher of the crate `rustc_hash`.
#[verifier::external_type_specification]
#[verifier::external_body]
pub struct ExFxHasher(FxHasher);

/// The standard builder of hashers by their default value.
#[verifier::external_type_specification]
#[verifier::external_body]
#[verifier::reject_recursive_types(H)]
pub struct ExBuildHasherDefault<H>(BuildHasherDefault<H>);

/// What a store holds: for each license by its name, the texts that it is known by. A text is held
/// as what it is scored by, written out in a fixed way: how often each two words stand next to each
/// other, and the size that is recorded for it.
pub uninterp spec fn license_texts(store: Store) -> Map<Seq<char>, Seq<Seq<char>>>;

/// What a store that is read from `cache` holds, if it can be read.
pub uninterp spec fn cached_texts(cache: Seq<u8>) -> Option<Map<Seq<char>, Seq<Seq<char>>>>;

/// The size that a store records for each text of each license: how many pairs of words it has.
pub uninterp spec fn text_sizes(store: Store) -> Multiset<u64>;

/// Tells whether `read` is a form that `text` may be brought into before it is scored.
pub uninterp spec fn may_read(text: Seq<char>, read: Seq<char>) -> bool;

/// How well a text that was brought into the form `read` matches the best of `texts`, as the bits of
/// a 32-bit IEEE 754 number.
pub uninterp spec fn text_score(texts: Seq<Seq<char>>, read: Seq<char>) -> u32;

/// The attribute that a table gives for each license that it knows by name.
pub uninterp spec fn license_attrs(table: FxHashMap<&'static str, &'static str>) -> Map<
    Seq<char>,
    Seq<char>,
>;

/// The largest size of a text that is scored, and of one that it is scored against. The sum of two
/// such sizes fits in 32 bits.
pub const MAX_SIZE: u64 = 0x7fff_ffff;

/// Tells whether a store can be asked about a text: it holds a license, and no size that it records
/// is too large.
pub open spec fn askable(store: Store) -> bool {
    &&& !(license_texts(store).dom() =~= Set::<Seq<char>>::empty())
    &&& forall|size: u64| #[trigger] text_sizes(store).count(size) > 0 ==> size <= MAX_SIZE
}

/// Tells whether a text can be scored: it is not too long.
pub open spec fn scorable(text: Seq<char>) -> bool {
    text.len() <= MAX_SIZE
}

/// Tells whether a store can be asked about each of `texts`.
pub open spec fn answerable(store: Store, texts: Seq<String>) -> bool {
    &&& texts.len() > 0 ==> askable(store)
    &&& forall|i: int| 0 <= i < texts.len() ==> scorable((#[trigger] texts[i])@)
}

/// Tells whether a score is a finite number that is not below zero.
pub open spec fn is_finite(score: u32) -> bool {
    score < 0x7f80_0000
}

/// Tells whether the license `name` is one that a text in the form `read` matches best, with
/// `score`.
pub open spec fn best_for(
    known: Map<Seq<char>, Seq<Seq<char>>>,
    read: Seq<char>,
    score: u32,
    name: Seq<char>,
) -> bool {
    &&& known.dom().contains(name)
    &&& is_finite(score)
    &&& score == text_score(known[name], read)
    &&& forall|other: Seq<char>| #[trigger]
        known.dom().contains(other) ==> score_key(text_score(known[other], read)) <= score_key(
            score,
        )
}

/// Tells whether the license `name` is one that `text` matches best, with `score`, in a form that
/// `text` may be brought into.
pub open spec fn best_match(
    known: Map<Seq<char>, Seq<Seq<char>>>,
    text: Seq<char>,
    score: u32,
    name: Seq<char>,
) -> bool {
    exists|read: Seq<char>| #[trigger] may_read(text, read) && best_for(known, read, score, name)
}

/// Reads a store from its cached form.
///
/// `Store::from_cache` reads it or fails by the bytes alone; the reason of a failure is dropped.
#[verifier::external_body]
fn store_from_cache(cache: &[u8]) -> (r: Option<Store>)
    ensures
        r is Some <==> cached_texts(cache@) is Some,
        r matches Some(store) ==> cached_texts(cache@) == Some(license_texts(store)),
{
    Store::from_cache(cache).ok()
}

/// Tells whether a store holds no license.
///
/// `Store::is_empty` asks whether the collection of licenses is empty.
#[verifier::external_body]
fn store_is_empty(store: &Store) -> (b: bool)
    ensures
        b <==> license_texts(*store).dom() =~= Set::<Seq<char>>::empty(),
{
    store.is_empty()
}

/// The sizes that a store records for its texts.
///
/// `serde_json::to_value` writes a store down as it is: for each license an original text, headers
/// and alternates, each with its size. It cannot fail on a store, whose keys are strings and whose
/// numbers are not negative. The order of the sizes is left open.
#[verifier::external_body]
fn store_sizes(store: &Store) -> (r: Vec<u64>)
    ensures
        r@.to_multiset() == text_sizes(*store),
{
    let value = serde_json::to_value(store).unwrap();
    let licenses = value["licenses"].as_object().unwrap().values();
    let texts = licenses.flat_map(|license| {
        let headers = license["headers"].as_array().unwrap();
        let alternates = license["alternates"].as_array().unwrap();
        headers.iter().chain(alternates).chain([&license["original"]])
    });
    texts.map(|text| text["match_data"]["size"].as_u64().unwrap()).collect()
}

/// The score and the name of a license that `text` matches best.
///
/// `TextData::from` brings `text` into a form to be scored. `Store::analyze` scores this form against
/// every text of every license and gives one with the highest score. Two things are left open, for
/// each rests on the order in which a hash map is walked: which form it is, where several beginnings
/// of lines are equally common, and which license, where several have the highest score.
///
/// `Store::analyze` panics on an empty store, which is ruled out. So is what could make its sums
/// overflow: a recorded size, or a text, that is too large. A text has no more pairs of words than
/// characters. The score is then a quotient of two numbers, the second of which is not 0. That it is
/// at most 1 is not claimed: a store may record a size that is less than its counts make up.
#[verifier::external_body]
fn analyze(store: &Store, text: &str) -> (r: (u32, String))
    requires
        askable(*store),
        scorable(text@),
    ensures
        license_texts(*store).dom().contains(r.1@),
        is_finite(r.0),
        exists|read: Seq<char>| #[trigger]
            may_read(text@, read) && r.0 == text_score(license_texts(*store)[r.1@], read) && forall|
                other: Seq<char>,
            | #[trigger]
                license_texts(*store).dom().contains(other) ==> score_key(
                    text_score(license_texts(*store)[other], read),
                ) <= score_key(r.0),
{
    let found = store.analyze(&TextData::from(text));
    (found.score.to_bits(), found.name.to_owned())
}

/// The attribute that `table` gives for the license `name`.
///
/// `HashMap::get` finds the value of a key if and only if the table holds the key.
#[verifier::external_body]
fn attr_of(table: &FxHashMap<&'static str, &'static str>, name: &str) -> (r: Option<&'static str>)
    ensures
        r matches Some(attr) ==> license_attrs(*table).contains_pair(name@, attr@),
        r is None ==> !license_attrs(*table).dom().contains(name@),
{
    table.get(name).copied()
}

/// Reads a store from its cached form.
pub fn load_store(cache: &[u8]) -> (r: Option<Store>)
    ensures
        r is Some <==> cached_texts(cache@) is Some,
        r matches Some(store) ==> cached_texts(cache@) == Some(license_texts(store)),
{
    store_from_cache(cache)
}

/// Tells whether a store can be asked about a text: it holds a license, and no size that it records
/// is too large.
pub fn can_analyze(store: &Store) -> (b: bool)
    ensures
        b <==> askable(*store),
{
    broadcast use vstd::seq_lib::group_to_multiset_ensures;

    if store_is_empty(store) {
        return false;
    }
    let sizes = store_sizes(store);
    let n: usize = sizes.len();
    let mut i: usize = 0;
    while i < n && sizes[i] <= MAX_SIZE
        invariant
            n == sizes.len(),
            i <= n,
            forall|j: int| 0 <= j < i ==> #[trigger] sizes@[j] <= MAX_SIZE,
        decreases n - i,
    {
        i = i + 1;
    }
    proof {
        if i < n {
            assert(text_sizes(*store).count(sizes@[i as int]) > 0);
        }
        assert forall|size: u64| i == n && #[trigger] text_sizes(*store).count(size) > 0 implies size
            <= MAX_SIZE by {
            assert(sizes@.contains(size));
        }
    }
    i == n
}

/// Tells whether a store can be asked about each of `texts`.
pub fn can_answer(store: &Store, texts: &Vec<String>) -> (b: bool)
    ensures
        b == answerable(*store, texts@),
{
    let n: usize = texts.len();
    if n > 0 && !can_analyze(store) {
        return false;
    }
    let mut i: usize = 0;
    while i < n
        invariant
            n == texts.len(),
            i <= n,
            forall|j: int| 0 <= j < i ==> scorable((#[trigger] texts@[j])@),
        decreases n - i,
    {
        if texts[i].as_str().unicode_len() as u64 > MAX_SIZE {
            assert(!scorable(texts@[i as int]@));
            return false;
        }
        i = i + 1;
    }
    true
}

/// What a text matched best: the score, and the name of the license.
#[derive(Debug)]
pub struct Matched {
    pub score: u32,
    pub name: String,
}

/// The detected licenses among `matches`: those that the table knows, in their order.
pub open spec fn known_matches(
    matches: Seq<Matched>,
    attrs: Map<Seq<char>, Seq<char>>,
) -> Seq<(u32, Seq<char>)>
    decreases matches.len(),
{
    if matches.len() == 0 {
        Seq::empty()
    } else {
        let before = known_matches(matches.drop_last(), attrs);
        let last = matches.last();
        if attrs.dom().contains(last.name@) {
            before.push((last.score, attrs[last.name@]))
        } else {
            before
        }
    }
}

/// The detected licenses among `matches`: those that the table knows, in their order.
pub fn keep_known(
    matches: &Vec<Matched>,
    table: &FxHashMap<&'static str, &'static str>,
) -> (r: Vec<Detected>)
    ensures
        pairs(r@) == known_matches(matches@, license_attrs(*table)),
{
    let mut found: Vec<Detected> = Vec::new();
    let n: usize = matches.len();
    let mut i: usize = 0;
    assert(pairs(found@) =~= known_matches(matches@.take(0), license_attrs(*table)));
    while i < n
        invariant
            n == matches.len(),
            i <= n,
            pairs(found@) == known_matches(matches@.take(i as int), license_attrs(*table)),
        decreases n - i,
    {
        let ghost before = found@;
        assert(matches@.take(i + 1).drop_last() =~= matches@.take(i as int));
        if let Some(license) = attr_of(table, &matches[i].name) {
            found.push(Detected { score: matches[i].score, license });
            assert(pairs(found@) =~= pairs(before).push((matches@[i as int].score, license@)));
        }
        i = i + 1;
    }
    assert(matches@.take(n as int) =~= matches@);
    found
}

/// Tells whether `matches` give for each of `texts` a license that it matches best.
pub open spec fn are_best(
    known: Map<Seq<char>, Seq<Seq<char>>>,
    texts: Seq<String>,
    matches: Seq<Matched>,
) -> bool {
    &&& matches.len() == texts.len()
    &&& forall|i: int|
        0 <= i < texts.len() ==> best_match(
            known,
            texts[i]@,
            (#[trigger] matches[i]).score,
            matches[i].name@,
        )
}

/// A license that each of `texts` matches best.
pub fn match_texts(store: &Store, texts: &Vec<String>) -> (r: Vec<Matched>)
    requires
        answerable(*store, texts@),
    ensures
        are_best(license_texts(*store), texts@, r@),
{
    let mut matches: Vec<Matched> = Vec::new();
    let n: usize = texts.len();
    let mut i: usize = 0;
    while i < n
        invariant
            n == texts.len(),
            i <= n,
            answerable(*store, texts@),
            matches.len() == i,
            forall|j: int|
                0 <= j < i ==> best_match(
                    license_texts(*store),
                    texts@[j]@,
                    (#[trigger] matches@[j]).score,
                    matches@[j].name@,
                ),
        decreases n - i,
    {
        let (score, name) = analyze(store, &texts[i]);
        matches.push(Matched { score, name });
        i = i + 1;
    }
    matches
}

/// The licenses that `texts` match best, as far as the table knows them.
pub fn detect_licenses(
    store: &Store,
    table: &FxHashMap<&'static str, &'static str>,
    texts: &Vec<String>,
) -> (r: Vec<Detected>)
    requires
        answerable(*store, texts@),
    ensures
        exists|matches: Seq<Matched>| #[trigger]
            are_best(license_texts(*store), texts@, matches) && pairs(r@) == known_matches(
                matches,
                license_attrs(*table),
            ),
{
    let matches = match_texts(store, texts);
    keep_known(&matches, table)
}

/// The value of the `license` attribute for the license files with these `texts`.
pub fn package_license(
    store: &Store,
    table: &FxHashMap<&'static str, &'static str>,
    texts: &Vec<String>,
) -> (r: String)
    requires
        answerable(*store, texts@),
    ensures
        exists|matches: Seq<Matched>| #[trigger]
            are_best(license_texts(*store), texts@, matches) && r@ == license_value(
                known_matches(matches, license_attrs(*table)),
            ),
{
    let found = detect_licenses(store, table, texts);
    license_expr(&found)
}

/// A byte with the upper case letters of ASCII made lower case.
pub open spec fn lower_byte(b: u8) -> u8 {
    if 0x41 <= b <= 0x5a {
        (b + 0x20) as u8
    } else {
        b
    }
}

/// Tells whether `name` starts with the ASCII text `prefix`, in any case of letters.
pub open spec fn starts_like(name: Seq<u8>, prefix: Seq<char>) -> bool {
    &&& prefix.len() <= name.len()
    &&& forall|i: int| 0 <= i < prefix.len() ==> lower_byte(name[i]) as char == #[trigger] prefix[i]
}

/// Tells whether a file of this name holds a license.
pub open spec fn names_license(name: Seq<u8>) -> bool {
    starts_like(name, "license"@) || starts_like(name, "licence"@) || starts_like(name, "copying"@)
}

/// Tells whether `name` starts with the ASCII text `prefix`, in any case of letters.
fn begins_like(name: &[u8], prefix: &str) -> (b: bool)
    ensures
        b == starts_like(name@, prefix@),
{
    let wanted = to_chars(prefix);
    let n: usize = wanted.len();
    if n > name.len() {
        return false;
    }
    let mut i: usize = 0;
    while i < n
        invariant
            n == wanted.len(),
            wanted@ == prefix@,
            n <= name.len(),
            i <= n,
            forall|j: int| 0 <= j < i ==> lower_byte(name@[j]) as char == #[trigger] prefix@[j],
        decreases n - i,
    {
        let b: u8 = name[i];
        let low: u8 = if 0x41 <= b && b <= 0x5a {
            b + 0x20
        } else {
            b
        };
        assert(low == lower_byte(name@[i as int]));
        if low as char != wanted[i] {
            assert(lower_byte(name@[i as int]) as char != prefix@[i as int]);
            return false;
        }
        i = i + 1;
    }
    true
}

/// Tells whether a file of this name holds a license.
pub fn is_license_file(name: &[u8]) -> (b: bool)
    ensures
        b == names_license(name@),
{
    begins_like(name, "license") || begins_like(name, "licence") || begins_like(name, "copying")
}

/// The matches are looked up one by one, in their order: one that the table knows gives its score
/// and the attribute, and another nothing.
pub proof fn law_matches_are_looked_up_in_turn(
    before: Seq<Matched>,
    last: Matched,
    attrs: Map<Seq<char>, Seq<char>>,
)
    ensures
        known_matches(Seq::empty(), attrs) == Seq::<(u32, Seq<char>)>::empty(),
        known_matches(before.push(last), attrs) == known_matches(before, attrs) + (
        if attrs.dom().contains(last.name@) {
            seq![(last.score, attrs[last.name@])]
        } else {
            Seq::empty()
        }),
{
    assert(before.push(last).drop_last() =~= before);
    let list = known_matches(before, attrs);
    assert(list + Seq::empty() =~= list);
    if attrs.dom().contains(last.name@) {
        assert(list.push((last.score, attrs[last.name@])) =~= list + seq![
            (last.score, attrs[last.name@]),
        ]);
    }
}

/// Each text has one match: a known license with a finite score, which no other license exceeds for
/// the form in which the text was read.
pub proof fn law_matches_are_best(
    known: Map<Seq<char>, Seq<Seq<char>>>,
    texts: Seq<String>,
    matches: Seq<Matched>,
    i: int,
)
    requires
        are_best(known, texts, matches),
        0 <= i < texts.len(),
    ensures
        matches.len() == texts.len(),
        known.dom().contains(matches[i].name@),
        matches[i].score < 0x7f80_0000,
        exists|read: Seq<char>| #[trigger]
            may_read(texts[i]@, read) && matches[i].score == text_score(
                known[matches[i].name@],
                read,
            ) && forall|other: Seq<char>| #[trigger]
                known.dom().contains(other) ==> score_key(text_score(known[other], read))
                    <= score_key(matches[i].score),
{
    assert(best_match(known, texts[i]@, matches[i].score, matches[i].name@));
    let read = choose|read: Seq<char>| #[trigger]
        may_read(texts[i]@, read) && best_for(known, read, matches[i].score, matches[i].name@);
    assert(may_read(texts[i]@, read));
}

/// Tells whether a byte is the lower case letter `letter` of ASCII, or the same letter in upper case.
pub open spec fn is_letter(byte: u8, letter: char) -> bool {
    byte as int == letter as int || byte as int == letter as int - 'a' as int + 'A' as int
}

/// A license file is one whose name starts with `license`, `licence` or `copying`, in any case of
/// letters, whatever follows.
pub proof fn law_names_of_license_files(name: Seq<u8>)
    ensures
        names_license(name) <==> name.len() >= 7 && {
            ||| is_letter(name[0], 'l') && is_letter(name[1], 'i') && is_letter(name[2], 'c')
                && is_letter(name[3], 'e') && is_letter(name[4], 'n') && (is_letter(name[5], 's')
                || is_letter(name[5], 'c')) && is_letter(name[6], 'e')
            ||| is_letter(name[0], 'c') && is_letter(name[1], 'o') && is_letter(name[2], 'p')
                && is_letter(name[3], 'y') && is_letter(name[4], 'i') && is_letter(name[5], 'n')
                && is_letter(name[6], 'g')
        },
{
    reveal_strlit("license");
    reveal_strlit("licence");
    reveal_strlit("copying");
    lemma_spells(name, "license"@);
    lemma_spells(name, "licence"@);
    lemma_spells(name, "copying"@);
}

/// A name starts like a prefix of seven lower case letters if it has each of them, in either case.
proof fn lemma_spells(name: Seq<u8>, prefix: Seq<char>)
    requires
        prefix.len() == 7,
        forall|i: int| 0 <= i < 7 ==> 'a' <= #[trigger] prefix[i] <= 'z',
    ensures
        starts_like(name, prefix) <==> name.len() >= 7 && is_letter(name[0], prefix[0])
            && is_letter(name[1], prefix[1]) && is_letter(name[2], prefix[2]) && is_letter(
            name[3],
            prefix[3],
        ) && is_letter(name[4], prefix[4]) && is_letter(name[5], prefix[5]) && is_letter(
            name[6],
            prefix[6],
        ),
{
    assert forall|i: int| 0 <= i < 7 && name.len() >= 7 implies (lower_byte(name[i]) as char
        == #[trigger] prefix[i] <==> is_letter(name[i], prefix[i])) by {
        assert('a' <= prefix[i] <= 'z');
    }
    if starts_like(name, prefix) {
        assert(lower_byte(name[0]) as char == prefix[0]);
        assert(lower_byte(name[1]) as char == prefix[1]);
        assert(lower_byte(name[2]) as char == prefix[2]);
        assert(lower_byte(name[3]) as char == prefix[3]);
        assert(lower_byte(name[4]) as char == prefix[4]);
        assert(lower_byte(name[5]) as char == prefix[5]);
        assert(lower_byte(name[6]) as char == prefix[6]);
    }
}

} // verus!
