//! The order of detected licenses, and which of them a package lists.
use vstd::prelude::*;
use vstd::relations::{sorted_by, total_ordering};
use vstd::seq_lib::lemma_sorted_unique;

use crate::text::to_chars;

verus! {

/// A license that was found, as an attribute, and the score of the match.
#[derive(Clone, Copy, Debug, PartialEq, Eq)]
pub struct Detected {
    pub score: u32,
    pub license: &'static str,
}

/// The place of a score among the scores. Scores are the bits of a 32-bit IEEE 754 number, and
/// two of them that are numbers stand as the numbers do: the sign is the highest bit, and the
/// others grow with the number's size.
pub open spec fn score_key(score: u32) -> int {
    let size = score as int % 0x8000_0000;
    if score < 0x8000_0000 || size > 0x7f80_0000 {
        size
    } else {
        -size
    }
}

/// The score of three quarters, from which on a match counts as sure.
pub const SURE_SCORE: u32 = 0x3f40_0000;

/// The scores and attributes of a list of detected licenses.
pub open spec fn pairs(list: Seq<Detected>) -> Seq<(u32, Seq<char>)> {
    list.map_values(|d: Detected| (d.score, d.license@))
}

/// The score's place and the attribute of each detected license.
pub open spec fn ranks(list: Seq<(u32, Seq<char>)>) -> Seq<(int, Seq<char>)> {
    list.map_values(|p: (u32, Seq<char>)| (score_key(p.0), p.1))
}

/// The lexicographic order of texts, by code points.
pub open spec fn text_le(a: Seq<char>, b: Seq<char>) -> bool
    decreases a.len(),
{
    if a.len() == 0 {
        true
    } else if b.len() == 0 {
        false
    } else if a[0] != b[0] {
        a[0] < b[0]
    } else {
        text_le(a.drop_first(), b.drop_first())
    }
}

/// The order of detected licenses: by score from the lowest on, and by attribute where the scores
/// are equal.
pub open spec fn rank_le(a: (int, Seq<char>), b: (int, Seq<char>)) -> bool {
    a.0 < b.0 || (a.0 == b.0 && text_le(a.1, b.1))
}

/// The order of detected licenses as a relation.
pub open spec fn rank_order() -> spec_fn((int, Seq<char>), (int, Seq<char>)) -> bool {
    |a: (int, Seq<char>), b: (int, Seq<char>)| rank_le(a, b)
}

/// Without the licenses that repeat the one right before them.
pub open spec fn without_repeats(list: Seq<(u32, Seq<char>)>) -> Seq<(u32, Seq<char>)>
    decreases list.len(),
{
    if list.len() <= 1 {
        list
    } else {
        let before = without_repeats(list.drop_last());
        if list.last().1 == list[list.len() - 2].1 {
            before
        } else {
            before.push(list.last())
        }
    }
}

/// How many licenses stand before the first whose match is not sure.
pub open spec fn sure_count(ranked: Seq<(int, Seq<char>)>) -> nat
    decreases ranked.len(),
{
    if ranked.len() == 0 || ranked[0].0 < score_key(SURE_SCORE) {
        0
    } else {
        1 + sure_count(ranked.drop_first())
    }
}

/// How many of the ranked licenses are listed: those before the first whose match is not sure, but
/// at least one where there is one.
pub open spec fn listed_count(ranked: Seq<(int, Seq<char>)>) -> nat {
    if ranked.len() > 0 && sure_count(ranked) == 0 {
        1
    } else {
        sure_count(ranked)
    }
}

/// The attributes, each with a space after it.
pub open spec fn spaced(list: Seq<(int, Seq<char>)>) -> Seq<char>
    decreases list.len(),
{
    if list.len() == 0 {
        Seq::empty()
    } else {
        spaced(list.drop_last()) + list.last().1 + " "@
    }
}

/// The value of the `license` attribute for the detected licenses.
pub open spec fn license_value(found: Seq<(u32, Seq<char>)>) -> Seq<char> {
    let distinct = without_repeats(found);
    if distinct.len() == 1 {
        "licenses."@ + distinct[0].1
    } else {
        let ranked = ranks(distinct).sort_by(rank_order());
        "with licenses; [ "@ + spaced(ranked.take(listed_count(ranked) as int)) + "]"@
    }
}

proof fn lemma_text_le_reflexive(a: Seq<char>)
    ensures
        text_le(a, a),
    decreases a.len(),
{
    if a.len() > 0 {
        lemma_text_le_reflexive(a.drop_first());
    }
}

proof fn lemma_text_le_antisymmetric(a: Seq<char>, b: Seq<char>)
    requires
        text_le(a, b),
        text_le(b, a),
    ensures
        a == b,
    decreases a.len(),
{
    if a.len() > 0 && b.len() > 0 {
        lemma_text_le_antisymmetric(a.drop_first(), b.drop_first());
        assert(a =~= seq![a[0]] + a.drop_first());
        assert(b =~= seq![b[0]] + b.drop_first());
    } else {
        assert(a =~= b);
    }
}

proof fn lemma_text_le_transitive(a: Seq<char>, b: Seq<char>, c: Seq<char>)
    requires
        text_le(a, b),
        text_le(b, c),
    ensures
        text_le(a, c),
    decreases a.len(),
{
    if a.len() > 0 && b.len() > 0 && c.len() > 0 && a[0] == b[0] && b[0] == c[0] {
        lemma_text_le_transitive(a.drop_first(), b.drop_first(), c.drop_first());
    }
}

proof fn lemma_text_le_total(a: Seq<char>, b: Seq<char>)
    ensures
        text_le(a, b) || text_le(b, a),
    decreases a.len(),
{
    if a.len() > 0 && b.len() > 0 {
        lemma_text_le_total(a.drop_first(), b.drop_first());
    }
}

/// The order of detected licenses is total.
pub proof fn lemma_rank_order_total()
    ensures
        total_ordering(rank_order()),
{
    let le = rank_order();
    assert forall|a: (int, Seq<char>)| #[trigger] le(a, a) by {
        lemma_text_le_reflexive(a.1);
    }
    assert forall|a: (int, Seq<char>), b: (int, Seq<char>)| #[trigger]
        le(a, b) && #[trigger] le(b, a) implies a == b by {
        lemma_text_le_antisymmetric(a.1, b.1);
    }
    assert forall|a: (int, Seq<char>), b: (int, Seq<char>), c: (int, Seq<char>)| #[trigger]
        le(a, b) && #[trigger] le(b, c) implies le(a, c) by {
        if a.0 == b.0 && b.0 == c.0 {
            lemma_text_le_transitive(a.1, b.1, c.1);
        }
    }
    assert forall|a: (int, Seq<char>), b: (int, Seq<char>)| #[trigger] le(a, b) || #[trigger] le(
        b,
        a,
    ) by {
        lemma_text_le_total(a.1, b.1);
    }
}

/// The rank of a detected license.
pub open spec fn rank(d: Detected) -> (int, Seq<char>) {
    (score_key(d.score), d.license@)
}

/// The place of a score among the scores.
pub fn score_place(score: u32) -> (r: i64)
    ensures
        r == score_key(score),
{
    let size: i64 = (score % 0x8000_0000) as i64;
    if score < 0x8000_0000 || size > 0x7f80_0000 {
        size
    } else {
        -size
    }
}

/// Tells whether `a` does not come after `b` in the order of texts.
fn text_not_after(a: &str, b: &str) -> (r: bool)
    ensures
        r == text_le(a@, b@),
{
    let xs = to_chars(a);
    let ys = to_chars(b);
    let mut i: usize = 0;
    assert(a@.skip(0) =~= a@);
    assert(b@.skip(0) =~= b@);
    while i < xs.len() && i < ys.len() && xs[i] == ys[i]
        invariant
            xs@ == a@,
            ys@ == b@,
            i <= xs.len(),
            i <= ys.len(),
            text_le(a@, b@) == text_le(a@.skip(i as int), b@.skip(i as int)),
        decreases xs.len() - i,
    {
        assert(a@.skip(i as int).drop_first() =~= a@.skip(i + 1));
        assert(b@.skip(i as int).drop_first() =~= b@.skip(i + 1));
        i = i + 1;
    }
    if i == xs.len() {
        true
    } else if i == ys.len() {
        false
    } else {
        xs[i] < ys[i]
    }
}

/// Tells whether two texts are the same.
fn same_text(a: &str, b: &str) -> (r: bool)
    ensures
        r == (a@ == b@),
{
    proof {
        lemma_text_le_reflexive(a@);
        if text_le(a@, b@) && text_le(b@, a@) {
            lemma_text_le_antisymmetric(a@, b@);
        }
    }
    text_not_after(a, b) && text_not_after(b, a)
}

/// Tells whether `a` does not come after `b` in the order of detected licenses.
fn rank_not_after(a: &Detected, b: &Detected) -> (r: bool)
    ensures
        r == rank_le(rank(*a), rank(*b)),
{
    let x: i64 = score_place(a.score);
    let y: i64 = score_place(b.score);
    x < y || (x == y && text_not_after(a.license, b.license))
}

/// Drops the licenses that repeat the one right before them.
pub fn drop_repeats(found: &Vec<Detected>) -> (r: Vec<Detected>)
    ensures
        pairs(r@) == without_repeats(pairs(found@)),
{
    let mut kept: Vec<Detected> = Vec::new();
    let n: usize = found.len();
    let mut i: usize = 0;
    assert(pairs(found@).take(0) =~= pairs(kept@));
    while i < n
        invariant
            n == found.len(),
            i <= n,
            pairs(kept@) == without_repeats(pairs(found@).take(i as int)),
        decreases n - i,
    {
        let ghost before = kept@;
        let ghost all = pairs(found@);
        assert(all.take(i + 1).drop_last() =~= all.take(i as int));
        if i == 0 || !same_text(found[i - 1].license, found[i].license) {
            kept.push(found[i]);
            assert(pairs(kept@) =~= pairs(before).push(all[i as int]));
        }
        i = i + 1;
    }
    assert(pairs(found@).take(n as int) =~= pairs(found@));
    kept
}

/// The index at which `d` belongs into a sorted list.
fn insertion_point(sorted: &Vec<Detected>, d: &Detected) -> (at: usize)
    requires
        sorted_by(ranks(pairs(sorted@)), rank_order()),
    ensures
        at <= sorted.len(),
        sorted_by(ranks(pairs(sorted@)).insert(at as int, rank(*d)), rank_order()),
{
    let n: usize = sorted.len();
    let mut at: usize = 0;
    let ghost list = ranks(pairs(sorted@));
    let ghost le = rank_order();
    while at < n && rank_not_after(&sorted[at], d)
        invariant
            n == sorted.len(),
            at <= n,
            list == ranks(pairs(sorted@)),
            forall|j: int| 0 <= j < at ==> rank_le(#[trigger] list[j], rank(*d)),
        decreases n - at,
    {
        assert(list[at as int] == rank(sorted@[at as int]));
        at = at + 1;
    }
    proof {
        lemma_rank_order_total();
        let x = rank(*d);
        let new = list.insert(at as int, x);
        if at < n {
            assert(list[at as int] == rank(sorted@[at as int]));
            assert(le(list[at as int], x) || le(x, list[at as int]));
        }
        assert forall|i: int, j: int| 0 <= i < j < new.len() implies #[trigger] le(
            new[i],
            new[j],
        ) by {
            if j < at {
                assert(le(list[i], list[j]));
            } else if j == at {
                assert(rank_le(list[i], x));
            } else if i == at {
                if j - 1 > at {
                    assert(le(list[at as int], list[j - 1]));
                }
                assert(le(x, list[at as int]));
            } else if i > at {
                assert(le(list[i - 1], list[j - 1]));
            } else {
                assert(le(list[i], list[j - 1]));
            }
        }
    }
    at
}

/// Sorts the detected licenses.
pub fn sort_ranked(found: &Vec<Detected>) -> (r: Vec<Detected>)
    ensures
        ranks(pairs(r@)) == ranks(pairs(found@)).sort_by(rank_order()),
{
    broadcast use vstd::seq_lib::group_to_multiset_ensures;

    let mut sorted: Vec<Detected> = Vec::new();
    let n: usize = found.len();
    let mut i: usize = 0;
    let ghost all = ranks(pairs(found@));
    assert(all.take(0) =~= ranks(pairs(sorted@)));
    while i < n
        invariant
            n == found.len(),
            i <= n,
            all == ranks(pairs(found@)),
            sorted_by(ranks(pairs(sorted@)), rank_order()),
            ranks(pairs(sorted@)).to_multiset() == all.take(i as int).to_multiset(),
        decreases n - i,
    {
        let d = found[i];
        let at: usize = insertion_point(&sorted, &d);
        let ghost before = ranks(pairs(sorted@));
        sorted.insert(at, d);
        assert(ranks(pairs(sorted@)) =~= before.insert(at as int, rank(d)));
        assert(all.take(i + 1) =~= all.take(i as int).push(rank(d)));
        proof {
            vstd::seq_lib::to_multiset_insert(before, at as int, rank(d));
            vstd::seq_lib::to_multiset_build(all.take(i as int), rank(d));
        }
        i = i + 1;
    }
    proof {
        assert(all.take(n as int) =~= all);
        lemma_rank_order_total();
        all.lemma_sort_by_ensures(rank_order());
        lemma_sorted_unique(ranks(pairs(sorted@)), all.sort_by(rank_order()), rank_order());
    }
    sorted
}

/// How many of the ranked licenses are listed.
fn count_listed(ranked: &Vec<Detected>) -> (count: usize)
    ensures
        count == listed_count(ranks(pairs(ranked@))),
        count <= ranked.len(),
{
    let n: usize = ranked.len();
    let mut sure: usize = 0;
    let ghost all = ranks(pairs(ranked@));
    assert(all.skip(0) =~= all);
    while sure < n && score_place(ranked[sure].score) >= score_place(SURE_SCORE)
        invariant
            n == ranked.len(),
            sure <= n,
            all == ranks(pairs(ranked@)),
            sure_count(all) == sure + sure_count(all.skip(sure as int)),
        decreases n - sure,
    {
        assert(all[sure as int] == rank(ranked@[sure as int]));
        assert(all.skip(sure as int).drop_first() =~= all.skip(sure + 1));
        sure = sure + 1;
    }
    assert(sure < n ==> all[sure as int] == rank(ranked@[sure as int]));
    if n > 0 && sure == 0 {
        1
    } else {
        sure
    }
}

/// The value of the `license` attribute for the detected licenses.
pub fn license_expr(found: &Vec<Detected>) -> (r: String)
    ensures
        r@ == license_value(pairs(found@)),
{
    let distinct = drop_repeats(found);
    if distinct.len() == 1 {
        let mut out = "licenses.".to_owned();
        assert(pairs(distinct@)[0].1 == distinct@[0].license@);
        out.append(distinct[0].license);
        out
    } else {
        let ranked = sort_ranked(&distinct);
        let count: usize = count_listed(&ranked);
        let ghost all = ranks(pairs(ranked@));
        let mut out = "with licenses; [ ".to_owned();
        let mut i: usize = 0;
        assert(out@ =~= "with licenses; [ "@ + spaced(all.take(0)));
        while i < count
            invariant
                i <= count <= ranked.len(),
                all == ranks(pairs(ranked@)),
                out@ == "with licenses; [ "@ + spaced(all.take(i as int)),
            decreases count - i,
        {
            assert(all.take(i + 1).drop_last() =~= all.take(i as int));
            assert(all.take(i + 1).last() == rank(ranked@[i as int]));
            out.append(ranked[i].license);
            out.append(" ");
            assert(out@ =~= "with licenses; [ "@ + spaced(all.take(i + 1)));
            i = i + 1;
        }
        out.append("]");
        out
    }
}

/// Tells whether every match is sure.
pub open spec fn all_sure(ranked: Seq<(int, Seq<char>)>) -> bool {
    forall|i: int| 0 <= i < ranked.len() ==> (#[trigger] ranked[i]).0 >= score_key(SURE_SCORE)
}

/// Tells whether `lowest` is one of `ranked` that no other comes before.
pub open spec fn is_lowest(ranked: Seq<(int, Seq<char>)>, lowest: (int, Seq<char>)) -> bool {
    &&& ranked.contains(lowest)
    &&& forall|i: int| 0 <= i < ranked.len() ==> rank_le(lowest, #[trigger] ranked[i])
}

/// Where every match is sure, none stands before the first that is not.
proof fn lemma_all_sure(ranked: Seq<(int, Seq<char>)>)
    requires
        all_sure(ranked),
    ensures
        sure_count(ranked) == ranked.len(),
    decreases ranked.len(),
{
    if ranked.len() > 0 {
        let rest = ranked.drop_first();
        assert forall|i: int| 0 <= i < rest.len() implies (#[trigger] rest[i]).0 >= score_key(
            SURE_SCORE,
        ) by {
            assert(rest[i] == ranked[i + 1]);
        }
        lemma_all_sure(rest);
    }
}

/// Of ranked licenses, either all are listed, and then every match is sure, or the first alone,
/// which has the lowest rank.
proof fn lemma_listed(found: Seq<(int, Seq<char>)>)
    ensures
        found.sort_by(rank_order()).len() == found.len(),
        all_sure(found) ==> listed_count(found.sort_by(rank_order())) == found.len(),
        !all_sure(found) ==> listed_count(found.sort_by(rank_order())) == 1 && is_lowest(
            found,
            found.sort_by(rank_order())[0],
        ),
{
    broadcast use vstd::seq_lib::group_to_multiset_ensures;

    let le = rank_order();
    let ranked = found.sort_by(le);
    lemma_rank_order_total();
    found.lemma_sort_by_ensures(le);
    assert(found.len() == ranked.len()) by {
        assert(found.to_multiset().len() == ranked.to_multiset().len());
    }
    assert forall|x: (int, Seq<char>)| found.contains(x) <==> ranked.contains(x) by {
        assert(found.to_multiset().count(x) == ranked.to_multiset().count(x));
    }
    assert forall|i: int| 0 <= i < found.len() implies rank_le(ranked[0], #[trigger] found[i]) by {
        assert(found.contains(found[i]));
        let j = choose|j: int| 0 <= j < ranked.len() && ranked[j] == found[i];
        if j == 0 {
            assert(le(ranked[0], ranked[0]));
        } else {
            assert(le(ranked[0], ranked[j]));
        }
    }
    if all_sure(found) {
        assert forall|i: int| 0 <= i < ranked.len() implies (#[trigger] ranked[i]).0 >= score_key(
            SURE_SCORE,
        ) by {
            assert(ranked.contains(ranked[i]));
        }
        lemma_all_sure(ranked);
    } else {
        assert(ranked.contains(ranked[0]));
    }
}

/// Where not just one license was found, either all are listed, and then every match is sure, or the
/// one with the lowest score alone.
pub proof fn law_all_or_lowest_is_listed(found: Seq<(u32, Seq<char>)>)
    requires
        without_repeats(found).len() != 1,
    ensures
        ({
            let all = ranks(without_repeats(found));
            if all_sure(all) {
                license_value(found) == "with licenses; [ "@ + spaced(all.sort_by(rank_order()))
                    + "]"@
            } else {
                exists|lowest: (int, Seq<char>)| #[trigger]
                    is_lowest(all, lowest) && license_value(found) == "with licenses; [ "@
                        + lowest.1 + " "@ + "]"@
            }
        }),
{
    let all = ranks(without_repeats(found));
    let ranked = all.sort_by(rank_order());
    lemma_listed(all);
    if all_sure(all) {
        assert(ranked.take(ranked.len() as int) =~= ranked);
    } else {
        let one = ranked.take(1);
        assert(one.drop_last() =~= Seq::empty());
        assert(spaced(one.drop_last()) =~= Seq::empty());
        assert(spaced(one) =~= ranked[0].1 + " "@);
        assert(is_lowest(all, ranked[0]));
        assert(license_value(found) =~= "with licenses; [ "@ + ranked[0].1 + " "@ + "]"@);
    }
}

/// Tells whether no license occurs twice.
pub open spec fn all_distinct(found: Seq<(u32, Seq<char>)>) -> bool {
    forall|i: int, j: int|
        0 <= i < j < found.len() ==> (#[trigger] found[i]).1 != (#[trigger] found[j]).1
}

/// Where no license occurs twice, none is dropped.
proof fn lemma_distinct_kept(found: Seq<(u32, Seq<char>)>)
    requires
        all_distinct(found),
    ensures
        without_repeats(found) == found,
    decreases found.len(),
{
    if found.len() > 1 {
        let before = found.drop_last();
        assert forall|i: int, j: int| 0 <= i < j < before.len() implies (#[trigger] before[i]).1 != (
        #[trigger] before[j]).1 by {
            assert(found[i].1 != found[j].1);
        }
        lemma_distinct_kept(before);
        assert(found[found.len() - 2].1 != found[found.len() - 1].1);
        assert(before.push(found.last()) =~= found);
    }
}

/// The ranks of a list, as a multiset, follow from the list as a multiset.
proof fn lemma_ranks_multiset(a: Seq<(u32, Seq<char>)>, b: Seq<(u32, Seq<char>)>)
    requires
        a.to_multiset() == b.to_multiset(),
    ensures
        ranks(a).to_multiset() == ranks(b).to_multiset(),
    decreases a.len(),
{
    broadcast use vstd::seq_lib::group_to_multiset_ensures;
    broadcast use vstd::multiset::group_multiset_axioms;

    assert(a.len() == a.to_multiset().len());
    assert(b.len() == b.to_multiset().len());
    if a.len() > 0 {
        let x = a.last();
        assert(a.contains(x)) by {
            assert(a[a.len() - 1] == x);
        }
        assert(b.to_multiset().count(x) > 0);
        assert(b.contains(x));
        let i = choose|i: int| 0 <= i < b.len() && b[i] == x;
        let rest = b.remove(i);
        assert(a =~= a.drop_last().push(x));
        vstd::seq_lib::to_multiset_build(a.drop_last(), x);
        vstd::seq_lib::to_multiset_remove(b, i);
        assert(a.drop_last().to_multiset() =~= a.to_multiset().remove(x));
        assert(rest.to_multiset() =~= b.to_multiset().remove(x));
        lemma_ranks_multiset(a.drop_last(), rest);
        let y = (score_key(x.0), x.1);
        assert(ranks(a) =~= ranks(a.drop_last()).push(y));
        assert(ranks(b) =~= ranks(rest).insert(i, y));
        vstd::seq_lib::to_multiset_build(ranks(a.drop_last()), y);
        vstd::seq_lib::to_multiset_insert(ranks(rest), i, y);
    } else {
        assert(ranks(a) =~= ranks(b));
    }
}

/// Where no license is found twice, the order in which they were found does not matter.
pub proof fn law_order_of_discovery_is_irrelevant(
    a: Seq<(u32, Seq<char>)>,
    b: Seq<(u32, Seq<char>)>,
)
    requires
        all_distinct(a),
        all_distinct(b),
        a.to_multiset() == b.to_multiset(),
    ensures
        license_value(a) == license_value(b),
{
    broadcast use vstd::seq_lib::group_to_multiset_ensures;

    lemma_distinct_kept(a);
    lemma_distinct_kept(b);
    assert(a.len() == a.to_multiset().len());
    assert(b.len() == b.to_multiset().len());
    if a.len() == 1 {
        assert(a.contains(a[0]));
        assert(b.to_multiset().count(a[0]) > 0);
        assert(b.contains(a[0]));
        assert(a =~= b);
    } else {
        let le = rank_order();
        lemma_ranks_multiset(a, b);
        lemma_rank_order_total();
        ranks(a).lemma_sort_by_ensures(le);
        ranks(b).lemma_sort_by_ensures(le);
        lemma_sorted_unique(ranks(a).sort_by(le), ranks(b).sort_by(le), le);
    }
}

/// After the repeats are dropped, no license stands right after itself.
pub proof fn law_no_neighbours_repeat(list: Seq<(u32, Seq<char>)>)
    ensures
        forall|i: int|
            0 < i < without_repeats(list).len() ==> (#[trigger] without_repeats(list)[i]).1
                != without_repeats(list)[i - 1].1,
        list.len() > 0 ==> without_repeats(list).len() > 0 && without_repeats(list).last().1
            == list.last().1,
    decreases list.len(),
{
    if list.len() > 1 {
        law_no_neighbours_repeat(list.drop_last());
    }
}

/// Where all that was found is one license, however often, the value is that license.
pub proof fn law_one_license_is_named(found: Seq<(u32, Seq<char>)>, license: Seq<char>)
    requires
        found.len() > 0,
        forall|i: int| 0 <= i < found.len() ==> (#[trigger] found[i]).1 == license,
    ensures
        license_value(found) == "licenses."@ + license,
{
    lemma_one_is_left(found, license);
}

/// Of one license, however often it was found, the first is left.
proof fn lemma_one_is_left(found: Seq<(u32, Seq<char>)>, license: Seq<char>)
    requires
        found.len() > 0,
        forall|i: int| 0 <= i < found.len() ==> (#[trigger] found[i]).1 == license,
    ensures
        without_repeats(found) == seq![found[0]],
    decreases found.len(),
{
    if found.len() > 1 {
        let before = found.drop_last();
        assert forall|i: int| 0 <= i < before.len() implies (#[trigger] before[i]).1 == license by {
            assert(found[i].1 == license);
        }
        assert(found.last().1 == license && found[found.len() - 2].1 == license);
        lemma_one_is_left(before, license);
    } else {
        assert(found =~= seq![found[0]]);
    }
}

/// A license that was found right after itself changes nothing.
pub proof fn law_repeats_change_nothing(
    before: Seq<(u32, Seq<char>)>,
    license: Seq<char>,
    score: u32,
    again: u32,
    after: Seq<(u32, Seq<char>)>,
)
    ensures
        without_repeats(before + seq![(score, license), (again, license)] + after)
            == without_repeats(before + seq![(score, license)] + after),
        license_value(before + seq![(score, license), (again, license)] + after) == license_value(
            before + seq![(score, license)] + after,
        ),
    decreases after.len(),
{
    let twice = before + seq![(score, license), (again, license)] + after;
    let once = before + seq![(score, license)] + after;
    if after.len() == 0 {
        assert(twice.drop_last() =~= once);
    } else {
        let rest = after.drop_last();
        law_repeats_change_nothing(before, license, score, again, rest);
        assert(twice.drop_last() =~= before + seq![(score, license), (again, license)] + rest);
        assert(once.drop_last() =~= before + seq![(score, license)] + rest);
        assert(twice.last() == once.last());
        assert(twice[twice.len() - 2].1 == once[once.len() - 2].1);
    }
}

/// Tells whether no license stands right after itself.
pub open spec fn no_neighbours(list: Seq<(u32, Seq<char>)>) -> bool {
    forall|i: int| 0 < i < list.len() ==> (#[trigger] list[i]).1 != list[i - 1].1
}

/// Where no license stands right after itself, all are kept.
pub proof fn law_others_are_kept(list: Seq<(u32, Seq<char>)>)
    requires
        no_neighbours(list),
    ensures
        without_repeats(list) == list,
    decreases list.len(),
{
    if list.len() > 1 {
        let before = list.drop_last();
        assert forall|i: int| 0 < i < before.len() implies (#[trigger] before[i]).1 != before[i
            - 1].1 by {
            assert(list[i].1 != list[i - 1].1);
        }
        law_others_are_kept(before);
        assert(list[list.len() - 1].1 != list[list.len() - 2].1);
        assert(before.push(list.last()) =~= list);
    }
}

/// Tells whether `a` comes before `b` in a dictionary: they agree up to a place at which `a` ends,
/// or has the smaller character.
pub open spec fn comes_before(a: Seq<char>, b: Seq<char>) -> bool {
    exists|k: int| #[trigger] agrees_up_to(a, b, k) && (k == a.len() || a[k] < b[k])
}

/// Tells whether `a` and `b` agree up to index `k`, at which `b` has a character.
pub open spec fn agrees_up_to(a: Seq<char>, b: Seq<char>, k: int) -> bool {
    0 <= k <= a.len() && k < b.len() && forall|i: int| 0 <= i < k ==> #[trigger] a[i] == b[i]
}

/// Of two texts, the first is in order unless the second comes before it.
proof fn lemma_in_order(a: Seq<char>, b: Seq<char>)
    requires
        !comes_before(b, a),
    ensures
        text_le(a, b),
    decreases a.len(),
{
    if a.len() > 0 {
        if b.len() == 0 {
            assert(agrees_up_to(b, a, 0));
        } else if a[0] != b[0] {
            if b[0] < a[0] {
                assert(agrees_up_to(b, a, 0));
            }
        } else {
            let x = a.drop_first();
            let y = b.drop_first();
            if comes_before(y, x) {
                let k = choose|k: int| #[trigger]
                    agrees_up_to(y, x, k) && (k == y.len() || y[k] < x[k]);
                assert forall|i: int| 0 <= i < k + 1 implies #[trigger] b[i] == a[i] by {
                    if i > 0 {
                        assert(y[i - 1] == x[i - 1]);
                    }
                }
                assert(agrees_up_to(b, a, k + 1));
                assert(k + 1 == b.len() || b[k + 1] < a[k + 1]);
            }
            lemma_in_order(x, y);
        }
    }
}

/// Tells whether licenses with scores that are finite and not below zero stand from the lowest
/// score on, and as in a dictionary where the scores are equal. The bits of such scores are ordered
/// as the scores are.
pub open spec fn ascends(order: Seq<(u32, Seq<char>)>) -> bool {
    &&& forall|i: int| 0 <= i < order.len() ==> (#[trigger] order[i]).0 < 0x7f80_0000
    &&& forall|i: int, j: int|
        0 <= i < j < order.len() ==> {
            ||| (#[trigger] order[i]).0 < (#[trigger] order[j]).0
            ||| order[i].0 == order[j].0 && !comes_before(order[j].1, order[i].1)
        }
}

/// A score that is not below zero has the place that its bits write, and one below zero the
/// opposite place of its absolute value.
pub proof fn law_places_of_scores(score: u32)
    requires
        score <= 0x7f80_0000,
    ensures
        score_key(score) == score,
        score_key((0x8000_0000 + score) as u32) == -score,
{
}

/// Sorting licenses gives the same licenses, from the lowest score on.
pub proof fn law_sorted_licenses_ascend(
    found: Seq<(u32, Seq<char>)>,
    order: Seq<(u32, Seq<char>)>,
)
    requires
        found.to_multiset() == order.to_multiset(),
        ascends(order),
    ensures
        ranks(found).sort_by(rank_order()) == ranks(order),
        ranks(order) == order.map_values(|p: (u32, Seq<char>)| (p.0 as int, p.1)),
{
    let le = rank_order();
    let list = ranks(order);
    lemma_rank_order_total();
    lemma_ranks_multiset(found, order);
    assert forall|i: int, j: int| 0 <= i < j < list.len() implies #[trigger] le(
        list[i],
        list[j],
    ) by {
        assert(order[i].0 < 0x7f80_0000 && order[j].0 < 0x7f80_0000);
        if order[i].0 == order[j].0 {
            lemma_in_order(order[i].1, order[j].1);
        }
    }
    ranks(found).lemma_sort_by_ensures(le);
    lemma_sorted_unique(ranks(found).sort_by(le), list, le);
    assert(list =~= order.map_values(|p: (u32, Seq<char>)| (p.0 as int, p.1)));
}

/// A list of ranked licenses is written one by one, each with a space after it.
proof fn lemma_spaced(order: Seq<(u32, Seq<char>)>)
    ensures
        spaced(ranks(order)) == order.map_values(
            |p: (u32, Seq<char>)| p.1 + " "@,
        ).flatten_alt(),
    decreases order.len(),
{
    let each = order.map_values(|p: (u32, Seq<char>)| p.1 + " "@);
    if order.len() > 0 {
        let rest = order.drop_last();
        lemma_spaced(rest);
        assert(ranks(order).drop_last() =~= ranks(rest));
        assert(each.drop_last() =~= rest.map_values(|p: (u32, Seq<char>)| p.1 + " "@));
        assert(spaced(ranks(order)) =~= spaced(ranks(rest)) + (order.last().1 + " "@));
    }
}

/// Where not just one license was found, and none right after itself, those that were found are
/// listed from the lowest score on, each with a space after it, if the lowest score is at least
/// three quarters. If it is not, the license with the lowest score is listed alone. Without any, the
/// list is empty.
pub proof fn law_listed_licenses(found: Seq<(u32, Seq<char>)>, order: Seq<(u32, Seq<char>)>)
    requires
        found.len() != 1,
        no_neighbours(found),
        found.to_multiset() == order.to_multiset(),
        ascends(order),
    ensures
        order.len() == 0 || order[0].0 >= 0x3f40_0000 ==> license_value(found)
            == "with licenses; [ "@ + order.map_values(
            |p: (u32, Seq<char>)| p.1 + " "@,
        ).flatten() + "]"@,
        order.len() > 0 && order[0].0 < 0x3f40_0000 ==> license_value(found)
            == "with licenses; [ "@ + order[0].1 + " ]"@,
{
    broadcast use vstd::seq_lib::group_to_multiset_ensures;

    law_others_are_kept(found);
    law_sorted_licenses_ascend(found, order);
    let ranked = ranks(order);
    let each = order.map_values(|p: (u32, Seq<char>)| p.1 + " "@);
    if order.len() == 0 || order[0].0 >= 0x3f40_0000 {
        assert forall|i: int| 0 <= i < ranked.len() implies (#[trigger] ranked[i]).0 >= score_key(
            SURE_SCORE,
        ) by {
            assert(order[i].0 >= order[0].0);
        }
        lemma_all_sure(ranked);
        assert(ranked.take(ranked.len() as int) =~= ranked);
        lemma_spaced(order);
        each.lemma_flatten_and_flatten_alt_are_equivalent();
    } else {
        assert(ranked[0] == (order[0].0 as int, order[0].1));
        let one = ranked.take(1);
        assert(one.drop_last() =~= Seq::empty());
        assert(spaced(one.drop_last()) =~= Seq::empty());
        assert(spaced(one) =~= order[0].1 + " "@);
        reveal_strlit(" ");
        reveal_strlit("]");
        reveal_strlit(" ]");
        assert(" ]"@ =~= " "@ + "]"@);
        assert(license_value(found) =~= "with licenses; [ "@ + order[0].1 + " ]"@);
    }
}

/// What is ranked of a list are its scores and attributes, in their places.
pub proof fn law_what_is_ranked(list: Seq<Detected>, i: int)
    requires
        0 <= i < list.len(),
    ensures
        pairs(list).len() == list.len(),
        pairs(list)[i] == (list[i].score, list[i].license@),
{
}

} // verus!
