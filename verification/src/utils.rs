//! Ordering the counts of file extensions for display: the most frequent
//! first, extensions with the same count in alphabetical order.
use itertools::Itertools;
use std::cmp::Ordering;
use vstd::prelude::*;
use vstd::seq_lib::{to_multiset_contains, to_multiset_remove};

verus! {

/// Whether the text `left` comes before `right`, or is `right`, in the order
/// of std's strings: by the first character in which they differ, a text
/// before every text that it starts.
pub open spec fn text_le(left: Seq<char>, right: Seq<char>) -> bool
    decreases left.len(),
{
    if left.len() == 0 {
        true
    } else if right.len() == 0 {
        false
    } else if left.first() != right.first() {
        (left.first() as u32) < (right.first() as u32)
    } else {
        text_le(left.drop_first(), right.drop_first())
    }
}

/// The order of std's pairs on an extension with its count: by the extension,
/// and by the count where the extensions are the same.
pub open spec fn pair_le(left: (Seq<char>, u32), right: (Seq<char>, u32)) -> bool {
    if left.0 != right.0 {
        text_le(left.0, right.0)
    } else {
        left.1 <= right.1
    }
}

/// Whether `left` may be shown above `right`: it has the higher count, or the
/// same count and an extension that does not come after that of `right`.
pub open spec fn shown_before(left: (Seq<char>, u32), right: (Seq<char>, u32)) -> bool {
    left.1 > right.1 || (left.1 == right.1 && text_le(left.0, right.0))
}

/// Whether `left` is shown above `right` and cannot change places with it: it
/// has the higher count, or the same count and an extension that comes
/// before that of `right`.
pub open spec fn shown_strictly_before(left: (Seq<char>, u32), right: (Seq<char>, u32)) -> bool {
    left.1 > right.1 || (left.1 == right.1 && left.0 != right.0 && text_le(left.0, right.0))
}

/// Whether no extension is counted twice in `counts`, as in counts that were
/// kept by extension.
pub open spec fn has_distinct_extensions(counts: Seq<(Seq<char>, u32)>) -> bool {
    forall|i: int, j: int|
        0 <= i < j < counts.len() ==> (#[trigger] counts[i]).0 != (#[trigger] counts[j]).0
}

/// Whether `counts` ascend in the order of pairs.
pub open spec fn is_alphabetical(counts: Seq<(Seq<char>, u32)>) -> bool {
    forall|i: int, j: int| 0 <= i < j < counts.len() ==> pair_le(counts[i], counts[j])
}

/// Whether `sorted` holds the pairs of `counts` by descending count, pairs
/// with the same count in the order in which `counts` has them.
pub open spec fn is_sorted_by_count(
    counts: Seq<(Seq<char>, u32)>,
    sorted: Seq<(Seq<char>, u32)>,
) -> bool {
    &&& sorted.to_multiset() == counts.to_multiset()
    &&& forall|i: int, j: int| 0 <= i < j < sorted.len() ==> sorted[i].1 >= sorted[j].1
    &&& forall|i: int, j: int|
        0 <= i < j < sorted.len() && sorted[i].1 == sorted[j].1 ==> exists|a: int, b: int|
            0 <= a < b < counts.len() && counts[a] == sorted[i] && counts[b] == sorted[j]
}

/// `Itertools::sorted` of itertools collects the pairs and sorts them with
/// std's `sort`: the same pairs come back, ascending in the order of pairs.
#[verifier::external_body]
fn sorted_by_extension(counts: &Vec<(String, u32)>) -> (sorted: Vec<(String, u32)>)
    ensures
        sorted.deep_view().to_multiset() == counts.deep_view().to_multiset(),
        is_alphabetical(sorted.deep_view()),
{
    counts.iter().cloned().sorted().collect()
}

/// How two counted extensions compare for display: the one with the higher
/// count is the lesser, so that it comes first.
pub fn by_count_descending(left: &(String, u32), right: &(String, u32)) -> (order: Ordering)
    ensures
        order is Less <==> left.1 > right.1,
        order is Equal <==> left.1 == right.1,
        order is Greater <==> left.1 < right.1,
{
    if left.1 > right.1 {
        Ordering::Less
    } else if left.1 == right.1 {
        Ordering::Equal
    } else {
        Ordering::Greater
    }
}

/// `sort_by` of std's slices is stable. With [`by_count_descending`] it
/// orders the pairs by descending count and leaves pairs with the same count
/// in the order they had.
#[verifier::external_body]
fn sort_by_count(counts: &mut Vec<(String, u32)>)
    ensures
        is_sorted_by_count(old(counts).deep_view(), final(counts).deep_view()),
{
    counts.sort_by(|left, right| by_count_descending(left, right));
}

/// Every text comes before or is itself.
pub proof fn lemma_text_le_reflexive(text: Seq<char>)
    ensures
        text_le(text, text),
    decreases text.len(),
{
    if text.len() > 0 {
        lemma_text_le_reflexive(text.drop_first());
    }
}

/// A pair that stands at two places of `counts` is there at least twice.
pub proof fn lemma_two_places(counts: Seq<(Seq<char>, u32)>, first: int, second: int)
    requires
        0 <= first < second < counts.len(),
        counts[first] == counts[second],
    ensures
        counts.to_multiset().count(counts[first]) >= 2,
{
    let rest = counts.remove(second);
    to_multiset_remove(counts, second);
    assert(rest[first] == counts[first]);
    assert(rest.contains(counts[first]));
    to_multiset_contains(rest, counts[first]);
}

/// A pair that is in `counts` at least twice stands at two places of it.
pub proof fn lemma_twice_is_two_places(counts: Seq<(Seq<char>, u32)>, pair: (Seq<char>, u32))
    requires
        counts.to_multiset().count(pair) >= 2,
    ensures
        exists|first: int, second: int|
            0 <= first < second < counts.len() && counts[first] == pair && counts[second] == pair,
{
    to_multiset_contains(counts, pair);
    let one = choose|one: int| 0 <= one < counts.len() && counts[one] == pair;
    let rest = counts.remove(one);
    to_multiset_remove(counts, one);
    to_multiset_contains(rest, pair);
    let place = choose|place: int| 0 <= place < rest.len() && rest[place] == pair;
    if place < one {
        assert(counts[place] == pair);
    } else {
        assert(counts[place + 1] == pair);
    }
}

/// Counts that hold no extension twice hold none twice in any other order.
pub proof fn lemma_extensions_stay_distinct(
    counts: Seq<(Seq<char>, u32)>,
    sorted: Seq<(Seq<char>, u32)>,
)
    requires
        has_distinct_extensions(counts),
        sorted.to_multiset() == counts.to_multiset(),
    ensures
        has_distinct_extensions(sorted),
{
    assert forall|i: int, j: int| 0 <= i < j < sorted.len() implies (#[trigger] sorted[i]).0 != (
    #[trigger] sorted[j]).0 by {
        if sorted[i].0 == sorted[j].0 {
            if sorted[i] == sorted[j] {
                lemma_two_places(sorted, i, j);
                lemma_twice_is_two_places(counts, sorted[i]);
                let (first, second) = choose|first: int, second: int|
                    0 <= first < second < counts.len() && counts[first] == sorted[i]
                        && counts[second] == sorted[i];
                assert(counts[first].0 == counts[second].0);
            } else {
                assert(sorted.contains(sorted[i]));
                assert(sorted.contains(sorted[j]));
                to_multiset_contains(sorted, sorted[i]);
                to_multiset_contains(sorted, sorted[j]);
                to_multiset_contains(counts, sorted[i]);
                to_multiset_contains(counts, sorted[j]);
                let first = choose|first: int|
                    0 <= first < counts.len() && counts[first] == sorted[i];
                let second = choose|second: int|
                    0 <= second < counts.len() && counts[second] == sorted[j];
                if first < second {
                    assert(counts[first].0 == counts[second].0);
                } else {
                    assert(counts[second].0 == counts[first].0);
                }
            }
        }
    }
}

/// Sort the counts of file extensions from most to least occurrences, so that
/// the most numerous file types come first; extensions with the same count
/// come in alphabetical order. Where no extension is counted twice, that
/// fixes the place of every count.
pub fn sort_counts(extension_counts: &Vec<(String, u32)>) -> (sorted_extensions: Vec<
    (String, u32),
>)
    ensures
        sorted_extensions.deep_view().to_multiset() == extension_counts.deep_view().to_multiset(),
        forall|i: int, j: int|
            0 <= i < j < sorted_extensions.len() ==> shown_before(
                #[trigger] sorted_extensions.deep_view()[i],
                #[trigger] sorted_extensions.deep_view()[j],
            ),
        has_distinct_extensions(extension_counts.deep_view()) ==> forall|i: int, j: int|
            0 <= i < j < sorted_extensions.len() ==> shown_strictly_before(
                #[trigger] sorted_extensions.deep_view()[i],
                #[trigger] sorted_extensions.deep_view()[j],
            ),
{
    let mut sorted_extensions = sorted_by_extension(extension_counts);
    let ghost alphabetical = sorted_extensions.deep_view();
    sort_by_count(&mut sorted_extensions);
    proof {
        let sorted = sorted_extensions.deep_view();
        assert forall|i: int, j: int| 0 <= i < j < sorted.len() implies shown_before(
            #[trigger] sorted[i],
            #[trigger] sorted[j],
        ) by {
            if sorted[i].1 == sorted[j].1 {
                let (a, b) = choose|a: int, b: int|
                    0 <= a < b < alphabetical.len() && alphabetical[a] == sorted[i]
                        && alphabetical[b] == sorted[j];
                assert(pair_le(alphabetical[a], alphabetical[b]));
                lemma_text_le_reflexive(sorted[i].0);
            }
        }
        if has_distinct_extensions(extension_counts.deep_view()) {
            lemma_extensions_stay_distinct(extension_counts.deep_view(), sorted);
        }
    }
    sorted_extensions
}

} // verus!
