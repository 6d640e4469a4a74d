//! First occurrences in a sequence: the facts that tie a linear search to
//! `Seq::index_of_first`.

use vstd::prelude::*;

verus! {

/// A position that holds `needle`, with no earlier position holding it, is the first
/// occurrence.
pub proof fn lemma_first_occurrence<A>(s: Seq<A>, needle: A, index: int)
    requires
        0 <= index < s.len(),
        s[index] == needle,
        forall|j: int| 0 <= j < index ==> s[j] != needle,
    ensures
        s.index_of_first(needle) == Some(index),
{
    s.index_of_first_ensures(needle);
    assert(s.contains(needle));
}

/// A sequence that holds `needle` nowhere has no first occurrence of it.
pub proof fn lemma_no_occurrence<A>(s: Seq<A>, needle: A)
    requires
        forall|j: int| 0 <= j < s.len() ==> s[j] != needle,
    ensures
        s.index_of_first(needle) is None,
{
    s.index_of_first_ensures(needle);
}

/// What `index_of_first` gives: the least position that holds `needle`, or nothing when no
/// position holds it.
pub proof fn lemma_index_of_first<A>(s: Seq<A>, needle: A)
    ensures
        match s.index_of_first(needle) {
            Some(index) => {
                &&& 0 <= index < s.len()
                &&& s[index] == needle
                &&& forall|j: int| 0 <= j < index ==> s[j] != needle
            },
            None => forall|j: int| 0 <= j < s.len() ==> s[j] != needle,
        },
{
    s.index_of_first_ensures(needle);
}

/// Keeping the members that satisfy `pred` changes nothing when all of them do.
pub proof fn lemma_filter_all<A>(s: Seq<A>, pred: spec_fn(A) -> bool)
    requires
        forall|i: int| 0 <= i < s.len() ==> pred(s[i]),
    ensures
        s.filter(pred) == s,
    decreases s.len(),
{
    reveal(Seq::filter);
    if s.len() > 0 {
        lemma_filter_all(s.drop_last(), pred);
        assert(s.drop_last().push(s.last()) == s);
    }
}

/// Filtering twice by one predicate is filtering once.
pub proof fn lemma_filter_idempotent<A>(s: Seq<A>, pred: spec_fn(A) -> bool)
    ensures
        s.filter(pred).filter(pred) == s.filter(pred),
{
    let once = s.filter(pred);
    assert forall|i: int| 0 <= i < once.len() implies pred(once[i]) by {
        s.lemma_filter_pred(pred, i);
    }
    lemma_filter_all(once, pred);
}

/// Keeping some members of a sequence whose members differ in a key leaves a sequence
/// whose members differ in that key.
pub proof fn lemma_filter_keeps_keys_distinct<A, K>(
    s: Seq<A>,
    key: spec_fn(A) -> K,
    pred: spec_fn(A) -> bool,
)
    requires
        s.map_values(key).no_duplicates(),
    ensures
        s.filter(pred).map_values(key).no_duplicates(),
    decreases s.len(),
{
    reveal(Seq::filter);
    if s.len() > 0 {
        let rest = s.drop_last();
        let last = s.last();
        assert forall|i: int, j: int|
            0 <= i < rest.len() && 0 <= j < rest.len() && i != j implies rest.map_values(key)[i]
            != rest.map_values(key)[j] by {
            assert(s.map_values(key)[i] != s.map_values(key)[j]);
        }
        lemma_filter_keeps_keys_distinct(rest, key, pred);
        let kept = rest.filter(pred);
        if pred(last) {
            assert forall|i: int| 0 <= i < kept.len() implies key(kept[i]) != key(last) by {
                assert(kept.contains(kept[i]));
                rest.lemma_filter_contains_rev(pred, kept[i]);
                let k = choose|k: int| 0 <= k < rest.len() && rest[k] == kept[i];
                assert(s.map_values(key)[k] != s.map_values(key)[s.len() - 1]);
            }
            let all = kept.push(last).map_values(key);
            assert forall|i: int, j: int|
                0 <= i < all.len() && 0 <= j < all.len() && i != j implies all[i] != all[j] by {
                if i < kept.len() && j < kept.len() {
                    assert(kept.map_values(key)[i] != kept.map_values(key)[j]);
                }
            }
        }
    }
}

} // verus!
