//! Counting how often each word occurs, and picking the most frequent words.
//!
//! Where several words occur equally often, any of them may stand before the
//! others, and any of them may be the last that is picked: the contracts
//! leave that open.

use crate::store::KeyedStore;
use crate::text::string_views;
use vstd::prelude::*;

verus! {

/// How often `word` stands in `words`.
pub open spec fn occurrences(words: Seq<Seq<char>>, word: Seq<char>) -> nat
    decreases words.len(),
{
    if words.len() == 0 {
        0
    } else {
        occurrences(words.drop_last(), word) + if words.last() == word {
            1nat
        } else {
            0nat
        }
    }
}

/// A word occurs at most as often as there are words, and at least once
/// where it is one of them.
pub proof fn lemma_occurrences(words: Seq<Seq<char>>, word: Seq<char>)
    ensures
        occurrences(words, word) <= words.len(),
        words.contains(word) <==> occurrences(words, word) > 0,
    decreases words.len(),
{
    if words.len() > 0 {
        lemma_occurrences(words.drop_last(), word);
        if words.contains(word) {
            let i = choose|i: int| 0 <= i < words.len() && words[i] == word;
            if i < words.len() - 1 {
                assert(words.drop_last()[i] == word);
            }
        }
        if words.drop_last().contains(word) {
            let i = choose|i: int| 0 <= i < words.drop_last().len() && words.drop_last()[i] == word;
            assert(words[i] == word);
        }
        if words.last() == word {
            assert(words[words.len() - 1] == word);
        }
    }
}

/// The count of each word that stands in `words`.
pub open spec fn tally_of(words: Seq<Seq<char>>) -> Map<Seq<char>, usize> {
    Map::new(|word: Seq<char>| words.contains(word), |word: Seq<char>| occurrences(words, word) as usize)
}

/// Counts how often each word occurs.
pub fn tally(words: &Vec<String>) -> (counts: KeyedStore<usize>)
    ensures
        counts.well_formed(),
        counts@ == tally_of(string_views(words@)),
{
    let mut counts: KeyedStore<usize> = KeyedStore::new();
    let mut i: usize = 0;
    assert(counts@ =~= tally_of(string_views(words@).take(0)));
    while i < words.len()
        invariant
            i <= words@.len(),
            counts.well_formed(),
            counts@ == tally_of(string_views(words@).take(i as int)),
        decreases words@.len() - i,
    {
        let word = words[i].as_str();
        let ghost before = string_views(words@).take(i as int);
        let ghost after = string_views(words@).take(i + 1);
        proof {
            assert(after.drop_last() =~= before);
            assert(after.last() == word@);
            lemma_occurrences(before, word@);
            assert forall|w: Seq<char>| after.contains(w) <==> (before.contains(w) || w == word@) by {
                lemma_occurrences(before, w);
                lemma_occurrences(after, w);
            }
        }
        let seen: usize = match counts.get(word) {
            Some(count) => *count,
            None => 0,
        };
        let _ = counts.insert(word, seen + 1);
        assert(counts@ =~= tally_of(after));
        i = i + 1;
    }
    assert(string_views(words@).take(i as int) =~= string_views(words@));
    counts
}

/// Whether `names` are `most` of the most frequent words of `counts`, the
/// most frequent first: different words that `counts` knows, none more
/// frequent than the one before it, none less frequent than a word that was
/// left out, and as many as asked for unless there are fewer words.
pub open spec fn is_ranking(names: Seq<Seq<char>>, counts: Map<Seq<char>, usize>, most: nat) -> bool {
    &&& names.no_duplicates()
    &&& forall|i: int| 0 <= i < names.len() ==> counts.contains_key(#[trigger] names[i])
    &&& forall|i: int, j: int| 0 <= i <= j < names.len() ==> counts[names[i]] >= counts[names[j]]
    &&& forall|i: int, other: Seq<char>|
        #![trigger names[i], counts.contains_key(other)]
        0 <= i < names.len() && counts.contains_key(other) && !names.contains(other) ==> counts[other]
            <= counts[names[i]]
    &&& names.len() <= most
    &&& names.len() < most ==> forall|other: Seq<char>| #[trigger]
        counts.contains_key(other) ==> names.contains(other)
}

/// The `most` most frequent words of `counts`, the most frequent first,
/// with their counts.
pub fn top(counts: &KeyedStore<usize>, most: usize) -> (ranked: Vec<(String, usize)>)
    requires
        counts.well_formed(),
    ensures
        is_ranking(names_of(ranked@), counts@, most as nat),
        forall|i: int| 0 <= i < ranked@.len() ==> counts@[names_of(ranked@)[i]] == (#[trigger] ranked@[i]).1,
{
    let n = counts.len();
    let mut taken: Vec<bool> = Vec::new();
    let mut i: usize = 0;
    while i < n
        invariant
            i <= n,
            taken@.len() == i,
            forall|j: int| 0 <= j < i ==> !taken@[j],
        decreases n - i,
    {
        taken.push(false);
        i = i + 1;
    }
    let mut ranked: Vec<(String, usize)> = Vec::new();
    let ghost mut picks: Seq<int> = Seq::empty();
    proof {
        counts.lemma_slots_are_the_map();
        assert(names_of(ranked@) =~= Seq::<Seq<char>>::empty());
    }
    while ranked.len() < most && ranked.len() < n
        invariant
            n == counts.keys().len(),
            n == counts.values().len(),
            counts.well_formed(),
            taken@.len() == n,
            picks.len() == ranked@.len(),
            ranked@.len() <= most,
            ranked@.len() <= n,
            picks.no_duplicates(),
            forall|r: int| 0 <= r < picks.len() ==> 0 <= #[trigger] picks[r] < n && taken@[picks[r]],
            forall|j: int| 0 <= j < n && #[trigger] taken@[j] ==> picks.contains(j),
            forall|r: int|
                0 <= r < picks.len() ==> (#[trigger] ranked@[r]).0@ == counts.keys()[picks[r]] && ranked@[r].1
                    == counts.values()[picks[r]],
            forall|r: int, s: int|
                0 <= r <= s < picks.len() ==> counts.values()[picks[r]] >= counts.values()[picks[s]],
            forall|r: int, j: int|
                #![trigger picks[r], taken@[j]]
                0 <= r < picks.len() && 0 <= j < n && !taken@[j] ==> counts.values()[j]
                    <= counts.values()[picks[r]],
        decreases n - ranked@.len(),
    {
        // the first slot that is not taken
        let mut best: usize = 0;
        proof {
            lemma_all_taken(picks, n as int);
            let free = choose|j: int| 0 <= j < n && !picks.contains(j);
            assert(!taken@[free]);
        }
        while best < n && taken[best]
            invariant
                best <= n,
                taken@.len() == n,
                forall|j: int| 0 <= j < best ==> taken@[j],
                exists|j: int| 0 <= j < n && !taken@[j],
            decreases n - best,
        {
            best = best + 1;
        }
        let mut j: usize = best + 1;
        while j < n
            invariant
                best < j <= n,
                taken@.len() == n,
                n == counts.keys().len(),
                n == counts.values().len(),
                !taken@[best as int],
                forall|k: int|
                    0 <= k < j && !taken@[k] ==> counts.values()[k] <= counts.values()[best as int],
            decreases n - j,
        {
            if !taken[j] && *counts.value_at(j) > *counts.value_at(best) {
                best = j;
            }
            j = j + 1;
        }
        let ghost before = ranked@;
        let ghost old_taken = taken@;
        ranked.push((counts.key_at(best).to_owned(), *counts.value_at(best)));
        taken.set(best, true);
        proof {
            let old_picks = picks;
            picks = picks.push(best as int);
            assert(!old_picks.contains(best as int));
            assert forall|k: int| 0 <= k < n && #[trigger] taken@[k] implies picks.contains(k) by {
                if k == best {
                    assert(picks[picks.len() - 1] == k);
                } else {
                    assert(old_taken[k]);
                    let r = choose|r: int| 0 <= r < old_picks.len() && old_picks[r] == k;
                    assert(picks[r] == k);
                }
            }
            assert forall|r: int, s: int| 0 <= r <= s < picks.len() implies counts.values()[picks[r]]
                >= counts.values()[picks[s]] by {
                if s == picks.len() - 1 && r < s {
                    assert(!old_taken[best as int]);
                    assert(counts.values()[best as int] <= counts.values()[old_picks[r]]);
                }
            }
        }
    }
    proof {
        let names = names_of(ranked@);
        assert forall|r: int| 0 <= r < names.len() implies names[r] == counts.keys()[picks[r]] by {}
        assert forall|r: int, s: int| 0 <= r < s < names.len() implies names[r] != names[s] by {
            assert(picks[r] != picks[s]);
            assert(counts.position_of(counts.keys()[picks[r]]) == Some(picks[r]));
            assert(counts.position_of(counts.keys()[picks[s]]) == Some(picks[s]));
        }
        assert forall|r: int| 0 <= r < names.len() implies counts@.contains_key(#[trigger] names[r])
            && counts@[names[r]] == counts.values()[picks[r]] by {}
        assert forall|r: int, other: Seq<char>|
            #![trigger names[r], counts@.contains_key(other)]
            0 <= r < names.len() && counts@.contains_key(other) && !names.contains(other) implies counts@[other]
            <= counts@[names[r]] by {
            let j = counts.position_of(other).unwrap();
            if taken@[j] {
                let s = choose|s: int| 0 <= s < picks.len() && picks[s] == j;
                assert(names[s] == other);
            }
        }
        if names.len() < most {
            assert forall|other: Seq<char>| #[trigger] counts@.contains_key(other) implies names.contains(
                other,
            ) by {
                lemma_all_picked(picks, n as int);
                let j = counts.position_of(other).unwrap();
                assert(picks.contains(j));
                let s = choose|s: int| 0 <= s < picks.len() && picks[s] == j;
                assert(names[s] == other);
            }
        }
    }
    ranked
}

/// The words of a ranking without their counts.
pub open spec fn names_of(ranked: Seq<(String, usize)>) -> Seq<Seq<char>> {
    Seq::new(ranked.len(), |i: int| ranked[i].0@)
}

/// Fewer than `n` different picks below `n` leave one number unpicked.
proof fn lemma_all_taken(picks: Seq<int>, n: int)
    requires
        picks.no_duplicates(),
        picks.len() < n,
        forall|r: int| 0 <= r < picks.len() ==> 0 <= #[trigger] picks[r] < n,
    ensures
        exists|j: int| 0 <= j < n && !picks.contains(j),
{
    if forall|j: int| 0 <= j < n ==> picks.contains(j) {
        lemma_all_taken_of(picks, n);
    }
}

/// With `n` different picks below `n` every number below `n` is picked.
proof fn lemma_all_picked(picks: Seq<int>, n: int)
    requires
        picks.no_duplicates(),
        picks.len() == n,
        forall|r: int| 0 <= r < picks.len() ==> 0 <= #[trigger] picks[r] < n,
    ensures
        forall|j: int| 0 <= j < n ==> picks.contains(j),
{
    let all = vstd::set_lib::set_int_range(0, n);
    vstd::set_lib::lemma_int_range(0, n);
    picks.unique_seq_to_set();
    vstd::seq_lib::seq_to_set_is_finite(picks);
    assert(picks.to_set().subset_of(all)) by {
        assert forall|j: int| picks.to_set().contains(j) implies all.contains(j) by {
            let r = choose|r: int| 0 <= r < picks.len() && picks[r] == j;
        }
    }
    vstd::set_lib::lemma_subset_equality(picks.to_set(), all);
    assert forall|j: int| 0 <= j < n implies picks.contains(j) by {
        assert(all.contains(j));
        assert(picks.to_set().contains(j));
    }
}

/// Different picks below `n` that leave no number unpicked are `n` picks.
proof fn lemma_all_taken_of(picks: Seq<int>, n: int)
    requires
        picks.no_duplicates(),
        0 <= n,
        forall|r: int| 0 <= r < picks.len() ==> 0 <= #[trigger] picks[r] < n,
        forall|j: int| 0 <= j < n ==> picks.contains(j),
    ensures
        picks.len() == n,
{
    let all = Set::new(|j: int| 0 <= j < n);
    assert(picks.to_set() =~= all);
    picks.unique_seq_to_set();
    vstd::set_lib::lemma_int_range(0, n);
    assert(all =~= vstd::set_lib::set_int_range(0, n));
}

} // verus!
