use vstd::prelude::*;

verus! {

/// The characters of each string of a list.
pub open spec fn strs(v: Seq<String>) -> Seq<Seq<char>> {
    v.map_values(|s: String| s@)
}

/// The order in which the seeded shuffle leaves a list of strings. It is
/// fixed within one build; builds for targets of another pointer width may
/// draw other positions from the same seed.
pub uninterp spec fn shuffle_of(seed: Seq<u8>, items: Seq<Seq<char>>) -> Seq<Seq<char>>;

/// Relies on nois::shuffle: a Fisher-Yates pass driven by a generator seeded
/// from `seed` alone, made of swaps, so the result is a permutation of the
/// input that depends on the seed and the input only.
#[verifier::external_body]
fn nois_shuffle(seed: [u8; 32], items: Vec<String>) -> (r: Vec<String>)
    ensures
        strs(r@) == shuffle_of(seed@, strs(items@)),
        strs(r@).to_multiset() == strs(items@).to_multiset(),
        r@.len() == items@.len(),
{
    nois::shuffle(seed, items)
}

/// The seeded shuffle used for every reordering of prizes: the output is a
/// permutation of the input and is fixed by the seed and the input.
pub fn shuffle(seed: [u8; 32], items: Vec<String>) -> (r: Vec<String>)
    ensures
        strs(r@) == shuffle_of(seed@, strs(items@)),
        strs(r@).to_multiset() == strs(items@).to_multiset(),
        r@.len() == items@.len(),
{
    nois_shuffle(seed, items)
}

/// Shuffling is a function of its inputs, and keeps every element: two calls
/// on the same seed and the same list give the same list, holding the same
/// elements as the input, as often.
pub proof fn lemma_shuffle_deterministic_permutation(
    seed: [u8; 32],
    items: Seq<String>,
    r1: Seq<String>,
    r2: Seq<String>,
)
    requires
        strs(r1) == shuffle_of(seed@, strs(items)),
        strs(r2) == shuffle_of(seed@, strs(items)),
        strs(r1).to_multiset() == strs(items).to_multiset(),
    ensures
        strs(r1) == strs(r2),
        strs(r2).to_multiset() == strs(items).to_multiset(),
        r1.len() == items.len(),
{
    vstd::seq_lib::to_multiset_len(strs(r1));
    vstd::seq_lib::to_multiset_len(strs(items));
}

} // verus!
