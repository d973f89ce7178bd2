//! The random source: one seeded generator from which every colour, every
//! seed location and every sample of a run is drawn, in the order of the
//! attempts.
//!
//! The generator is the `rand` crate's. Nothing in this module is proved:
//! each function states what that crate documents of the call it makes.

use vstd::prelude::*;
use vstd::seq_lib::seq_to_set_is_finite;
use vstd::set_lib::{lemma_int_range, lemma_len_subset, lemma_subset_equality, set_int_range};
use rand::rngs::StdRng;
use rand::seq::IndexedRandom;
use rand::{Rng, SeedableRng};
use crate::color::Color;
use crate::grid::Record;

verus! {

/// `rand::rngs::StdRng`, the generator of a run. Its state is opaque.
#[verifier::external_type_specification]
#[verifier::external_body]
pub struct ExStdRng(StdRng);

/// `sample` holds records of `records` at pairwise different positions, as
/// many as `amount` asks for or, if there are fewer, all of them.
pub open spec fn is_sample_of(sample: Seq<Record>, records: Seq<Record>, amount: nat) -> bool {
    &&& sample.len() == if amount <= records.len() {
        amount
    } else {
        records.len()
    }
    &&& exists|picks: Seq<int>| #[trigger] drawn_at(sample, records, picks)
}

/// `picks` names, for each record of `sample`, the position in `records` that
/// it was taken from, and names no position twice.
pub open spec fn drawn_at(sample: Seq<Record>, records: Seq<Record>, picks: Seq<int>) -> bool {
    &&& picks.len() == sample.len()
    &&& forall|i: int|
        0 <= i < picks.len() ==> 0 <= #[trigger] picks[i] < records.len() && sample[i]
            == records[picks[i]]
    &&& forall|i: int, j: int|
        0 <= i < j < picks.len() ==> #[trigger] picks[i] != #[trigger] picks[j]
}

/// A sample that asks for at least as many records as there are holds every
/// one of them.
pub proof fn lemma_sample_uses_all(sample: Seq<Record>, records: Seq<Record>, amount: nat)
    requires
        is_sample_of(sample, records, amount),
        amount >= records.len(),
    ensures
        sample.len() == records.len(),
        forall|j: int| 0 <= j < records.len() ==> sample.contains(#[trigger] records[j]),
{
    let picks = choose|picks: Seq<int>| #[trigger] drawn_at(sample, records, picks);
    let n = records.len() as int;
    assert(picks.no_duplicates()) by {
        assert forall|i: int, j: int|
            0 <= i < picks.len() && 0 <= j < picks.len() && i != j implies picks[i] != picks[j] by {
            if i < j {
                assert(picks[i] != picks[j]);
            } else {
                assert(picks[j] != picks[i]);
            }
        }
    }
    picks.unique_seq_to_set();
    seq_to_set_is_finite(picks);
    lemma_int_range(0, n);
    assert(picks.to_set().subset_of(set_int_range(0, n))) by {
        assert forall|v: int| picks.to_set().contains(v) implies set_int_range(0, n).contains(
            v,
        ) by {
            let i = choose|i: int| 0 <= i < picks.len() && picks[i] == v;
            assert(0 <= picks[i] < n);
        }
    }
    lemma_len_subset(picks.to_set(), set_int_range(0, n));
    lemma_subset_equality(picks.to_set(), set_int_range(0, n));
    assert forall|j: int| 0 <= j < records.len() implies sample.contains(#[trigger] records[j]) by {
        assert(set_int_range(0, n).contains(j));
        assert(picks.to_set().contains(j));
        let i = choose|i: int| 0 <= i < picks.len() && picks[i] == j;
        assert(sample[i] == records[picks[i]]);
    }
}

/// `StdRng::seed_from_u64`: a generator whose stream is fixed by `seed`.
/// Nothing is claimed of the stream.
#[verifier::external_body]
pub(crate) fn seeded(seed: u64) -> StdRng {
    StdRng::seed_from_u64(seed)
}

/// `Rng::random` for three bytes: the next colour of the stream. Every
/// colour may come.
#[verifier::external_body]
pub(crate) fn draw_color(rng: &mut StdRng) -> Color {
    let [r, g, b]: [u8; 3] = rng.random();
    Color { r, g, b }
}

/// `Rng::random_range` on `0..bound`: the next coordinate of the stream. The
/// call panics on an empty range, which `bound > 0` excludes, and returns a
/// value of the range.
#[verifier::external_body]
pub(crate) fn draw_below(rng: &mut StdRng, bound: usize) -> (v: usize)
    requires
        bound > 0,
    ensures
        v < bound,
{
    rng.random_range(0..bound)
}

/// `IndexedRandom::choose_multiple` on the records: `amount` of them, chosen
/// without repetition and in random order, or all of them where there are
/// fewer. On more records than 32 bits count the call samples by rejection,
/// which asserts that fewer are asked for than there are; `requires` leaves
/// the other case out.
#[verifier::external_body]
pub(crate) fn draw_sample(rng: &mut StdRng, records: &Vec<Record>, amount: usize) -> (sample: Vec<
    Record,
>)
    requires
        records@.len() <= u32::MAX || amount < records@.len(),
    ensures
        is_sample_of(sample@, records@, amount as nat),
{
    records.choose_multiple(rng, amount).copied().collect()
}

} // verus!
