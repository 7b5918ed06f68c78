//! Shared notions of the game model: countable game resources and builders.
//!
//! A game resource is a kind of piece the standard game ships in a fixed
//! number of copies; a full collection holds every variant that many times,
//! in a random order.

use rand::seq::SliceRandom;
use vstd::prelude::*;

verus! {

/// `n` copies of one value.
pub open spec fn repeat_elem<T>(x: T, n: nat) -> Seq<T>
    decreases n,
{
    if n == 0 {
        Seq::empty()
    } else {
        repeat_elem(x, (n - 1) as nat).push(x)
    }
}

/// The full deck a list of variants denotes: each variant, repeated as many
/// times as `count` says the game ships it.
pub open spec fn deck_of<T>(vs: Seq<T>, count: spec_fn(T) -> usize) -> Seq<T>
    decreases vs.len(),
{
    if vs.len() == 0 {
        Seq::empty()
    } else {
        deck_of(vs.drop_last(), count) + repeat_elem(vs.last(), count(vs.last()) as nat)
    }
}

/// Repetition's length and multiset: `n` copies of `x` and nothing else.
pub proof fn lemma_repeat_elem_multiset<T>(x: T, n: nat, y: T)
    ensures
        repeat_elem(x, n).len() == n,
        repeat_elem(x, n).to_multiset().count(y) == if y == x {
            n
        } else {
            0nat
        },
    decreases n,
{
    broadcast use vstd::seq_lib::group_to_multiset_ensures;
    broadcast use vstd::multiset::group_multiset_axioms;

    if n == 0 {
        assert(repeat_elem(x, n).to_multiset().len() == 0);
        vstd::multiset::axiom_count_le_len(repeat_elem(x, n).to_multiset(), y);
    } else {
        lemma_repeat_elem_multiset(x, (n - 1) as nat, y);
    }
}

/// Relies on rand::seq::SliceRandom::shuffle: the result is a permutation of
/// the input, picked by the thread's generator.
#[verifier::external_body]
fn shuffle_vec<T>(v: &mut Vec<T>)
    ensures
        final(v)@.to_multiset() == old(v)@.to_multiset(),
{
    v.as_mut_slice().shuffle(&mut rand::rng());
}

/// A kind of game piece that the standard game ships in a fixed count per
/// variant.
pub trait GameResource: Sized + Copy {
    /// How many copies of this variant a full game holds.
    spec fn spec_count(self) -> usize;

    /// The variants of this resource, each exactly once.
    spec fn spec_all_variants() -> Seq<Self>;

    /// How many copies of this variant a full game holds.
    fn count(self) -> (r: usize)
        ensures
            r == self.spec_count(),
    ;

    /// Every variant of this resource, each exactly once.
    fn all_variants() -> (r: Vec<Self>)
        ensures
            r@ == Self::spec_all_variants(),
    ;

    /// A full collection — every variant in its shipped count — in a random
    /// order: whatever the order, the same multiset of pieces.
    fn full_shuffled_collection() -> (r: Vec<Self>)
        ensures
            r@.to_multiset() == deck_of(
                Self::spec_all_variants(),
                |x: Self| x.spec_count(),
            ).to_multiset(),
    {
        let variants = Self::all_variants();
        let mut deck: Vec<Self> = Vec::new();
        let n = variants.len();
        proof {
            assert(variants@.take(0) =~= Seq::<Self>::empty());
        }
        let mut i: usize = 0;
        while i < n
            invariant
                n == variants@.len(),
                i <= n,
                variants@ == Self::spec_all_variants(),
                deck@ == deck_of(variants@.take(i as int), |x: Self| x.spec_count()),
            decreases n - i,
        {
            let v = variants[i];
            let c = v.count();
            let mut j: usize = 0;
            while j < c
                invariant
                    j <= c,
                    c == v.spec_count(),
                    deck@ == deck_of(variants@.take(i as int), |x: Self| x.spec_count())
                        + repeat_elem(v, j as nat),
                decreases c - j,
            {
                deck.push(v);
                j = j + 1;
            }
            proof {
                assert(variants@.take(i + 1).drop_last() =~= variants@.take(i as int));
                assert(variants@.take(i + 1).last() == v);
            }
            i = i + 1;
        }
        proof {
            assert(variants@.take(n as int) =~= variants@);
        }
        shuffle_vec(&mut deck);
        deck
    }
}

/// Something that can produce its output from its current settings.
pub trait Builder {
    type Output;

    /// Produces the configured output.
    fn build(&self) -> Self::Output;
}

} // verus!
