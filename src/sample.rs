use vstd::prelude::*;

use rand::rngs::StdRng;

use crate::resolve::{has_positive, Resolved};

verus! {

#[verifier::external_type_specification]
#[verifier::external_body]
pub struct ExStdRng(StdRng);

/// The sum of the weights.
pub open spec fn weight_total(w: Seq<u128>) -> int
    decreases w.len(),
{
    if w.len() == 0 {
        0
    } else {
        weight_total(w.drop_last()) + w.last() as int
    }
}

/// Relies on rand's `WeightedIndex::new` and its `Distribution::sample`: on
/// weights that are not all zero and whose sum fits the type, `new` succeeds,
/// and the index drawn (the first whose running sum exceeds a uniform draw in
/// `[0, total)`) lies within the weights and has a positive weight.
#[verifier::external_body]
fn draw_index(weights: &Vec<u128>, rng: &mut StdRng) -> (r: usize)
    requires
        exists|i: int| 0 <= i < weights@.len() && weights@[i] > 0,
        weight_total(weights@) <= u128::MAX,
    ensures
        r < weights@.len(),
        weights@[r as int] > 0,
{
    let dist = rand::distributions::WeightedIndex::new(weights.iter()).unwrap();
    rand::distributions::Distribution::sample(&dist, rng)
}

/// The weights of a table, in order.
pub open spec fn weights_of(t: Seq<(Seq<char>, u128)>) -> Seq<u128> {
    t.map_values(|row: (Seq<char>, u128)| row.1)
}

impl Resolved {
    /// Draws the position of one variant, with probability proportional to its
    /// weight; never one of weight `0`. `None` when no weight is positive or the
    /// weights sum past `u128::MAX`.
    pub fn sample_index(&self, rng: &mut StdRng) -> (r: Option<usize>)
        ensures
            r is None <==> !(has_positive(self.table()) && weight_total(weights_of(self.table()))
                <= u128::MAX),
            r matches Some(i) ==> i < self.table().len() && self.table()[i as int].1 > 0,
    {
        let ghost t = self.table();
        let mut weights: Vec<u128> = Vec::new();
        let mut total: u128 = 0;
        let mut overflow = false;
        let mut positive = false;
        let mut i: usize = 0;
        while i < self.variants.len()
            invariant
                t == self.table(),
                i <= t.len(),
                weights@ == weights_of(t.subrange(0, i as int)),
                overflow ==> weight_total(weights_of(t)) > u128::MAX,
                !overflow ==> total == weight_total(weights@),
                positive == exists|k: int| 0 <= k < i && #[trigger] t[k].1 > 0,
            decreases t.len() - i,
        {
            let w = self.variants[i].weight;
            assert(t[i as int].1 == w);
            let ghost before = weights@;
            weights.push(w);
            assert(weights@ =~= weights_of(t.subrange(0, i + 1)));
            assert(weights@.drop_last() =~= before);
            if w > 0 {
                positive = true;
            }
            if !overflow {
                if total > u128::MAX - w {
                    overflow = true;
                    proof {
                        lemma_total_prefix_le(weights_of(t), i + 1);
                        assert(weights_of(t).subrange(0, i + 1) =~= weights@);
                    }
                } else {
                    total = total + w;
                }
            }
            i = i + 1;
        }
        assert(t.subrange(0, t.len() as int) =~= t);
        if !positive || overflow {
            return None;
        }
        assert(weights@ =~= weights_of(t));
        proof {
            let k = choose|k: int| 0 <= k < t.len() && #[trigger] t[k].1 > 0;
            assert(weights@[k] > 0);
        }
        let r = draw_index(&weights, rng);
        Some(r)
    }
}

proof fn lemma_total_prefix_le(w: Seq<u128>, k: int)
    requires
        0 <= k <= w.len(),
    ensures
        weight_total(w.subrange(0, k)) <= weight_total(w),
    decreases w.len(),
{
    if k == w.len() {
        assert(w.subrange(0, k) =~= w);
    } else {
        assert(w.drop_last().subrange(0, k) =~= w.subrange(0, k));
        lemma_total_prefix_le(w.drop_last(), k);
    }
}

} // verus!
