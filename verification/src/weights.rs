//! The weights by which an axis of the grid is divided.

use vstd::prelude::*;

verus! {

/// Why a weight list cannot serve as a `GridSpec`.
#[derive(Clone, Copy, Debug, PartialEq, Eq, Structural)]
pub enum WeightError {
    /// The list holds no weight at all.
    Empty,
    /// The list holds a weight of zero.
    Zero,
}

/// A weight list that can serve as a grid spec: not empty, every weight positive.
pub open spec fn valid_weights(weights: Seq<u32>) -> bool {
    &&& weights.len() > 0
    &&& forall|i: int| 0 <= i < weights.len() ==> weights[i] > 0
}

/// What is wrong with a weight list, if anything. The empty list is reported
/// as such; otherwise any zero weight is.
pub open spec fn weight_defect(weights: Seq<u32>) -> Option<WeightError> {
    if weights.len() == 0 {
        Some(WeightError::Empty)
    } else if exists|i: int| 0 <= i < weights.len() && weights[i] == 0 {
        Some(WeightError::Zero)
    } else {
        None
    }
}

/// The weights along one axis of the grid.
///
/// A spec of one weight `n` asks for `n` equal parts; a longer one asks for
/// one part per weight, sized in proportion. The weights cannot be changed
/// once the spec is built.
#[derive(Debug)]
pub struct GridSpec {
    weights: Vec<u32>,
}

impl View for GridSpec {
    type V = Seq<u32>;

    closed spec fn view(&self) -> Seq<u32> {
        self.weights@
    }
}

impl GridSpec {
    #[verifier::type_invariant]
    spec fn well_formed(&self) -> bool {
        valid_weights(self.weights@)
    }

    /// Builds a spec from a weight list, or says what is wrong with the list.
    pub fn new(weights: Vec<u32>) -> (result: Result<GridSpec, WeightError>)
        ensures
            match result {
                Ok(spec) => weight_defect(weights@) is None && spec@ == weights@,
                Err(e) => weight_defect(weights@) == Some(e),
            },
    {
        if weights.len() == 0 {
            return Err(WeightError::Empty);
        }
        let mut i: usize = 0;
        while i < weights.len()
            invariant
                i <= weights.len(),
                forall|j: int| 0 <= j < i ==> weights[j] > 0,
            decreases weights.len() - i,
        {
            if weights[i] == 0 {
                return Err(WeightError::Zero);
            }
            i += 1;
        }
        Ok(GridSpec { weights })
    }

    /// The spec of an axis that is not split: the single weight 1.
    pub fn whole() -> (spec: GridSpec)
        ensures
            spec@ == seq![1u32],
    {
        let mut weights: Vec<u32> = Vec::new();
        weights.push(1);
        GridSpec { weights }
    }

    /// The weights, in order.
    pub fn weights(&self) -> (weights: &Vec<u32>)
        ensures
            weights@ == self@,
            valid_weights(self@),
    {
        proof {
            use_type_invariant(self);
        }
        &self.weights
    }
}

/// A valid weight list has no defect, and only a valid one has none.
pub proof fn lemma_defect_iff_invalid(weights: Seq<u32>)
    ensures
        weight_defect(weights) is None <==> valid_weights(weights),
{
}

} // verus!
