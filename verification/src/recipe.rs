use vstd::prelude::*;

use crate::enums::ProducerType;
use crate::material::Material;
use crate::ratio::Ratio;

verus! {

/// How a composite material is produced: the machine class that crafts it,
/// the ordered list of (input material, quantity per batch) pairs, the craft
/// time per batch and the batch size. A raw material carries the degenerate
/// recipe with no inputs.
#[derive(Debug, Hash, PartialEq, Eq)]
pub struct Recipe {
    pub producer_type: Option<ProducerType>,
    pub items: Vec<(Material, Ratio)>,
    pub time: Ratio,
    pub amount: Ratio,
}

impl Recipe {
    pub fn new(
        producer_type: Option<ProducerType>,
        items: Vec<(Material, Ratio)>,
        time: Ratio,
        amount: Ratio,
    ) -> (r: Recipe)
        ensures
            r == (Recipe { producer_type, items, time, amount }),
    {
        Recipe { producer_type, items, time, amount }
    }
}

} // verus!
