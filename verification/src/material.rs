use vstd::prelude::*;

use crate::enums::{AssemblingMachineLevel, FurnaceLevel, ProducerType};
use crate::errors::ResolveError;
use crate::ratio::{div_ok, div_rat, rat_int, rat_one, spec_gcd, wf_rat, Rat, Ratio};
use crate::user_settings::UserSettings;
use crate::recipe::Recipe;
use crate::total_raw_result::{
    find_entry, lemma_merge_producers_insert, lemma_merge_raw_insert, lemma_producers_map_contains,
    lemma_producers_map_index, lemma_producers_map_take_step, lemma_producers_map_update,
    lemma_raw_map_contains, lemma_raw_map_index, lemma_raw_map_take_step, lemma_raw_map_update,
    merge_producers, merge_producers_ok, merge_raw, merge_raw_ok, producers_lookup,
    producers_map_of, raw_lookup, raw_map_of, scaled_add_ok, wf_producers_entries,
    wf_raw_entries, TotalRawResult,
};

verus! {

/// A node of the recipe graph: a named material together with the recipe
/// that produces it. A material with no recipe inputs is raw.
///
/// Identity is structural: two materials are the same exactly when their
/// names and their full recipe subtrees agree, so quantities contributed for
/// the same logical material through different paths of the graph merge.
#[derive(Debug, Hash, PartialEq, Eq)]
pub struct Material {
    pub name: String,
    pub recipe: Recipe,
}

/// The mathematical shape of a material: its name and recipe subtree with
/// all fractions read as rational values.
#[verifier::ext_equal]
pub struct MaterialModel {
    pub name: Seq<char>,
    pub producer_type: Option<ProducerType>,
    pub items: Seq<(MaterialModel, Rat)>,
    pub time: Rat,
    pub amount: Rat,
}

impl MaterialModel {
    pub open spec fn is_raw(self) -> bool {
        self.items.len() == 0
    }
}

/// Structural well-formedness of a material subtree: every fraction is a
/// reduced non-negative ratio, batch sizes and input quantities are
/// positive, and every composite node names its producer.
pub open spec fn wf_model(m: MaterialModel) -> bool
    decreases m,
{
    &&& wf_rat(m.time)
    &&& wf_rat(m.amount)
    &&& m.amount.num > 0
    &&& (!m.is_raw() ==> m.producer_type is Some)
    &&& forall|i: int|
        0 <= i < m.items.len() ==> {
            &&& wf_model(#[trigger] m.items[i].0)
            &&& wf_rat(m.items[i].1)
            &&& m.items[i].1.num > 0
        }
}

impl Material {
    /// The model of a list of recipe inputs.
    pub open spec fn items_model(items: Seq<(Material, Ratio)>) -> Seq<(MaterialModel, Rat)>
        decreases items,
    {
        if items.len() == 0 {
            Seq::empty()
        } else {
            Self::items_model(items.drop_last()).push(
                (items.last().0.model(), items.last().1@),
            )
        }
    }

    /// The structural model of this material.
    pub open spec fn model(self) -> MaterialModel
        decreases self,
    {
        MaterialModel {
            name: self.name@,
            producer_type: self.recipe.producer_type,
            items: Self::items_model(self.recipe.items@),
            time: self.recipe.time@,
            amount: self.recipe.amount@,
        }
    }

    pub open spec fn wf(self) -> bool {
        wf_model(self.model())
    }
}

/// The model of an input list is the pointwise model of its entries.
pub proof fn lemma_items_model(items: Seq<(Material, Ratio)>)
    ensures
        Material::items_model(items).len() == items.len(),
        forall|i: int|
            0 <= i < items.len() ==> #[trigger] Material::items_model(items)[i] == (
                items[i].0.model(),
                items[i].1@,
            ),
    decreases items.len(),
{
    if items.len() > 0 {
        lemma_items_model(items.drop_last());
    }
}

impl Material {
    /// A raw material: a graph leaf with no recipe inputs.
    pub fn raw(name: &str) -> (r: Material)
        ensures
            r.model() == (MaterialModel {
                name: name@,
                producer_type: None,
                items: Seq::<(MaterialModel, Rat)>::empty(),
                time: Rat { num: 0, den: 1 },
                amount: Rat { num: 1, den: 1 },
            }),
            r.wf(),
    {
        let m = Material {
            name: name.to_owned(),
            recipe: Recipe::new(None, Vec::new(), Ratio::new(0, 1), Ratio::from_int(1)),
        };
        proof {
            crate::ratio::lemma_gcd_one(0);
            assert(m.model() =~~= MaterialModel {
                name: name@,
                producer_type: None,
                items: Seq::<(MaterialModel, Rat)>::empty(),
                time: Rat { num: 0, den: 1 },
                amount: Rat { num: 1, den: 1 },
            });
        }
        m
    }

    /// A composite material produced by `recipe`.
    pub fn non_raw(name: &str, recipe: Recipe) -> (r: Material)
        ensures
            r.name@ == name@,
            r.recipe == recipe,
            r.model() == (MaterialModel {
                name: name@,
                producer_type: recipe.producer_type,
                items: Self::items_model(recipe.items@),
                time: recipe.time@,
                amount: recipe.amount@,
            }),
    {
        let m = Material { name: name.to_owned(), recipe };
        proof {
            assert(m.model() =~~= MaterialModel {
                name: name@,
                producer_type: m.recipe.producer_type,
                items: Self::items_model(m.recipe.items@),
                time: m.recipe.time@,
                amount: m.recipe.amount@,
            });
        }
        m
    }

    /// Whether this material is a raw resource (no recipe inputs).
    pub fn is_raw(&self) -> (r: bool)
        ensures
            r == self.model().is_raw(),
    {
        proof {
            lemma_items_model(self.recipe.items@);
        }
        self.recipe.items.len() == 0
    }

    /// Structural equality: same name and structurally equal recipe
    /// subtrees.
    pub fn is_same(&self, other: &Material) -> (r: bool)
        ensures
            r == (self.model() == other.model()),
        decreases *self,
    {
        proof {
            lemma_items_model(self.recipe.items@);
            lemma_items_model(other.recipe.items@);
        }
        if self.name != other.name {
            return false;
        }
        let pt_same = match (self.recipe.producer_type, other.recipe.producer_type) {
            (None, None) => true,
            (Some(a), Some(b)) => a == b,
            _ => false,
        };
        if !pt_same {
            return false;
        }
        if self.recipe.time != other.recipe.time {
            return false;
        }
        if self.recipe.amount != other.recipe.amount {
            return false;
        }
        let n = self.recipe.items.len();
        if other.recipe.items.len() != n {
            return false;
        }
        let mut i: usize = 0;
        while i < n
            invariant
                0 <= i <= n,
                n == self.recipe.items@.len(),
                n == other.recipe.items@.len(),
                forall|j: int|
                    0 <= j < i ==> #[trigger] Material::items_model(self.recipe.items@)[j]
                        == Material::items_model(other.recipe.items@)[j],
            decreases n - i,
        {
            proof {
                lemma_items_model(self.recipe.items@);
                lemma_items_model(other.recipe.items@);
            }
            let (ref ma, qa) = self.recipe.items[i];
            let (ref mb, qb) = other.recipe.items[i];
            proof {
                if self.model() == other.model() {
                    assert(Material::items_model(self.recipe.items@)[i as int]
                        == Material::items_model(other.recipe.items@)[i as int]);
                }
            }
            if qa != qb {
                return false;
            }
            if !ma.is_same(mb) {
                return false;
            }
            i += 1;
        }
        proof {
            lemma_items_model(self.recipe.items@);
            lemma_items_model(other.recipe.items@);
            assert(Material::items_model(self.recipe.items@) =~= Material::items_model(
                other.recipe.items@,
            ));
            assert(self.model() =~~= other.model());
        }
        true
    }
}

/// The production modifier selected by the technology tiers for one
/// producer class: Stone and Steel furnaces run at 1 and 2; assembling
/// machines one, two and three run at 1/2, 3/4 and 5/4; every other
/// producer runs at 1.
pub open spec fn spec_modifier(
    assembling_machine_level: AssemblingMachineLevel,
    furnace_level: FurnaceLevel,
    producer_type: Option<ProducerType>,
) -> Rat {
    match producer_type {
        Some(ProducerType::Furnace) => match furnace_level {
            FurnaceLevel::Stone => rat_int(1),
            FurnaceLevel::Steel => rat_int(2),
        },
        Some(ProducerType::AssemblingMachine) => match assembling_machine_level {
            AssemblingMachineLevel::One => Rat { num: 1, den: 2 },
            AssemblingMachineLevel::Two => Rat { num: 3, den: 4 },
            AssemblingMachineLevel::Three => Rat { num: 5, den: 4 },
        },
        _ => rat_int(1),
    }
}

/// The mathematical outcome of one resolution: producer counts and raw
/// totals per unit of output rate.
#[verifier::ext_equal]
pub struct ResultModel {
    pub producers: Map<MaterialModel, (ProducerType, Rat)>,
    pub total_raw: Map<MaterialModel, Rat>,
}

/// Resolution of a list of recipe inputs, merged left to right: each input
/// is resolved on its own and folded into the accumulator scaled by
/// `quantity / amount`. `None` marks a `u64` overflow of the exact
/// arithmetic.
pub open spec fn spec_resolve_items(
    items: Seq<(MaterialModel, Rat)>,
    assembling_machine_level: AssemblingMachineLevel,
    furnace_level: FurnaceLevel,
    amount: Rat,
) -> Option<ResultModel>
    decreases items,
{
    if items.len() == 0 {
        Some(ResultModel { producers: Map::empty(), total_raw: Map::empty() })
    } else {
        match spec_resolve_items(items.drop_last(), assembling_machine_level, furnace_level, amount) {
            None => None,
            Some(acc) => {
                let im = items.last().0;
                let q = items.last().1;
                match spec_resolve(im, assembling_machine_level, furnace_level) {
                    None => None,
                    Some(child) => if !div_ok(q, amount) {
                        None
                    } else {
                        let scale = div_rat(q, amount);
                        if !merge_producers_ok(acc.producers, child.producers, scale) {
                            None
                        } else if !merge_raw_ok(acc.total_raw, child.total_raw, scale) {
                            None
                        } else {
                            Some(ResultModel {
                                producers: merge_producers(acc.producers, child.producers, scale),
                                total_raw: merge_raw(acc.total_raw, child.total_raw, scale),
                            })
                        }
                    },
                }
            },
        }
    }
}

/// Resolution of one material: a raw material consumes one unit of itself;
/// a composite material aggregates its resolved inputs and adds its own
/// producer at `time / modifier / amount` machines per unit of output
/// rate. `None` marks a `u64` overflow of the exact arithmetic.
pub open spec fn spec_resolve(
    m: MaterialModel,
    assembling_machine_level: AssemblingMachineLevel,
    furnace_level: FurnaceLevel,
) -> Option<ResultModel>
    decreases m,
{
    if m.is_raw() {
        Some(ResultModel {
            producers: Map::empty(),
            total_raw: Map::<MaterialModel, Rat>::empty().insert(m, rat_one()),
        })
    } else {
        match spec_resolve_items(m.items, assembling_machine_level, furnace_level, m.amount) {
            None => None,
            Some(acc) => {
                let modifier = spec_modifier(assembling_machine_level, furnace_level, m.producer_type);
                if !div_ok(m.time, modifier) {
                    None
                } else {
                    let time_per_item = div_rat(m.time, modifier);
                    if !div_ok(time_per_item, m.amount) {
                        None
                    } else {
                        Some(ResultModel {
                            producers: acc.producers.insert(
                                m,
                                (m.producer_type->0, div_rat(time_per_item, m.amount)),
                            ),
                            total_raw: acc.total_raw,
                        })
                    }
                }
            },
        }
    }
}

/// A failed prefix makes the whole input list fail.
pub proof fn lemma_resolve_items_prefix_none(
    items: Seq<(MaterialModel, Rat)>,
    assembling_machine_level: AssemblingMachineLevel,
    furnace_level: FurnaceLevel,
    amount: Rat,
    j: int,
)
    requires
        0 <= j <= items.len(),
        spec_resolve_items(items.take(j), assembling_machine_level, furnace_level, amount) is None,
    ensures
        spec_resolve_items(items, assembling_machine_level, furnace_level, amount) is None,
    decreases items.len(),
{
    if j == items.len() {
        assert(items.take(j) =~= items);
    } else {
        assert(items.drop_last().take(j) =~= items.take(j));
        lemma_resolve_items_prefix_none(
            items.drop_last(),
            assembling_machine_level,
            furnace_level,
            amount,
            j,
        );
    }
}

/// What `total_raw_result` promises: on success the maps are exactly the
/// mathematical resolution; on failure the mathematical resolution itself
/// overflows `u64`.
pub open spec fn resolve_post<'a>(
    m: MaterialModel,
    s: UserSettings,
    r: Result<TotalRawResult<'a>, ResolveError>,
) -> bool {
    match r {
        Ok(res) => {
            &&& res.wf()
            &&& spec_resolve(m, s.assembling_machine_level, s.furnace_level) == Some(
                ResultModel { producers: res.producers_map(), total_raw: res.raw_map() },
            )
        },
        Err(e) => {
            &&& spec_resolve(m, s.assembling_machine_level, s.furnace_level) is None
            &&& e == ResolveError::ArithmeticOverflow
        },
    }
}

impl Material {
    /// The craft-speed multiplier for `producer_type` under the given
    /// technology tiers.
    pub fn calculate_production_modifier(
        assembling_machine_level: &AssemblingMachineLevel,
        furnace_level: &FurnaceLevel,
        producer_type: &Option<ProducerType>,
    ) -> (r: Ratio)
        ensures
            r.wf(),
            r@.num > 0,
            r@ == spec_modifier(*assembling_machine_level, *furnace_level, *producer_type),
    {
        proof {
            reveal_with_fuel(spec_gcd, 8);
        }
        match producer_type {
            Some(ProducerType::Furnace) => match furnace_level {
                FurnaceLevel::Stone => Ratio::from_int(1),
                FurnaceLevel::Steel => Ratio::from_int(2),
            },
            Some(ProducerType::AssemblingMachine) => match assembling_machine_level {
                AssemblingMachineLevel::One => Ratio { num: 1, den: 2 },
                AssemblingMachineLevel::Two => Ratio { num: 3, den: 4 },
                AssemblingMachineLevel::Three => Ratio { num: 5, den: 4 },
            },
            _ => Ratio::from_int(1),
        }
    }

    /// Merges a child's producer counts into the accumulator, scaling
    /// every contributed amount by `product_per_item` and summing amounts
    /// recorded for the same material identity.
    pub fn update_producers<'a>(
        old_producers: &mut Vec<(&'a Material, (ProducerType, Ratio))>,
        new_producers: Vec<(&'a Material, (ProducerType, Ratio))>,
        product_per_item: Ratio,
    ) -> (r: Result<(), ResolveError>)
        requires
            wf_producers_entries(old(old_producers)@),
            wf_producers_entries(new_producers@),
            product_per_item.wf(),
        ensures
            match r {
                Ok(_) => {
                    &&& wf_producers_entries(final(old_producers)@)
                    &&& producers_map_of(final(old_producers)@) == merge_producers(
                        producers_map_of(old(old_producers)@),
                        producers_map_of(new_producers@),
                        product_per_item@,
                    )
                    &&& merge_producers_ok(
                        producers_map_of(old(old_producers)@),
                        producers_map_of(new_producers@),
                        product_per_item@,
                    )
                },
                Err(e) => {
                    &&& !merge_producers_ok(
                        producers_map_of(old(old_producers)@),
                        producers_map_of(new_producers@),
                        product_per_item@,
                    )
                    &&& e == ResolveError::ArithmeticOverflow
                },
            },
    {
        let ghost acc0 = producers_map_of(old(old_producers)@);
        let ghost scale = product_per_item@;
        let n = new_producers.len();
        let mut idx: usize = 0;
        while idx < n
            invariant
                0 <= idx <= n,
                n == new_producers@.len(),
                wf_producers_entries(new_producers@),
                wf_producers_entries(old_producers@),
                product_per_item.wf(),
                scale == product_per_item@,
                acc0 == producers_map_of(old(old_producers)@),
                producers_map_of(old_producers@) == merge_producers(
                    acc0,
                    producers_map_of(new_producers@.take(idx as int)),
                    scale,
                ),
                merge_producers_ok(acc0, producers_map_of(new_producers@.take(idx as int)), scale),
            decreases n - idx,
        {
            let (m, entry) = new_producers[idx];
            let ghost k = m.model();
            let ghost prefix = producers_map_of(new_producers@.take(idx as int));
            proof {
                assert forall|j: int| 0 <= j < idx implies (#[trigger] new_producers@.take(
                    idx as int,
                )[j]).0.model() != k by {
                    assert(new_producers@[j].0.model() != new_producers@[idx as int].0.model());
                }
                lemma_producers_map_contains(new_producers@.take(idx as int), k);
                lemma_producers_map_index(new_producers@, idx as int);
            }
            let scaled = match entry.1.mul(product_per_item) {
                Ok(v) => v,
                Err(e) => {
                    return Err(e);
                },
            };
            match find_entry(old_producers, m) {
                Some(j) => {
                    proof {
                        lemma_producers_map_index(old_producers@, j as int);
                    }
                    let prev = old_producers[j].1;
                    proof {
                        assert(producers_map_of(old_producers@)[k] == (prev.0, prev.1@));
                        assert(acc0.dom().contains(k) && acc0[k] == (prev.0, prev.1@));
                    }
                    let sum = match prev.1.add(scaled) {
                        Ok(v) => v,
                        Err(e) => {
                            proof {
                                assert(producers_map_of(new_producers@).dom().contains(k));
                                assert(producers_map_of(new_producers@)[k].1 == entry.1@);
                                assert(!scaled_add_ok(
                                    producers_lookup(acc0, k),
                                    producers_map_of(new_producers@)[k].1,
                                    scale,
                                ));
                                assert(!merge_producers_ok(
                                    acc0,
                                    producers_map_of(new_producers@),
                                    scale,
                                )) by {
                                    if merge_producers_ok(
                                        acc0,
                                        producers_map_of(new_producers@),
                                        scale,
                                    ) {
                                        assert(producers_map_of(
                                            new_producers@,
                                        ).dom().contains(k));
                                    }
                                }
                            }
                            return Err(e);
                        },
                    };
                    let key_ref = old_producers[j].0;
                    proof {
                        lemma_producers_map_update(old_producers@, j as int, (prev.0, sum));
                    }
                    let ghost pre = old_producers@;
                    old_producers.set(j, (key_ref, (prev.0, sum)));
                    proof {
                        lemma_producers_map_take_step(new_producers@, idx as int);
                        lemma_merge_producers_insert(acc0, prefix, k, (entry.0, entry.1@), scale);
                        assert forall|i: int| 0 <= i < old_producers@.len() implies {
                            &&& wf_model((#[trigger] old_producers@[i]).0.model())
                            &&& !old_producers@[i].0.model().is_raw()
                            &&& old_producers@[i].0.model().producer_type == Some(
                                old_producers@[i].1.0,
                            )
                            &&& wf_rat(old_producers@[i].1.1@)
                        } by {
                            assert(pre[i].0 == old_producers@[i].0);
                            if i != j {
                                assert(old_producers@[i] == pre[i]);
                            }
                        }
                    }
                },
                None => {
                    proof {
                        lemma_producers_map_contains(old_producers@, k);
                    }
                    let ghost pre = old_producers@;
                    old_producers.push((m, (entry.0, scaled)));
                    proof {
                        assert(old_producers@.drop_last() =~= pre);
                        lemma_producers_map_take_step(new_producers@, idx as int);
                        lemma_merge_producers_insert(acc0, prefix, k, (entry.0, entry.1@), scale);
                        assert forall|p: int, q: int|
                            0 <= p < q < old_producers@.len() implies (
                        #[trigger] old_producers@[p]).0.model() != (
                        #[trigger] old_producers@[q]).0.model() by {
                            if q < old_producers@.len() - 1 {
                                assert(old_producers@[p] == pre[p] && old_producers@[q] == pre[q]);
                            } else {
                                assert(old_producers@[p] == pre[p]);
                            }
                        }
                    }
                },
            }
            idx += 1;
        }
        proof {
            assert(new_producers@.take(n as int) =~= new_producers@);
        }
        Ok(())
    }

    /// Merges a child's raw totals into the accumulator, scaling every
    /// contributed amount by `product_per_item` and summing amounts
    /// recorded for the same material identity.
    pub fn update_raw<'a>(
        old_raw: &mut Vec<(&'a Material, Ratio)>,
        new_raw: Vec<(&'a Material, Ratio)>,
        product_per_item: Ratio,
    ) -> (r: Result<(), ResolveError>)
        requires
            wf_raw_entries(old(old_raw)@),
            wf_raw_entries(new_raw@),
            product_per_item.wf(),
        ensures
            match r {
                Ok(_) => {
                    &&& wf_raw_entries(final(old_raw)@)
                    &&& raw_map_of(final(old_raw)@) == merge_raw(
                        raw_map_of(old(old_raw)@),
                        raw_map_of(new_raw@),
                        product_per_item@,
                    )
                    &&& merge_raw_ok(
                        raw_map_of(old(old_raw)@),
                        raw_map_of(new_raw@),
                        product_per_item@,
                    )
                },
                Err(e) => {
                    &&& !merge_raw_ok(
                        raw_map_of(old(old_raw)@),
                        raw_map_of(new_raw@),
                        product_per_item@,
                    )
                    &&& e == ResolveError::ArithmeticOverflow
                },
            },
    {
        let ghost acc0 = raw_map_of(old(old_raw)@);
        let ghost scale = product_per_item@;
        let n = new_raw.len();
        let mut idx: usize = 0;
        while idx < n
            invariant
                0 <= idx <= n,
                n == new_raw@.len(),
                wf_raw_entries(new_raw@),
                wf_raw_entries(old_raw@),
                product_per_item.wf(),
                scale == product_per_item@,
                acc0 == raw_map_of(old(old_raw)@),
                raw_map_of(old_raw@) == merge_raw(
                    acc0,
                    raw_map_of(new_raw@.take(idx as int)),
                    scale,
                ),
                merge_raw_ok(acc0, raw_map_of(new_raw@.take(idx as int)), scale),
            decreases n - idx,
        {
            let (m, amt) = new_raw[idx];
            let ghost k = m.model();
            let ghost prefix = raw_map_of(new_raw@.take(idx as int));
            proof {
                assert forall|j: int| 0 <= j < idx implies (#[trigger] new_raw@.take(
                    idx as int,
                )[j]).0.model() != k by {
                    assert(new_raw@[j].0.model() != new_raw@[idx as int].0.model());
                }
                lemma_raw_map_contains(new_raw@.take(idx as int), k);
                lemma_raw_map_index(new_raw@, idx as int);
            }
            let scaled = match amt.mul(product_per_item) {
                Ok(v) => v,
                Err(e) => {
                    return Err(e);
                },
            };
            match find_entry(old_raw, m) {
                Some(j) => {
                    proof {
                        lemma_raw_map_index(old_raw@, j as int);
                    }
                    let prev = old_raw[j].1;
                    proof {
                        assert(raw_map_of(old_raw@)[k] == prev@);
                        assert(acc0.dom().contains(k) && acc0[k] == prev@);
                    }
                    let sum = match prev.add(scaled) {
                        Ok(v) => v,
                        Err(e) => {
                            proof {
                                assert(raw_map_of(new_raw@).dom().contains(k));
                                assert(raw_map_of(new_raw@)[k] == amt@);
                                assert(!scaled_add_ok(
                                    raw_lookup(acc0, k),
                                    raw_map_of(new_raw@)[k],
                                    scale,
                                ));
                                assert(!merge_raw_ok(acc0, raw_map_of(new_raw@), scale)) by {
                                    if merge_raw_ok(acc0, raw_map_of(new_raw@), scale) {
                                        assert(raw_map_of(new_raw@).dom().contains(k));
                                    }
                                }
                            }
                            return Err(e);
                        },
                    };
                    let key_ref = old_raw[j].0;
                    proof {
                        lemma_raw_map_update(old_raw@, j as int, sum);
                    }
                    let ghost pre = old_raw@;
                    old_raw.set(j, (key_ref, sum));
                    proof {
                        lemma_raw_map_take_step(new_raw@, idx as int);
                        lemma_merge_raw_insert(acc0, prefix, k, amt@, scale);
                        assert forall|i: int| 0 <= i < old_raw@.len() implies {
                            &&& wf_model((#[trigger] old_raw@[i]).0.model())
                            &&& old_raw@[i].0.model().is_raw()
                            &&& wf_rat(old_raw@[i].1@)
                        } by {
                            assert(pre[i].0 == old_raw@[i].0);
                            if i != j {
                                assert(old_raw@[i] == pre[i]);
                            }
                        }
                    }
                },
                None => {
                    proof {
                        lemma_raw_map_contains(old_raw@, k);
                    }
                    let ghost pre = old_raw@;
                    old_raw.push((m, scaled));
                    proof {
                        assert(old_raw@.drop_last() =~= pre);
                        lemma_raw_map_take_step(new_raw@, idx as int);
                        lemma_merge_raw_insert(acc0, prefix, k, amt@, scale);
                        assert forall|p: int, q: int|
                            0 <= p < q < old_raw@.len() implies (#[trigger] old_raw@[p]).0.model()
                            != (#[trigger] old_raw@[q]).0.model() by {
                            if q < old_raw@.len() - 1 {
                                assert(old_raw@[p] == pre[p] && old_raw@[q] == pre[q]);
                            } else {
                                assert(old_raw@[p] == pre[p]);
                            }
                        }
                    }
                },
            }
            idx += 1;
        }
        proof {
            assert(new_raw@.take(n as int) =~= new_raw@);
        }
        Ok(())
    }

    /// Resolves this material: the producers and raw materials needed to
    /// sustain one unit of it per unit time, under `user_settings`.
    pub fn total_raw_result<'a>(&'a self, user_settings: &'a UserSettings) -> (r: Result<
        TotalRawResult<'a>,
        ResolveError,
    >)
        requires
            self.wf(),
        ensures
            resolve_post(self.model(), *user_settings, r),
    {
        Material::total_raw_recurse(self, user_settings)
    }

    fn total_raw_recurse<'a>(item: &'a Material, user_settings: &'a UserSettings) -> (r: Result<
        TotalRawResult<'a>,
        ResolveError,
    >)
        requires
            item.wf(),
        ensures
            resolve_post(item.model(), *user_settings, r),
        decreases *item,
    {
        let ghost m = item.model();
        let ghost aml = user_settings.assembling_machine_level;
        let ghost fl = user_settings.furnace_level;
        let mut producers: Vec<(&'a Material, (ProducerType, Ratio))> = Vec::new();
        let mut total_raw: Vec<(&'a Material, Ratio)> = Vec::new();
        if !item.is_raw() {
            let ghost model_items = m.items;
            proof {
                lemma_items_model(item.recipe.items@);
            }
            let n = item.recipe.items.len();
            let mut i: usize = 0;
            while i < n
                invariant
                    0 <= i <= n,
                    item.wf(),
                    m == item.model(),
                    model_items == m.items,
                    aml == user_settings.assembling_machine_level,
                    fl == user_settings.furnace_level,
                    n == item.recipe.items@.len(),
                    n == model_items.len(),
                    wf_producers_entries(producers@),
                    wf_raw_entries(total_raw@),
                    spec_resolve_items(model_items.take(i as int), aml, fl, m.amount) == Some(
                        ResultModel {
                            producers: producers_map_of(producers@),
                            total_raw: raw_map_of(total_raw@),
                        },
                    ),
                decreases n - i,
            {
                proof {
                    lemma_items_model(item.recipe.items@);
                    assert(model_items[i as int].0 == item.recipe.items@[i as int].0.model());
                    assert(wf_model(model_items[i as int].0));
                    assert(model_items.take(i + 1).drop_last() =~= model_items.take(i as int));
                    assert(model_items.take(i + 1).last() == model_items[i as int]);
                }
                let child = &item.recipe.items[i];
                let product_result = match Material::total_raw_recurse(&child.0, user_settings) {
                    Ok(v) => v,
                    Err(e) => {
                        proof {
                            lemma_resolve_items_prefix_none(
                                model_items,
                                aml,
                                fl,
                                m.amount,
                                i + 1,
                            );
                        }
                        return Err(e);
                    },
                };
                let product_per_item = match child.1.div(item.recipe.amount) {
                    Ok(v) => v,
                    Err(e) => {
                        proof {
                            lemma_resolve_items_prefix_none(
                                model_items,
                                aml,
                                fl,
                                m.amount,
                                i + 1,
                            );
                        }
                        return Err(e);
                    },
                };
                match Material::update_producers(
                    &mut producers,
                    product_result.producers,
                    product_per_item,
                ) {
                    Ok(_) => (),
                    Err(e) => {
                        proof {
                            lemma_resolve_items_prefix_none(
                                model_items,
                                aml,
                                fl,
                                m.amount,
                                i + 1,
                            );
                        }
                        return Err(e);
                    },
                }
                match Material::update_raw(&mut total_raw, product_result.total_raw, product_per_item) {
                    Ok(_) => (),
                    Err(e) => {
                        proof {
                            lemma_resolve_items_prefix_none(
                                model_items,
                                aml,
                                fl,
                                m.amount,
                                i + 1,
                            );
                        }
                        return Err(e);
                    },
                }
                i += 1;
            }
            proof {
                assert(model_items.take(n as int) =~= model_items);
            }
            let modifier = Material::calculate_production_modifier(
                &user_settings.assembling_machine_level,
                &user_settings.furnace_level,
                &item.recipe.producer_type,
            );
            let time_per_item = match item.recipe.time.div(modifier) {
                Ok(v) => v,
                Err(e) => {
                    return Err(e);
                },
            };
            let machines = match time_per_item.div(item.recipe.amount) {
                Ok(v) => v,
                Err(e) => {
                    return Err(e);
                },
            };
            let produced_by = match item.recipe.producer_type {
                Some(p) => p,
                None => vstd::pervasive::unreached(),
            };
            let ghost pre = producers@;
            match find_entry(&producers, item) {
                Some(j) => {
                    proof {
                        lemma_producers_map_update(producers@, j as int, (produced_by, machines));
                    }
                    let key_ref = producers[j].0;
                    producers.set(j, (key_ref, (produced_by, machines)));
                    proof {
                        assert forall|p: int| 0 <= p < producers@.len() implies {
                            &&& wf_model((#[trigger] producers@[p]).0.model())
                            &&& !producers@[p].0.model().is_raw()
                            &&& producers@[p].0.model().producer_type == Some(producers@[p].1.0)
                            &&& wf_rat(producers@[p].1.1@)
                        } by {
                            assert(pre[p].0 == producers@[p].0);
                            if p != j {
                                assert(producers@[p] == pre[p]);
                            }
                        }
                    }
                },
                None => {
                    producers.push((item, (produced_by, machines)));
                    proof {
                        assert(producers@.drop_last() =~= pre);
                        assert forall|p: int, q: int|
                            0 <= p < q < producers@.len() implies (
                        #[trigger] producers@[p]).0.model() != (#[trigger] producers@[q]).0.model() by {
                            if q < producers@.len() - 1 {
                                assert(producers@[p] == pre[p] && producers@[q] == pre[q]);
                            } else {
                                assert(producers@[p] == pre[p]);
                            }
                        }
                    }
                },
            }
            Ok(TotalRawResult::new(producers, total_raw))
        } else {
            let one = Ratio::one();
            total_raw.push((item, one));
            proof {
                assert(total_raw@.len() == 1);
                assert(total_raw@.last() == (item, one));
                assert(total_raw@.drop_last().len() == 0);
                assert(raw_map_of(total_raw@.drop_last()) == Map::<MaterialModel, Rat>::empty());
                assert(raw_map_of(total_raw@) == Map::<MaterialModel, Rat>::empty().insert(
                    total_raw@.last().0.model(),
                    total_raw@.last().1@,
                ));
                assert(total_raw@.last().0.model() == m);
                assert(total_raw@.last().1@ == rat_one());
            }
            Ok(TotalRawResult::new(producers, total_raw))
        }
    }
}

} // verus!
