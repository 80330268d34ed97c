//! The behavioral laws of the resolution engine and the whole-ratio
//! normalizer, stated over the mathematical models that the executable
//! contracts speak of.

use vstd::prelude::*;

use vstd::arithmetic::div_mod::lemma_div_basics;

use crate::enums::{AssemblingMachineLevel, FurnaceLevel, ProducerType};
use crate::errors::ResolveError;
use crate::material::{
    resolve_post, spec_modifier, spec_resolve, spec_resolve_items, MaterialModel, ResultModel,
};
use crate::ratio::{
    add_rat, div_ok, div_rat, lemma_div_rat_one, lemma_div_rat_wf, lemma_mul_rat_one, mul_rat,
    rat_int, rat_one, spec_gcd, wf_rat, Rat, Ratio,
};
use crate::total_raw_result::{
    all_denominators, merge_producers, merge_producers_ok, merge_raw, merge_raw_ok,
    producers_lookup, raw_lookup, scaled_add_ok, spec_lcm, spec_lcm_fold, whole_ratio_post,
    TotalRawResult,
};
use crate::user_settings::UserSettings;

verus! {

/// Base case: a raw material resolves to one unit of itself and no
/// producers, under any settings.
pub proof fn lemma_resolve_raw(
    m: MaterialModel,
    assembling_machine_level: AssemblingMachineLevel,
    furnace_level: FurnaceLevel,
)
    requires
        m.is_raw(),
    ensures
        spec_resolve(m, assembling_machine_level, furnace_level) == Some(
            ResultModel {
                producers: Map::<MaterialModel, (ProducerType, Rat)>::empty(),
                total_raw: Map::<MaterialModel, Rat>::empty().insert(m, rat_one()),
            },
        ),
{
}

/// Determinism: two resolutions of the same material under the same
/// settings agree — they fail together, and on success their maps are
/// value-equal.
pub proof fn lemma_resolve_deterministic<'a, 'b>(
    m: MaterialModel,
    s: UserSettings,
    r1: Result<TotalRawResult<'a>, ResolveError>,
    r2: Result<TotalRawResult<'b>, ResolveError>,
)
    requires
        resolve_post(m, s, r1),
        resolve_post(m, s, r2),
    ensures
        r1 is Ok <==> r2 is Ok,
        r1 is Ok ==> r1->Ok_0.producers_map() == r2->Ok_0.producers_map(),
        r1 is Ok ==> r1->Ok_0.raw_map() == r2->Ok_0.raw_map(),
{
}

/// The production-modifier table, as exact rationals: Stone and Steel
/// furnaces run at 1 and 2; assembling machines one, two and three run at
/// 1/2, 3/4 and 5/4; producers without a tier run at 1.
pub proof fn lemma_modifier_table(
    assembling_machine_level: AssemblingMachineLevel,
    furnace_level: FurnaceLevel,
)
    ensures
        spec_modifier(assembling_machine_level, FurnaceLevel::Stone, Some(ProducerType::Furnace))
            == rat_int(1),
        spec_modifier(assembling_machine_level, FurnaceLevel::Steel, Some(ProducerType::Furnace))
            == rat_int(2),
        spec_modifier(AssemblingMachineLevel::One, furnace_level, Some(
            ProducerType::AssemblingMachine,
        )) == (Rat { num: 1, den: 2 }),
        spec_modifier(AssemblingMachineLevel::Two, furnace_level, Some(
            ProducerType::AssemblingMachine,
        )) == (Rat { num: 3, den: 4 }),
        spec_modifier(AssemblingMachineLevel::Three, furnace_level, Some(
            ProducerType::AssemblingMachine,
        )) == (Rat { num: 5, den: 4 }),
        spec_modifier(assembling_machine_level, furnace_level, Some(ProducerType::ChemicalPlant))
            == rat_int(1),
        spec_modifier(assembling_machine_level, furnace_level, Some(ProducerType::RocketSilo))
            == rat_int(1),
        spec_modifier(assembling_machine_level, furnace_level, None) == rat_int(1),
{
}

/// Shared sub-dependency: when two contributions both consume the same
/// material, the merged total at that material is the sum of the two
/// independently scaled amounts — in either merge order.
pub proof fn lemma_shared_raw_contributions(
    first: Map<MaterialModel, Rat>,
    second: Map<MaterialModel, Rat>,
    scale1: Rat,
    scale2: Rat,
    k: MaterialModel,
)
    requires
        first.dom().contains(k),
        second.dom().contains(k),
    ensures
        merge_raw(merge_raw(Map::empty(), first, scale1), second, scale2)[k] == add_rat(
            mul_rat(first[k], scale1),
            mul_rat(second[k], scale2),
        ),
        merge_raw(merge_raw(Map::empty(), second, scale2), first, scale1)[k] == add_rat(
            mul_rat(second[k], scale2),
            mul_rat(first[k], scale1),
        ),
        add_rat(mul_rat(first[k], scale1), mul_rat(second[k], scale2)) == add_rat(
            mul_rat(second[k], scale2),
            mul_rat(first[k], scale1),
        ),
{
    let x = mul_rat(first[k], scale1);
    let y = mul_rat(second[k], scale2);
    assert(x.num * y.den + y.num * x.den == y.num * x.den + x.num * y.den && x.den * y.den
        == y.den * x.den) by (nonlinear_arith);
}

/// Folding the least common multiple over all-whole denominators yields
/// one.
pub proof fn lemma_lcm_fold_ones(s: Seq<u64>)
    requires
        forall|i: int| 0 <= i < s.len() ==> s[i] == 1,
    ensures
        spec_lcm_fold(s, 1) == Some(1nat),
    decreases s.len(),
{
    reveal_with_fuel(spec_gcd, 2);
    if s.len() > 0 {
        lemma_div_basics(1);
        lemma_lcm_fold_ones(s.drop_first());
    }
}

/// Normalizer idempotence: when every candidate amount is already whole,
/// the chosen factor is one, and rescaling by one leaves every amount of
/// both maps unchanged.
pub proof fn lemma_whole_ratio_identity(
    r: TotalRawResult,
    ignore_furnaces: bool,
    ignore_raw: bool,
)
    requires
        r.wf(),
        forall|i: int|
            0 <= i < all_denominators(r, ignore_furnaces, ignore_raw).len()
                ==> all_denominators(r, ignore_furnaces, ignore_raw)[i] == 1,
    ensures
        spec_lcm_fold(all_denominators(r, ignore_furnaces, ignore_raw), 1) == Some(1nat),
        forall|i: int|
            0 <= i < r.producers@.len() ==> mul_rat(
                (#[trigger] r.producers@[i]).1.1@,
                rat_int(1),
            ) == r.producers@[i].1.1@,
        forall|i: int|
            0 <= i < r.total_raw@.len() ==> mul_rat((#[trigger] r.total_raw@[i]).1@, rat_int(1))
                == r.total_raw@[i].1@,
{
    lemma_lcm_fold_ones(all_denominators(r, ignore_furnaces, ignore_raw));
    assert forall|i: int| 0 <= i < r.producers@.len() implies mul_rat(
        (#[trigger] r.producers@[i]).1.1@,
        rat_int(1),
    ) == r.producers@[i].1.1@ by {
        assert(wf_rat(r.producers@[i].1.1@));
        lemma_mul_rat_one(r.producers@[i].1.1@);
    }
    assert forall|i: int| 0 <= i < r.total_raw@.len() implies mul_rat(
        (#[trigger] r.total_raw@[i]).1@,
        rat_int(1),
    ) == r.total_raw@[i].1@ by {
        assert(wf_rat(r.total_raw@[i].1@));
        lemma_mul_rat_one(r.total_raw@[i].1@);
    }
}

/// Exclusion flags affect only factor selection: two normalizations of
/// the same result under different exclusion flags may choose different
/// factors, but each rescales every entry of both maps — excluded
/// entries included — by its own factor.
pub proof fn lemma_exclusion_flags_rescale_all<'a, 'b, 'c>(
    r: TotalRawResult<'a>,
    flags1: (bool, bool),
    flags2: (bool, bool),
    out1: Result<(Ratio, TotalRawResult<'b>), ResolveError>,
    out2: Result<(Ratio, TotalRawResult<'c>), ResolveError>,
)
    requires
        whole_ratio_post(r, flags1.0, flags1.1, out1),
        whole_ratio_post(r, flags2.0, flags2.1, out2),
        out1 is Ok,
        out2 is Ok,
    ensures
        forall|i: int|
            0 <= i < r.producers@.len() ==> (#[trigger] out1->Ok_0.1.producers@[i]).1.1@
                == mul_rat(r.producers@[i].1.1@, out1->Ok_0.0@),
        forall|i: int|
            0 <= i < r.total_raw@.len() ==> (#[trigger] out1->Ok_0.1.total_raw@[i]).1@ == mul_rat(
                r.total_raw@[i].1@,
                out1->Ok_0.0@,
            ),
        forall|i: int|
            0 <= i < r.producers@.len() ==> (#[trigger] out2->Ok_0.1.producers@[i]).1.1@
                == mul_rat(r.producers@[i].1.1@, out2->Ok_0.0@),
        forall|i: int|
            0 <= i < r.total_raw@.len() ==> (#[trigger] out2->Ok_0.1.total_raw@[i]).1@ == mul_rat(
                r.total_raw@[i].1@,
                out2->Ok_0.0@,
            ),
{
}

/// A chain link: a composite material produced from one unit of a single
/// input per batch of one, in the given time.
pub open spec fn chain_material(
    name: Seq<char>,
    producer: ProducerType,
    input: MaterialModel,
    time: Rat,
) -> MaterialModel {
    MaterialModel {
        name,
        producer_type: Some(producer),
        items: seq![(input, rat_one())],
        time,
        amount: rat_one(),
    }
}

/// A chain end: a raw material.
pub open spec fn leaf_material(name: Seq<char>) -> MaterialModel {
    MaterialModel {
        name,
        producer_type: None,
        items: Seq::empty(),
        time: Rat { num: 0, den: 1 },
        amount: rat_one(),
    }
}

/// Linear chain: a material built from one unit of a material built from
/// one unit of a raw material, all with batch size one, resolves to one
/// unit of the raw material and, for each composite link, exactly
/// `time / modifier` machines — with no cross contamination between the
/// entries.
pub proof fn lemma_linear_chain(
    name_a: Seq<char>,
    name_b: Seq<char>,
    name_c: Seq<char>,
    time_a: Rat,
    time_b: Rat,
    producer_a: ProducerType,
    producer_b: ProducerType,
    assembling_machine_level: AssemblingMachineLevel,
    furnace_level: FurnaceLevel,
)
    requires
        wf_rat(time_a),
        wf_rat(time_b),
        time_a.num <= u64::MAX && time_a.den <= u64::MAX,
        time_b.num <= u64::MAX && time_b.den <= u64::MAX,
        div_ok(time_a, spec_modifier(assembling_machine_level, furnace_level, Some(producer_a))),
        div_ok(time_b, spec_modifier(assembling_machine_level, furnace_level, Some(producer_b))),
        name_a != name_b,
        name_b != name_c,
        name_a != name_c,
    ensures
        ({
            let c = leaf_material(name_c);
            let b = chain_material(name_b, producer_b, c, time_b);
            let a = chain_material(name_a, producer_a, b, time_a);
            let modifier_a = spec_modifier(assembling_machine_level, furnace_level, Some(
                producer_a,
            ));
            let modifier_b = spec_modifier(assembling_machine_level, furnace_level, Some(
                producer_b,
            ));
            spec_resolve(a, assembling_machine_level, furnace_level) == Some(
                ResultModel {
                    producers: Map::<MaterialModel, (ProducerType, Rat)>::empty().insert(
                        b,
                        (producer_b, div_rat(time_b, modifier_b)),
                    ).insert(a, (producer_a, div_rat(time_a, modifier_a))),
                    total_raw: Map::<MaterialModel, Rat>::empty().insert(c, rat_one()),
                },
            )
        }),
{
    reveal_with_fuel(spec_gcd, 8);
    let c = leaf_material(name_c);
    let b = chain_material(name_b, producer_b, c, time_b);
    let a = chain_material(name_a, producer_a, b, time_a);
    let modifier_a = spec_modifier(assembling_machine_level, furnace_level, Some(producer_a));
    let modifier_b = spec_modifier(assembling_machine_level, furnace_level, Some(producer_b));
    let one = rat_one();
    assert(wf_rat(one));
    assert(wf_rat(modifier_a) && modifier_a.num > 0);
    assert(wf_rat(modifier_b) && modifier_b.num > 0);
    lemma_div_rat_one(one);
    lemma_mul_rat_one(one);
    // the raw end of the chain
    assert(spec_resolve(c, assembling_machine_level, furnace_level) == Some(
        ResultModel {
            producers: Map::<MaterialModel, (ProducerType, Rat)>::empty(),
            total_raw: Map::<MaterialModel, Rat>::empty().insert(c, one),
        },
    ));
    // the middle link
    let vb = div_rat(time_b, modifier_b);
    lemma_div_rat_wf(time_b, modifier_b);
    lemma_div_rat_one(vb);
    lemma_mul_rat_one(vb);
    assert(vb.num <= u64::MAX && vb.den <= u64::MAX) by (nonlinear_arith)
        requires
            vb.num <= time_b.num * modifier_b.den,
            vb.den <= time_b.den * modifier_b.num,
            time_b.num * modifier_b.den <= u64::MAX,
            time_b.den * modifier_b.num <= u64::MAX,
            vb.num >= 0,
            vb.den > 0,
    ;
    let empty_result = ResultModel {
        producers: Map::<MaterialModel, (ProducerType, Rat)>::empty(),
        total_raw: Map::<MaterialModel, Rat>::empty(),
    };
    assert(b.items.drop_last() =~= Seq::<(MaterialModel, Rat)>::empty());
    assert(b.items.last() == (c, one));
    assert(spec_resolve_items(b.items.drop_last(), assembling_machine_level, furnace_level, one)
        == Some(empty_result));
    assert(div_rat(one, one) == one);
    assert(merge_producers(empty_result.producers, Map::empty(), one)
        =~= Map::<MaterialModel, (ProducerType, Rat)>::empty());
    let c_raw = Map::<MaterialModel, Rat>::empty().insert(c, one);
    assert(merge_raw(empty_result.total_raw, c_raw, one) =~= c_raw) by {
        assert(mul_rat(one, one) == one);
    }
    assert(merge_raw_ok(empty_result.total_raw, c_raw, one)) by {
        assert forall|k: MaterialModel| #[trigger] c_raw.dom().contains(k) implies scaled_add_ok(
            raw_lookup(empty_result.total_raw, k),
            c_raw[k],
            one,
        ) by {
            assert(k == c && c_raw[k] == one);
        }
    }
    assert(spec_resolve_items(b.items, assembling_machine_level, furnace_level, one) == Some(
        ResultModel {
            producers: Map::<MaterialModel, (ProducerType, Rat)>::empty(),
            total_raw: c_raw,
        },
    ));
    assert(div_ok(div_rat(time_b, modifier_b), one));
    assert(spec_resolve(b, assembling_machine_level, furnace_level) == Some(
        ResultModel {
            producers: Map::<MaterialModel, (ProducerType, Rat)>::empty().insert(
                b,
                (producer_b, vb),
            ),
            total_raw: c_raw,
        },
    ));
    // the outer link
    let va = div_rat(time_a, modifier_a);
    lemma_div_rat_wf(time_a, modifier_a);
    lemma_div_rat_one(va);
    assert(a.items.drop_last() =~= Seq::<(MaterialModel, Rat)>::empty());
    assert(a.items.last() == (b, one));
    assert(spec_resolve_items(a.items.drop_last(), assembling_machine_level, furnace_level, one)
        == Some(empty_result));
    let b_producers = Map::<MaterialModel, (ProducerType, Rat)>::empty().insert(
        b,
        (producer_b, vb),
    );
    assert(merge_producers(empty_result.producers, b_producers, one) =~= b_producers) by {
        lemma_mul_rat_one(vb);
    }
    assert(merge_producers_ok(empty_result.producers, b_producers, one)) by {
        assert forall|k: MaterialModel| #[trigger] b_producers.dom().contains(
            k,
        ) implies scaled_add_ok(
            producers_lookup(empty_result.producers, k),
            b_producers[k].1,
            one,
        ) by {
            assert(k == b && b_producers[k] == (producer_b, vb));
        }
    }
    assert(merge_raw(empty_result.total_raw, c_raw, one) =~= c_raw);
    assert(spec_resolve_items(a.items, assembling_machine_level, furnace_level, one) == Some(
        ResultModel { producers: b_producers, total_raw: c_raw },
    ));
    assert(div_ok(div_rat(time_a, modifier_a), one));
    assert(spec_resolve(a, assembling_machine_level, furnace_level) == Some(
        ResultModel {
            producers: b_producers.insert(a, (producer_a, va)),
            total_raw: c_raw,
        },
    ));
}

/// Normalizer factor for the denominators two, three and four: exactly
/// twelve.
pub proof fn lemma_scale_factor_example()
    ensures
        spec_lcm_fold(seq![2u64, 3u64, 4u64], 1) == Some(12nat),
{
    reveal_with_fuel(spec_gcd, 8);
    reveal_with_fuel(spec_lcm_fold, 5);
    let s: Seq<u64> = seq![2u64, 3u64, 4u64];
    assert(s.drop_first() =~= seq![3u64, 4u64]);
    assert(seq![3u64, 4u64].drop_first() =~= seq![4u64]);
    assert(seq![4u64].drop_first() =~= Seq::<u64>::empty());
    assert(spec_gcd(1, 2) == 1);
    assert(spec_gcd(2, 3) == 1);
    assert(spec_gcd(6, 4) == 2);
    lemma_div_basics(2);
    lemma_div_basics(6);
    vstd::arithmetic::div_mod::lemma_fundamental_div_mod_converse(24, 2, 12, 0);
    assert(spec_lcm(1, 2) == 2);
    assert(spec_lcm(2, 3) == 6);
    assert(spec_lcm(6, 4) == 12);
    assert(spec_lcm_fold(s, 1) == Some(12nat));
}

} // verus!
