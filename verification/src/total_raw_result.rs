//! The aggregated resolution result: producer counts and raw-material
//! totals keyed by structural material identity, with the merge semantics
//! and the whole-ratio normalizer.

use vstd::prelude::*;

use vstd::arithmetic::div_mod::{lemma_div_multiples_vanish, lemma_fundamental_div_mod};

use crate::enums::ProducerType;
use crate::errors::ResolveError;
use crate::material::{wf_model, Material, MaterialModel};
use crate::ratio::{
    add_ok, add_rat, gcd, lemma_gcd_divides, mul_ok, mul_rat, rat_int, spec_gcd, wf_rat, Rat,
    Ratio,
};

verus! {

/// The raw-material association read as a map.
pub open spec fn raw_map_of(s: Seq<(&Material, Ratio)>) -> Map<MaterialModel, Rat>
    decreases s.len(),
{
    if s.len() == 0 {
        Map::empty()
    } else {
        raw_map_of(s.drop_last()).insert(s.last().0.model(), s.last().1@)
    }
}

/// The producer association read as a map.
pub open spec fn producers_map_of(s: Seq<(&Material, (ProducerType, Ratio))>) -> Map<
    MaterialModel,
    (ProducerType, Rat),
>
    decreases s.len(),
{
    if s.len() == 0 {
        Map::empty()
    } else {
        producers_map_of(s.drop_last()).insert(
            s.last().0.model(),
            (s.last().1.0, s.last().1.1@),
        )
    }
}

/// Raw entries: one entry per material identity, each a well-formed raw
/// material with a well-formed amount.
pub open spec fn wf_raw_entries(s: Seq<(&Material, Ratio)>) -> bool {
    &&& forall|i: int, j: int|
        0 <= i < j < s.len() ==> (#[trigger] s[i]).0.model() != (#[trigger] s[j]).0.model()
    &&& forall|i: int|
        0 <= i < s.len() ==> {
            &&& wf_model((#[trigger] s[i]).0.model())
            &&& s[i].0.model().is_raw()
            &&& wf_rat(s[i].1@)
        }
}

/// Producer entries: one entry per material identity, each a well-formed
/// composite material recorded under its own producer class.
pub open spec fn wf_producers_entries(s: Seq<(&Material, (ProducerType, Ratio))>) -> bool {
    &&& forall|i: int, j: int|
        0 <= i < j < s.len() ==> (#[trigger] s[i]).0.model() != (#[trigger] s[j]).0.model()
    &&& forall|i: int|
        0 <= i < s.len() ==> {
            &&& wf_model((#[trigger] s[i]).0.model())
            &&& !s[i].0.model().is_raw()
            &&& s[i].0.model().producer_type == Some(s[i].1.0)
            &&& wf_rat(s[i].1.1@)
        }
}

/// The amount a merge leaves at one key: the previous amount, if any, plus
/// the scaled contribution.
pub open spec fn scaled_add(prev: Option<Rat>, c: Rat, scale: Rat) -> Rat {
    match prev {
        Some(p) => add_rat(p, mul_rat(c, scale)),
        None => mul_rat(c, scale),
    }
}

/// Whether the arithmetic behind `scaled_add` stays within `u64`.
pub open spec fn scaled_add_ok(prev: Option<Rat>, c: Rat, scale: Rat) -> bool {
    &&& mul_ok(c, scale)
    &&& match prev {
        Some(p) => add_ok(p, mul_rat(c, scale)),
        None => true,
    }
}

pub open spec fn raw_lookup(m: Map<MaterialModel, Rat>, k: MaterialModel) -> Option<Rat> {
    if m.dom().contains(k) {
        Some(m[k])
    } else {
        None
    }
}

pub open spec fn producers_lookup(
    m: Map<MaterialModel, (ProducerType, Rat)>,
    k: MaterialModel,
) -> Option<Rat> {
    if m.dom().contains(k) {
        Some(m[k].1)
    } else {
        None
    }
}

/// Merging a contribution into an accumulator, every contributed amount
/// multiplied by `scale` and summed with what the accumulator already
/// holds for the same material identity.
pub open spec fn merge_raw(
    acc: Map<MaterialModel, Rat>,
    contribution: Map<MaterialModel, Rat>,
    scale: Rat,
) -> Map<MaterialModel, Rat> {
    Map::new(
        |k: MaterialModel| acc.dom().contains(k) || contribution.dom().contains(k),
        |k: MaterialModel|
            if contribution.dom().contains(k) {
                scaled_add(raw_lookup(acc, k), contribution[k], scale)
            } else {
                acc[k]
            },
    )
}

pub open spec fn merge_raw_ok(
    acc: Map<MaterialModel, Rat>,
    contribution: Map<MaterialModel, Rat>,
    scale: Rat,
) -> bool {
    forall|k: MaterialModel| #[trigger]
        contribution.dom().contains(k) ==> scaled_add_ok(raw_lookup(acc, k), contribution[k], scale)
}

/// As `merge_raw`, for the producer map; an already-recorded producer
/// class is kept.
pub open spec fn merge_producers(
    acc: Map<MaterialModel, (ProducerType, Rat)>,
    contribution: Map<MaterialModel, (ProducerType, Rat)>,
    scale: Rat,
) -> Map<MaterialModel, (ProducerType, Rat)> {
    Map::new(
        |k: MaterialModel| acc.dom().contains(k) || contribution.dom().contains(k),
        |k: MaterialModel|
            if contribution.dom().contains(k) {
                if acc.dom().contains(k) {
                    (acc[k].0, add_rat(acc[k].1, mul_rat(contribution[k].1, scale)))
                } else {
                    (contribution[k].0, mul_rat(contribution[k].1, scale))
                }
            } else {
                acc[k]
            },
    )
}

pub open spec fn merge_producers_ok(
    acc: Map<MaterialModel, (ProducerType, Rat)>,
    contribution: Map<MaterialModel, (ProducerType, Rat)>,
    scale: Rat,
) -> bool {
    forall|k: MaterialModel| #[trigger]
        contribution.dom().contains(k) ==> scaled_add_ok(producers_lookup(acc, k), contribution[k].1, scale)
}

/// Map membership mirrors entry membership.
pub proof fn lemma_raw_map_contains(s: Seq<(&Material, Ratio)>, k: MaterialModel)
    ensures
        raw_map_of(s).dom().contains(k) <==> exists|i: int|
            0 <= i < s.len() && (#[trigger] s[i]).0.model() == k,
    decreases s.len(),
{
    if s.len() > 0 {
        lemma_raw_map_contains(s.drop_last(), k);
        if raw_map_of(s).dom().contains(k) && s.last().0.model() != k {
            let i = choose|i: int|
                0 <= i < s.drop_last().len() && (#[trigger] s.drop_last()[i]).0.model() == k;
            assert(s[i].0.model() == k);
        }
        if exists|i: int| 0 <= i < s.len() && (#[trigger] s[i]).0.model() == k {
            let i = choose|i: int| 0 <= i < s.len() && (#[trigger] s[i]).0.model() == k;
            if i < s.len() - 1 {
                assert(s.drop_last()[i].0.model() == k);
            }
        }
    }
}

pub proof fn lemma_producers_map_contains(s: Seq<(&Material, (ProducerType, Ratio))>, k: MaterialModel)
    ensures
        producers_map_of(s).dom().contains(k) <==> exists|i: int|
            0 <= i < s.len() && (#[trigger] s[i]).0.model() == k,
    decreases s.len(),
{
    if s.len() > 0 {
        lemma_producers_map_contains(s.drop_last(), k);
        if producers_map_of(s).dom().contains(k) && s.last().0.model() != k {
            let i = choose|i: int|
                0 <= i < s.drop_last().len() && (#[trigger] s.drop_last()[i]).0.model() == k;
            assert(s[i].0.model() == k);
        }
        if exists|i: int| 0 <= i < s.len() && (#[trigger] s[i]).0.model() == k {
            let i = choose|i: int| 0 <= i < s.len() && (#[trigger] s[i]).0.model() == k;
            if i < s.len() - 1 {
                assert(s.drop_last()[i].0.model() == k);
            }
        }
    }
}

/// With one entry per identity, the map agrees with each entry.
pub proof fn lemma_raw_map_index(s: Seq<(&Material, Ratio)>, i: int)
    requires
        0 <= i < s.len(),
        forall|p: int, q: int|
            0 <= p < q < s.len() ==> (#[trigger] s[p]).0.model() != (#[trigger] s[q]).0.model(),
    ensures
        raw_map_of(s).dom().contains(s[i].0.model()),
        raw_map_of(s)[s[i].0.model()] == s[i].1@,
    decreases s.len(),
{
    if i < s.len() - 1 {
        lemma_raw_map_index(s.drop_last(), i);
        assert(s.drop_last()[i] == s[i]);
        assert(s[i].0.model() != s.last().0.model());
    }
}

pub proof fn lemma_producers_map_index(s: Seq<(&Material, (ProducerType, Ratio))>, i: int)
    requires
        0 <= i < s.len(),
        forall|p: int, q: int|
            0 <= p < q < s.len() ==> (#[trigger] s[p]).0.model() != (#[trigger] s[q]).0.model(),
    ensures
        producers_map_of(s).dom().contains(s[i].0.model()),
        producers_map_of(s)[s[i].0.model()] == (s[i].1.0, s[i].1.1@),
    decreases s.len(),
{
    if i < s.len() - 1 {
        lemma_producers_map_index(s.drop_last(), i);
        assert(s.drop_last()[i] == s[i]);
        assert(s[i].0.model() != s.last().0.model());
    }
}

/// Updating one entry in place updates the map at its key.
pub proof fn lemma_raw_map_update(s: Seq<(&Material, Ratio)>, i: int, v: Ratio)
    requires
        0 <= i < s.len(),
        forall|p: int, q: int|
            0 <= p < q < s.len() ==> (#[trigger] s[p]).0.model() != (#[trigger] s[q]).0.model(),
    ensures
        forall|r: (&Material, Ratio)|
            r.0.model() == s[i].0.model() && r.1 == v ==> raw_map_of(#[trigger] s.update(i, r))
                == raw_map_of(s).insert(s[i].0.model(), v@),
    decreases s.len(),
{
    assert forall|r: (&Material, Ratio)|
        r.0.model() == s[i].0.model() && r.1 == v implies raw_map_of(#[trigger] s.update(i, r))
        == raw_map_of(s).insert(s[i].0.model(), v@) by {
        let su = s.update(i, r);
        if i == s.len() - 1 {
            assert(su.drop_last() =~= s.drop_last());
            assert(raw_map_of(su) =~= raw_map_of(s).insert(s[i].0.model(), v@));
        } else {
            lemma_raw_map_update(s.drop_last(), i, v);
            assert(su.drop_last() =~= s.drop_last().update(i, r));
            assert(s.drop_last()[i] == s[i]);
            assert(raw_map_of(su.drop_last()) == raw_map_of(s.drop_last()).insert(
                s[i].0.model(),
                v@,
            ));
            assert(s[i].0.model() != s.last().0.model());
            assert(raw_map_of(su) =~= raw_map_of(s).insert(s[i].0.model(), v@));
        }
    }
}

pub proof fn lemma_producers_map_update(
    s: Seq<(&Material, (ProducerType, Ratio))>,
    i: int,
    v: (ProducerType, Ratio),
)
    requires
        0 <= i < s.len(),
        forall|p: int, q: int|
            0 <= p < q < s.len() ==> (#[trigger] s[p]).0.model() != (#[trigger] s[q]).0.model(),
    ensures
        forall|r: (&Material, (ProducerType, Ratio))|
            r.0.model() == s[i].0.model() && r.1 == v ==> producers_map_of(
                #[trigger] s.update(i, r),
            ) == producers_map_of(s).insert(s[i].0.model(), (v.0, v.1@)),
    decreases s.len(),
{
    assert forall|r: (&Material, (ProducerType, Ratio))|
        r.0.model() == s[i].0.model() && r.1 == v implies producers_map_of(
        #[trigger] s.update(i, r),
    ) == producers_map_of(s).insert(s[i].0.model(), (v.0, v.1@)) by {
        let su = s.update(i, r);
        if i == s.len() - 1 {
            assert(su.drop_last() =~= s.drop_last());
            assert(producers_map_of(su) =~= producers_map_of(s).insert(
                s[i].0.model(),
                (v.0, v.1@),
            ));
        } else {
            lemma_producers_map_update(s.drop_last(), i, v);
            assert(su.drop_last() =~= s.drop_last().update(i, r));
            assert(s.drop_last()[i] == s[i]);
            assert(producers_map_of(su.drop_last()) == producers_map_of(s.drop_last()).insert(
                s[i].0.model(),
                (v.0, v.1@),
            ));
            assert(s[i].0.model() != s.last().0.model());
            assert(producers_map_of(su) =~= producers_map_of(s).insert(
                s[i].0.model(),
                (v.0, v.1@),
            ));
        }
    }
}

/// Reading one more entry of a prefix inserts exactly that entry.
pub proof fn lemma_raw_map_take_step(s: Seq<(&Material, Ratio)>, i: int)
    requires
        0 <= i < s.len(),
    ensures
        raw_map_of(s.take(i + 1)) == raw_map_of(s.take(i)).insert(s[i].0.model(), s[i].1@),
{
    assert(s.take(i + 1).drop_last() =~= s.take(i));
    assert(s.take(i + 1).last() == s[i]);
}

pub proof fn lemma_producers_map_take_step(s: Seq<(&Material, (ProducerType, Ratio))>, i: int)
    requires
        0 <= i < s.len(),
    ensures
        producers_map_of(s.take(i + 1)) == producers_map_of(s.take(i)).insert(
            s[i].0.model(),
            (s[i].1.0, s[i].1.1@),
        ),
{
    assert(s.take(i + 1).drop_last() =~= s.take(i));
    assert(s.take(i + 1).last() == s[i]);
}

/// Merging one more contributed key inserts its scaled amount.
pub proof fn lemma_merge_raw_insert(
    acc: Map<MaterialModel, Rat>,
    contribution: Map<MaterialModel, Rat>,
    k: MaterialModel,
    v: Rat,
    scale: Rat,
)
    requires
        !contribution.dom().contains(k),
    ensures
        merge_raw(acc, contribution.insert(k, v), scale) == merge_raw(acc, contribution, scale)
            .insert(k, scaled_add(raw_lookup(acc, k), v, scale)),
        merge_raw_ok(acc, contribution, scale) && scaled_add_ok(raw_lookup(acc, k), v, scale)
            ==> merge_raw_ok(acc, contribution.insert(k, v), scale),
{
    assert(merge_raw(acc, contribution.insert(k, v), scale) =~= merge_raw(
        acc,
        contribution,
        scale,
    ).insert(k, scaled_add(raw_lookup(acc, k), v, scale)));
    if merge_raw_ok(acc, contribution, scale) && scaled_add_ok(raw_lookup(acc, k), v, scale) {
        assert forall|k2: MaterialModel| #[trigger]
            contribution.insert(k, v).dom().contains(k2) implies scaled_add_ok(
            raw_lookup(acc, k2),
            contribution.insert(k, v)[k2],
            scale,
        ) by {
            if k2 != k {
                assert(contribution.dom().contains(k2));
            }
        }
    }
}

pub proof fn lemma_merge_producers_insert(
    acc: Map<MaterialModel, (ProducerType, Rat)>,
    contribution: Map<MaterialModel, (ProducerType, Rat)>,
    k: MaterialModel,
    v: (ProducerType, Rat),
    scale: Rat,
)
    requires
        !contribution.dom().contains(k),
    ensures
        merge_producers(acc, contribution.insert(k, v), scale) == merge_producers(
            acc,
            contribution,
            scale,
        ).insert(
            k,
            if acc.dom().contains(k) {
                (acc[k].0, add_rat(acc[k].1, mul_rat(v.1, scale)))
            } else {
                (v.0, mul_rat(v.1, scale))
            },
        ),
        merge_producers_ok(acc, contribution, scale) && scaled_add_ok(
            producers_lookup(acc, k),
            v.1,
            scale,
        ) ==> merge_producers_ok(acc, contribution.insert(k, v), scale),
{
    assert(merge_producers(acc, contribution.insert(k, v), scale) =~= merge_producers(
        acc,
        contribution,
        scale,
    ).insert(
        k,
        if acc.dom().contains(k) {
            (acc[k].0, add_rat(acc[k].1, mul_rat(v.1, scale)))
        } else {
            (v.0, mul_rat(v.1, scale))
        },
    ));
    if merge_producers_ok(acc, contribution, scale) && scaled_add_ok(
        producers_lookup(acc, k),
        v.1,
        scale,
    ) {
        assert forall|k2: MaterialModel| #[trigger]
            contribution.insert(k, v).dom().contains(k2) implies scaled_add_ok(
            producers_lookup(acc, k2),
            contribution.insert(k, v)[k2].1,
            scale,
        ) by {
            if k2 != k {
                assert(contribution.dom().contains(k2));
            }
        }
    }
}

/// Finds the entry whose key is structurally the same material.
pub fn find_entry<'a, V>(entries: &Vec<(&'a Material, V)>, key: &Material) -> (r: Option<usize>)
    ensures
        match r {
            Some(j) => j < entries@.len() && entries@[j as int].0.model() == key.model(),
            None => forall|i: int|
                0 <= i < entries@.len() ==> (#[trigger] entries@[i]).0.model() != key.model(),
        },
{
    let n = entries.len();
    let mut i: usize = 0;
    while i < n
        invariant
            0 <= i <= n,
            n == entries@.len(),
            forall|j: int| 0 <= j < i ==> (#[trigger] entries@[j]).0.model() != key.model(),
        decreases n - i,
    {
        if entries[i].0.is_same(key) {
            return Some(i);
        }
        i += 1;
    }
    None
}

/// The outcome of one resolution: how many machines of each producer, and
/// how much of each raw material, one unit per second of the target needs.
pub struct TotalRawResult<'a> {
    pub producers: Vec<(&'a Material, (ProducerType, Ratio))>,
    pub total_raw: Vec<(&'a Material, Ratio)>,
}

impl<'a> TotalRawResult<'a> {
    /// The producer association as a map keyed by material identity.
    pub open spec fn producers_map(self) -> Map<MaterialModel, (ProducerType, Rat)> {
        producers_map_of(self.producers@)
    }

    /// The raw-material association as a map keyed by material identity.
    pub open spec fn raw_map(self) -> Map<MaterialModel, Rat> {
        raw_map_of(self.total_raw@)
    }

    pub open spec fn wf(self) -> bool {
        &&& wf_producers_entries(self.producers@)
        &&& wf_raw_entries(self.total_raw@)
    }

    pub fn new(
        producers: Vec<(&'a Material, (ProducerType, Ratio))>,
        total_raw: Vec<(&'a Material, Ratio)>,
    ) -> (r: TotalRawResult<'a>)
        ensures
            r == (TotalRawResult { producers, total_raw }),
    {
        TotalRawResult { producers, total_raw }
    }
}

/// Least common multiple of two positive integers.
pub open spec fn spec_lcm(a: nat, b: nat) -> nat
    recommends
        a > 0,
        b > 0,
{
    (a * b) / spec_gcd(a, b)
}

/// The iterative pairwise least common multiple over a list of positive
/// denominators, `None` when an intermediate product leaves `u64`.
pub open spec fn spec_lcm_fold(s: Seq<u64>, acc: nat) -> Option<nat>
    decreases s.len(),
{
    if s.len() == 0 {
        Some(acc)
    } else if acc * s[0] > u64::MAX {
        None
    } else {
        spec_lcm_fold(s.drop_first(), spec_lcm(acc, s[0] as nat))
    }
}

/// Least common multiple; fails rather than wrap when `a * b` leaves
/// `u64`.
pub fn lcm(a: u64, b: u64) -> (r: Option<u64>)
    requires
        a > 0,
        b > 0,
    ensures
        match r {
            Some(v) => a * b <= u64::MAX && v == spec_lcm(a as nat, b as nat) && v > 0,
            None => a * b > u64::MAX,
        },
{
    match a.checked_mul(b) {
        Some(p) => {
            let g = gcd(a, b);
            proof {
                lemma_gcd_divides(a as nat, b as nat);
                lemma_fundamental_div_mod(a as int, g as int);
                let k = a as int / g as int;
                assert(k >= 1) by (nonlinear_arith)
                    requires g > 0 && g * k == a && a > 0;
                assert(p == g * (k * (b as int))) by (nonlinear_arith)
                    requires p == a * b && a == g * k;
                lemma_div_multiples_vanish(k * (b as int), g as int);
                assert(k * (b as int) >= 1) by (nonlinear_arith)
                    requires k >= 1 && b >= 1;
            }
            Some(p / g)
        },
        None => None,
    }
}

/// Folds `lcm` over a list of positive denominators, starting from one.
pub fn lcm_multiple(numbers: Vec<u64>) -> (r: Option<u64>)
    requires
        forall|i: int| 0 <= i < numbers@.len() ==> numbers@[i] > 0,
    ensures
        match r {
            Some(v) => Some(v as nat) == spec_lcm_fold(numbers@, 1) && v > 0,
            None => spec_lcm_fold(numbers@, 1) is None,
        },
{
    let n = numbers.len();
    let mut acc: u64 = 1;
    proof {
        assert(numbers@.skip(0) =~= numbers@);
    }
    let mut i: usize = 0;
    while i < n
        invariant
            0 <= i <= n,
            n == numbers@.len(),
            forall|j: int| 0 <= j < n ==> numbers@[j] > 0,
            acc > 0,
            spec_lcm_fold(numbers@, 1) == spec_lcm_fold(numbers@.skip(i as int), acc as nat),
        decreases n - i,
    {
        proof {
            assert(numbers@.skip(i as int)[0] == numbers@[i as int]);
            assert(numbers@.skip(i as int).drop_first() =~= numbers@.skip(i + 1));
        }
        acc = match lcm(acc, numbers[i]) {
            Some(v) => v,
            None => {
                return None;
            },
        };
        i += 1;
    }
    proof {
        assert(numbers@.skip(n as int) =~= Seq::<u64>::empty());
    }
    Some(acc)
}

/// The denominators of the producer amounts that take part in the choice
/// of the whole-ratio factor.
pub open spec fn producer_denominators(
    s: Seq<(&Material, (ProducerType, Ratio))>,
    ignore_furnaces: bool,
) -> Seq<u64>
    decreases s.len(),
{
    if s.len() == 0 {
        Seq::empty()
    } else {
        let rest = producer_denominators(s.drop_last(), ignore_furnaces);
        if !ignore_furnaces || s.last().1.0 != ProducerType::Furnace {
            rest.push(s.last().1.1.den)
        } else {
            rest
        }
    }
}

/// The denominators of the raw-material amounts.
pub open spec fn raw_denominators(s: Seq<(&Material, Ratio)>) -> Seq<u64>
    decreases s.len(),
{
    if s.len() == 0 {
        Seq::empty()
    } else {
        raw_denominators(s.drop_last()).push(s.last().1.den)
    }
}

/// The full candidate set of denominators under the exclusion flags.
pub open spec fn all_denominators(
    r: TotalRawResult,
    ignore_furnaces: bool,
    ignore_raw: bool,
) -> Seq<u64> {
    producer_denominators(r.producers@, ignore_furnaces) + if ignore_raw {
        Seq::empty()
    } else {
        raw_denominators(r.total_raw@)
    }
}

/// Whether whole-ratio normalization of `r` stays within `u64`: the
/// iterated lcm of the candidate denominators exists, and scaling every
/// recorded amount by it does not overflow.
pub open spec fn whole_ratio_ok(
    r: TotalRawResult,
    ignore_furnaces: bool,
    ignore_raw: bool,
) -> bool {
    match spec_lcm_fold(all_denominators(r, ignore_furnaces, ignore_raw), 1) {
        None => false,
        Some(f) => {
            &&& forall|i: int|
                0 <= i < r.producers@.len() ==> mul_ok(
                    (#[trigger] r.producers@[i]).1.1@,
                    rat_int(f as int),
                )
            &&& forall|i: int|
                0 <= i < r.total_raw@.len() ==> mul_ok(
                    (#[trigger] r.total_raw@[i]).1@,
                    rat_int(f as int),
                )
        },
    }
}

/// What `whole_ratio` promises: on success the factor is the iterated
/// least common multiple of the candidate denominators, and every entry
/// of both maps — excluded ones included — is multiplied by that factor;
/// on failure the normalization itself overflows `u64`.
pub open spec fn whole_ratio_post<'a, 'b>(
    source: TotalRawResult<'a>,
    ignore_furnaces: bool,
    ignore_raw: bool,
    r: Result<(Ratio, TotalRawResult<'b>), ResolveError>,
) -> bool {
    match r {
        Ok((factor, res)) => {
            &&& whole_ratio_ok(source, ignore_furnaces, ignore_raw)
            &&& factor.wf()
            &&& factor@.den == 1
            &&& factor@.num >= 1
            &&& Some(factor@.num as nat) == spec_lcm_fold(
                all_denominators(source, ignore_furnaces, ignore_raw),
                1,
            )
            &&& res.wf()
            &&& res.producers@.len() == source.producers@.len()
            &&& forall|i: int|
                0 <= i < source.producers@.len() ==> {
                    &&& (#[trigger] res.producers@[i]).0 == source.producers@[i].0
                    &&& res.producers@[i].1.0 == source.producers@[i].1.0
                    &&& res.producers@[i].1.1@ == mul_rat(source.producers@[i].1.1@, factor@)
                }
            &&& res.total_raw@.len() == source.total_raw@.len()
            &&& forall|i: int|
                0 <= i < source.total_raw@.len() ==> {
                    &&& (#[trigger] res.total_raw@[i]).0 == source.total_raw@[i].0
                    &&& res.total_raw@[i].1@ == mul_rat(source.total_raw@[i].1@, factor@)
                }
        },
        Err(e) => {
            &&& !whole_ratio_ok(source, ignore_furnaces, ignore_raw)
            &&& e == ResolveError::ArithmeticOverflow
        },
    }
}

impl<'a> TotalRawResult<'a> {
    /// Rescales this result so that the selected amounts become whole:
    /// the factor is the least common multiple of the candidate
    /// denominators, and every entry of both maps — excluded ones
    /// included — is multiplied by it.
    pub fn whole_ratio(&'a self, ignore_furnaces: bool, ignore_raw: bool) -> (r: Result<
        (Ratio, TotalRawResult<'a>),
        ResolveError,
    >)
        requires
            self.wf(),
        ensures
            whole_ratio_post(*self, ignore_furnaces, ignore_raw, r),
    {
        let pn = self.producers.len();
        let rn = self.total_raw.len();
        let mut denominators: Vec<u64> = Vec::new();
        let mut i: usize = 0;
        while i < pn
            invariant
                0 <= i <= pn,
                pn == self.producers@.len(),
                self.wf(),
                denominators@ == producer_denominators(
                    self.producers@.take(i as int),
                    ignore_furnaces,
                ),
                forall|j: int| 0 <= j < denominators@.len() ==> denominators@[j] > 0,
            decreases pn - i,
        {
            proof {
                assert(self.producers@.take(i + 1).drop_last() =~= self.producers@.take(i as int));
                assert(self.producers@.take(i + 1).last() == self.producers@[i as int]);
            }
            let e = &self.producers[i];
            if !ignore_furnaces || e.1.0 != ProducerType::Furnace {
                denominators.push(e.1.1.den);
            }
            i += 1;
        }
        proof {
            assert(self.producers@.take(pn as int) =~= self.producers@);
        }
        if !ignore_raw {
            let mut j: usize = 0;
            while j < rn
                invariant
                    0 <= j <= rn,
                    rn == self.total_raw@.len(),
                    self.wf(),
                    denominators@ == producer_denominators(self.producers@, ignore_furnaces)
                        + raw_denominators(self.total_raw@.take(j as int)),
                    forall|p: int| 0 <= p < denominators@.len() ==> denominators@[p] > 0,
                decreases rn - j,
            {
                proof {
                    assert(self.total_raw@.take(j + 1).drop_last() =~= self.total_raw@.take(
                        j as int,
                    ));
                    assert(self.total_raw@.take(j + 1).last() == self.total_raw@[j as int]);
                }
                let e = &self.total_raw[j];
                denominators.push(e.1.den);
                proof {
                    assert(denominators@ =~= producer_denominators(
                        self.producers@,
                        ignore_furnaces,
                    ) + raw_denominators(self.total_raw@.take(j + 1)));
                }
                j += 1;
            }
            proof {
                assert(self.total_raw@.take(rn as int) =~= self.total_raw@);
            }
        } else {
            proof {
                assert(denominators@ =~= all_denominators(*self, ignore_furnaces, ignore_raw));
            }
        }
        proof {
            assert(denominators@ =~= all_denominators(*self, ignore_furnaces, ignore_raw));
        }
        let factor_num = match lcm_multiple(denominators) {
            Some(v) => v,
            None => {
                return Err(ResolveError::ArithmeticOverflow);
            },
        };
        let factor = Ratio::from_int(factor_num);
        let mut new_producers: Vec<(&'a Material, (ProducerType, Ratio))> = Vec::new();
        let mut new_raw: Vec<(&'a Material, Ratio)> = Vec::new();
        let mut i2: usize = 0;
        while i2 < pn
            invariant
                0 <= i2 <= pn,
                pn == self.producers@.len(),
                self.wf(),
                factor.wf(),
                factor@ == rat_int(factor_num as int),
                Some(factor_num as nat) == spec_lcm_fold(
                    all_denominators(*self, ignore_furnaces, ignore_raw),
                    1,
                ),
                new_producers@.len() == i2,
                forall|p: int|
                    0 <= p < i2 ==> {
                        &&& (#[trigger] new_producers@[p]).0 == self.producers@[p].0
                        &&& new_producers@[p].1.0 == self.producers@[p].1.0
                        &&& new_producers@[p].1.1@ == mul_rat(self.producers@[p].1.1@, factor@)
                        &&& new_producers@[p].1.1.wf()
                        &&& mul_ok(self.producers@[p].1.1@, factor@)
                    },
            decreases pn - i2,
        {
            let e = &self.producers[i2];
            let scaled = match e.1.1.mul(factor) {
                Ok(v) => v,
                Err(_) => {
                    proof {
                        assert(!whole_ratio_ok(*self, ignore_furnaces, ignore_raw)) by {
                            if whole_ratio_ok(*self, ignore_furnaces, ignore_raw) {
                                assert(mul_ok(
                                    self.producers@[i2 as int].1.1@,
                                    rat_int(factor_num as int),
                                ));
                            }
                        }
                    }
                    return Err(ResolveError::ArithmeticOverflow);
                },
            };
            let ghost pre = new_producers@;
            new_producers.push((e.0, (e.1.0, scaled)));
            proof {
                assert forall|p: int| 0 <= p < i2 + 1 implies {
                    &&& (#[trigger] new_producers@[p]).0 == self.producers@[p].0
                    &&& new_producers@[p].1.0 == self.producers@[p].1.0
                    &&& new_producers@[p].1.1@ == mul_rat(self.producers@[p].1.1@, factor@)
                    &&& new_producers@[p].1.1.wf()
                    &&& mul_ok(self.producers@[p].1.1@, factor@)
                } by {
                    if p < i2 {
                        assert(new_producers@[p] == pre[p]);
                    } else {
                        assert(new_producers@[p] == (e.0, (e.1.0, scaled)));
                    }
                }
            }
            i2 += 1;
        }
        let mut j2: usize = 0;
        while j2 < rn
            invariant
                0 <= j2 <= rn,
                rn == self.total_raw@.len(),
                self.wf(),
                factor.wf(),
                factor@ == rat_int(factor_num as int),
                Some(factor_num as nat) == spec_lcm_fold(
                    all_denominators(*self, ignore_furnaces, ignore_raw),
                    1,
                ),
                new_raw@.len() == j2,
                forall|p: int|
                    0 <= p < j2 ==> {
                        &&& (#[trigger] new_raw@[p]).0 == self.total_raw@[p].0
                        &&& new_raw@[p].1@ == mul_rat(self.total_raw@[p].1@, factor@)
                        &&& new_raw@[p].1.wf()
                        &&& mul_ok(self.total_raw@[p].1@, factor@)
                    },
            decreases rn - j2,
        {
            let e = &self.total_raw[j2];
            let scaled = match e.1.mul(factor) {
                Ok(v) => v,
                Err(_) => {
                    proof {
                        assert(!whole_ratio_ok(*self, ignore_furnaces, ignore_raw)) by {
                            if whole_ratio_ok(*self, ignore_furnaces, ignore_raw) {
                                assert(mul_ok(
                                    self.total_raw@[j2 as int].1@,
                                    rat_int(factor_num as int),
                                ));
                            }
                        }
                    }
                    return Err(ResolveError::ArithmeticOverflow);
                },
            };
            let ghost pre = new_raw@;
            new_raw.push((e.0, scaled));
            proof {
                assert forall|p: int| 0 <= p < j2 + 1 implies {
                    &&& (#[trigger] new_raw@[p]).0 == self.total_raw@[p].0
                    &&& new_raw@[p].1@ == mul_rat(self.total_raw@[p].1@, factor@)
                    &&& new_raw@[p].1.wf()
                    &&& mul_ok(self.total_raw@[p].1@, factor@)
                } by {
                    if p < j2 {
                        assert(new_raw@[p] == pre[p]);
                    } else {
                        assert(new_raw@[p] == (e.0, scaled));
                    }
                }
            }
            j2 += 1;
        }
        proof {
            assert forall|p: int, q: int|
                0 <= p < q < new_producers@.len() implies (#[trigger] new_producers@[p]).0.model()
                != (#[trigger] new_producers@[q]).0.model() by {
                assert(self.producers@[p].0.model() != self.producers@[q].0.model());
            }
            assert forall|p: int, q: int|
                0 <= p < q < new_raw@.len() implies (#[trigger] new_raw@[p]).0.model() != (
            #[trigger] new_raw@[q]).0.model() by {
                assert(self.total_raw@[p].0.model() != self.total_raw@[q].0.model());
            }
        }
        proof {
            assert(whole_ratio_ok(*self, ignore_furnaces, ignore_raw)) by {
                assert forall|p: int| 0 <= p < self.producers@.len() implies mul_ok(
                    (#[trigger] self.producers@[p]).1.1@,
                    rat_int(factor_num as int),
                ) by {
                    assert(new_producers@[p].1.1@ == mul_rat(self.producers@[p].1.1@, factor@));
                }
                assert forall|p: int| 0 <= p < self.total_raw@.len() implies mul_ok(
                    (#[trigger] self.total_raw@[p]).1@,
                    rat_int(factor_num as int),
                ) by {
                    assert(new_raw@[p].1@ == mul_rat(self.total_raw@[p].1@, factor@));
                }
            }
        }
        Ok((factor, TotalRawResult::new(new_producers, new_raw)))
    }
}

} // verus!
