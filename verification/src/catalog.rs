//! Catalog construction from plain recipe records, mirroring the layout
//! of the recipe file: a list of raw material names and a list of
//! composite records whose resources reference other records by name.

use vstd::prelude::*;

use crate::enums::ProducerType;
use crate::errors::CatalogError;
use crate::material::{wf_model, Material};
use crate::ratio::Ratio;
use crate::recipe::Recipe;
use crate::strutil::str_eq;

verus! {

/// One composite-material record of the recipe file: name, producer
/// class, resources as (name, quantity-per-batch) pairs, batch size and
/// craft time.
pub struct MaterialRecord {
    pub name: String,
    pub producer: String,
    pub resources: Vec<(String, Ratio)>,
    pub amount: Ratio,
    pub time: Ratio,
}

/// Well-formedness of one record: every fraction reduced.
pub open spec fn wf_record(r: MaterialRecord) -> bool {
    &&& r.amount.wf()
    &&& r.time.wf()
    &&& forall|i: int| 0 <= i < r.resources@.len() ==> (#[trigger] r.resources@[i]).1.wf()
}

/// The producer class named by a producer string.
pub open spec fn spec_producer_type(s: Seq<char>) -> Option<ProducerType> {
    if s == "Assembling Machine"@ {
        Some(ProducerType::AssemblingMachine)
    } else if s == "Furnace"@ {
        Some(ProducerType::Furnace)
    } else if s == "Chemical Plant"@ {
        Some(ProducerType::ChemicalPlant)
    } else if s == "Rocket Silo"@ {
        Some(ProducerType::RocketSilo)
    } else {
        None
    }
}

/// Parses a producer string into its producer class.
pub fn get_producer_type(s: &str) -> (r: Option<ProducerType>)
    ensures
        r == spec_producer_type(s@),
{
    if str_eq(s, "Assembling Machine") {
        Some(ProducerType::AssemblingMachine)
    } else if str_eq(s, "Furnace") {
        Some(ProducerType::Furnace)
    } else if str_eq(s, "Chemical Plant") {
        Some(ProducerType::ChemicalPlant)
    } else if str_eq(s, "Rocket Silo") {
        Some(ProducerType::RocketSilo)
    } else {
        None
    }
}

/// A record whose producer is valid, whose batch size and quantities are
/// positive, and whose every resource is a listed raw material, builds
/// without error.
pub open spec fn resolves_shallowly(record: MaterialRecord, raw_materials: Seq<Material>) -> bool {
    &&& spec_producer_type(record.producer@) is Some
    &&& record.amount@.num > 0
    &&& forall|i: int|
        0 <= i < record.resources@.len() ==> {
            &&& (#[trigger] record.resources@[i]).1@.num > 0
            &&& exists|j: int|
                0 <= j < raw_materials.len() && (#[trigger] raw_materials[j]).name@
                    == record.resources@[i].0@
        }
}

/// Builds the material tree of one record, resolving each resource
/// against the raw materials and the other records by exact name, with a
/// recursion budget that only a cyclic record set can exhaust.
pub fn parse_material(
    unparsed_material: &MaterialRecord,
    raw_materials: &Vec<Material>,
    unparsed_materials: &Vec<MaterialRecord>,
    depth: u64,
) -> (r: Result<Material, CatalogError>)
    requires
        wf_record(*unparsed_material),
        forall|i: int| 0 <= i < raw_materials@.len() ==> (#[trigger] raw_materials@[i]).wf(),
        forall|i: int|
            0 <= i < raw_materials@.len() ==> (#[trigger] raw_materials@[i]).model().is_raw(),
        forall|i: int| 0 <= i < unparsed_materials@.len() ==> wf_record(
            #[trigger] unparsed_materials@[i],
        ),
    ensures
        match r {
            Ok(m) => {
                &&& m.wf()
                &&& m.model().name == unparsed_material.name@
                &&& m.model().producer_type == spec_producer_type(unparsed_material.producer@)
                &&& m.model().amount == unparsed_material.amount@
                &&& m.model().time == unparsed_material.time@
                &&& m.model().items.len() == unparsed_material.resources@.len()
                &&& forall|i: int|
                    0 <= i < unparsed_material.resources@.len() ==> {
                        &&& (#[trigger] m.model().items[i]).1
                            == unparsed_material.resources@[i].1@
                        &&& m.model().items[i].0.name == unparsed_material.resources@[i].0@
                    }
            },
            Err(_) => !resolves_shallowly(*unparsed_material, raw_materials@) || depth == 0,
        },
    decreases depth,
{
    let rn = unparsed_material.resources.len();
    let mut recipe_materials: Vec<(Material, Ratio)> = Vec::new();
    let mut i: usize = 0;
    while i < rn
        invariant
            0 <= i <= rn,
            rn == unparsed_material.resources@.len(),
            wf_record(*unparsed_material),
            forall|p: int| 0 <= p < raw_materials@.len() ==> (#[trigger] raw_materials@[p]).wf(),
            forall|p: int|
                0 <= p < raw_materials@.len() ==> (#[trigger] raw_materials@[p]).model().is_raw(),
            forall|p: int| 0 <= p < unparsed_materials@.len() ==> wf_record(
                #[trigger] unparsed_materials@[p],
            ),
            recipe_materials@.len() == i,
            forall|p: int|
                0 <= p < i ==> {
                    &&& (#[trigger] recipe_materials@[p]).0.wf()
                    &&& recipe_materials@[p].1 == unparsed_material.resources@[p].1
                    &&& recipe_materials@[p].1@.num > 0
                    &&& recipe_materials@[p].0.model().name == unparsed_material.resources@[p].0@
                },
        decreases rn - i,
    {
        let resource_name = &unparsed_material.resources[i].0;
        let quantity = unparsed_material.resources[i].1;
        if quantity.num == 0 {
            proof {
                assert(!resolves_shallowly(*unparsed_material, raw_materials@)) by {
                    if resolves_shallowly(*unparsed_material, raw_materials@) {
                        assert(unparsed_material.resources@[i as int].1@.num > 0);
                    }
                }
            }
            return Err(CatalogError::MalformedCatalog(resource_name.clone()));
        }
        let resource_material: Material;
        match find_material_by_name(raw_materials, resource_name.as_str()) {
            Some(j) => {
                resource_material = Material::raw(raw_materials[j].name.as_str());
            },
            None => {
                proof {
                    assert(!resolves_shallowly(*unparsed_material, raw_materials@)) by {
                        if resolves_shallowly(*unparsed_material, raw_materials@) {
                            let j = choose|j: int|
                                0 <= j < raw_materials@.len() && (
                                #[trigger] raw_materials@[j]).name@
                                    == unparsed_material.resources@[i as int].0@;
                            assert(raw_materials@[j].name@ == resource_name@);
                        }
                    }
                }
                match find_record_by_name(unparsed_materials, resource_name.as_str()) {
                    Some(j) => {
                        if depth == 0 {
                            return Err(CatalogError::CyclicRecipe);
                        }
                        match parse_material(
                            &unparsed_materials[j],
                            raw_materials,
                            unparsed_materials,
                            depth - 1,
                        ) {
                            Ok(m) => {
                                resource_material = m;
                            },
                            Err(e) => {
                                return Err(e);
                            },
                        }
                    },
                    None => {
                        return Err(CatalogError::MalformedCatalog(resource_name.clone()));
                    },
                }
            },
        }
        recipe_materials.push((resource_material, quantity));
        i += 1;
    }
    let produced_in = match get_producer_type(unparsed_material.producer.as_str()) {
        Some(p) => p,
        None => {
            return Err(CatalogError::MalformedCatalog(unparsed_material.producer.clone()));
        },
    };
    if unparsed_material.amount.num == 0 {
        return Err(CatalogError::MalformedCatalog(unparsed_material.name.clone()));
    }
    let recipe = Recipe::new(
        Some(produced_in),
        recipe_materials,
        unparsed_material.time,
        unparsed_material.amount,
    );
    let m = Material::non_raw(unparsed_material.name.as_str(), recipe);
    proof {
        crate::material::lemma_items_model(m.recipe.items@);
        assert(wf_model(m.model()));
    }
    Ok(m)
}

/// The first raw material with exactly this name.
fn find_material_by_name(materials: &Vec<Material>, name: &str) -> (r: Option<usize>)
    ensures
        match r {
            Some(j) => j < materials@.len() && materials@[j as int].name@ == name@,
            None => forall|i: int|
                0 <= i < materials@.len() ==> (#[trigger] materials@[i]).name@ != name@,
        },
{
    let n = materials.len();
    let mut i: usize = 0;
    while i < n
        invariant
            0 <= i <= n,
            n == materials@.len(),
            forall|j: int| 0 <= j < i ==> (#[trigger] materials@[j]).name@ != name@,
        decreases n - i,
    {
        if str_eq(materials[i].name.as_str(), name) {
            return Some(i);
        }
        i += 1;
    }
    None
}

/// The first record with exactly this name.
fn find_record_by_name(records: &Vec<MaterialRecord>, name: &str) -> (r: Option<usize>)
    ensures
        match r {
            Some(j) => j < records@.len() && records@[j as int].name@ == name@,
            None => forall|i: int|
                0 <= i < records@.len() ==> (#[trigger] records@[i]).name@ != name@,
        },
{
    let n = records.len();
    let mut i: usize = 0;
    while i < n
        invariant
            0 <= i <= n,
            n == records@.len(),
            forall|j: int| 0 <= j < i ==> (#[trigger] records@[j]).name@ != name@,
        decreases n - i,
    {
        if str_eq(records[i].name.as_str(), name) {
            return Some(i);
        }
        i += 1;
    }
    None
}

/// A record whose producer is valid, whose batch size and quantities are
/// positive, and whose every resource is one of the listed raw names,
/// builds without error.
pub open spec fn resolves_from_raw_names(record: MaterialRecord, raw_names: Seq<String>) -> bool {
    &&& spec_producer_type(record.producer@) is Some
    &&& record.amount@.num > 0
    &&& forall|i: int|
        0 <= i < record.resources@.len() ==> {
            &&& (#[trigger] record.resources@[i]).1@.num > 0
            &&& exists|j: int|
                0 <= j < raw_names.len() && (#[trigger] raw_names[j])@
                    == record.resources@[i].0@
        }
}

/// Builds the catalog in the order of the recipe file: every raw material
/// first, then every composite record's tree.
pub fn parse_materials_json(raw: Vec<String>, non_raw: Vec<MaterialRecord>) -> (r: Result<
    Vec<Material>,
    CatalogError,
>)
    requires
        forall|i: int| 0 <= i < non_raw@.len() ==> wf_record(#[trigger] non_raw@[i]),
    ensures
        match r {
            Ok(materials) => {
                &&& materials@.len() == raw@.len() + non_raw@.len()
                &&& forall|i: int|
                    0 <= i < raw@.len() ==> {
                        &&& (#[trigger] materials@[i]).wf()
                        &&& materials@[i].model().is_raw()
                        &&& materials@[i].model().name == raw@[i]@
                    }
                &&& forall|j: int|
                    0 <= j < non_raw@.len() ==> {
                        &&& (#[trigger] materials@[raw@.len() + j]).wf()
                        &&& materials@[raw@.len() + j].model().name == non_raw@[j].name@
                    }
            },
            Err(_) => !forall|j: int|
                0 <= j < non_raw@.len() ==> resolves_from_raw_names(
                    #[trigger] non_raw@[j],
                    raw@,
                ),
        },
{
    let mut materials: Vec<Material> = Vec::new();
    let mut raw_materials: Vec<Material> = Vec::new();
    let rn = raw.len();
    let mut i: usize = 0;
    while i < rn
        invariant
            0 <= i <= rn,
            rn == raw@.len(),
            materials@.len() == i,
            raw_materials@.len() == i,
            forall|p: int|
                0 <= p < i ==> {
                    &&& (#[trigger] materials@[p]).wf()
                    &&& materials@[p].model().is_raw()
                    &&& materials@[p].model().name == raw@[p]@
                },
            forall|p: int|
                0 <= p < i ==> {
                    &&& (#[trigger] raw_materials@[p]).wf()
                    &&& raw_materials@[p].model().is_raw()
                    &&& raw_materials@[p].model().name == raw@[p]@
                },
        decreases rn - i,
    {
        materials.push(Material::raw(raw[i].as_str()));
        raw_materials.push(Material::raw(raw[i].as_str()));
        i += 1;
    }
    let nn = non_raw.len();
    let budget = nn as u64;
    let mut j: usize = 0;
    while j < nn
        invariant
            0 <= j <= nn,
            nn == non_raw@.len(),
            rn == raw@.len(),
            budget == nn as u64,
            raw_materials@.len() == rn,
            forall|p: int|
                0 <= p < rn ==> {
                    &&& (#[trigger] raw_materials@[p]).wf()
                    &&& raw_materials@[p].model().is_raw()
                    &&& raw_materials@[p].model().name == raw@[p]@
                },
            forall|p: int| 0 <= p < nn ==> wf_record(#[trigger] non_raw@[p]),
            materials@.len() == rn + j,
            forall|p: int|
                0 <= p < rn ==> {
                    &&& (#[trigger] materials@[p]).wf()
                    &&& materials@[p].model().is_raw()
                    &&& materials@[p].model().name == raw@[p]@
                },
            forall|p: int|
                rn <= p < rn + j ==> {
                    &&& (#[trigger] materials@[p]).wf()
                    &&& materials@[p].model().name == non_raw@[p - rn].name@
                },
        decreases nn - j,
    {
        match parse_material(&non_raw[j], &raw_materials, &non_raw, budget) {
            Ok(m) => {
                materials.push(m);
            },
            Err(e) => {
                proof {
                    assert(!resolves_shallowly(non_raw@[j as int], raw_materials@));
                    if resolves_from_raw_names(non_raw@[j as int], raw@) {
                        assert(resolves_shallowly(non_raw@[j as int], raw_materials@)) by {
                            assert forall|i: int|
                                0 <= i < non_raw@[j as int].resources@.len() implies {
                                &&& (#[trigger] non_raw@[j as int].resources@[i]).1@.num > 0
                                &&& exists|p: int|
                                    0 <= p < raw_materials@.len() && (
                                    #[trigger] raw_materials@[p]).name@
                                        == non_raw@[j as int].resources@[i].0@
                            } by {
                                let p = choose|p: int|
                                    0 <= p < raw@.len() && (#[trigger] raw@[p])@
                                        == non_raw@[j as int].resources@[i].0@;
                                assert(raw_materials@[p].name@
                                    == non_raw@[j as int].resources@[i].0@);
                            }
                        }
                    }
                }
                return Err(e);
            },
        }
        j += 1;
    }
    Ok(materials)
}

} // verus!
