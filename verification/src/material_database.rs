//! The material catalog: lookup of a target material by case-insensitive
//! name, handing back its full resolution.

use vstd::prelude::*;

use crate::errors::ResolveError;
use crate::material::{resolve_post, Material};
use crate::strutil::{eq_ignore_ascii_case, lower_seq};
use crate::total_raw_result::TotalRawResult;
use crate::user_settings::UserSettings;

verus! {

/// Whether a material answers to a query, ignoring ASCII letter case.
pub open spec fn matches_name(m: Material, query: Seq<char>) -> bool {
    lower_seq(m.name@) == lower_seq(query)
}

/// Position `i` holds the first material that answers to the query.
pub open spec fn first_match_at(s: Seq<Material>, query: Seq<char>, i: int) -> bool {
    &&& 0 <= i < s.len()
    &&& matches_name(s[i], query)
    &&& forall|j: int| 0 <= j < i ==> !matches_name(#[trigger] s[j], query)
}

/// The catalog of every known material.
pub struct MaterialDatabase {
    pub materials: Vec<Material>,
}

impl MaterialDatabase {
    /// Well-formedness: every cataloged material is a well-formed tree.
    pub open spec fn wf(self) -> bool {
        forall|i: int| 0 <= i < self.materials@.len() ==> (#[trigger] self.materials@[i]).wf()
    }

    pub fn new(materials: Vec<Material>) -> (r: Self)
        ensures
            r == (MaterialDatabase { materials }),
    {
        MaterialDatabase { materials }
    }

    /// Resolves the first material whose name matches `material_name`
    /// ignoring ASCII letter case, or reports that none is known.
    pub fn lookup_result<'a>(
        &'a self,
        material_name: &str,
        user_settings: &'a UserSettings,
    ) -> (r: Result<TotalRawResult<'a>, ResolveError>)
        requires
            self.wf(),
        ensures
            match r {
                Err(ResolveError::UnknownMaterial) => forall|i: int|
                    0 <= i < self.materials@.len() ==> !matches_name(
                        #[trigger] self.materials@[i],
                        material_name@,
                    ),
                _ => exists|i: int|
                    #[trigger] first_match_at(self.materials@, material_name@, i)
                        && resolve_post(self.materials@[i].model(), *user_settings, r),
            },
    {
        let n = self.materials.len();
        let mut i: usize = 0;
        while i < n
            invariant
                0 <= i <= n,
                n == self.materials@.len(),
                self.wf(),
                forall|j: int| 0 <= j < i ==> !matches_name(
                    #[trigger] self.materials@[j],
                    material_name@,
                ),
            decreases n - i,
        {
            if eq_ignore_ascii_case(self.materials[i].name.as_str(), material_name) {
                let r = self.materials[i].total_raw_result(user_settings);
                proof {
                    assert(first_match_at(self.materials@, material_name@, i as int));
                }
                return r;
            }
            i += 1;
        }
        Err(ResolveError::UnknownMaterial)
    }
}

} // verus!
