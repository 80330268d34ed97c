use vstd::prelude::*;

verus! {

/// Errors surfaced while resolving a recipe or normalizing a result.
#[derive(Clone, Copy, Debug, PartialEq, Eq, Structural)]
pub enum ResolveError {
    /// The requested material name is not present in the catalog.
    UnknownMaterial,
    /// A fixed-width rational operation would exceed `u64` bounds.
    ArithmeticOverflow,
}

/// Errors surfaced while building a catalog from parsed recipe records.
#[derive(Debug, PartialEq, Eq)]
pub enum CatalogError {
    /// A record references a material absent from the catalog, names an
    /// invalid producer, or declares a non-positive batch size or input
    /// quantity; the offending name is carried along.
    MalformedCatalog(String),
    /// The recipe records nest deeper than any acyclic catalog can,
    /// so the records must contain a dependency cycle.
    CyclicRecipe,
}

} // verus!
