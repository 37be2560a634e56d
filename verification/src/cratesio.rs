//! The record shape of the secondary crate-lookup utility.

use vstd::prelude::*;

verus! {

/// One crate as reported by the package registry.
pub struct CrateInfo {
    pub name: String,
    pub version: String,
    pub description: Option<String>,
    pub downloads: u64,
    pub repository: Option<String>,
    pub documentation: Option<String>,
    pub homepage: Option<String>,
}

} // verus!
