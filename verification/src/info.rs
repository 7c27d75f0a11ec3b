//! What the service reports about itself.

use vstd::prelude::*;

verus! {

/// The fields a server advertises about the package it was built from; the
/// boundary fills them in from its build-time manifest and serves them on
/// its info endpoint.
#[derive(Debug, PartialEq)]
pub struct CrateInfo {
    pub name: String,
    pub authors: Vec<String>,
    pub version: String,
    pub description: String,
    pub license: String,
    pub repository: String,
}

} // verus!
