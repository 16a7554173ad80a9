//! A catalog entry.

use super::fs_meta::FsMeta;
use vstd::prelude::*;

verus! {

/// One file of a store: its path below the root, and its fingerprint.
#[derive(Debug)]
pub struct FsInfo {
    pub fs_path: String,
    pub meta: FsMeta,
}

} // verus!
