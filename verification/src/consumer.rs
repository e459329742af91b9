//! The pluggable interface the registry scan feeds records into.

use vstd::prelude::*;

use crate::api::VersionsEntry;

verus! {

/// A consumer of popularity records: takes the crate's name and its
/// versions-table row, and says whether the scan should continue.
pub trait CrateConsumer {
    fn consume(&mut self, crate_name: &str, versions_entry: VersionsEntry) -> Result<bool, String>;
}

} // verus!
