//! Block storage in the cloud.
pub mod digitalocean;

use vstd::prelude::*;

verus! {

/// Information about a cloud volume.
#[derive(Debug, PartialEq, Eq)]
pub struct CloudVolumeInfo {
    pub id: String,
    pub name: String,
    pub size_bytes: u64,
}

} // verus!
