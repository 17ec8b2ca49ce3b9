//! Raw block devices and the read-only ownership classification used during
//! startup discovery.

use vstd::prelude::*;

use crate::mdv::MdvEntry;
use crate::types::{DevUuid, PoolUuid};

verus! {

/// What a device's fixed-location on-disk signature says.
#[derive(Debug)]
pub enum DevContent {
    /// No signature: the device is free to claim.
    Unclaimed,
    /// Our signature: the pool and device UUIDs it names, and the stored
    /// copy of the pool-level metadata (the pool's name).
    Stratis { pool_uuid: PoolUuid, dev_uuid: DevUuid, pool_name: String },
    /// A signature of some other system, or an unrecognized one: the device
    /// must never be claimed.
    Foreign,
}

/// A raw block device as the discovery scan hands it in: an identifier
/// standing for its device node, its size in sectors, what its signature
/// says, and the image of the metadata-volume directory it hosts (empty on
/// a device that hosts none).
#[derive(Debug)]
pub struct RawDevice {
    pub id: u64,
    pub size: u64,
    pub content: DevContent,
    pub mdv_files: Vec<MdvEntry>,
}

/// Classification of a single block device: ours (with the pool and device
/// UUIDs its signature names), unowned, or another system's.
#[derive(Debug, PartialEq, Eq, Structural)]
pub enum DevOwnership {
    Ours(PoolUuid, DevUuid),
    Unowned,
    Theirs,
}

/// What classification a device's signature dictates.
pub open spec fn spec_classify(device: RawDevice) -> DevOwnership {
    match device.content {
        DevContent::Unclaimed => DevOwnership::Unowned,
        DevContent::Stratis { pool_uuid, dev_uuid, pool_name: _ } => DevOwnership::Ours(
            pool_uuid,
            dev_uuid,
        ),
        DevContent::Foreign => DevOwnership::Theirs,
    }
}

/// Deterministic, read-only ownership classification of a block device,
/// from its on-disk signature alone.
pub fn classify(device: &RawDevice) -> (r: DevOwnership)
    ensures
        r == spec_classify(*device),
{
    match &device.content {
        DevContent::Unclaimed => DevOwnership::Unowned,
        DevContent::Stratis { pool_uuid, dev_uuid, pool_name: _ } => DevOwnership::Ours(
            *pool_uuid,
            *dev_uuid,
        ),
        DevContent::Foreign => DevOwnership::Theirs,
    }
}

/// The device's signature claims it for this pool.
pub open spec fn owned_by(d: RawDevice, pool: u128) -> bool {
    match d.content {
        DevContent::Stratis { pool_uuid, dev_uuid: _, pool_name: _ } => pool_uuid == pool,
        _ => false,
    }
}

/// The device UUID a signed device carries (zero on an unsigned one).
pub open spec fn spec_dev_uuid(d: RawDevice) -> u128 {
    match d.content {
        DevContent::Stratis { pool_uuid: _, dev_uuid, pool_name: _ } => dev_uuid,
        _ => 0,
    }
}

/// The stored pool name a signed device carries (empty on an unsigned one).
pub open spec fn spec_stored_name(d: RawDevice) -> Seq<char> {
    match d.content {
        DevContent::Stratis { pool_uuid: _, dev_uuid: _, pool_name } => pool_name@,
        _ => Seq::empty(),
    }
}

/// Mathematical record of one claimed device, as a pool tracks it.
pub ghost struct DevRecord {
    pub id: u64,
    pub size: u64,
    pub dev_uuid: u128,
    pub stored_name: Seq<char>,
}

/// The record a signed device corresponds to.
pub open spec fn dev_record_of(d: RawDevice) -> DevRecord {
    DevRecord {
        id: d.id,
        size: d.size,
        dev_uuid: spec_dev_uuid(d),
        stored_name: spec_stored_name(d),
    }
}

/// Read the device UUID off a device's signature (zero when unsigned).
pub fn dev_uuid_of(d: &RawDevice) -> (r: DevUuid)
    ensures
        r == spec_dev_uuid(*d),
{
    match &d.content {
        DevContent::Stratis { pool_uuid: _, dev_uuid, pool_name: _ } => *dev_uuid,
        _ => 0,
    }
}

} // verus!
