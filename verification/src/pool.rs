//! A pool: a named, UUID-identified aggregation of claimed block devices,
//! with one metadata volume persisting its filesystems' metadata.

use vstd::prelude::*;

use crate::blockdev::{
    classify, dev_record_of, dev_uuid_of, owned_by, spec_classify, spec_dev_uuid,
    spec_stored_name, DevContent, DevOwnership, DevRecord, RawDevice,
};
use crate::errors::{is_engine_err, EngineError, EngineResult, ErrorEnum};
use crate::mdv::{
    committed_of, lists_committed, temps_of, wf_entries, FilesystemSave, FsSaveView, MdvView,
    MetadataVol,
};
use crate::table::{HasName, HasUuid};
use crate::types::{FilesystemUuid, PoolUuid, Redundancy, UuidGen};

verus! {

/// Mathematical image of one pool.
pub ghost struct PoolView {
    pub uuid: u128,
    pub name: Seq<char>,
    pub devs: Seq<DevRecord>,
    pub fs: MdvView,
    pub write_fails: bool,
}

/// The in-memory representation of one set-up pool.
#[derive(Debug)]
pub struct StratPool {
    name: String,
    pool_uuid: PoolUuid,
    block_devs: Vec<RawDevice>,
    redundancy: Redundancy,
    mdv: MetadataVol,
    write_fails: bool,
}

impl View for StratPool {
    type V = PoolView;

    closed spec fn view(&self) -> PoolView {
        PoolView {
            uuid: self.pool_uuid,
            name: self.name@,
            devs: self.block_devs@.map(|i: int, d: RawDevice| dev_record_of(d)),
            fs: self.mdv@,
            write_fails: self.write_fails,
        }
    }
}

/// Every device is unowned, so a pool may claim them without force.
pub open spec fn all_unowned(devs: Seq<RawDevice>) -> bool {
    forall|i: int| 0 <= i < devs.len() ==> spec_classify(#[trigger] devs[i]) == DevOwnership::Unowned
}

/// A device group that can be set up as a pool: non-empty, every device
/// signed for the pool, and no two devices sharing a device UUID.
pub open spec fn valid_pool_group(pool: u128, devs: Seq<RawDevice>) -> bool {
    &&& devs.len() > 0
    &&& forall|i: int| 0 <= i < devs.len() ==> owned_by(#[trigger] devs[i], pool)
    &&& forall|i: int, j: int| 0 <= i < j < devs.len()
        ==> spec_dev_uuid(#[trigger] devs[i]) != spec_dev_uuid(#[trigger] devs[j])
}

impl HasUuid for StratPool {
    open spec fn spec_uuid(&self) -> u128 {
        self@.uuid
    }

    fn uuid(&self) -> (r: PoolUuid)
        ensures
            r == self.spec_uuid(),
    {
        self.pool_uuid
    }
}

impl HasName for StratPool {
    open spec fn spec_name(&self) -> Seq<char> {
        self@.name
    }

    fn name(&self) -> (r: &str)
        ensures
            r@ == self.spec_name(),
    {
        self.name.as_str()
    }
}

impl StratPool {
    /// Internal consistency: the devices form a valid group for this pool
    /// with their hosted metadata images already unloaded, and the metadata
    /// volume is well-formed and belongs to this pool.
    pub closed spec fn wf(self) -> bool {
        &&& valid_pool_group(self.pool_uuid, self.block_devs@)
        &&& forall|i: int| 0 <= i < self.block_devs@.len()
            ==> (#[trigger] self.block_devs@[i]).mdv_files@.len() == 0
        &&& self.mdv.wf()
        &&& self.mdv@.pool == self.pool_uuid
    }

    /// Initialize a new pool: claim the raw devices (each must be unowned
    /// unless `force` is given), sign each with a fresh device UUID and the
    /// pool's name, and format a fresh metadata volume.
    pub fn initialize(
        name: &str,
        devices: Vec<RawDevice>,
        redundancy: Redundancy,
        force: bool,
        gen: &mut UuidGen,
    ) -> (r: EngineResult<StratPool>)
        requires
            old(gen).spec_next() + devices@.len() + 1 <= u128::MAX,
        ensures
            (r is Ok) == (devices@.len() > 0 && (force || all_unowned(devices@))),
            r is Err ==> *final(gen) == *old(gen),
            r is Err ==> is_engine_err(r, ErrorEnum::Invalid),
            r matches Ok(p) ==> {
                &&& p.wf()
                &&& p@.uuid == old(gen).spec_next()
                &&& p@.name == name@
                &&& p@.devs.len() == devices@.len()
                &&& forall|k: int| 0 <= k < p@.devs.len()
                    ==> (#[trigger] p@.devs[k]).stored_name == name@
                        && p@.devs[k].id == devices@[k].id && p@.devs[k].size == devices@[k].size
                &&& p@.fs.committed == Map::<u128, FsSaveView>::empty()
                &&& p@.fs.temps == Set::<u128>::empty()
                &&& !p@.write_fails
                &&& final(gen).spec_next() == old(gen).spec_next() + devices@.len() + 1
            },
    {
        if devices.len() == 0 {
            return Err(EngineError::Engine(
                ErrorEnum::Invalid,
                "at least one block device is required".to_owned(),
            ));
        }
        if !force {
            let n = devices.len();
            let mut i: usize = 0;
            while i < n
                invariant
                    !force,
                    n == devices@.len(),
                    i <= n,
                    forall|j: int| 0 <= j < i
                        ==> spec_classify(#[trigger] devices@[j]) == DevOwnership::Unowned,
                decreases n - i,
            {
                let own = classify(&devices[i]);
                match own {
                    DevOwnership::Unowned => {},
                    _ => {
                        proof {
                            assert(spec_classify(devices@[i as int]) != DevOwnership::Unowned);
                            assert(!all_unowned(devices@));
                        }
                        return Err(EngineError::Engine(
                            ErrorEnum::Invalid,
                            "device already carries a signature".to_owned(),
                        ));
                    },
                }
                i = i + 1;
            }
        }
        let ghost base: u128 = gen.spec_next();
        let pool_uuid = gen.fresh();
        let n = devices.len();
        let mut claimed: Vec<RawDevice> = Vec::new();
        let mut i: usize = 0;
        while i < n
            invariant
                n == devices@.len(),
                i <= n,
                base + n + 1 <= u128::MAX,
                pool_uuid == base,
                gen.spec_next() == base + 1 + i,
                claimed@.len() == i,
                forall|k: int| 0 <= k < i ==> owned_by(#[trigger] claimed@[k], pool_uuid),
                forall|k: int| 0 <= k < i ==> spec_dev_uuid(#[trigger] claimed@[k]) == base + 1 + k,
                forall|k: int| 0 <= k < i ==> (#[trigger] claimed@[k]).mdv_files@.len() == 0,
                forall|k: int| 0 <= k < i
                    ==> spec_stored_name(#[trigger] claimed@[k]) == name@
                        && claimed@[k].id == devices@[k].id
                        && claimed@[k].size == devices@[k].size,
            decreases n - i,
        {
            let dev_uuid = gen.fresh();
            claimed.push(
                RawDevice {
                    id: devices[i].id,
                    size: devices[i].size,
                    content: DevContent::Stratis { pool_uuid, dev_uuid, pool_name: name.to_owned() },
                    mdv_files: Vec::new(),
                },
            );
            i = i + 1;
        }
        let mdv = MetadataVol::initialize(pool_uuid);
        let pool = StratPool {
            name: name.to_owned(),
            pool_uuid,
            block_devs: claimed,
            redundancy,
            mdv,
            write_fails: false,
        };
        Ok(pool)
    }

    /// Set up an existing pool from devices already carrying its metadata:
    /// the pool's name is the stored copy on its devices, and the metadata
    /// volume is mounted from the image hosted on the group's first device.
    pub fn setup(pool_uuid: PoolUuid, devices: Vec<RawDevice>) -> (r: EngineResult<StratPool>)
        requires
            forall|i: int| 0 <= i < devices@.len()
                ==> wf_entries((#[trigger] devices@[i]).mdv_files@),
        ensures
            (r is Ok) == valid_pool_group(pool_uuid, devices@),
            r is Err ==> is_engine_err(r, ErrorEnum::Invalid),
            r matches Ok(p) ==> {
                &&& p.wf()
                &&& p@.uuid == pool_uuid
                &&& p@.name == spec_stored_name(devices@[0])
                &&& p@.devs.len() == devices@.len()
                &&& forall|k: int| 0 <= k < p@.devs.len()
                    ==> #[trigger] p@.devs[k] == dev_record_of(devices@[k])
                &&& p@.fs.committed == committed_of(devices@[0].mdv_files@)
                &&& p@.fs.temps == temps_of(devices@[0].mdv_files@)
                &&& !p@.write_fails
            },
    {
        let ghost orig: Seq<RawDevice> = devices@;
        if devices.len() == 0 {
            return Err(EngineError::Engine(
                ErrorEnum::Invalid,
                "no devices found for pool".to_owned(),
            ));
        }
        let n = devices.len();
        let mut i: usize = 0;
        while i < n
            invariant
                n == orig.len(),
                devices@ == orig,
                i <= n,
                forall|j: int| 0 <= j < i ==> owned_by(#[trigger] orig[j], pool_uuid),
            decreases n - i,
        {
            let own = classify(&devices[i]);
            match own {
                DevOwnership::Ours(p, _) => {
                    if p != pool_uuid {
                        return Err(EngineError::Engine(
                            ErrorEnum::Invalid,
                            "device signed for another pool".to_owned(),
                        ));
                    }
                },
                _ => {
                    return Err(EngineError::Engine(
                        ErrorEnum::Invalid,
                        "device carries no pool signature".to_owned(),
                    ));
                },
            }
            i = i + 1;
        }
        let mut i: usize = 0;
        while i < n
            invariant
                n == orig.len(),
                devices@ == orig,
                i <= n,
                forall|a: int, b: int| 0 <= a < b < i
                    ==> spec_dev_uuid(#[trigger] orig[a]) != spec_dev_uuid(#[trigger] orig[b]),
            decreases n - i,
        {
            let mut j: usize = 0;
            while j < i
                invariant
                    n == orig.len(),
                    devices@ == orig,
                    j <= i < n,
                    forall|a: int| 0 <= a < j
                        ==> spec_dev_uuid(#[trigger] orig[a]) != spec_dev_uuid(orig[i as int]),
                decreases i - j,
            {
                if dev_uuid_of(&devices[j]) == dev_uuid_of(&devices[i]) {
                    return Err(EngineError::Engine(
                        ErrorEnum::Invalid,
                        "two devices carry the same device identifier".to_owned(),
                    ));
                }
                j = j + 1;
            }
            i = i + 1;
        }
        let mut devices = devices;
        let first = devices.remove(0);
        let RawDevice { id, size, content, mdv_files } = first;
        let name = match &content {
            DevContent::Stratis { pool_uuid: _, dev_uuid: _, pool_name } => pool_name.clone(),
            _ => {
                proof {
                    assert(owned_by(orig[0], pool_uuid));
                    assert(false);
                }
                return Err(EngineError::Engine(ErrorEnum::Invalid, "unreachable".to_owned()));
            },
        };
        let mut cleaned: Vec<RawDevice> = Vec::new();
        cleaned.push(RawDevice { id, size, content, mdv_files: Vec::new() });
        let mut k: usize = 1;
        while k < n
            invariant
                n == orig.len(),
                1 <= k <= n,
                devices@ == orig.remove(0),
                cleaned@.len() == k,
                forall|m: int| 0 <= m < n ==> owned_by(#[trigger] orig[m], pool_uuid),
                forall|m: int| 0 <= m < k
                    ==> dev_record_of(#[trigger] cleaned@[m]) == dev_record_of(orig[m])
                        && owned_by(cleaned@[m], pool_uuid)
                        && cleaned@[m].mdv_files@.len() == 0,
            decreases n - k,
        {
            let d = &devices[k - 1];
            proof {
                assert(devices@[k - 1] == orig[k as int]);
            }
            let content2 = match &d.content {
                DevContent::Stratis { pool_uuid: pu, dev_uuid: du, pool_name: pn } => (
                    DevContent::Stratis { pool_uuid: *pu, dev_uuid: *du, pool_name: pn.clone() }
                ),
                _ => {
                    proof {
                        assert(owned_by(orig[k as int], pool_uuid));
                        assert(false);
                    }
                    return Err(EngineError::Engine(ErrorEnum::Invalid, "unreachable".to_owned()));
                },
            };
            cleaned.push(RawDevice { id: d.id, size: d.size, content: content2, mdv_files: Vec::new() });
            k = k + 1;
        }
        let mdv = match MetadataVol::setup(pool_uuid, mdv_files) {
            Ok(m) => m,
            Err(e) => {
                proof {
                    assert(false);
                }
                return Err(e);
            },
        };
        let pool = StratPool {
            name,
            pool_uuid,
            block_devs: cleaned,
            redundancy: Redundancy::NONE,
            mdv,
            write_fails: false,
        };
        proof {
            assert forall|a: int, b: int| 0 <= a < b < pool.block_devs@.len()
                implies spec_dev_uuid(#[trigger] pool.block_devs@[a])
                    != spec_dev_uuid(#[trigger] pool.block_devs@[b]) by {
                assert(dev_record_of(cleaned@[a]) == dev_record_of(orig[a]));
                assert(dev_record_of(cleaned@[b]) == dev_record_of(orig[b]));
            }
            assert forall|k2: int| 0 <= k2 < pool@.devs.len()
                implies #[trigger] pool@.devs[k2] == dev_record_of(orig[k2]) by {
                assert(pool@.devs[k2] == dev_record_of(pool.block_devs@[k2]));
            }
        }
        Ok(pool)
    }

    /// Rename the pool in memory. Durable metadata is untouched until
    /// `write_metadata` runs; the caller owns that ordering.
    pub fn rename(&mut self, name: &str)
        ensures
            final(self)@ == (PoolView { name: name@, ..old(self)@ }),
            old(self).wf() ==> final(self).wf(),
    {
        self.name = name.to_owned();
    }

    /// Write the pool-level metadata (the pool's name) to every claimed
    /// device. Fails, leaving every device's stored copy as it was, exactly
    /// when the devices currently fail writes.
    pub fn write_metadata(&mut self) -> (r: EngineResult<()>)
        requires
            old(self).wf(),
        ensures
            final(self).wf(),
            (r is Ok) == !old(self)@.write_fails,
            r is Err ==> *final(self) == *old(self),
            r is Err ==> (r matches Err(e) && e is Io),
            r is Ok ==> {
                &&& final(self)@.uuid == old(self)@.uuid
                &&& final(self)@.name == old(self)@.name
                &&& final(self)@.fs == old(self)@.fs
                &&& final(self)@.write_fails == old(self)@.write_fails
                &&& final(self)@.devs.len() == old(self)@.devs.len()
                &&& forall|k: int| 0 <= k < final(self)@.devs.len()
                    ==> (#[trigger] final(self)@.devs[k]) == (DevRecord {
                        stored_name: old(self)@.name,
                        ..old(self)@.devs[k]
                    })
            },
    {
        if self.write_fails {
            return Err(EngineError::Io("device write failed".to_owned()));
        }
        let ghost orig: Seq<RawDevice> = self.block_devs@;
        let n = self.block_devs.len();
        let mut updated: Vec<RawDevice> = Vec::new();
        let mut i: usize = 0;
        while i < n
            invariant
                n == self.block_devs@.len(),
                self.block_devs@ == orig,
                old(self).wf(),
                orig == old(self).block_devs@,
                i <= n,
                updated@.len() == i,
                forall|k: int| 0 <= k < i
                    ==> dev_record_of(#[trigger] updated@[k]) == (DevRecord {
                        stored_name: old(self).name@,
                        ..dev_record_of(orig[k])
                    }) && owned_by(updated@[k], old(self).pool_uuid)
                        && updated@[k].mdv_files@.len() == 0,
            decreases n - i,
        {
            let d = &self.block_devs[i];
            let content2 = match &d.content {
                DevContent::Stratis { pool_uuid: pu, dev_uuid: du, pool_name: _ } => (
                    DevContent::Stratis {
                        pool_uuid: *pu,
                        dev_uuid: *du,
                        pool_name: self.name.clone(),
                    }
                ),
                _ => {
                    proof {
                        assert(owned_by(orig[i as int], old(self).pool_uuid));
                        assert(false);
                    }
                    return Err(EngineError::Io("unreachable".to_owned()));
                },
            };
            updated.push(
                RawDevice { id: d.id, size: d.size, content: content2, mdv_files: Vec::new() },
            );
            i = i + 1;
        }
        self.block_devs = updated;
        proof {
            assert forall|a: int, b: int| 0 <= a < b < self.block_devs@.len()
                implies spec_dev_uuid(#[trigger] self.block_devs@[a])
                    != spec_dev_uuid(#[trigger] self.block_devs@[b]) by {
                assert(dev_record_of(self.block_devs@[a]).dev_uuid
                    == dev_record_of(orig[a]).dev_uuid);
                assert(dev_record_of(self.block_devs@[b]).dev_uuid
                    == dev_record_of(orig[b]).dev_uuid);
            }
        }
        Ok(())
    }

    /// Save one filesystem's metadata snapshot on the metadata volume.
    pub fn save_fs(&mut self, fs: &FilesystemSave) -> (r: EngineResult<()>)
        requires
            old(self).wf(),
        ensures
            r is Ok,
            final(self).wf(),
            final(self)@.uuid == old(self)@.uuid,
            final(self)@.name == old(self)@.name,
            final(self)@.devs == old(self)@.devs,
            final(self)@.write_fails == old(self)@.write_fails,
            final(self)@.fs.committed == old(self)@.fs.committed.insert(fs.uuid, fs@),
            final(self)@.fs.temps == old(self)@.fs.temps.remove(fs.uuid),
    {
        self.mdv.save_fs(fs)
    }

    /// Remove one filesystem's metadata snapshot from the metadata volume;
    /// removing an absent one succeeds and changes nothing.
    pub fn rm_fs(&mut self, fs_uuid: FilesystemUuid) -> (r: EngineResult<()>)
        requires
            old(self).wf(),
        ensures
            r is Ok,
            final(self).wf(),
            final(self)@.uuid == old(self)@.uuid,
            final(self)@.name == old(self)@.name,
            final(self)@.devs == old(self)@.devs,
            final(self)@.write_fails == old(self)@.write_fails,
            final(self)@.fs.committed == old(self)@.fs.committed.remove(fs_uuid),
            final(self)@.fs.temps == old(self)@.fs.temps,
    {
        self.mdv.rm_fs(fs_uuid)
    }

    /// List every filesystem metadata snapshot stored on the metadata
    /// volume.
    pub fn filesystems(&self) -> (r: EngineResult<Vec<FilesystemSave>>)
        requires
            self.wf(),
        ensures
            r is Ok,
            r matches Ok(v) ==> lists_committed(self@.fs.committed, v@),
    {
        self.mdv.filesystems()
    }

    /// The pool's internal consistency check: run the metadata volume's
    /// recovery pass, discarding stray temp files and nothing else.
    pub fn check(&mut self) -> (r: EngineResult<()>)
        requires
            old(self).wf(),
        ensures
            r is Ok,
            final(self).wf(),
            final(self)@.uuid == old(self)@.uuid,
            final(self)@.name == old(self)@.name,
            final(self)@.devs == old(self)@.devs,
            final(self)@.write_fails == old(self)@.write_fails,
            final(self)@.fs.committed == old(self)@.fs.committed,
            final(self)@.fs.temps == Set::<u128>::empty(),
    {
        self.mdv.check()
    }

    /// Fault injection for testing the rollback paths: while set, writes to
    /// the pool's devices fail, as they would on a broken device.
    pub fn set_metadata_write_failure(&mut self, fail: bool)
        ensures
            final(self)@ == (PoolView { write_fails: fail, ..old(self)@ }),
            old(self).wf() ==> final(self).wf(),
    {
        self.write_fails = fail;
    }

    /// Tear the pool down: unload the metadata volume, writing its image
    /// back onto the first device, and release every claimed device with
    /// its signature intact.
    pub fn teardown(self) -> (r: Vec<RawDevice>)
        requires
            self.wf(),
        ensures
            r@.len() == self@.devs.len(),
            r@.len() > 0,
            forall|k: int| 0 <= k < r@.len()
                ==> owned_by(#[trigger] r@[k], self@.uuid)
                    && dev_record_of(r@[k]) == self@.devs[k],
            wf_entries(r@[0].mdv_files@),
            committed_of(r@[0].mdv_files@) == self@.fs.committed,
            temps_of(r@[0].mdv_files@) == self@.fs.temps,
            forall|i: int, j: int| 0 <= i < j < r@.len()
                ==> spec_dev_uuid(#[trigger] r@[i]) != spec_dev_uuid(#[trigger] r@[j]),
    {
        let ghost me: PoolView = self@;
        let StratPool { name: _, pool_uuid: _, mut block_devs, redundancy: _, mdv, write_fails: _ } =
            self;
        let entries = mdv.teardown();
        let first = block_devs.remove(0);
        let RawDevice { id, size, content, mdv_files: _ } = first;
        block_devs.insert(0, RawDevice { id, size, content, mdv_files: entries });
        block_devs
    }

    /// Destroy the pool: wipe every device's signature and drop the
    /// resources. Fails, releasing nothing, exactly when the devices
    /// currently fail writes.
    pub fn destroy(self) -> (r: EngineResult<()>)
        ensures
            (r is Ok) == !self@.write_fails,
            r is Err ==> (r matches Err(e) && e is Io),
    {
        if self.write_fails {
            return Err(EngineError::Io("device write failed".to_owned()));
        }
        Ok(())
    }
}

/// Restart equivalence: the devices a pool's teardown releases form a
/// valid group for the same pool, and carry the pool's name (once
/// `write_metadata` persisted it) and its full filesystem-metadata image,
/// so `setup` over them reconstructs a pool with the same UUID, name and
/// filesystems.
pub proof fn lemma_restart_roundtrip(pv: PoolView, devs: Seq<RawDevice>)
    requires
        devs.len() == pv.devs.len(),
        devs.len() > 0,
        forall|k: int| 0 <= k < devs.len()
            ==> owned_by(#[trigger] devs[k], pv.uuid) && dev_record_of(devs[k]) == pv.devs[k],
        forall|i: int, j: int| 0 <= i < j < devs.len()
            ==> spec_dev_uuid(#[trigger] devs[i]) != spec_dev_uuid(#[trigger] devs[j]),
        pv.devs[0].stored_name == pv.name,
    ensures
        valid_pool_group(pv.uuid, devs),
        spec_stored_name(devs[0]) == pv.name,
{
    assert(dev_record_of(devs[0]).stored_name == pv.name);
}

} // verus!
