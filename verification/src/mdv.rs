//! The per-pool metadata volume (MDV): durable, crash-recoverable storage of
//! filesystem metadata.
//!
//! On disk the MDV is a small volume mounted at a pool-specific path, holding
//! one `<uuid>.json` document per filesystem under a `filesystems` directory.
//! A save writes `<uuid>.temp`, forces it to stable storage, then atomically
//! renames it over `<uuid>.json`, so a crash leaves either the old document
//! untouched or a stray `.temp` file — never a truncated document. The outer
//! I/O layer performs those file operations; this module holds the verified
//! image of the directory, one entry per file, and the recovery rule.

use vstd::prelude::*;

use crate::errors::{EngineError, EngineResult};
use crate::types::{FilesystemUuid, PoolUuid};

verus! {

/// A serializable snapshot of one filesystem's metadata: the contents of one
/// JSON document, named by the filesystem's UUID.
#[derive(Debug, Clone)]
pub struct FilesystemSave {
    pub name: String,
    pub uuid: FilesystemUuid,
    pub size: u64,
}

/// Mathematical image of one snapshot.
pub ghost struct FsSaveView {
    pub name: Seq<char>,
    pub uuid: u128,
    pub size: u64,
}

impl View for FilesystemSave {
    type V = FsSaveView;

    open spec fn view(&self) -> FsSaveView {
        FsSaveView { name: self.name@, uuid: self.uuid, size: self.size }
    }
}

impl FilesystemSave {
    /// A copy whose contents provably equal this snapshot's.
    pub fn duplicate(&self) -> (r: FilesystemSave)
        ensures
            r@ == self@,
    {
        FilesystemSave { name: self.name.clone(), uuid: self.uuid, size: self.size }
    }
}

/// One file of the MDV's `filesystems` directory: the committed
/// `<uuid>.json` document, or a leftover `<uuid>.temp` of an interrupted
/// save.
#[derive(Debug)]
pub struct MdvEntry {
    pub temp: bool,
    pub fs: FilesystemSave,
}

/// The committed documents of a directory image: UUID to snapshot, a later
/// file winning over an earlier one with the same name.
pub open spec fn committed_of(s: Seq<MdvEntry>) -> Map<u128, FsSaveView>
    decreases s.len(),
{
    if s.len() == 0 {
        Map::empty()
    } else {
        let m = committed_of(s.drop_last());
        let e = s.last();
        if e.temp {
            m
        } else {
            m.insert(e.fs.uuid, e.fs@)
        }
    }
}

/// The UUIDs with a leftover `.temp` file in a directory image.
pub open spec fn temps_of(s: Seq<MdvEntry>) -> Set<u128>
    decreases s.len(),
{
    if s.len() == 0 {
        Set::empty()
    } else {
        let t = temps_of(s.drop_last());
        let e = s.last();
        if e.temp {
            t.insert(e.fs.uuid)
        } else {
            t
        }
    }
}

/// A directory image is well-formed when no two files share a name, that is,
/// no two entries agree on both UUID and temp-ness.
pub open spec fn wf_entries(s: Seq<MdvEntry>) -> bool
    decreases s.len(),
{
    if s.len() == 0 {
        true
    } else {
        let e = s.last();
        wf_entries(s.drop_last()) && if e.temp {
            !temps_of(s.drop_last()).contains(e.fs.uuid)
        } else {
            !committed_of(s.drop_last()).contains_key(e.fs.uuid)
        }
    }
}

/// How one appended entry changes the image's committed map, temp set and
/// well-formedness.
pub proof fn lemma_mdv_push(s: Seq<MdvEntry>, e: MdvEntry)
    ensures
        committed_of(s.push(e)) == if e.temp {
            committed_of(s)
        } else {
            committed_of(s).insert(e.fs.uuid, e.fs@)
        },
        temps_of(s.push(e)) == if e.temp {
            temps_of(s).insert(e.fs.uuid)
        } else {
            temps_of(s)
        },
        wf_entries(s.push(e)) == (wf_entries(s) && if e.temp {
            !temps_of(s).contains(e.fs.uuid)
        } else {
            !committed_of(s).contains_key(e.fs.uuid)
        }),
{
    assert(s.push(e).drop_last() =~= s);
    assert(s.push(e).last() == e);
}

/// Every prefix of a well-formed image is well-formed.
pub proof fn lemma_wf_take(s: Seq<MdvEntry>, k: int)
    requires
        wf_entries(s),
        0 <= k <= s.len(),
    ensures
        wf_entries(s.take(k)),
    decreases s.len() - k,
{
    if k == s.len() {
        assert(s.take(k) =~= s);
    } else {
        lemma_wf_take(s, k + 1);
        assert(s.take(k + 1) =~= s.take(k).push(s[k]));
        lemma_mdv_push(s.take(k), s[k]);
    }
}

/// The listing `v` holds exactly the snapshots of `committed`: every listed
/// snapshot is committed under its UUID with equal contents, every committed
/// UUID is listed, and no UUID is listed twice.
pub open spec fn lists_committed(committed: Map<u128, FsSaveView>, v: Seq<FilesystemSave>) -> bool {
    &&& forall|i: int| 0 <= i < v.len()
        ==> committed.contains_key((#[trigger] v[i]).uuid) && committed[v[i].uuid] == v[i]@
    &&& forall|u: u128| #[trigger] committed.contains_key(u)
        ==> exists|i: int| 0 <= i < v.len() && (#[trigger] v[i]).uuid == u
    &&& forall|i: int, j: int| 0 <= i < j < v.len()
        ==> (#[trigger] v[i]).uuid != (#[trigger] v[j]).uuid
}

/// Mathematical image of one metadata volume: the pool it belongs to, the
/// committed snapshots, and the UUIDs with stray temp files.
pub ghost struct MdvView {
    pub pool: u128,
    pub committed: Map<u128, FsSaveView>,
    pub temps: Set<u128>,
}

/// Which files an internal rewrite pass discards.
enum DropRule {
    AllWithUuid(u128),
    JsonWithUuid(u128),
    AllTemps,
}

/// Whether a file with this UUID and temp-ness is discarded by the rule.
spec fn dropped(rule: DropRule, uuid: u128, temp: bool) -> bool {
    match rule {
        DropRule::AllWithUuid(u) => uuid == u,
        DropRule::JsonWithUuid(u) => uuid == u && !temp,
        DropRule::AllTemps => temp,
    }
}

/// The per-pool durable store of filesystem metadata.
#[derive(Debug)]
pub struct MetadataVol {
    pool_uuid: PoolUuid,
    entries: Vec<MdvEntry>,
}

impl View for MetadataVol {
    type V = MdvView;

    closed spec fn view(&self) -> MdvView {
        MdvView {
            pool: self.pool_uuid,
            committed: committed_of(self.entries@),
            temps: temps_of(self.entries@),
        }
    }
}

impl MetadataVol {
    /// The directory image holds no two files of the same name.
    pub closed spec fn wf(self) -> bool {
        wf_entries(self.entries@)
    }

    /// Initialize a new metadata volume: the backing device is freshly
    /// formatted, so the directory starts empty.
    pub fn initialize(pool_uuid: PoolUuid) -> (r: MetadataVol)
        ensures
            r.wf(),
            r@.pool == pool_uuid,
            r@.committed == Map::<u128, FsSaveView>::empty(),
            r@.temps == Set::<u128>::empty(),
    {
        MetadataVol { pool_uuid, entries: Vec::new() }
    }

    /// Set up an existing metadata volume from the directory listing read
    /// off its already-formatted filesystem. A real directory never holds
    /// two files of the same name, so the listing is well-formed.
    pub fn setup(pool_uuid: PoolUuid, entries: Vec<MdvEntry>) -> (r: EngineResult<MetadataVol>)
        requires
            wf_entries(entries@),
        ensures
            match r {
                Ok(m) => {
                    &&& m.wf()
                    &&& m@.pool == pool_uuid
                    &&& m@.committed == committed_of(entries@)
                    &&& m@.temps == temps_of(entries@)
                },
                Err(_) => false,
            },
    {
        Ok(MetadataVol { pool_uuid, entries })
    }

    /// Rewrite the directory, discarding the files the rule names.
    fn strip(&mut self, rule: DropRule)
        requires
            old(self).wf(),
        ensures
            final(self).wf(),
            final(self)@.pool == old(self)@.pool,
            forall|u: u128| #[trigger] final(self)@.committed.contains_key(u)
                == (old(self)@.committed.contains_key(u) && !dropped(rule, u, false)),
            forall|u: u128| #[trigger] final(self)@.committed.contains_key(u)
                ==> final(self)@.committed[u] == old(self)@.committed[u],
            forall|u: u128| #[trigger] final(self)@.temps.contains(u)
                == (old(self)@.temps.contains(u) && !dropped(rule, u, true)),
    {
        let ghost s: Seq<MdvEntry> = self.entries@;
        let mut kept: Vec<MdvEntry> = Vec::new();
        let n = self.entries.len();
        let mut i: usize = 0;
        while i < n
            invariant
                n == self.entries@.len(),
                i <= n,
                s == self.entries@,
                wf_entries(s),
                wf_entries(kept@),
                forall|u: u128| #[trigger] committed_of(kept@).contains_key(u)
                    == (committed_of(s.take(i as int)).contains_key(u) && !dropped(rule, u, false)),
                forall|u: u128| #[trigger] committed_of(kept@).contains_key(u)
                    ==> committed_of(kept@)[u] == committed_of(s.take(i as int))[u],
                forall|u: u128| #[trigger] temps_of(kept@).contains(u)
                    == (temps_of(s.take(i as int)).contains(u) && !dropped(rule, u, true)),
            decreases n - i,
        {
            let e = &self.entries[i];
            proof {
                assert(s.take(i + 1) =~= s.take(i as int).push(s[i as int]));
                lemma_mdv_push(s.take(i as int), s[i as int]);
                lemma_wf_take(s, i + 1);
            }
            let keep = match rule {
                DropRule::AllWithUuid(u) => e.fs.uuid != u,
                DropRule::JsonWithUuid(u) => !(e.fs.uuid == u && !e.temp),
                DropRule::AllTemps => !e.temp,
            };
            if keep {
                let copied = MdvEntry { temp: e.temp, fs: e.fs.duplicate() };
                proof {
                    lemma_mdv_push(kept@, copied);
                }
                kept.push(copied);
            }
            i = i + 1;
        }
        proof {
            assert(s.take(n as int) =~= s);
        }
        self.entries = kept;
    }

    /// Save info on a filesystem to persistent storage, or update the
    /// existing info: on disk, a temp-file write, a durability barrier, and
    /// an atomic rename over the committed document. Any prior snapshot for
    /// the same UUID is replaced; any stray temp file for it is consumed by
    /// the rename.
    pub fn save_fs(&mut self, fs: &FilesystemSave) -> (r: EngineResult<()>)
        requires
            old(self).wf(),
        ensures
            r is Ok,
            final(self).wf(),
            final(self)@.pool == old(self)@.pool,
            final(self)@.committed == old(self)@.committed.insert(fs.uuid, fs@),
            final(self)@.temps == old(self)@.temps.remove(fs.uuid),
    {
        let ghost pre: MdvView = self@;
        self.strip(DropRule::AllWithUuid(fs.uuid));
        let ghost mids: Seq<MdvEntry> = self.entries@;
        let ghost midv: MdvView = self@;
        let entry = MdvEntry { temp: false, fs: fs.duplicate() };
        self.entries.push(entry);
        proof {
            lemma_mdv_push(mids, entry);
            assert(!midv.committed.contains_key(fs.uuid));
            assert(wf_entries(self.entries@));
            assert forall|w: u128| #![auto]
                self@.committed.contains_key(w) == pre.committed.insert(
                    fs.uuid,
                    fs@,
                ).contains_key(w) && (self@.committed.contains_key(w)
                    ==> self@.committed[w] == pre.committed.insert(fs.uuid, fs@)[w])
                && self@.temps.contains(w) == pre.temps.remove(fs.uuid).contains(w) by {
                assert(midv.committed.contains_key(w) == (pre.committed.contains_key(w)
                    && !dropped(DropRule::AllWithUuid(fs.uuid), w, false)));
                if midv.committed.contains_key(w) {
                    assert(midv.committed[w] == pre.committed[w]);
                }
                assert(midv.temps.contains(w) == (pre.temps.contains(w)
                    && !dropped(DropRule::AllWithUuid(fs.uuid), w, true)));
            }
            assert(self@.committed =~= pre.committed.insert(fs.uuid, fs@));
            assert(self@.temps =~= pre.temps.remove(fs.uuid));
        }
        Ok(())
    }

    /// Remove info on a filesystem from persistent storage. A missing
    /// document counts as success: deletion is idempotent.
    pub fn rm_fs(&mut self, fs_uuid: FilesystemUuid) -> (r: EngineResult<()>)
        requires
            old(self).wf(),
        ensures
            r is Ok,
            final(self).wf(),
            final(self)@.pool == old(self)@.pool,
            final(self)@.committed == old(self)@.committed.remove(fs_uuid),
            final(self)@.temps == old(self)@.temps,
            !old(self)@.committed.contains_key(fs_uuid) ==> final(self)@.committed
                == old(self)@.committed,
    {
        let ghost pre: MdvView = self@;
        self.strip(DropRule::JsonWithUuid(fs_uuid));
        proof {
            assert(self@.committed =~= pre.committed.remove(fs_uuid));
            assert(self@.temps =~= pre.temps);
            if !pre.committed.contains_key(fs_uuid) {
                assert(self@.committed =~= pre.committed);
            }
        }
        Ok(())
    }

    /// The recovery pass: remove every leftover `.temp` file. Each is
    /// evidence of an interrupted save whose committed document, if any,
    /// still holds the prior valid contents, so discarding it is always safe
    /// and loses no committed data.
    pub fn check(&mut self) -> (r: EngineResult<()>)
        requires
            old(self).wf(),
        ensures
            r is Ok,
            final(self).wf(),
            final(self)@.pool == old(self)@.pool,
            final(self)@.committed == old(self)@.committed,
            final(self)@.temps == Set::<u128>::empty(),
    {
        let ghost pre: MdvView = self@;
        self.strip(DropRule::AllTemps);
        proof {
            assert(self@.committed =~= pre.committed);
            assert(self@.temps =~= Set::<u128>::empty());
        }
        Ok(())
    }

    /// List every committed snapshot: exactly the committed documents, one
    /// snapshot per stored UUID, temp files ignored.
    pub fn filesystems(&self) -> (r: EngineResult<Vec<FilesystemSave>>)
        requires
            self.wf(),
        ensures
            r is Ok,
            r matches Ok(v) ==> lists_committed(self@.committed, v@),
    {
        Ok(self.list_snapshots())
    }

    /// Collect a copy of every committed snapshot, in directory order.
    fn list_snapshots(&self) -> (v: Vec<FilesystemSave>)
        requires
            self.wf(),
        ensures
            lists_committed(self@.committed, v@),
    {
        let ghost s: Seq<MdvEntry> = self.entries@;
        let mut v: Vec<FilesystemSave> = Vec::new();
        let n = self.entries.len();
        let mut i: usize = 0;
        while i < n
            invariant
                n == self.entries@.len(),
                i <= n,
                s == self.entries@,
                wf_entries(s),
                forall|k: int| 0 <= k < v@.len()
                    ==> committed_of(s.take(i as int)).contains_key((#[trigger] v@[k]).uuid)
                        && committed_of(s.take(i as int))[v@[k].uuid] == v@[k]@,
                forall|u: u128| #[trigger] committed_of(s.take(i as int)).contains_key(u)
                    ==> exists|k: int| 0 <= k < v@.len() && (#[trigger] v@[k]).uuid == u,
                forall|k: int, l: int| 0 <= k < l < v@.len()
                    ==> (#[trigger] v@[k]).uuid != (#[trigger] v@[l]).uuid,
            decreases n - i,
        {
            let e = &self.entries[i];
            let ghost v0: Seq<FilesystemSave> = v@;
            proof {
                assert(s.take(i as int + 1) =~= s.take(i as int).push(s[i as int]));
                lemma_mdv_push(s.take(i as int), s[i as int]);
                lemma_wf_take(s, i as int + 1);
            }
            if !e.temp {
                v.push(e.fs.duplicate());
            }
            proof {
                assert forall|k: int| 0 <= k < v@.len()
                    implies committed_of(s.take(i as int + 1)).contains_key(
                        (#[trigger] v@[k]).uuid,
                    ) && committed_of(s.take(i as int + 1))[v@[k].uuid] == v@[k]@ by {
                    if k < v0.len() {
                        assert(v@[k] == v0[k]);
                        assert(committed_of(s.take(i as int)).contains_key(v0[k].uuid));
                    } else {
                        assert(!s[i as int].temp);
                        assert(v@[k]@ == s[i as int].fs@);
                    }
                }
                assert forall|u: u128| #[trigger] committed_of(s.take(i as int + 1)).contains_key(u)
                    implies exists|k: int| 0 <= k < v@.len() && (#[trigger] v@[k]).uuid == u by {
                    if !s[i as int].temp && u == s[i as int].fs.uuid {
                        assert(v@[v@.len() - 1].uuid == u);
                    } else {
                        assert(committed_of(s.take(i as int)).contains_key(u));
                        let k = choose|k: int|
                            0 <= k < v0.len() && (#[trigger] v0[k]).uuid == u;
                        assert(v@[k].uuid == u);
                    }
                }
                assert forall|k: int, l: int| 0 <= k < l < v@.len()
                    implies (#[trigger] v@[k]).uuid != (#[trigger] v@[l]).uuid by {
                    if l < v0.len() {
                        assert(v@[k] == v0[k] && v@[l] == v0[l]);
                    } else {
                        assert(v@[k] == v0[k]);
                        assert(committed_of(s.take(i as int)).contains_key(v0[k].uuid));
                        assert(!committed_of(s.take(i as int)).contains_key(s[i as int].fs.uuid));
                    }
                }
            }
            i = i + 1;
        }
        proof {
            assert(s.take(n as int) =~= s);
            assert forall|k: int| 0 <= k < v@.len()
                implies self@.committed.contains_key((#[trigger] v@[k]).uuid)
                    && self@.committed[v@[k].uuid] == v@[k]@ by {
                assert(committed_of(s.take(n as int)).contains_key(v@[k].uuid));
            }
            assert forall|u: u128| #[trigger] self@.committed.contains_key(u)
                implies exists|k: int| 0 <= k < v@.len() && (#[trigger] v@[k]).uuid == u by {
                assert(committed_of(s.take(n as int)).contains_key(u));
            }
        }
        v
    }

    /// Tear the volume down: on disk, unmount then release the backing
    /// device. The directory image is handed back so the caller can return
    /// it to the device it persists on.
    pub fn teardown(self) -> (r: Vec<MdvEntry>)
        ensures
            committed_of(r@) == self@.committed,
            temps_of(r@) == self@.temps,
            self.wf() ==> wf_entries(r@),
    {
        self.entries
    }
}

/// Round-trip persistence, as a law over directory images: saving a
/// snapshot commits exactly it under its UUID, and removing that UUID
/// afterwards leaves no snapshot under it.
pub proof fn lemma_round_trip(committed: Map<u128, FsSaveView>, f: FsSaveView)
    ensures
        committed.insert(f.uuid, f).contains_key(f.uuid),
        committed.insert(f.uuid, f)[f.uuid] == f,
        !committed.insert(f.uuid, f).remove(f.uuid).contains_key(f.uuid),
{
}

} // verus!
