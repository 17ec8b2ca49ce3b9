//! The engine: the top-level orchestrator holding the registry of live
//! pools and exposing the pool lifecycle over it.

use vstd::prelude::*;

use crate::blockdev::{classify, dev_record_of, owned_by, spec_classify, spec_dev_uuid, spec_stored_name, DevOwnership, DevRecord, RawDevice};
use crate::errors::{is_engine_err, EngineError, EngineResult, ErrorEnum};
use crate::mdv::{committed_of, temps_of, wf_entries};
use crate::pool::{all_unowned, valid_pool_group, PoolView, StratPool};
use crate::table::{conflicts, found_by_uuid, seq_has_name, seq_has_uuid, str_eq, HasName, HasUuid, Table};
use crate::types::{PoolUuid, Redundancy, RenameAction, UuidGen};

verus! {

/// The redundancy scheme a requested code denotes, if any.
pub open spec fn spec_redundancy(redundancy: Option<u16>) -> Option<Redundancy> {
    match redundancy {
        None => Some(Redundancy::NONE),
        Some(n) => if n == 0 {
            Some(Redundancy::NONE)
        } else {
            None
        },
    }
}

/// Choose the redundancy scheme for a new pool: the default when
/// unspecified, an Invalid error when the code names no known scheme.
pub fn calculate_redundancy(redundancy: Option<u16>) -> (r: EngineResult<Redundancy>)
    ensures
        spec_redundancy(redundancy) matches Some(x) ==> (r matches Ok(y) && y == x),
        spec_redundancy(redundancy) is None ==> is_engine_err(r, ErrorEnum::Invalid),
{
    match redundancy {
        None => Ok(Redundancy::NONE),
        Some(0) => Ok(Redundancy::NONE),
        Some(_) => Err(
            EngineError::Engine(ErrorEnum::Invalid, "unknown redundancy code".to_owned()),
        ),
    }
}

/// The disk-backed engine: a registry of live pools plus the source of
/// fresh identifiers.
#[derive(Debug)]
pub struct StratEngine {
    pools: Table<StratPool>,
    uuid_gen: UuidGen,
}

impl StratEngine {
    /// The live pools, in registry order.
    pub closed spec fn spec_pools(self) -> Seq<StratPool> {
        self.pools@
    }

    /// The next identifier the engine would assign.
    pub closed spec fn spec_gen_next(self) -> u128 {
        self.uuid_gen.spec_next()
    }

    /// The engine invariant: the registry keeps UUIDs and names unique,
    /// every pool is internally consistent, and every pool's UUID lies
    /// below the identifier source, so freshly assigned UUIDs never
    /// collide.
    pub closed spec fn inv(self) -> bool {
        &&& self.pools.wf()
        &&& forall|i: int| 0 <= i < self.pools@.len()
            ==> (#[trigger] self.pools@[i]).wf()
                && self.pools@[i]@.uuid < self.uuid_gen.spec_next()
    }

    /// The uniqueness law of the registry: under the invariant, no two
    /// live pools share a UUID or a name.
    pub proof fn lemma_registry_uniqueness(self, i: int, j: int)
        requires
            self.inv(),
            0 <= i < self.spec_pools().len(),
            0 <= j < self.spec_pools().len(),
            i != j,
        ensures
            self.spec_pools()[i]@.uuid != self.spec_pools()[j]@.uuid,
            self.spec_pools()[i]@.name != self.spec_pools()[j]@.name,
    {
        if i < j {
            assert(!conflicts(self.pools@[i], self.pools@[j]));
        } else {
            assert(!conflicts(self.pools@[j], self.pools@[i]));
        }
    }

    /// This engine is not the simulator: accept and ignore the setting.
    pub fn configure_simulator(&mut self, _denominator: u32) -> (r: EngineResult<()>)
        ensures
            r is Ok,
            *final(self) == *old(self),
    {
        Ok(())
    }

    /// Teardown the engine, preparatory to a shutdown: drain the registry
    /// and tear down every pool, releasing all claimed devices with their
    /// signatures and hosted metadata images — the on-disk state a later
    /// discovery rebuilds the same pools from.
    pub fn teardown(self) -> (r: EngineResult<Vec<RawDevice>>)
        requires
            self.inv(),
        ensures
            r is Ok,
            r matches Ok(devs) ==> forall|i: int| 0 <= i < self.spec_pools().len()
                ==> pool_released((#[trigger] self.spec_pools()[i])@, devs@),
    {
        let StratEngine { pools, uuid_gen: _ } = self;
        teardown_pools(pools.empty())
    }

    /// Create a new pool over raw devices. Rejected when the redundancy
    /// code is unknown (Invalid), when the name is already registered
    /// (AlreadyExists), when no device or an already-claimed device is
    /// handed in without force (Invalid), or when the identifier space is
    /// exhausted.
    pub fn create_pool(
        &mut self,
        name: &str,
        blockdevs: Vec<RawDevice>,
        redundancy: Option<u16>,
        force: bool,
    ) -> (r: EngineResult<PoolUuid>)
        requires
            old(self).inv(),
        ensures
            final(self).inv(),
            r is Err ==> final(self).spec_pools() == old(self).spec_pools(),
            spec_redundancy(redundancy) is None ==> is_engine_err(r, ErrorEnum::Invalid),
            spec_redundancy(redundancy) is Some && seq_has_name(old(self).spec_pools(), name@)
                ==> is_engine_err(r, ErrorEnum::AlreadyExists),
            r is Ok ==> !seq_has_name(old(self).spec_pools(), name@),
            (spec_redundancy(redundancy) is Some && !seq_has_name(old(self).spec_pools(), name@)
                && old(self).spec_gen_next() + blockdevs@.len() + 1 <= u128::MAX
                && blockdevs@.len() > 0 && (force || all_unowned(blockdevs@))) ==> r is Ok,
            r matches Ok(u) ==> {
                &&& u == old(self).spec_gen_next()
                &&& final(self).spec_gen_next() == old(self).spec_gen_next() + blockdevs@.len()
                    + 1
                &&& exists|p: StratPool|
                    {
                        &&& final(self).spec_pools() == old(self).spec_pools().push(p)
                        &&& p.wf()
                        &&& p@.uuid == u
                        &&& p@.name == name@
                        &&& p@.devs.len() == blockdevs@.len()
                        &&& p@.fs.committed.dom() == Set::<u128>::empty()
                        &&& p@.fs.temps == Set::<u128>::empty()
                        &&& !p@.write_fails
                    }
            },
    {
        let redundancy_v = match calculate_redundancy(redundancy) {
            Ok(x) => x,
            Err(e) => {
                return Err(e);
            },
        };
        if self.pools.contains_name(name) {
            return Err(EngineError::Engine(ErrorEnum::AlreadyExists, name.to_owned()));
        }
        let rem = self.uuid_gen.remaining();
        let count = blockdevs.len() as u128;
        if rem < count + 1 {
            return Err(
                EngineError::Engine(ErrorEnum::Error, "identifier space exhausted".to_owned()),
            );
        }
        let pool = match StratPool::initialize(
            name,
            blockdevs,
            redundancy_v,
            force,
            &mut self.uuid_gen,
        ) {
            Ok(p) => p,
            Err(e) => {
                return Err(e);
            },
        };
        let uuid = pool.uuid();
        let ghost p0: StratPool = pool;
        let evicted = self.pools.insert(pool);
        proof {
            assert forall|i: int| 0 <= i < old(self).pools@.len()
                implies !conflicts(#[trigger] old(self).pools@[i], p0) by {
                assert(old(self).pools@[i]@.uuid < old(self).spec_gen_next());
                assert(old(self).pools@[i].spec_name() != name@);
            }
            assert(evicted@.len() == 0);
            assert(self.pools@ == old(self).pools@.push(p0));
            assert(p0.wf() && p0@.uuid == uuid && p0@.name == name@ && !p0@.write_fails);
            assert(p0@.fs.committed.dom() =~= Set::<u128>::empty());
            assert forall|k: int| 0 <= k < self.pools@.len()
                implies (#[trigger] self.pools@[k]).wf()
                    && self.pools@[k]@.uuid < self.uuid_gen.spec_next() by {
                if k < old(self).pools@.len() {
                    assert(self.pools@[k] == old(self).pools@[k]);
                } else {
                    assert(self.pools@[k] == p0);
                }
            }
        }
        Ok(uuid)
    }

    /// Look a live pool up by UUID.
    pub fn get_pool(&self, uuid: PoolUuid) -> (r: Option<&StratPool>)
        ensures
            (r is Some) == seq_has_uuid(self.spec_pools(), uuid),
            r matches Some(p) ==> found_by_uuid(self.spec_pools(), uuid, *p),
    {
        self.pools.get_by_uuid(uuid)
    }

    /// Borrow every live pool, in registry order.
    pub fn pools(&self) -> (r: Vec<&StratPool>)
        ensures
            r@.len() == self.spec_pools().len(),
            forall|i: int| 0 <= i < r@.len() ==> *(#[trigger] r@[i]) == self.spec_pools()[i],
    {
        self.pools.borrowed()
    }

    /// Destroy a pool: remove it from the registry and release its
    /// resources. Destroying an unknown UUID is a no-op success. A teardown
    /// failure is surfaced, with the pool removed from the live set
    /// regardless.
    pub fn destroy_pool(&mut self, uuid: PoolUuid) -> (r: EngineResult<bool>)
        requires
            old(self).inv(),
        ensures
            final(self).inv(),
            !seq_has_uuid(old(self).spec_pools(), uuid) ==> (r matches Ok(b) && b == false)
                && final(self).spec_pools() == old(self).spec_pools(),
            seq_has_uuid(old(self).spec_pools(), uuid) ==> exists|i: int|
                {
                    &&& 0 <= i < old(self).spec_pools().len()
                    &&& (#[trigger] old(self).spec_pools()[i]).spec_uuid() == uuid
                    &&& final(self).spec_pools() == old(self).spec_pools().remove(i)
                    &&& (old(self).spec_pools()[i]@.write_fails ==> r is Err)
                    &&& (!old(self).spec_pools()[i]@.write_fails ==> (r matches Ok(b) && b
                        == true))
                },
    {
        match self.pools.remove_by_uuid(uuid) {
            Some(pool) => {
                let ghost p0: StratPool = pool;
                proof {
                    let i = choose|i: int|
                        0 <= i < old(self).pools@.len() && old(self).pools@[i] == p0
                            && self.pools@ == old(self).pools@.remove(i);
                    old(self).pools@.remove_ensures(i);
                    assert forall|k: int| 0 <= k < self.pools@.len()
                        implies (#[trigger] self.pools@[k]).wf()
                            && self.pools@[k]@.uuid < self.uuid_gen.spec_next() by {
                        if k < i {
                            assert(self.pools@[k] == old(self).pools@[k]);
                        } else {
                            assert(self.pools@[k] == old(self).pools@[k + 1]);
                        }
                    }
                }
                match pool.destroy() {
                    Ok(()) => Ok(true),
                    Err(e) => Err(e),
                }
            },
            None => Ok(false),
        }
    }
    /// Startup discovery: classify every scanned device, group the owned
    /// ones by the pool UUID their signature names, set each group up as a
    /// pool and register it. If two groups resolve to pools colliding in
    /// UUID or name, every already-set-up pool is torn down (best effort)
    /// and the whole operation fails as Invalid: a corrupt or ambiguous
    /// on-disk state never yields a partially-initialized engine.
    pub fn initialize(devices: Vec<RawDevice>) -> (r: EngineResult<StratEngine>)
        requires
            forall|i: int| 0 <= i < devices@.len()
                ==> wf_entries((#[trigger] devices@[i]).mdv_files@),
        ensures
            no_owned(devices@) ==> (r matches Ok(e) && e.spec_pools().len() == 0
                && e.spec_gen_next() == 1),
            clean_discovery(devices@) ==> r is Ok,
            r matches Ok(e) ==> {
                &&& e.inv()
                &&& forall|u: u128| #[trigger] seq_has_uuid(e.spec_pools(), u)
                    == spec_some_owned(devices@, u)
                &&& forall|i: int| 0 <= i < e.spec_pools().len()
                    ==> pool_from_devices((#[trigger] e.spec_pools()[i])@, devices@)
            },
    {
        let ghost orig: Seq<RawDevice> = devices@;
        let mut scan = devices;
        let mut groups: Vec<(PoolUuid, Vec<RawDevice>)> = Vec::new();
        let ghost mut gidx: Seq<Seq<int>> = Seq::empty();
        let mut maxu: u128 = 0;
        while scan.len() > 0
            invariant
                scan@.len() <= orig.len(),
                scan@ =~= orig.subrange(orig.len() - scan@.len(), orig.len() as int),
                forall|i: int| 0 <= i < orig.len()
                    ==> wf_entries((#[trigger] orig[i]).mdv_files@),
                forall|g: int| 0 <= g < groups@.len() ==> group_ok(orig, #[trigger] groups@[g]),
                forall|g: int| 0 <= g < groups@.len() ==> (#[trigger] groups@[g]).0 <= maxu,
                groups@.len() == 0 ==> maxu == 0,
                forall|g1: int, g2: int| 0 <= g1 < g2 < groups@.len()
                    ==> (#[trigger] groups@[g1]).0 != (#[trigger] groups@[g2]).0,
                forall|j: int, u: u128| 0 <= j < orig.len() - scan@.len()
                    && #[trigger] owned_by(orig[j], u) ==> exists|g: int|
                    0 <= g < groups@.len() && (#[trigger] groups@[g]).0 == u,
                gidx.len() == groups@.len(),
                forall|g: int| 0 <= g < groups@.len()
                    ==> (#[trigger] gidx[g]).len() == groups@[g].1@.len(),
                forall|g: int, m: int| 0 <= g < groups@.len() && 0 <= m < gidx[g].len()
                    ==> 0 <= #[trigger] gidx[g][m] && gidx[g][m] < orig.len() - scan@.len()
                        && groups@[g].1@[m] == orig[gidx[g][m]],
                forall|g: int, m1: int, m2: int| 0 <= g < groups@.len()
                    && 0 <= m1 < m2 < gidx[g].len()
                    ==> #[trigger] gidx[g][m1] < #[trigger] gidx[g][m2],
                clean_discovery(orig) ==> maxu < u128::MAX,
            decreases scan.len(),
        {
            let ghost jd: int = orig.len() - scan@.len();
            let d = scan.remove(0);
            proof {
                assert(d == orig[jd]);
            }
            let own = classify(&d);
            match own {
                DevOwnership::Ours(pu, _) => {
                    proof {
                        assert(owned_by(orig[jd], pu));
                    }
                    if pu > maxu {
                        maxu = pu;
                    }
                    let gn = groups.len();
                    let mut gi: usize = 0;
                    let mut found: Option<usize> = None;
                    while gi < gn
                        invariant
                            gn == groups@.len(),
                            gi <= gn,
                            match found {
                                Some(x) => x < gn && groups@[x as int].0 == pu,
                                None => forall|g: int| 0 <= g < gi
                                    ==> (#[trigger] groups@[g]).0 != pu,
                            },
                        decreases gn - gi,
                    {
                        if found.is_none() && groups[gi].0 == pu {
                            found = Some(gi);
                        }
                        gi = gi + 1;
                    }
                    let ghost groups0: Seq<(u128, Vec<RawDevice>)> = groups@;
                    match found {
                        Some(x) => {
                            let mut grp = groups.remove(x);
                            grp.1.push(d);
                            groups.insert(x, grp);
                            proof {
                                let gidx0 = gidx;
                                gidx = gidx.update(x as int, gidx[x as int].push(jd));
                                assert forall|g: int, m: int| 0 <= g < groups@.len()
                                    && 0 <= m < gidx[g].len()
                                    implies 0 <= #[trigger] gidx[g][m] && gidx[g][m] < jd + 1
                                        && groups@[g].1@[m] == orig[gidx[g][m]] by {
                                    if g != x {
                                        assert(groups@[g] == groups0[g]);
                                        assert(gidx[g] == gidx0[g]);
                                    } else {
                                        assert(gidx[g] == gidx0[g].push(jd));
                                        assert(groups@[g].1@ == groups0[g].1@.push(d));
                                        if m < gidx0[g].len() {
                                            assert(gidx[g][m] == gidx0[g][m]);
                                            assert(groups@[g].1@[m] == groups0[g].1@[m]);
                                        } else {
                                            assert(gidx[g][m] == jd);
                                            assert(groups@[g].1@[m] == d);
                                        }
                                    }
                                }
                                assert forall|g: int, m1: int, m2: int| 0 <= g < groups@.len()
                                    && 0 <= m1 < m2 < gidx[g].len()
                                    implies #[trigger] gidx[g][m1] < #[trigger] gidx[g][m2] by {
                                    if g != x {
                                        assert(gidx[g] == gidx0[g]);
                                    } else {
                                        assert(gidx[g] == gidx0[g].push(jd));
                                        if m2 < gidx0[g].len() {
                                            assert(gidx[g][m1] == gidx0[g][m1]);
                                            assert(gidx[g][m2] == gidx0[g][m2]);
                                        } else {
                                            assert(gidx[g][m1] == gidx0[g][m1]);
                                            assert(gidx0[g][m1] < jd);
                                            assert(gidx[g][m2] == jd);
                                        }
                                    }
                                }
                                assert forall|g: int| 0 <= g < groups@.len()
                                    implies group_ok(orig, #[trigger] groups@[g]) by {
                                    if g != x {
                                        assert(groups@[g] == groups0[g]);
                                    } else {
                                        assert(groups@[g].0 == groups0[g as int].0);
                                        assert(groups@[g].1@ == groups0[g].1@.push(d));
                                        let j0 = choose|j: int|
                                            0 <= j < orig.len() && owned_by(
                                                #[trigger] orig[j],
                                                groups0[g].0,
                                            ) && groups0[g].1@[0] == orig[j];
                                        assert(groups@[g].1@[0] == orig[j0]);
                                    }
                                }
                                assert forall|g1: int, g2: int| 0 <= g1 < g2 < groups@.len()
                                    implies (#[trigger] groups@[g1]).0
                                        != (#[trigger] groups@[g2]).0 by {
                                    assert(groups@[g1].0 == groups0[g1].0);
                                    assert(groups@[g2].0 == groups0[g2].0);
                                }
                                assert forall|j: int, u: u128| 0 <= j < jd + 1
                                    && #[trigger] owned_by(orig[j], u) implies exists|g: int|
                                    0 <= g < groups@.len() && (#[trigger] groups@[g]).0 == u by {
                                    if j < jd {
                                        let g0 = choose|g: int|
                                            0 <= g < groups0.len() && (#[trigger] groups0[g]).0
                                                == u;
                                        assert(groups@[g0].0 == u);
                                    } else {
                                        assert(groups@[x as int].0 == pu);
                                    }
                                }
                            }
                        },
                        None => {
                            let mut v: Vec<RawDevice> = Vec::new();
                            v.push(d);
                            groups.push((pu, v));
                            proof {
                                let gidx0 = gidx;
                                gidx = gidx.push(seq![jd]);
                                assert forall|g: int, m: int| 0 <= g < groups@.len()
                                    && 0 <= m < gidx[g].len()
                                    implies 0 <= #[trigger] gidx[g][m] && gidx[g][m] < jd + 1
                                        && groups@[g].1@[m] == orig[gidx[g][m]] by {
                                    if g < groups0.len() {
                                        assert(groups@[g] == groups0[g]);
                                        assert(gidx[g] == gidx0[g]);
                                    } else {
                                        assert(gidx[g] == seq![jd]);
                                        assert(gidx[g][m] == jd);
                                        assert(groups@[g].1@[m] == d);
                                    }
                                }
                                assert forall|g: int, m1: int, m2: int| 0 <= g < groups@.len()
                                    && 0 <= m1 < m2 < gidx[g].len()
                                    implies #[trigger] gidx[g][m1] < #[trigger] gidx[g][m2] by {
                                    if g < groups0.len() {
                                        assert(gidx[g] == gidx0[g]);
                                    }
                                }
                                assert forall|g: int| 0 <= g < groups@.len()
                                    implies group_ok(orig, #[trigger] groups@[g]) by {
                                    if g < groups0.len() {
                                        assert(groups@[g] == groups0[g]);
                                    } else {
                                        assert(groups@[g].0 == pu);
                                        assert(groups@[g].1@[0] == orig[jd]);
                                        assert(owned_by(orig[jd], pu));
                                    }
                                }
                                assert forall|j: int, u: u128| 0 <= j < jd + 1
                                    && #[trigger] owned_by(orig[j], u) implies exists|g: int|
                                    0 <= g < groups@.len() && (#[trigger] groups@[g]).0 == u by {
                                    if j < jd {
                                        let g0 = choose|g: int|
                                            0 <= g < groups0.len() && (#[trigger] groups0[g]).0
                                                == u;
                                        assert(groups@[g0].0 == u);
                                    } else {
                                        assert(groups@[groups@.len() - 1].0 == pu);
                                    }
                                }
                            }
                        },
                    }
                },
                _ => {
                    proof {
                        assert forall|u: u128| !owned_by(orig[jd], u) by {}
                    }
                },
            }
        }
        proof {
            if no_owned(orig) {
                assert forall|g: int| #![trigger groups@[g]] 0 <= g < groups@.len()
                    implies false by {
                    assert(group_ok(orig, groups@[g]));
                    let j0 = choose|j: int|
                        0 <= j < orig.len() && owned_by(#[trigger] orig[j], groups@[g].0)
                            && groups@[g].1@[0] == orig[j];
                    assert(!(spec_classify(orig[j0]) matches DevOwnership::Ours(_, _)));
                }
                if groups@.len() > 0 {
                    assert(groups@[0] == groups@[0]);
                }
                assert(groups@.len() == 0);
                assert(maxu == 0);
            }
        }
        if maxu == u128::MAX {
            proof {
                assert(!clean_discovery(orig));
            }
            return Err(
                EngineError::Engine(ErrorEnum::Invalid, "identifier space exhausted".to_owned()),
            );
        }
        let uuid_gen = UuidGen::starting_above(maxu);
        let ghost garr: Seq<(u128, Vec<RawDevice>)> = groups@;
        let ghost gfix: Seq<Seq<int>> = gidx;
        let mut table: Table<StratPool> = Table::default();
        while groups.len() > 0
            invariant
                groups@.len() <= garr.len(),
                groups@ =~= garr.subrange(garr.len() - groups@.len(), garr.len() as int),
                forall|g: int| 0 <= g < garr.len() ==> group_ok(orig, #[trigger] garr[g]),
                forall|g: int| 0 <= g < garr.len() ==> (#[trigger] garr[g]).0 <= maxu,
                forall|g1: int, g2: int| 0 <= g1 < g2 < garr.len()
                    ==> (#[trigger] garr[g1]).0 != (#[trigger] garr[g2]).0,
                no_owned(orig) ==> garr.len() == 0,
                orig == devices@,
                gfix.len() == garr.len(),
                forall|g: int| 0 <= g < garr.len()
                    ==> (#[trigger] gfix[g]).len() == garr[g].1@.len(),
                forall|g: int, m: int| 0 <= g < garr.len() && 0 <= m < gfix[g].len()
                    ==> 0 <= #[trigger] gfix[g][m] && gfix[g][m] < orig.len()
                        && garr[g].1@[m] == orig[gfix[g][m]],
                forall|g: int, m1: int, m2: int| 0 <= g < garr.len()
                    && 0 <= m1 < m2 < gfix[g].len()
                    ==> #[trigger] gfix[g][m1] < #[trigger] gfix[g][m2],
                table.wf(),
                table@.len() == garr.len() - groups@.len(),
                forall|t: int| 0 <= t < table@.len() ==> (#[trigger] table@[t]).wf()
                    && table@[t]@.uuid == garr[t].0
                    && table@[t]@.name == spec_stored_name(garr[t].1@[0])
                    && pool_from_devices(table@[t]@, orig),
            decreases groups.len(),
        {
            let ghost gt: int = garr.len() - groups@.len();
            let grp = groups.remove(0);
            proof {
                assert(grp == garr[gt]);
            }
            let ghost gdevs: Seq<RawDevice> = grp.1@;
            proof {
                assert(garr.len() > 0);
                if clean_discovery(orig) {
                    assert forall|m1: int, m2: int| 0 <= m1 < m2 < gdevs.len()
                        implies spec_dev_uuid(#[trigger] gdevs[m1])
                            != spec_dev_uuid(#[trigger] gdevs[m2]) by {
                        let i1 = gfix[gt][m1];
                        let i2 = gfix[gt][m2];
                        assert(gdevs[m1] == orig[i1]);
                        assert(gdevs[m2] == orig[i2]);
                        assert(owned_by(orig[i1], garr[gt].0));
                        assert(owned_by(orig[i2], garr[gt].0));
                        assert(i1 < i2);
                    }
                    assert(valid_pool_group(garr[gt].0, gdevs));
                }
            }
            let pool = match StratPool::setup(grp.0, grp.1) {
                Ok(p) => p,
                Err(e) => {
                    proof {
                        assert(!no_owned(orig));
                        if clean_discovery(orig) {
                            assert(false);
                        }
                    }
                    return Err(e);
                },
            };
            proof {
                assert(!no_owned(orig));
            }
            let has_uuid = table.get_by_uuid(pool.uuid()).is_some();
            let has_name = table.contains_name(pool.name());
            proof {
                if has_uuid {
                    let t = choose|t: int|
                        0 <= t < table@.len() && (#[trigger] table@[t]).spec_uuid()
                            == pool.spec_uuid();
                    assert(garr[t].0 == garr[gt].0);
                    assert(false);
                }
                if has_name && clean_discovery(orig) {
                    let t = choose|t: int|
                        0 <= t < table@.len() && (#[trigger] table@[t]).spec_name()
                            == pool.spec_name();
                    assert(table@[t]@.name == spec_stored_name(garr[t].1@[0]));
                    assert(pool@.name == spec_stored_name(gdevs[0]));
                    let i1 = gfix[t][0];
                    let i2 = gfix[gt][0];
                    assert(garr[t].1@[0] == orig[i1]);
                    assert(gdevs[0] == orig[i2]);
                    assert(owned_by(orig[i1], garr[t].0));
                    assert(owned_by(orig[i2], garr[gt].0));
                    assert(garr[t].0 != garr[gt].0);
                    assert(spec_stored_name(orig[i1]) != spec_stored_name(orig[i2]));
                    assert(false);
                }
            }
            if has_uuid || has_name {
                proof {
                    if clean_discovery(orig) {
                        assert(false);
                    }
                }
                let ghost tseq: Seq<StratPool> = table@;
                let mut all = table.empty();
                all.push(pool);
                proof {
                    assert forall|i: int| 0 <= i < all@.len()
                        implies (#[trigger] all@[i]).wf() by {
                        if i < tseq.len() {
                            assert(all@[i] == tseq[i]);
                        }
                    }
                }
                let _ = teardown_pools(all);
                return Err(
                    EngineError::Engine(
                        ErrorEnum::Invalid,
                        "found two pools with the same id or name".to_owned(),
                    ),
                );
            }
            let ghost p0: StratPool = pool;
            let ghost table0: Seq<StratPool> = table@;
            let evicted = table.insert(pool);
            proof {
                assert forall|t: int| 0 <= t < table0.len()
                    implies !crate::table::conflicts(#[trigger] table0[t], p0) by {
                }
                assert(evicted@.len() == 0);
                assert(table@ == table0.push(p0));
                assert(p0@.uuid == garr[gt].0);
                let j0 = choose|j: int|
                    0 <= j < orig.len() && owned_by(#[trigger] orig[j], garr[gt].0)
                        && gdevs[0] == orig[j];
                assert(gdevs[0] == orig[j0]);
                assert(pool_from_devices(p0@, orig));
                assert forall|t: int| 0 <= t < table@.len()
                    implies (#[trigger] table@[t]).wf() && table@[t]@.uuid == garr[t].0
                        && table@[t]@.name == spec_stored_name(garr[t].1@[0])
                        && pool_from_devices(table@[t]@, orig) by {
                    if t < table0.len() {
                        assert(table@[t] == table0[t]);
                    } else {
                        assert(table@[t] == p0);
                    }
                }
            }
        }
        let engine = StratEngine { pools: table, uuid_gen };
        proof {
            assert forall|k: int| 0 <= k < engine.pools@.len()
                implies (#[trigger] engine.pools@[k]).wf()
                    && engine.pools@[k]@.uuid < engine.uuid_gen.spec_next() by {
                assert(engine.pools@[k]@.uuid == garr[k].0);
                assert(garr[k].0 <= maxu);
            }
            assert forall|u: u128| #[trigger] seq_has_uuid(engine.pools@, u)
                == spec_some_owned(orig, u) by {
                if seq_has_uuid(engine.pools@, u) {
                    let t = choose|t: int|
                        0 <= t < engine.pools@.len() && (#[trigger] engine.pools@[t]).spec_uuid()
                            == u;
                    assert(garr[t].0 == u);
                    let j0 = choose|j: int|
                        0 <= j < orig.len() && owned_by(#[trigger] orig[j], garr[t].0)
                            && garr[t].1@[0] == orig[j];
                    assert(owned_by(orig[j0], u));
                }
                if spec_some_owned(orig, u) {
                    let j = choose|j: int| 0 <= j < orig.len() && owned_by(#[trigger] orig[j], u);
                    let g = choose|g: int|
                        0 <= g < garr.len() && (#[trigger] garr[g]).0 == u;
                    assert(engine.pools@[g].spec_uuid() == u);
                }
            }
            if no_owned(orig) {
                assert forall|g: int| #![trigger garr[g]] 0 <= g < garr.len() implies false by {
                    let j0 = choose|j: int|
                        0 <= j < orig.len() && owned_by(#[trigger] orig[j], garr[g].0)
                            && garr[g].1@[0] == orig[j];
                    assert(!(spec_classify(orig[j0]) matches DevOwnership::Ours(_, _)));
                }
                assert(garr.len() == 0);
                assert(maxu == 0);
            }
        }
        Ok(engine)
    }

    /// Rename a pool. An unknown UUID is NotFound; the current name is an
    /// "Identity" no-op; a name owned by a different pool is AlreadyExists,
    /// with nothing changed. Otherwise the new name is persisted to the
    /// pool's devices before the pool rejoins the registry; if persisting
    /// fails, the in-memory name is rolled back and the registry is exactly
    /// as before, so no name is ever visible that was not durably
    /// committed.
    pub fn rename_pool(&mut self, uuid: PoolUuid, new_name: &str) -> (r: EngineResult<
        RenameAction,
    >)
        requires
            old(self).inv(),
        ensures
            final(self).inv(),
            !seq_has_uuid(old(self).spec_pools(), uuid) ==> is_engine_err(
                r,
                ErrorEnum::NotFound,
            ) && final(self).spec_pools() == old(self).spec_pools(),
            seq_has_uuid(old(self).spec_pools(), uuid) ==> ({
                let opv = spec_pool_view(old(self).spec_pools(), uuid);
                &&& (opv.name == new_name@ ==> (r matches Ok(a) && a == RenameAction::Identity)
                    && final(self).spec_pools() == old(self).spec_pools())
                &&& (opv.name != new_name@ && seq_has_name(old(self).spec_pools(), new_name@)
                    ==> is_engine_err(r, ErrorEnum::AlreadyExists) && final(self).spec_pools()
                        == old(self).spec_pools())
                &&& (opv.name != new_name@ && !seq_has_name(old(self).spec_pools(), new_name@)
                    ==> {
                        &&& (opv.write_fails ==> r is Err && pools_correspond(
                            old(self).spec_pools(),
                            final(self).spec_pools(),
                        ))
                        &&& (!opv.write_fails ==> (r matches Ok(a) && a
                            == RenameAction::Renamed) && renamed_to(
                            old(self).spec_pools(),
                            final(self).spec_pools(),
                            uuid,
                            new_name@,
                        ))
                    })
            }),
    {
        let ghost opools: Seq<StratPool> = self.pools@;
        let old_name = match self.pools.get_by_uuid(uuid) {
            Some(p) => {
                proof {
                    let ix = spec_pool_index(opools, uuid);
                    assert(0 <= ix < opools.len() && opools[ix].spec_uuid() == uuid);
                    let ip = choose|i: int| 0 <= i < opools.len() && opools[i] == *p;
                    old(self).pools.lemma_uuid_unique(ix, ip);
                    assert(spec_pool_view(opools, uuid) == p@);
                }
                if str_eq(p.name(), new_name) {
                    return Ok(RenameAction::Identity);
                }
                p.name().to_owned()
            },
            None => {
                return Err(
                    EngineError::Engine(ErrorEnum::NotFound, "no pool with this UUID".to_owned()),
                );
            },
        };
        proof {
            assert(spec_pool_view(opools, uuid).name == old_name@);
            assert(old_name@ != new_name@);
        }
        if self.pools.contains_name(new_name) {
            return Err(EngineError::Engine(ErrorEnum::AlreadyExists, new_name.to_owned()));
        }
        let mut pool = match self.pools.remove_by_uuid(uuid) {
            Some(p) => p,
            None => {
                proof {
                    assert(false);
                }
                return Err(
                    EngineError::Engine(ErrorEnum::NotFound, "no pool with this UUID".to_owned()),
                );
            },
        };
        let ghost removed: StratPool = pool;
        let ghost ri: int = choose|i: int|
            0 <= i < opools.len() && opools[i] == removed && self.pools@ == opools.remove(i);
        proof {
            let ix = spec_pool_index(opools, uuid);
            old(self).pools.lemma_uuid_unique(ix, ri);
            assert(removed@ == spec_pool_view(opools, uuid));
            opools.remove_ensures(ri);
        }
        pool.rename(new_name);
        let write_result = pool.write_metadata();
        match write_result {
            Err(err) => {
                pool.rename(old_name.as_str());
                proof {
                    assert(pool@ == removed@);
                }
                let ghost p1: StratPool = pool;
                let evicted = self.pools.insert(pool);
                proof {
                    assert forall|k: int| 0 <= k < opools.remove(ri).len()
                        implies !conflicts(#[trigger] opools.remove(ri)[k], p1) by {
                        let ok: int = if k < ri {
                            k
                        } else {
                            k + 1
                        };
                        assert(opools.remove(ri)[k] == opools[ok]);
                        assert(!conflicts(opools[if ri < ok {
                            ri
                        } else {
                            ok
                        }], opools[if ri < ok {
                            ok
                        } else {
                            ri
                        }]));
                    }
                    assert(evicted@.len() == 0);
                    assert(self.pools@ == opools.remove(ri).push(p1));
                    lemma_remove_push(opools, ri, p1);
                    self.lemma_inv_after_reinsert(old(self), opools, ri, p1);
                }
                Err(err)
            },
            Ok(()) => {
                let ghost p1: StratPool = pool;
                let evicted = self.pools.insert(pool);
                proof {
                    assert(p1.spec_name() == new_name@);
                    assert forall|k: int| 0 <= k < opools.remove(ri).len()
                        implies !conflicts(#[trigger] opools.remove(ri)[k], p1) by {
                        let ok: int = if k < ri {
                            k
                        } else {
                            k + 1
                        };
                        assert(opools.remove(ri)[k] == opools[ok]);
                        assert(opools[ok].spec_name() != new_name@);
                        assert(!conflicts(opools[if ri < ok {
                            ri
                        } else {
                            ok
                        }], opools[if ri < ok {
                            ok
                        } else {
                            ri
                        }]));
                    }
                    assert(evicted@.len() == 0);
                    assert(self.pools@ == opools.remove(ri).push(p1));
                    lemma_remove_push(opools, ri, p1);
                    self.lemma_inv_after_reinsert(old(self), opools, ri, p1);
                }
                Ok(RenameAction::Renamed)
            },
        }
    }

    /// The invariant survives removing a pool and reinserting one with the
    /// same UUID, equal well-formedness, at the end of the registry.
    proof fn lemma_inv_after_reinsert(
        self,
        prev: &StratEngine,
        opools: Seq<StratPool>,
        ri: int,
        p1: StratPool,
    )
        requires
            prev.inv(),
            opools == prev.pools@,
            0 <= ri < opools.len(),
            p1.wf(),
            p1@.uuid == opools[ri]@.uuid,
            self.pools@ == opools.remove(ri).push(p1),
            self.pools.wf(),
            self.uuid_gen == prev.uuid_gen,
        ensures
            self.inv(),
    {
        opools.remove_ensures(ri);
        assert forall|k: int| 0 <= k < self.pools@.len()
            implies (#[trigger] self.pools@[k]).wf()
                && self.pools@[k]@.uuid < self.uuid_gen.spec_next() by {
            if k == self.pools@.len() - 1 {
                assert(self.pools@[k] == p1);
                assert(opools[ri]@.uuid < prev.uuid_gen.spec_next());
            } else {
                let ok: int = if k < ri {
                    k
                } else {
                    k + 1
                };
                assert(self.pools@[k] == opools.remove(ri)[k]);
                assert(opools.remove(ri)[k] == opools[ok]);
                assert(opools[ok].wf() && opools[ok]@.uuid < prev.uuid_gen.spec_next());
            }
        }
    }

    /// The periodic maintenance hook: run every pool's internal
    /// consistency check, which discards stray temp files on its metadata
    /// volume and changes nothing else.
    pub fn check(&mut self)
        requires
            old(self).inv(),
        ensures
            final(self).inv(),
            final(self).spec_pools().len() == old(self).spec_pools().len(),
            forall|i: int| 0 <= i < final(self).spec_pools().len() ==> ({
                let np = (#[trigger] final(self).spec_pools()[i])@;
                let op = old(self).spec_pools()[i]@;
                &&& np.uuid == op.uuid
                &&& np.name == op.name
                &&& np.devs == op.devs
                &&& np.write_fails == op.write_fails
                &&& np.fs.committed == op.fs.committed
                &&& np.fs.temps == Set::<u128>::empty()
            }),
    {
        let n = self.pools.len();
        let mut i: usize = 0;
        while i < n
            invariant
                n == self.pools@.len(),
                i <= n,
                self.pools.wf(),
                self.uuid_gen == old(self).uuid_gen,
                forall|k: int| 0 <= k < n
                    ==> (#[trigger] self.pools@[k]).wf()
                        && self.pools@[k]@.uuid < self.uuid_gen.spec_next(),
                forall|k: int| (i as int) <= k < n
                    ==> #[trigger] self.pools@[k] == old(self).pools@[k],
                forall|k: int| 0 <= k < i ==> ({
                    let np = (#[trigger] self.pools@[k])@;
                    let op = old(self).pools@[k]@;
                    &&& np.uuid == op.uuid
                    &&& np.name == op.name
                    &&& np.devs == op.devs
                    &&& np.write_fails == op.write_fails
                    &&& np.fs.committed == op.fs.committed
                    &&& np.fs.temps == Set::<u128>::empty()
                }),
            decreases n - i,
        {
            let ghost before: Seq<StratPool> = self.pools@;
            let p = self.pools.get_at_mut(i);
            let check_result = p.check();
            proof {
                assert(check_result is Ok);
                assert(self.pools@ == before.update(i as int, self.pools@[i as int]));
                assert(self.pools@[i as int]@.name == before[i as int]@.name);
                assert forall|a: int, b: int| 0 <= a < b < self.pools@.len()
                    implies !conflicts(#[trigger] self.pools@[a], #[trigger] self.pools@[b]) by {
                    assert(!conflicts(before[a], before[b]));
                    assert(self.pools@[a].spec_uuid() == before[a].spec_uuid());
                    assert(self.pools@[a].spec_name() == before[a].spec_name());
                    assert(self.pools@[b].spec_uuid() == before[b].spec_uuid());
                    assert(self.pools@[b].spec_name() == before[b].spec_name());
                }
            }
            i = i + 1;
        }
    }

    /// Point the device fault injection at one pool (a testing hook):
    /// returns whether a pool with the UUID exists.
    pub fn set_pool_metadata_write_failure(&mut self, uuid: PoolUuid, fail: bool) -> (r: bool)
        requires
            old(self).inv(),
        ensures
            final(self).inv(),
            r == seq_has_uuid(old(self).spec_pools(), uuid),
            final(self).spec_pools().len() == old(self).spec_pools().len(),
            forall|k: int| 0 <= k < final(self).spec_pools().len() ==> ({
                let np = (#[trigger] final(self).spec_pools()[k])@;
                let op = old(self).spec_pools()[k]@;
                if op.uuid == uuid {
                    np == (PoolView { write_fails: fail, ..op })
                } else {
                    final(self).spec_pools()[k] == old(self).spec_pools()[k]
                }
            }),
    {
        let n = self.pools.len();
        let mut i: usize = 0;
        while i < n
            invariant
                n == self.pools@.len(),
                i <= n,
                *self == *old(self),
                old(self).inv(),
                forall|k: int| 0 <= k < i
                    ==> (#[trigger] self.pools@[k]).spec_uuid() != uuid,
            decreases n - i,
        {
            let found = self.pools.get_at(i).uuid() == uuid;
            if found {
                let ghost before: Seq<StratPool> = self.pools@;
                let p = self.pools.get_at_mut(i);
                p.set_metadata_write_failure(fail);
                proof {
                    assert(self.pools@ == before.update(i as int, self.pools@[i as int]));
                    assert(self.pools@[i as int]@ == (PoolView {
                        write_fails: fail,
                        ..before[i as int]@
                    }));
                    assert forall|a: int, b: int| 0 <= a < b < self.pools@.len()
                        implies !conflicts(#[trigger] self.pools@[a], #[trigger] self.pools@[b])
                        by {
                        assert(!conflicts(before[a], before[b]));
                        assert(self.pools@[a].spec_uuid() == before[a].spec_uuid());
                        assert(self.pools@[a].spec_name() == before[a].spec_name());
                        assert(self.pools@[b].spec_uuid() == before[b].spec_uuid());
                        assert(self.pools@[b].spec_name() == before[b].spec_name());
                    }
                    assert forall|k: int| 0 <= k < self.pools@.len()
                        implies (#[trigger] self.pools@[k]).wf()
                            && self.pools@[k]@.uuid < self.uuid_gen.spec_next() by {
                        assert(before[k].wf() && before[k]@.uuid < self.uuid_gen.spec_next());
                        if k == i as int {
                            assert(self.pools@[k]@.uuid == before[k]@.uuid);
                        } else {
                            assert(self.pools@[k] == before[k]);
                        }
                    }
                    assert forall|k: int| 0 <= k < self.pools@.len() && k != i as int
                        implies old(self).pools@[k]@.uuid != uuid by {
                        if k < i as int {
                            assert(before[k].spec_uuid() != uuid);
                        } else if old(self).pools@[k]@.uuid == uuid {
                            old(self).pools.lemma_uuid_unique(k, i as int);
                            assert(false);
                        }
                    }
                }
                return true;
            }
            i = i + 1;
        }
        false
    }
}


/// The position of the pool carrying a UUID (meaningful when one does).
pub open spec fn spec_pool_index(s: Seq<StratPool>, uuid: u128) -> int {
    choose|i: int| 0 <= i < s.len() && (#[trigger] s[i]).spec_uuid() == uuid
}

/// The state of the pool carrying a UUID.
pub open spec fn spec_pool_view(s: Seq<StratPool>, uuid: u128) -> PoolView {
    s[spec_pool_index(s, uuid)]@
}

/// Two registry states hold the same pools: the same UUIDs, each pool in
/// the same state.
pub open spec fn pools_correspond(a: Seq<StratPool>, b: Seq<StratPool>) -> bool {
    &&& a.len() == b.len()
    &&& forall|u: u128| #[trigger] seq_has_uuid(a, u) == seq_has_uuid(b, u)
    &&& forall|u: u128| #[trigger] seq_has_uuid(a, u)
        ==> spec_pool_view(a, u) == spec_pool_view(b, u)
}

/// Registry state `b` is `a` with the pool under `uuid` renamed to `nn`,
/// in memory and in its devices' stored metadata, and no other change.
pub open spec fn renamed_to(a: Seq<StratPool>, b: Seq<StratPool>, uuid: u128, nn: Seq<char>) -> bool {
    &&& b.len() == a.len()
    &&& forall|u: u128| #[trigger] seq_has_uuid(a, u) == seq_has_uuid(b, u)
    &&& forall|u: u128| u != uuid && #[trigger] seq_has_uuid(a, u)
        ==> spec_pool_view(b, u) == spec_pool_view(a, u)
    &&& ({
        let opv = spec_pool_view(a, uuid);
        let npv = spec_pool_view(b, uuid);
        &&& npv.uuid == opv.uuid
        &&& npv.name == nn
        &&& npv.fs == opv.fs
        &&& npv.write_fails == opv.write_fails
        &&& npv.devs.len() == opv.devs.len()
        &&& forall|k: int| 0 <= k < npv.devs.len()
            ==> (#[trigger] npv.devs[k]) == (DevRecord { stored_name: nn, ..opv.devs[k] })
    })
}

/// How removing a pool and pushing back one with the same UUID changes the
/// registry, seen through lookups by UUID.
proof fn lemma_remove_push(a: Seq<StratPool>, i: int, p: StratPool)
    requires
        0 <= i < a.len(),
        forall|x: int, y: int| 0 <= x < y < a.len()
            ==> (#[trigger] a[x]).spec_uuid() != (#[trigger] a[y]).spec_uuid(),
        p.spec_uuid() == a[i].spec_uuid(),
    ensures
        a.remove(i).push(p).len() == a.len(),
        forall|u: u128| #[trigger] seq_has_uuid(a, u) == seq_has_uuid(a.remove(i).push(p), u),
        forall|u: u128| u != a[i].spec_uuid() && #[trigger] seq_has_uuid(a, u)
            ==> spec_pool_view(a.remove(i).push(p), u) == spec_pool_view(a, u),
        seq_has_uuid(a.remove(i).push(p), p.spec_uuid()),
        spec_pool_view(a.remove(i).push(p), p.spec_uuid()) == p@,
{
    let b = a.remove(i).push(p);
    a.remove_ensures(i);
    assert(b.len() == a.len());
    assert forall|m: int| 0 <= m < b.len()
        implies (#[trigger] b[m]) == (if m < i {
            a[m]
        } else if m < a.len() - 1 {
            a[m + 1]
        } else {
            p
        }) by {
        if m < a.len() - 1 {
            assert(b[m] == a.remove(i)[m]);
        }
    }
    assert forall|u: u128| #[trigger] seq_has_uuid(a, u) == seq_has_uuid(b, u) by {
        if seq_has_uuid(a, u) {
            let ia = choose|x: int| 0 <= x < a.len() && (#[trigger] a[x]).spec_uuid() == u;
            if ia == i {
                assert(b[b.len() - 1].spec_uuid() == u);
            } else if ia < i {
                assert(b[ia].spec_uuid() == u);
            } else {
                assert(b[ia - 1].spec_uuid() == u);
            }
        }
        if seq_has_uuid(b, u) {
            let ib = choose|x: int| 0 <= x < b.len() && (#[trigger] b[x]).spec_uuid() == u;
            if ib == b.len() - 1 {
                assert(a[i].spec_uuid() == u);
            } else if ib < i {
                assert(a[ib].spec_uuid() == u);
            } else {
                assert(a[ib + 1].spec_uuid() == u);
            }
        }
    }
    assert forall|u: u128| u != a[i].spec_uuid() && #[trigger] seq_has_uuid(a, u)
        implies spec_pool_view(b, u) == spec_pool_view(a, u) by {
        let ia = spec_pool_index(a, u);
        assert(0 <= ia < a.len() && a[ia].spec_uuid() == u);
        assert(seq_has_uuid(b, u));
        let ib = spec_pool_index(b, u);
        assert(0 <= ib < b.len() && b[ib].spec_uuid() == u);
        if ib == b.len() - 1 {
            assert(b[ib] == p);
            assert(false);
        }
        let m: int = if ib < i {
            ib
        } else {
            ib + 1
        };
        assert(b[ib] == a[m]);
        assert(m == ia);
    }
    let up = p.spec_uuid();
    assert(b[b.len() - 1] == p);
    assert(seq_has_uuid(b, up));
    let ibp = spec_pool_index(b, up);
    assert(0 <= ibp < b.len() && b[ibp].spec_uuid() == up);
    if ibp != b.len() - 1 {
        let m: int = if ibp < i {
            ibp
        } else {
            ibp + 1
        };
        assert(b[ibp] == a[m]);
        assert(false);
    }
}

/// The devices of one pool all stand, signed and unchanged, in a released
/// device list, and one of them hosts the pool's metadata image.
pub open spec fn pool_released(pv: PoolView, devs: Seq<RawDevice>) -> bool {
    &&& forall|k: int| #![trigger pv.devs[k]] 0 <= k < pv.devs.len() ==> exists|m: int|
        0 <= m < devs.len() && owned_by(#[trigger] devs[m], pv.uuid)
            && dev_record_of(devs[m]) == pv.devs[k]
    &&& exists|m: int| 0 <= m < devs.len() && owned_by(#[trigger] devs[m], pv.uuid)
        && wf_entries(devs[m].mdv_files@)
        && committed_of(devs[m].mdv_files@) == pv.fs.committed
        && temps_of(devs[m].mdv_files@) == pv.fs.temps
}

/// Tear down every given pool, releasing all their devices. Every pool is
/// attempted; the devices of each, with their signatures and hosted
/// metadata image, end up in the returned list.
pub fn teardown_pools(pools: Vec<StratPool>) -> (r: EngineResult<Vec<RawDevice>>)
    requires
        forall|i: int| 0 <= i < pools@.len() ==> (#[trigger] pools@[i]).wf(),
    ensures
        r is Ok,
        r matches Ok(devs) ==> forall|i: int| 0 <= i < pools@.len()
            ==> pool_released((#[trigger] pools@[i])@, devs@),
{
    let ghost orig: Seq<StratPool> = pools@;
    let mut pools = pools;
    let mut out: Vec<RawDevice> = Vec::new();
    while pools.len() > 0
        invariant
            pools@.len() <= orig.len(),
            pools@ =~= orig.subrange(orig.len() - pools@.len(), orig.len() as int),
            forall|i: int| 0 <= i < orig.len() ==> (#[trigger] orig[i]).wf(),
            forall|i: int| 0 <= i < orig.len() - pools@.len()
                ==> pool_released((#[trigger] orig[i])@, out@),
        decreases pools.len(),
    {
        let ghost done: int = orig.len() - pools@.len();
        let p = pools.remove(0);
        proof {
            assert(p == orig[done]);
        }
        let ghost pv: PoolView = p@;
        let ghost out0: Seq<RawDevice> = out@;
        let mut devs = p.teardown();
        let ghost dv: Seq<RawDevice> = devs@;
        out.append(&mut devs);
        proof {
            assert(out@ == out0 + dv);
            assert forall|i: int| 0 <= i < done + 1
                implies pool_released((#[trigger] orig[i])@, out@) by {
                if i < done {
                    assert(pool_released(orig[i]@, out0));
                    assert forall|k: int| #![trigger orig[i]@.devs[k]]
                        0 <= k < orig[i]@.devs.len() implies exists|m: int|
                        0 <= m < out@.len() && owned_by(#[trigger] out@[m], orig[i]@.uuid)
                            && dev_record_of(out@[m]) == orig[i]@.devs[k] by {
                        let m = choose|m: int|
                            0 <= m < out0.len() && owned_by(#[trigger] out0[m], orig[i]@.uuid)
                                && dev_record_of(out0[m]) == orig[i]@.devs[k];
                        assert(out@[m] == out0[m]);
                    }
                    let m2 = choose|m: int|
                        0 <= m < out0.len() && owned_by(#[trigger] out0[m], orig[i]@.uuid)
                            && wf_entries(out0[m].mdv_files@)
                            && committed_of(out0[m].mdv_files@) == orig[i]@.fs.committed
                            && temps_of(out0[m].mdv_files@) == orig[i]@.fs.temps;
                    assert(out@[m2] == out0[m2]);
                } else {
                    assert(orig[i]@ == pv);
                    assert forall|k: int| #![trigger pv.devs[k]]
                        0 <= k < pv.devs.len() implies exists|m: int|
                        0 <= m < out@.len() && owned_by(#[trigger] out@[m], pv.uuid)
                            && dev_record_of(out@[m]) == pv.devs[k] by {
                        assert(out@[out0.len() as int + k] == dv[k]);
                        assert(owned_by(dv[k], pv.uuid) && dev_record_of(dv[k]) == pv.devs[k]);
                    }
                    assert(out@[out0.len() as int] == dv[0]);
                }
            }
        }
    }
    Ok(out)
}

/// Some device in the list is signed for this pool.
pub open spec fn spec_some_owned(devs: Seq<RawDevice>, u: u128) -> bool {
    exists|j: int| 0 <= j < devs.len() && owned_by(#[trigger] devs[j], u)
}

/// No device in the list carries our signature.
pub open spec fn no_owned(devs: Seq<RawDevice>) -> bool {
    forall|j: int| 0 <= j < devs.len()
        ==> !(spec_classify(#[trigger] devs[j]) matches DevOwnership::Ours(_, _))
}

/// The pool's identity and durable state all come off one of the scanned
/// devices: its name is the stored copy and its metadata volume holds the
/// image that device hosted.
pub open spec fn pool_from_devices(pv: PoolView, devs: Seq<RawDevice>) -> bool {
    exists|j: int| 0 <= j < devs.len() && owned_by(#[trigger] devs[j], pv.uuid)
        && pv.name == spec_stored_name(devs[j])
        && pv.fs.committed == committed_of(devs[j].mdv_files@)
        && pv.fs.temps == temps_of(devs[j].mdv_files@)
}

/// A scanned device set is unambiguous: no two devices signed for one
/// pool share a device UUID, devices signed for different pools never
/// store the same pool name, and no signature names the last identifier
/// of the UUID space. Discovery over such a set is owed success.
pub open spec fn clean_discovery(devs: Seq<RawDevice>) -> bool {
    &&& forall|i: int, j: int, u: u128| 0 <= i < j < devs.len()
        && #[trigger] owned_by(devs[i], u) && #[trigger] owned_by(devs[j], u)
        ==> spec_dev_uuid(devs[i]) != spec_dev_uuid(devs[j])
    &&& forall|i: int, j: int, u1: u128, u2: u128| 0 <= i < devs.len() && 0 <= j < devs.len()
        && u1 != u2 && #[trigger] owned_by(devs[i], u1) && #[trigger] owned_by(devs[j], u2)
        ==> spec_stored_name(devs[i]) != spec_stored_name(devs[j])
    &&& forall|i: int, u: u128| 0 <= i < devs.len() && #[trigger] owned_by(devs[i], u)
        ==> u < u128::MAX
}

/// One discovery group: a pool UUID with devices signed for it, the first
/// of which is one of the scanned devices.
spec fn group_ok(orig: Seq<RawDevice>, grp: (u128, Vec<RawDevice>)) -> bool {
    &&& grp.1@.len() > 0
    &&& forall|m: int| 0 <= m < grp.1@.len()
        ==> owned_by(#[trigger] grp.1@[m], grp.0) && wf_entries(grp.1@[m].mdv_files@)
    &&& exists|j: int| 0 <= j < orig.len() && owned_by(#[trigger] orig[j], grp.0)
        && grp.1@[0] == orig[j]
}

} // verus!
