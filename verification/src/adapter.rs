//! One connected Bluetooth adapter and its per-handle session state: the
//! bonded-device store, the discovery/discoverable session serials and the
//! registered pairing delegate.

use crate::types::{BondRecord, SessionKind};
use vstd::prelude::*;

verus! {

/// The map a sequence of bond records denotes, keyed by device id; a later
/// record for the same device replaces an earlier one (last write wins).
pub open spec fn bond_map_of(s: Seq<BondRecord>) -> Map<u64, BondRecord>
    decreases s.len(),
{
    if s.len() == 0 {
        Map::empty()
    } else {
        bond_map_of(s.drop_last()).insert(s.last().device_id, s.last())
    }
}

/// Pairwise-distinct device ids: each device has at most one stored record.
pub open spec fn unique_device_ids(s: Seq<BondRecord>) -> bool {
    forall|i: int, j: int| 0 <= i < j < s.len() ==> s[i].device_id != s[j].device_id
}

proof fn lemma_bond_map_absent(s: Seq<BondRecord>, d: u64)
    requires
        forall|i: int| 0 <= i < s.len() ==> s[i].device_id != d,
    ensures
        !bond_map_of(s).dom().contains(d),
    decreases s.len(),
{
    if s.len() > 0 {
        assert(forall|i: int| 0 <= i < s.drop_last().len() ==> s.drop_last()[i].device_id != d);
        lemma_bond_map_absent(s.drop_last(), d);
        assert(s.last().device_id != d);
    }
}

proof fn lemma_bond_map_lookup(s: Seq<BondRecord>, i: int)
    requires
        unique_device_ids(s),
        0 <= i < s.len(),
    ensures
        bond_map_of(s).dom().contains(s[i].device_id),
        bond_map_of(s)[s[i].device_id] == s[i],
    decreases s.len(),
{
    if i < s.len() - 1 {
        assert(unique_device_ids(s.drop_last()));
        lemma_bond_map_lookup(s.drop_last(), i);
        assert(s.last().device_id != s[i].device_id);
    }
}

proof fn lemma_bond_map_update(s: Seq<BondRecord>, i: int, r: BondRecord)
    requires
        unique_device_ids(s),
        0 <= i < s.len(),
        s[i].device_id == r.device_id,
    ensures
        bond_map_of(s.update(i, r)) == bond_map_of(s).insert(r.device_id, r),
    decreases s.len(),
{
    let t = s.update(i, r);
    if i == s.len() - 1 {
        assert(t.drop_last() =~= s.drop_last());
        assert(t.last() == r);
        assert(bond_map_of(s.drop_last()).insert(r.device_id, r) =~= bond_map_of(
            s.drop_last(),
        ).insert(s.last().device_id, s.last()).insert(r.device_id, r));
    } else {
        assert(t.drop_last() =~= s.drop_last().update(i, r));
        assert(unique_device_ids(s.drop_last()));
        lemma_bond_map_update(s.drop_last(), i, r);
        assert(t.last() == s.last());
        assert(s.last().device_id != r.device_id);
        assert(bond_map_of(s.drop_last()).insert(r.device_id, r).insert(
            s.last().device_id,
            s.last(),
        ) =~= bond_map_of(s.drop_last()).insert(s.last().device_id, s.last()).insert(
            r.device_id,
            r,
        ));
    }
}

/// A snapshot of one adapter, as reported to callers.
#[derive(Debug)]
pub struct AdapterInfo {
    /// The adapter's stable local identifier.
    pub id: u64,
    /// The adapter's name.
    pub name: String,
    /// Whether a discovery session is live on the adapter.
    pub discovering: bool,
    /// Whether a discoverable session is live on the adapter.
    pub discoverable: bool,
}

/// The mathematical state of one adapter: what an [`AdapterHandle`] means.
pub ghost struct AdapterModel {
    /// Stable local identifier.
    pub id: u64,
    /// The adapter's name.
    pub name: Seq<char>,
    /// The bonded-device store, keyed by device id.
    pub bonds: Map<u64, BondRecord>,
    /// Serial of the live discovery token, if one exists; the discovery
    /// flag of the adapter is exactly `discovery_session is Some`.
    pub discovery_session: Option<u64>,
    /// Serial of the live discoverable token, if one exists.
    pub discoverable_session: Option<u64>,
    /// The registered pairing delegate; at most one, last writer wins.
    pub delegate: Option<u64>,
}

impl AdapterModel {
    /// Serial of the live session of the given kind, if any.
    pub open spec fn session(self, kind: SessionKind) -> Option<u64> {
        match kind {
            SessionKind::Discovery => self.discovery_session,
            SessionKind::Discoverable => self.discoverable_session,
        }
    }

    /// The session flag: true exactly when a live token of this kind exists.
    pub open spec fn session_live(self, kind: SessionKind) -> bool {
        self.session(kind) is Some
    }

    /// The same adapter with the session of one kind replaced.
    pub open spec fn with_session(self, kind: SessionKind, s: Option<u64>) -> AdapterModel {
        match kind {
            SessionKind::Discovery => AdapterModel { discovery_session: s, ..self },
            SessionKind::Discoverable => AdapterModel { discoverable_session: s, ..self },
        }
    }
}

/// One registered adapter: its identity plus the mutable session state the
/// dispatcher arbitrates.
pub struct AdapterHandle {
    id: u64,
    name: String,
    bonded: Vec<BondRecord>,
    discovery_session: Option<u64>,
    discoverable_session: Option<u64>,
    delegate: Option<u64>,
}

impl View for AdapterHandle {
    type V = AdapterModel;

    closed spec fn view(&self) -> AdapterModel {
        AdapterModel {
            id: self.id,
            name: self.name@,
            bonds: bond_map_of(self.bonded@),
            discovery_session: self.discovery_session,
            discoverable_session: self.discoverable_session,
            delegate: self.delegate,
        }
    }
}

impl AdapterHandle {
    /// Internal well-formedness: at most one stored record per device.
    pub closed spec fn wf(self) -> bool {
        unique_device_ids(self.bonded@)
    }

    /// A freshly registered adapter: no bonds, no sessions, no delegate.
    pub fn new(id: u64, name: String) -> (h: AdapterHandle)
        ensures
            h.wf(),
            h@.id == id,
            h@.name == name@,
            h@.bonds == Map::<u64, BondRecord>::empty(),
            h@.discovery_session is None,
            h@.discoverable_session is None,
            h@.delegate is None,
    {
        AdapterHandle {
            id,
            name,
            bonded: Vec::new(),
            discovery_session: None,
            discoverable_session: None,
            delegate: None,
        }
    }

    /// The adapter's stable local identifier.
    pub fn local_id(&self) -> (r: u64)
        ensures
            r == self@.id,
    {
        self.id
    }

    /// The registered pairing delegate, if any.
    pub fn delegate_id(&self) -> (r: Option<u64>)
        ensures
            r == self@.delegate,
    {
        self.delegate
    }

    /// Serial of the live session of the given kind, if any.
    pub fn session_serial(&self, kind: SessionKind) -> (r: Option<u64>)
        ensures
            r == self@.session(kind),
    {
        match kind {
            SessionKind::Discovery => self.discovery_session,
            SessionKind::Discoverable => self.discoverable_session,
        }
    }

    /// Replace the session serial of one kind; everything else is kept.
    pub fn set_session(&mut self, kind: SessionKind, s: Option<u64>)
        ensures
            final(self).wf() == old(self).wf(),
            final(self)@ == old(self)@.with_session(kind, s),
    {
        match kind {
            SessionKind::Discovery => {
                self.discovery_session = s;
            },
            SessionKind::Discoverable => {
                self.discoverable_session = s;
            },
        }
    }

    /// Replace the registered pairing delegate: the previous registration,
    /// if any, is discarded; `None` clears it.
    pub fn set_delegate(&mut self, d: Option<u64>)
        ensures
            final(self).wf() == old(self).wf(),
            final(self)@ == (AdapterModel { delegate: d, ..old(self)@ }),
    {
        self.delegate = d;
    }

    /// Insert or replace the record for one device.
    fn upsert(&mut self, r: BondRecord)
        requires
            old(self).wf(),
        ensures
            final(self).wf(),
            final(self)@ == (AdapterModel {
                bonds: old(self)@.bonds.insert(r.device_id, r),
                ..old(self)@
            }),
    {
        let n: usize = self.bonded.len();
        let mut i: usize = 0;
        while i < n
            invariant
                *self == *old(self),
                self.wf(),
                n == self.bonded@.len(),
                i <= n,
                forall|k: int| 0 <= k < i ==> self.bonded@[k].device_id != r.device_id,
            decreases n - i,
        {
            if self.bonded[i].device_id == r.device_id {
                proof {
                    lemma_bond_map_update(self.bonded@, i as int, r);
                }
                self.bonded[i] = r;
                proof {
                    assert(unique_device_ids(self.bonded@));
                }
                return ;
            }
            i += 1;
        }
        proof {
            lemma_bond_map_absent(self.bonded@, r.device_id);
            assert(self.bonded@.push(r).drop_last() =~= self.bonded@);
            assert(self.bonded@.push(r).last() == r);
        }
        self.bonded.push(r);
        proof {
            assert(unique_device_ids(self.bonded@));
        }
    }

    /// Merge the given records into the bonded-device store: keys are
    /// device ids, and on a conflict for the same device the given record
    /// (or, within `records`, the later one) replaces the stored one.
    pub fn merge_bonds(&mut self, records: &Vec<BondRecord>)
        requires
            old(self).wf(),
        ensures
            final(self).wf(),
            final(self)@ == (AdapterModel {
                bonds: old(self)@.bonds.union_prefer_right(bond_map_of(records@)),
                ..old(self)@
            }),
    {
        let ghost orig = *old(self);
        let n: usize = records.len();
        let mut j: usize = 0;
        proof {
            assert(records@.take(0) =~= Seq::<BondRecord>::empty());
            assert(orig@.bonds.union_prefer_right(Map::<u64, BondRecord>::empty())
                =~= orig@.bonds);
        }
        while j < n
            invariant
                self.wf(),
                n == records@.len(),
                j <= n,
                self@ == (AdapterModel {
                    bonds: orig@.bonds.union_prefer_right(
                        bond_map_of(records@.take(j as int)),
                    ),
                    ..orig@
                }),
            decreases n - j,
        {
            let r = records[j];
            proof {
                let pre = records@.take(j as int);
                let post = records@.take(j as int + 1);
                assert(post.drop_last() =~= pre);
                assert(post.last() == r);
                assert(orig@.bonds.union_prefer_right(bond_map_of(pre)).insert(
                    r.device_id,
                    r,
                ) =~= orig@.bonds.union_prefer_right(
                    bond_map_of(pre).insert(r.device_id, r),
                ));
            }
            self.upsert(r);
            j += 1;
        }
        proof {
            assert(records@.take(n as int) =~= records@);
        }
    }

    /// Look up the stored bond record for one device, if any.
    pub fn bond_for(&self, device_id: u64) -> (r: Option<BondRecord>)
        requires
            self.wf(),
        ensures
            self@.bonds.dom().contains(device_id) ==> r == Some(self@.bonds[device_id]),
            !self@.bonds.dom().contains(device_id) ==> r is None,
    {
        let n: usize = self.bonded.len();
        let mut i: usize = 0;
        while i < n
            invariant
                self.wf(),
                n == self.bonded@.len(),
                i <= n,
                forall|k: int| 0 <= k < i ==> self.bonded@[k].device_id != device_id,
            decreases n - i,
        {
            if self.bonded[i].device_id == device_id {
                proof {
                    lemma_bond_map_lookup(self.bonded@, i as int);
                }
                return Some(self.bonded[i]);
            }
            i += 1;
        }
        proof {
            lemma_bond_map_absent(self.bonded@, device_id);
        }
        None
    }

    /// A snapshot of the adapter for reporting to callers.
    pub fn info(&self) -> (r: AdapterInfo)
        ensures
            r.id == self@.id,
            r.name@ == self@.name,
            r.discovering == self@.session_live(SessionKind::Discovery),
            r.discoverable == self@.session_live(SessionKind::Discoverable),
    {
        AdapterInfo {
            id: self.id,
            name: self.name.clone(),
            discovering: self.discovery_session.is_some(),
            discoverable: self.discoverable_session.is_some(),
        }
    }
}

} // verus!
