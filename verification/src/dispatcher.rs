//! The Host Dispatcher: owns the set of registered adapters, designates at
//! most one of them as active, issues and revokes session tokens, merges
//! bonded-device records and routes pairing-delegate registrations.
//!
//! Every dispatcher operation is local: it never waits or retries
//! internally.  The bounded wait for an adapter to become active is
//! expressed by [`HostDispatcher::get_active_adapter`], which decides from
//! the time already waited whether the caller should keep waiting or give
//! up; driving that wait is the caller's concern.

use crate::adapter::{bond_map_of, AdapterHandle, AdapterInfo, AdapterModel};
use crate::types::{BondRecord, ErrorCode, SessionKind, Token};
use vstd::prelude::*;

verus! {

/// Default bounded-wait window for an adapter to become active, in
/// milliseconds.
pub const DEFAULT_TIMEOUT_MS: u64 = 5000;

/// Outcome of resolving the active adapter under a bounded wait.
#[derive(Clone, Copy, PartialEq, Eq, Structural, Debug)]
pub enum AdapterQuery {
    /// An active adapter is designated; carries its identifier.
    Ready(u64),
    /// No adapter is active yet and the bounded wait has not elapsed:
    /// the caller may wait and ask again.
    Pending,
    /// No adapter is active and the bounded wait has elapsed.
    NotFound,
}

/// Does the snapshot `i` describe the adapter state `m`?
pub open spec fn info_matches(m: AdapterModel, i: AdapterInfo) -> bool {
    &&& i.id == m.id
    &&& i.name@ == m.name
    &&& i.discovering == m.session_live(SessionKind::Discovery)
    &&& i.discoverable == m.session_live(SessionKind::Discoverable)
}

/// The arbitration core: the registry of adapters, the active designation
/// and the token serial counter.
///
/// The dispatcher's mathematical state (`self@`) is a map from adapter
/// identifier to [`AdapterModel`].
pub struct HostDispatcher {
    adapters: Vec<AdapterHandle>,
    active_id: Option<u64>,
    next_serial: u64,
    wait_timeout_ms: u64,
}

impl View for HostDispatcher {
    type V = Map<u64, AdapterModel>;

    closed spec fn view(&self) -> Map<u64, AdapterModel> {
        Map::new(
            |id: u64|
                exists|i: int|
                    0 <= i < self.adapters@.len() && self.adapters@[i]@.id == id,
            |id: u64| self.adapters@[self.index_of(id)]@,
        )
    }
}

impl HostDispatcher {
    spec fn index_of(self, id: u64) -> int {
        choose|i: int| 0 <= i < self.adapters@.len() && self.adapters@[i]@.id == id
    }

    /// The identifier of the active adapter, if one is designated.
    pub closed spec fn active(self) -> Option<u64> {
        self.active_id
    }

    /// The serial the next issued token will carry; serials are never
    /// reused, so every revoked token stays distinguishable from later ones.
    pub closed spec fn fresh_serial(self) -> u64 {
        self.next_serial
    }

    /// The configured bounded-wait window, in milliseconds.
    pub closed spec fn timeout(self) -> u64 {
        self.wait_timeout_ms
    }

    /// The serial counter has room for another token.
    pub open spec fn can_issue(self) -> bool {
        self.fresh_serial() < u64::MAX
    }

    /// Is an adapter with this identifier registered?
    pub open spec fn registered(self, id: u64) -> bool {
        self@.dom().contains(id)
    }

    /// A token is live exactly when the adapter it names is registered and
    /// that adapter's session of the token's kind holds the token's serial.
    /// The session flag of spec-level talk is `session_live`, and it is
    /// true iff some token is live for that (adapter, kind) pair.
    pub open spec fn token_live(self, t: Token) -> bool {
        &&& self.registered(t.adapter_id)
        &&& self@[t.adapter_id].session(t.kind) == Some(t.serial)
    }

    spec fn session_serial_bounded(m: AdapterModel, bound: u64) -> bool {
        &&& (m.discovery_session is Some ==> m.discovery_session->0 < bound)
        &&& (m.discoverable_session is Some ==> m.discoverable_session->0 < bound)
    }

    /// Well-formedness: adapter identifiers are unique, every handle's own
    /// invariant holds, the active designation refers to a registered
    /// adapter, and every live session serial is below the counter.
    pub closed spec fn wf(self) -> bool {
        &&& forall|i: int, j: int|
            0 <= i < j < self.adapters@.len() ==> self.adapters@[i]@.id
                != self.adapters@[j]@.id
        &&& forall|i: int| 0 <= i < self.adapters@.len() ==> self.adapters@[i].wf()
        &&& match self.active_id {
            Some(id) => self@.dom().contains(id),
            None => true,
        }
        &&& forall|i: int|
            0 <= i < self.adapters@.len() ==> Self::session_serial_bounded(
                self.adapters@[i]@,
                self.next_serial,
            )
    }

    /// The active designation, if set, names a registered adapter.
    pub proof fn lemma_active_registered(self)
        requires
            self.wf(),
            self.active() is Some,
        ensures
            self.registered(self.active()->0),
    {
    }

    proof fn lemma_at_index(self, i: int)
        requires
            self.wf(),
            0 <= i < self.adapters@.len(),
        ensures
            self.registered(self.adapters@[i]@.id),
            self.index_of(self.adapters@[i]@.id) == i,
            self@[self.adapters@[i]@.id] == self.adapters@[i]@,
    {
        let id = self.adapters@[i]@.id;
        assert(exists|k: int|
            0 <= k < self.adapters@.len() && self.adapters@[k]@.id == id);
        let j = self.index_of(id);
        assert(0 <= j < self.adapters@.len() && self.adapters@[j]@.id == id);
        if i != j {
            assert(false);
        }
    }

    /// Relates the dispatcher view to the one of a dispatcher whose handle
    /// sequence only changed at position `i`, with the identifier kept.
    proof fn lemma_view_update(pre: Self, post: Self, i: int)
        requires
            pre.wf(),
            0 <= i < pre.adapters@.len(),
            post.adapters@ =~= pre.adapters@.update(i, post.adapters@[i]),
            post.adapters@[i]@.id == pre.adapters@[i]@.id,
        ensures
            post@ =~= pre@.insert(pre.adapters@[i]@.id, post.adapters@[i]@),
    {
        let id = pre.adapters@[i]@.id;
        assert forall|k: int, l: int|
            0 <= k < l < post.adapters@.len() implies post.adapters@[k]@.id
            != post.adapters@[l]@.id by {
            assert(post.adapters@[k]@.id == pre.adapters@[k]@.id);
            assert(post.adapters@[l]@.id == pre.adapters@[l]@.id);
        }
        assert forall|a: u64| post@.dom().contains(a) implies pre@.insert(
            id,
            post.adapters@[i]@,
        ).dom().contains(a) by {
            let k = choose|k: int|
                0 <= k < post.adapters@.len() && post.adapters@[k]@.id == a;
            assert(pre.adapters@[k]@.id == a);
        }
        assert forall|a: u64| pre@.dom().contains(a) implies post@.dom().contains(a) by {
            let k = choose|k: int|
                0 <= k < pre.adapters@.len() && pre.adapters@[k]@.id == a;
            assert(post.adapters@[k]@.id == a);
        }
        assert forall|a: u64| post@.dom().contains(a) implies post@[a] == pre@.insert(
            id,
            post.adapters@[i]@,
        )[a] by {
            let k = post.index_of(a);
            assert(0 <= k < post.adapters@.len() && post.adapters@[k]@.id == a);
            if a == id {
                if k != i {
                    assert(post.adapters@[k]@.id == pre.adapters@[k]@.id);
                    assert(false);
                }
                assert(post@[a] == post.adapters@[i]@);
            } else {
                assert(k != i);
                assert(post.adapters@[k] == pre.adapters@[k]);
                pre.lemma_at_index(k);
                assert(pre@[a] == pre.adapters@[k]@);
                assert(post@[a] == post.adapters@[k]@);
            }
        }
    }

    /// Find the position of a registered adapter by identifier.
    fn find_index(&self, id: u64) -> (r: Option<usize>)
        requires
            self.wf(),
        ensures
            match r {
                Some(i) => {
                    &&& i < self.adapters@.len()
                    &&& self.adapters@[i as int]@.id == id
                    &&& self.registered(id)
                    &&& self@[id] == self.adapters@[i as int]@
                },
                None => !self.registered(id),
            },
    {
        let n: usize = self.adapters.len();
        let mut i: usize = 0;
        while i < n
            invariant
                self.wf(),
                n == self.adapters@.len(),
                i <= n,
                forall|k: int| 0 <= k < i ==> self.adapters@[k]@.id != id,
            decreases n - i,
        {
            if self.adapters[i].local_id() == id {
                proof {
                    self.lemma_at_index(i as int);
                }
                return Some(i);
            }
            i += 1;
        }
        proof {
            if self.registered(id) {
                let k = self.index_of(id);
                assert(0 <= k < self.adapters@.len() && self.adapters@[k]@.id == id);
            }
        }
        None
    }

    /// A dispatcher with an empty registry, no active designation and the
    /// given bounded-wait window.
    pub fn new(timeout_ms: u64) -> (r: HostDispatcher)
        ensures
            r.wf(),
            r@ == Map::<u64, AdapterModel>::empty(),
            r.active() is None,
            r.fresh_serial() == 0,
            r.timeout() == timeout_ms,
    {
        let r = HostDispatcher {
            adapters: Vec::new(),
            active_id: None,
            next_serial: 0,
            wait_timeout_ms: timeout_ms,
        };
        proof {
            assert(r@ =~= Map::<u64, AdapterModel>::empty());
        }
        r
    }

    /// The configured bounded-wait window, in milliseconds.
    pub fn timeout_ms(&self) -> (r: u64)
        ensures
            r == self.timeout(),
    {
        self.wait_timeout_ms
    }

    /// The identifier of the active adapter, if one is designated.
    pub fn active_adapter_id(&self) -> (r: Option<u64>)
        ensures
            r == self.active(),
    {
        self.active_id
    }

    /// Does the serial counter have room for another token?  True until
    /// `u64::MAX` tokens have been issued.
    pub fn can_issue_now(&self) -> (r: bool)
        ensures
            r == self.can_issue(),
    {
        self.next_serial < u64::MAX
    }

    /// The pairing delegate registered on the given adapter, if the
    /// adapter is registered and has one.
    pub fn pairing_delegate(&self, id: u64) -> (r: Option<u64>)
        requires
            self.wf(),
        ensures
            r == (if self.registered(id) {
                self@[id].delegate
            } else {
                None::<u64>
            }),
    {
        match self.find_index(id) {
            None => None,
            Some(i) => self.adapters[i].delegate_id(),
        }
    }

    /// Is a session of the given kind live on the given adapter?
    pub fn session_live_on(&self, id: u64, kind: SessionKind) -> (r: bool)
        requires
            self.wf(),
        ensures
            r == (self.registered(id) && self@[id].session_live(kind)),
    {
        match self.find_index(id) {
            None => false,
            Some(i) => self.adapters[i].session_serial(kind).is_some(),
        }
    }

    /// Register a newly connected adapter.  Fails (returning `false`,
    /// changing nothing) if the identifier is already taken.  The new
    /// adapter starts with no bonds, no sessions and no delegate, and
    /// becomes the active adapter if none was designated.
    pub fn register_adapter(&mut self, id: u64, name: String) -> (r: bool)
        requires
            old(self).wf(),
        ensures
            final(self).wf(),
            final(self).fresh_serial() == old(self).fresh_serial(),
            final(self).timeout() == old(self).timeout(),
            old(self).registered(id) ==> !r && *final(self) == *old(self),
            !old(self).registered(id) ==> {
                &&& r
                &&& final(self)@ == old(self)@.insert(
                    id,
                    AdapterModel {
                        id,
                        name: name@,
                        bonds: Map::<u64, BondRecord>::empty(),
                        discovery_session: None,
                        discoverable_session: None,
                        delegate: None,
                    },
                )
                &&& final(self).active() == (if old(self).active() is Some {
                    old(self).active()
                } else {
                    Some(id)
                })
            },
    {
        if self.find_index(id).is_some() {
            return false;
        }
        let ghost pre = *self;
        let h = AdapterHandle::new(id, name);
        let ghost hm = h@;
        self.adapters.push(h);
        if self.active_id.is_none() {
            self.active_id = Some(id);
        }
        proof {
            let n = pre.adapters@.len();
            assert(self.adapters@ =~= pre.adapters@.push(h));
            assert forall|a: u64| self@.dom().contains(a) implies pre@.insert(
                id,
                hm,
            ).dom().contains(a) by {
                let k = choose|k: int|
                    0 <= k < self.adapters@.len() && self.adapters@[k]@.id == a;
                if k < n {
                    assert(pre.adapters@[k]@.id == a);
                }
            }
            assert forall|a: u64| pre@.insert(id, hm).dom().contains(a)
                implies self@.dom().contains(a) by {
                if a == id {
                    assert(self.adapters@[n as int]@.id == id);
                } else {
                    let k = choose|k: int|
                        0 <= k < pre.adapters@.len() && pre.adapters@[k]@.id == a;
                    assert(self.adapters@[k]@.id == a);
                }
            }
            assert forall|a: u64| self@.dom().contains(a) implies self@[a] == pre@.insert(
                id,
                hm,
            )[a] by {
                let k = self.index_of(a);
                assert(0 <= k < self.adapters@.len() && self.adapters@[k]@.id == a);
                if a == id {
                    if k < n {
                        assert(pre.adapters@[k]@.id == id);
                        assert(pre.registered(id));
                        assert(false);
                    }
                    assert(self@[a] == hm);
                } else {
                    assert(k < n);
                    pre.lemma_at_index(k);
                    assert(pre@[a] == pre.adapters@[k]@);
                }
            }
            assert(self@ =~= pre@.insert(id, hm));
        }
        true
    }

    /// Remove a disconnected adapter.  Destroys its handle, which revokes
    /// any outstanding token on it (no token naming it stays live) and
    /// drops its delegate; if it was the active adapter, the designation
    /// becomes empty.  Returns `false`, changing nothing, if the
    /// identifier is not registered.
    pub fn remove_adapter(&mut self, id: u64) -> (r: bool)
        requires
            old(self).wf(),
        ensures
            final(self).wf(),
            final(self).fresh_serial() == old(self).fresh_serial(),
            final(self).timeout() == old(self).timeout(),
            !old(self).registered(id) ==> !r && *final(self) == *old(self),
            old(self).registered(id) ==> {
                &&& r
                &&& final(self)@ == old(self)@.remove(id)
                &&& final(self).active() == (if old(self).active() == Some(id) {
                    None::<u64>
                } else {
                    old(self).active()
                })
                &&& forall|t: Token|
                    final(self).token_live(t) <==> old(self).token_live(t)
                        && t.adapter_id != id
            },
    {
        let found = self.find_index(id);
        match found {
            None => false,
            Some(i) => {
                let ghost pre = *self;
                self.adapters.remove(i);
                match self.active_id {
                    Some(a) => {
                        if a == id {
                            self.active_id = None;
                        }
                    },
                    None => {},
                }
                proof {
                    let n = pre.adapters@.len();
                    assert(self.adapters@ =~= pre.adapters@.remove(i as int));
                    assert forall|k: int, l: int|
                        0 <= k < l < self.adapters@.len()
                        implies self.adapters@[k]@.id != self.adapters@[l]@.id by {
                        let pk: int = if k < i { k } else { k + 1 };
                        let pl: int = if l < i { l } else { l + 1 };
                        assert(self.adapters@[k] == pre.adapters@[pk]);
                        assert(self.adapters@[l] == pre.adapters@[pl]);
                    }
                    assert forall|a: u64| self@.dom().contains(a) implies pre@.remove(
                        id,
                    ).dom().contains(a) by {
                        let k = choose|k: int|
                            0 <= k < self.adapters@.len() && self.adapters@[k]@.id == a;
                        let pk: int = if k < i { k } else { k + 1 };
                        assert(pre.adapters@[pk]@.id == a);
                        if a == id {
                            assert(pre.adapters@[i as int]@.id == id);
                            assert(false);
                        }
                    }
                    assert forall|a: u64| pre@.remove(id).dom().contains(a)
                        implies self@.dom().contains(a) by {
                        let k = choose|k: int|
                            0 <= k < pre.adapters@.len() && pre.adapters@[k]@.id == a;
                        assert(pre.adapters@[i as int]@.id == id);
                        if k < i {
                            assert(self.adapters@[k]@.id == a);
                        } else {
                            assert(k != i);
                            assert(self.adapters@[k - 1]@.id == a);
                        }
                    }
                    assert forall|a: u64| self@.dom().contains(a) implies self@[a]
                        == pre@.remove(id)[a] by {
                        let k = self.index_of(a);
                        assert(0 <= k < self.adapters@.len() && self.adapters@[k]@.id == a);
                        let pk: int = if k < i { k } else { k + 1 };
                        assert(self.adapters@[k] == pre.adapters@[pk]);
                        pre.lemma_at_index(pk);
                        assert(pre@[a] == pre.adapters@[pk]@);
                    }
                    assert(self@ =~= pre@.remove(id));
                }
                true
            },
        }
    }

    /// Resolve the active adapter under a bounded wait.  Returns `Ready`
    /// at once if an adapter is designated active; otherwise the caller,
    /// having already waited `waited_ms`, is told to keep waiting
    /// (`Pending`) until the configured window has elapsed, after which
    /// the answer is `NotFound`.
    pub fn get_active_adapter(&self, waited_ms: u64) -> (r: AdapterQuery)
        requires
            self.wf(),
        ensures
            match self.active() {
                Some(id) => r == AdapterQuery::Ready(id) && self.registered(id),
                None => r == (if waited_ms >= self.timeout() {
                    AdapterQuery::NotFound
                } else {
                    AdapterQuery::Pending
                }),
            },
    {
        match self.active_id {
            Some(id) => AdapterQuery::Ready(id),
            None => {
                if waited_ms >= self.wait_timeout_ms {
                    AdapterQuery::NotFound
                } else {
                    AdapterQuery::Pending
                }
            },
        }
    }

    /// Reassign the active designation.  Succeeds only if `id` names a
    /// registered adapter; otherwise the designation is left unchanged and
    /// `NotFound` is reported.  No adapter's session state is affected
    /// either way: tokens and flags are per-handle, not global.
    pub fn set_active_adapter(&mut self, id: u64) -> (r: Result<(), ErrorCode>)
        requires
            old(self).wf(),
        ensures
            final(self).wf(),
            final(self)@ == old(self)@,
            final(self).fresh_serial() == old(self).fresh_serial(),
            final(self).timeout() == old(self).timeout(),
            match r {
                Ok(()) => old(self).registered(id) && final(self).active() == Some(id),
                Err(e) => {
                    &&& e == ErrorCode::NotFound
                    &&& !old(self).registered(id)
                    &&& *final(self) == *old(self)
                },
            },
    {
        match self.find_index(id) {
            Some(_) => {
                self.active_id = Some(id);
                Ok(())
            },
            None => Err(ErrorCode::NotFound),
        }
    }

    /// What creating a session promises: see [`HostDispatcher::start_discovery`].
    pub open spec fn start_session_post(
        pre: HostDispatcher,
        post: HostDispatcher,
        id: u64,
        kind: SessionKind,
        r: Result<Token, ErrorCode>,
    ) -> bool {
        &&& post.wf()
        &&& post.active() == pre.active()
        &&& post.timeout() == pre.timeout()
        &&& match r {
            Ok(t) => {
                &&& pre.registered(id)
                &&& !pre@[id].session_live(kind)
                &&& t == (Token { adapter_id: id, kind, serial: pre.fresh_serial() })
                &&& post@ == pre@.insert(id, pre@[id].with_session(kind, Some(t.serial)))
                &&& post.fresh_serial() == pre.fresh_serial() + 1
                &&& post.token_live(t)
                &&& !pre.token_live(t)
                &&& forall|u: Token|
                    u != t ==> (post.token_live(u) <==> pre.token_live(u))
            },
            Err(e) => {
                &&& post == pre
                &&& (e == ErrorCode::NotFound <==> !pre.registered(id))
                &&& (e == ErrorCode::AlreadyInProgress <==> pre.registered(id)
                    && pre@[id].session_live(kind))
                &&& (e == ErrorCode::NotFound || e == ErrorCode::AlreadyInProgress)
            },
        }
    }

    /// Create a session of the given kind on the given adapter: the token
    /// is created atomically with flipping the session flag on.
    pub(crate) fn start_session(&mut self, id: u64, kind: SessionKind) -> (r: Result<Token, ErrorCode>)
        requires
            old(self).wf(),
            old(self).can_issue(),
        ensures
            Self::start_session_post(*old(self), *final(self), id, kind, r),
    {
        let found = self.find_index(id);
        match found {
            None => Err(ErrorCode::NotFound),
            Some(i) => {
                if self.adapters[i].session_serial(kind).is_some() {
                    return Err(ErrorCode::AlreadyInProgress);
                }
                let ghost pre = *self;
                let serial = self.next_serial;
                let t = Token { adapter_id: id, kind, serial };
                let h = &mut self.adapters[i];
                h.set_session(kind, Some(serial));
                self.next_serial = serial + 1;
                proof {
                    assert(self.adapters@ =~= pre.adapters@.update(
                        i as int,
                        self.adapters@[i as int],
                    ));
                    Self::lemma_view_update(pre, *self, i as int);
                    assert forall|k: int| 0 <= k < self.adapters@.len()
                        implies Self::session_serial_bounded(
                        self.adapters@[k]@,
                        self.next_serial,
                    ) by {
                        if k != i {
                            assert(self.adapters@[k]@ == pre.adapters@[k]@);
                        }
                    }
                    assert forall|u: Token| u != t implies (self.token_live(u)
                        <==> pre.token_live(u)) by {
                        if u.adapter_id == id && u.kind == kind {
                            assert(pre@[id].session(kind) is None);
                        }
                    }
                }
                Ok(t)
            },
        }
    }

    /// Start a discovery session on the given adapter.  Fails with
    /// `AlreadyInProgress` if a discovery token is already live there,
    /// with `NotFound` if the adapter is not registered; otherwise the
    /// returned fresh token is created atomically with flipping the
    /// discovery flag on, and the caller becomes its owner.
    pub fn start_discovery(&mut self, id: u64) -> (r: Result<Token, ErrorCode>)
        requires
            old(self).wf(),
            old(self).can_issue(),
        ensures
            Self::start_session_post(
                *old(self),
                *final(self),
                id,
                SessionKind::Discovery,
                r,
            ),
    {
        self.start_session(id, SessionKind::Discovery)
    }

    /// Make the given adapter discoverable: symmetric to
    /// [`HostDispatcher::start_discovery`], for the discoverable flag.
    pub fn set_discoverable(&mut self, id: u64) -> (r: Result<Token, ErrorCode>)
        requires
            old(self).wf(),
            old(self).can_issue(),
        ensures
            Self::start_session_post(
                *old(self),
                *final(self),
                id,
                SessionKind::Discoverable,
                r,
            ),
    {
        self.start_session(id, SessionKind::Discoverable)
    }

    /// What revoking promises: see [`HostDispatcher::revoke_token`].
    pub open spec fn revoke_post(
        pre: HostDispatcher,
        post: HostDispatcher,
        t: Token,
    ) -> bool {
        &&& post.wf()
        &&& post.active() == pre.active()
        &&& post.fresh_serial() == pre.fresh_serial()
        &&& post.timeout() == pre.timeout()
        &&& !post.token_live(t)
        &&& (pre.token_live(t) ==> post@ == pre@.insert(
            t.adapter_id,
            pre@[t.adapter_id].with_session(t.kind, None),
        ))
        &&& (!pre.token_live(t) ==> post == pre)
        &&& forall|u: Token| u != t ==> (post.token_live(u) <==> pre.token_live(u))
    }

    /// Revoke a token: if it is live, the session flag it owns is flipped
    /// off; if it is not (it was already revoked, or its adapter is gone),
    /// nothing changes.  Revocation is idempotent: the flag is flipped
    /// back exactly once, by the first revocation.
    pub fn revoke_token(&mut self, t: &Token) -> (was_live: bool)
        requires
            old(self).wf(),
        ensures
            Self::revoke_post(*old(self), *final(self), *t),
            was_live == old(self).token_live(*t),
    {
        let found = self.find_index(t.adapter_id);
        match found {
            None => false,
            Some(i) => {
                let cur = self.adapters[i].session_serial(t.kind);
                match cur {
                    Some(s) => {
                        if s != t.serial {
                            return false;
                        }
                        let ghost pre = *self;
                        let h = &mut self.adapters[i];
                        h.set_session(t.kind, None);
                        proof {
                            assert(self.adapters@ =~= pre.adapters@.update(
                                i as int,
                                self.adapters@[i as int],
                            ));
                            Self::lemma_view_update(pre, *self, i as int);
                            assert forall|k: int| 0 <= k < self.adapters@.len()
                                implies Self::session_serial_bounded(
                                self.adapters@[k]@,
                                self.next_serial,
                            ) by {
                                if k != i {
                                    assert(self.adapters@[k]@ == pre.adapters@[k]@);
                                }
                            }
                            assert forall|u: Token| u != *t implies (self.token_live(u)
                                <==> pre.token_live(u)) by {
                                if u.adapter_id == t.adapter_id && u.kind == t.kind {
                                    assert(pre@[t.adapter_id].session(t.kind)
                                        == Some(t.serial));
                                }
                            }
                        }
                        true
                    },
                    None => false,
                }
            },
        }
    }

    /// Merge the given bond records into the active adapter's
    /// bonded-device set.  Keys are device identifiers and the last write
    /// wins on a conflict.  Fails with `NoActiveAdapter`, changing
    /// nothing, exactly when no adapter is designated active.
    pub fn add_bonded_devices(&mut self, records: &Vec<BondRecord>) -> (r: Result<
        (),
        ErrorCode,
    >)
        requires
            old(self).wf(),
        ensures
            final(self).wf(),
            final(self).active() == old(self).active(),
            final(self).fresh_serial() == old(self).fresh_serial(),
            final(self).timeout() == old(self).timeout(),
            match r {
                Ok(()) => {
                    &&& old(self).active() is Some
                    &&& final(self)@ == old(self)@.insert(
                        old(self).active()->0,
                        AdapterModel {
                            bonds: old(self)@[old(self).active()->0].bonds
                                .union_prefer_right(bond_map_of(records@)),
                            ..old(self)@[old(self).active()->0]
                        },
                    )
                },
                Err(e) => {
                    &&& e == ErrorCode::NoActiveAdapter
                    &&& old(self).active() is None
                    &&& *final(self) == *old(self)
                },
            },
    {
        let aid = match self.active_id {
            None => {
                return Err(ErrorCode::NoActiveAdapter);
            },
            Some(aid) => aid,
        };
        let found = self.find_index(aid);
        match found {
            None => {
                proof {
                    self.lemma_active_registered();
                }
                // unreachable: the active designation always names a
                // registered adapter
                Err(ErrorCode::NoActiveAdapter)
            },
            Some(i) => {
                let ghost pre = *self;
                let h = &mut self.adapters[i];
                h.merge_bonds(records);
                proof {
                    assert(self.adapters@ =~= pre.adapters@.update(
                        i as int,
                        self.adapters@[i as int],
                    ));
                    Self::lemma_view_update(pre, *self, i as int);
                    assert forall|k: int| 0 <= k < self.adapters@.len()
                        implies Self::session_serial_bounded(
                        self.adapters@[k]@,
                        self.next_serial,
                    ) by {
                        if k != i {
                            assert(self.adapters@[k]@ == pre.adapters@[k]@);
                        }
                    }
                }
                Ok(())
            },
        }
    }

    /// Register a pairing delegate on the given adapter, replacing any
    /// existing registration (the old delegate is discarded without
    /// notification and receives no further callbacks); `None` clears it.
    /// Fails with `NotFound`, changing nothing, exactly when the adapter
    /// is not registered.
    pub fn register_pairing_delegate(&mut self, id: u64, delegate: Option<u64>) -> (r:
        Result<(), ErrorCode>)
        requires
            old(self).wf(),
        ensures
            final(self).wf(),
            final(self).active() == old(self).active(),
            final(self).fresh_serial() == old(self).fresh_serial(),
            final(self).timeout() == old(self).timeout(),
            match r {
                Ok(()) => {
                    &&& old(self).registered(id)
                    &&& final(self)@ == old(self)@.insert(
                        id,
                        AdapterModel { delegate, ..old(self)@[id] },
                    )
                },
                Err(e) => {
                    &&& e == ErrorCode::NotFound
                    &&& !old(self).registered(id)
                    &&& *final(self) == *old(self)
                },
            },
    {
        let found = self.find_index(id);
        match found {
            None => Err(ErrorCode::NotFound),
            Some(i) => {
                let ghost pre = *self;
                let h = &mut self.adapters[i];
                h.set_delegate(delegate);
                proof {
                    assert(self.adapters@ =~= pre.adapters@.update(
                        i as int,
                        self.adapters@[i as int],
                    ));
                    Self::lemma_view_update(pre, *self, i as int);
                    assert forall|k: int| 0 <= k < self.adapters@.len()
                        implies Self::session_serial_bounded(
                        self.adapters@[k]@,
                        self.next_serial,
                    ) by {
                        if k != i {
                            assert(self.adapters@[k]@ == pre.adapters@[k]@);
                        }
                    }
                }
                Ok(())
            },
        }
    }

    /// Snapshots of all registered adapters, one per adapter.
    pub fn get_adapters(&self) -> (r: Vec<AdapterInfo>)
        requires
            self.wf(),
        ensures
            forall|j: int|
                0 <= j < r@.len() ==> self.registered(r@[j].id) && info_matches(
                    self@[r@[j].id],
                    r@[j],
                ),
            forall|id: u64|
                self.registered(id) ==> exists|j: int|
                    0 <= j < r@.len() && r@[j].id == id,
            forall|j: int, k: int| 0 <= j < k < r@.len() ==> r@[j].id != r@[k].id,
    {
        let n: usize = self.adapters.len();
        let mut out: Vec<AdapterInfo> = Vec::new();
        let mut i: usize = 0;
        while i < n
            invariant
                self.wf(),
                n == self.adapters@.len(),
                i <= n,
                out@.len() == i,
                forall|k: int| 0 <= k < i ==> out@[k].id == self.adapters@[k]@.id
                    && info_matches(self.adapters@[k]@, out@[k]),
            decreases n - i,
        {
            let info = self.adapters[i].info();
            out.push(info);
            i += 1;
        }
        proof {
            assert forall|j: int| 0 <= j < out@.len() implies self.registered(out@[j].id)
                && info_matches(self@[out@[j].id], out@[j]) by {
                self.lemma_at_index(j);
            }
            assert forall|id: u64| self.registered(id) implies exists|j: int|
                0 <= j < out@.len() && out@[j].id == id by {
                let k = self.index_of(id);
                assert(0 <= k < self.adapters@.len() && self.adapters@[k]@.id == id);
                assert(out@[k].id == id);
            }
        }
        out
    }

    /// A snapshot of the active adapter, if one is designated.
    pub fn get_active_adapter_info(&self) -> (r: Option<AdapterInfo>)
        requires
            self.wf(),
        ensures
            match self.active() {
                None => r is None,
                Some(aid) => r is Some && info_matches(self@[aid], r->0),
            },
    {
        let aid = match self.active_id {
            None => {
                return None;
            },
            Some(aid) => aid,
        };
        match self.find_index(aid) {
            None => {
                proof {
                    self.lemma_active_registered();
                }
                // unreachable: the active designation always names a
                // registered adapter
                None
            },
            Some(i) => Some(self.adapters[i].info()),
        }
    }

    /// Look up the stored bond record for one device on one adapter.
    pub fn bonded_device(&self, adapter_id: u64, device_id: u64) -> (r: Option<BondRecord>)
        requires
            self.wf(),
        ensures
            match r {
                Some(b) => {
                    &&& self.registered(adapter_id)
                    &&& self@[adapter_id].bonds.dom().contains(device_id)
                    &&& b == self@[adapter_id].bonds[device_id]
                },
                None => !self.registered(adapter_id) || !self@[
                    adapter_id
                ].bonds.dom().contains(device_id),
            },
    {
        match self.find_index(adapter_id) {
            None => None,
            Some(i) => self.adapters[i].bond_for(device_id),
        }
    }

    /// Revoking the live token of a session frees its (adapter, kind)
    /// pair exactly once: afterwards the flag is off and the adapter is
    /// still registered, so a new session of that kind can be started
    /// immediately (by [`HostDispatcher::start_session_post`], a session
    /// request on a registered adapter whose flag is off returns a fresh
    /// token).
    pub proof fn lemma_revoke_frees_session(
        pre: HostDispatcher,
        post: HostDispatcher,
        t: Token,
    )
        requires
            Self::revoke_post(pre, post, t),
            pre.token_live(t),
        ensures
            post.registered(t.adapter_id),
            !post@[t.adapter_id].session_live(t.kind),
    {
    }

    /// At most one live token exists for a given (adapter, session kind)
    /// pair: any two tokens live at the same instant for the same pair are
    /// the same token.
    pub proof fn lemma_at_most_one_live_token(self, t1: Token, t2: Token)
        requires
            self.token_live(t1),
            self.token_live(t2),
            t1.adapter_id == t2.adapter_id,
            t1.kind == t2.kind,
        ensures
            t1 == t2,
    {
        assert(Some(t1.serial) == Some(t2.serial));
    }
}

/// Merging twice is last-write-wins per key: after a first and then a
/// second batch of records are merged over a base map, every key of the
/// second batch holds the second batch's record, every key of the first
/// batch not overwritten by the second holds the first's, and every other
/// key keeps its base record; no key outside the three is present.
pub proof fn lemma_bond_merge_last_write_wins(
    base: Map<u64, BondRecord>,
    first: Map<u64, BondRecord>,
    second: Map<u64, BondRecord>,
)
    ensures
        ({
            let merged = base.union_prefer_right(first).union_prefer_right(second);
            &&& forall|d: u64|
                second.dom().contains(d) ==> merged.dom().contains(d) && merged[d]
                    == second[d]
            &&& forall|d: u64|
                !second.dom().contains(d) && first.dom().contains(d)
                    ==> merged.dom().contains(d) && merged[d] == first[d]
            &&& forall|d: u64|
                !second.dom().contains(d) && !first.dom().contains(d)
                    && base.dom().contains(d) ==> merged.dom().contains(d) && merged[d]
                    == base[d]
            &&& merged.dom() =~= base.dom() + first.dom() + second.dom()
        }),
{
}

} // verus!
