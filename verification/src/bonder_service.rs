//! The Bonder Service: the request-facing state machine between one client
//! connection and the Host Dispatcher.
//!
//! A connection moves `Opening -> Serving -> Closed`.  While serving, each
//! decoded request is turned into exactly one step: either a reply to send
//! back, or — for requests that need an adapter which has not appeared yet
//! — the instruction to wait a little and ask again, until the dispatcher's
//! bounded window has elapsed and a failure or empty reply is substituted.
//! Session tokens returned by the dispatcher are held by the connection
//! that requested them, and closing the connection revokes them, so a
//! caller that disappears never leaks a live session.
//!
//! The transport itself (channel I/O, waiting, sending replies, logging
//! delivery failures) lives outside this crate; it drives this machine
//! with decoded requests and the time already waited.

use crate::adapter::{bond_map_of, AdapterInfo, AdapterModel};
use crate::dispatcher::{info_matches, AdapterQuery, HostDispatcher};
use crate::types::{BondRecord, ErrorCode, SessionKind, Token};
use vstd::prelude::*;

verus! {

/// Connection lifecycle: handshake, request loop, teardown.
#[derive(Clone, Copy, PartialEq, Eq, Structural, Debug)]
pub enum Phase {
    /// The connection is being bound to the dispatcher.
    Opening,
    /// The connection is serving requests.
    Serving,
    /// The connection is closed and its tokens are revoked.
    Closed,
}

/// A decoded request, as delivered by the transport.
#[derive(Debug)]
pub enum Request {
    /// Merge bond records into the active adapter's bonded-device set.
    /// The adapter named by `local_id` is recorded by the protocol but the
    /// records are merged into the active adapter's store.
    AddBondedDevices { local_id: u64, records: Vec<BondRecord> },
    /// Start (`true`) or stop (`false`) a discovery session owned by this
    /// connection.
    RequestDiscovery { start: bool },
    /// Start (`true`) or stop (`false`) a discoverable session owned by
    /// this connection.
    SetDiscoverable { start: bool },
    /// Designate the adapter with this identifier as active.
    SetActiveAdapter { id: u64 },
    /// Report the active adapter, if any.
    GetActiveAdapterInfo,
    /// Report all registered adapters, waiting (bounded) for at least one.
    GetAdapters,
    /// Register (or, with `None`, clear) the pairing delegate of the
    /// active adapter.
    SetPairingDelegate { delegate: Option<u64> },
    /// Connect to a remote device: deliberately unimplemented.
    Connect { device_id: u64 },
    /// Disconnect from a remote device: deliberately unimplemented.
    Disconnect { device_id: u64 },
    /// Forget a remote device: deliberately unimplemented.
    Forget { device_id: u64 },
}

/// The reply sent back for one request.
#[derive(Debug)]
pub enum Response {
    /// Outcome of a mutating request.
    Status(Result<(), ErrorCode>),
    /// The active adapter's snapshot, if one is designated.
    ActiveAdapterInfo(Option<AdapterInfo>),
    /// Snapshots of all registered adapters; empty after a timed-out wait.
    Adapters(Vec<AdapterInfo>),
    /// Acknowledgement of a fire-and-forget request.
    Ack,
}

/// What the event loop should do next with one request.
#[derive(Debug)]
pub enum ServiceStep {
    /// Send this reply; the request is done.
    Reply(Response),
    /// No adapter is available yet and the bounded wait has not elapsed:
    /// wait a little, then hand the request in again with the total time
    /// waited.
    WaitForAdapter,
}

/// One client connection's state: its lifecycle phase and the session
/// tokens it owns.
pub struct BonderService {
    /// Where the connection stands in its lifecycle.
    pub phase: Phase,
    /// The discovery token owned by this connection, if any.
    pub discovery_token: Option<Token>,
    /// The discoverable token owned by this connection, if any.
    pub discoverable_token: Option<Token>,
}

/// `mid` is `pre` with the held token (if any) revoked.
pub open spec fn released_held(
    pre: HostDispatcher,
    mid: HostDispatcher,
    held: Option<Token>,
) -> bool {
    match held {
        None => mid == pre,
        Some(t) => HostDispatcher::revoke_post(pre, mid, t),
    }
}

/// `post` arises from `pre` by first revoking the held token, then
/// creating the fresh session token `t` of the given kind on adapter `id`.
pub open spec fn fresh_session_via(
    pre: HostDispatcher,
    post: HostDispatcher,
    held: Option<Token>,
    id: u64,
    kind: SessionKind,
    t: Token,
) -> bool {
    exists|mid: HostDispatcher| #[trigger]
        released_held(pre, mid, held) && HostDispatcher::start_session_post(
            mid,
            post,
            id,
            kind,
            Ok(t),
        )
}

/// The step taken for `AddBondedDevices`: when an adapter is active the
/// records are merged into its store (last write wins per device id) and
/// success is reported; with none active the caller waits out the bounded
/// window and then gets the failure reply.
pub open spec fn add_bonded_step(
    pre: HostDispatcher,
    post: HostDispatcher,
    records: Seq<BondRecord>,
    waited_ms: u64,
    step: ServiceStep,
) -> bool {
    match pre.active() {
        Some(aid) => {
            &&& step == ServiceStep::Reply(Response::Status(Ok(())))
            &&& post@ == pre@.insert(
                aid,
                AdapterModel {
                    bonds: pre@[aid].bonds.union_prefer_right(bond_map_of(records)),
                    ..pre@[aid]
                },
            )
            &&& post.active() == pre.active()
            &&& post.fresh_serial() == pre.fresh_serial()
        },
        None => {
            &&& post == pre
            &&& step == (if waited_ms >= pre.timeout() {
                ServiceStep::Reply(Response::Status(Err(ErrorCode::NoActiveAdapter)))
            } else {
                ServiceStep::WaitForAdapter
            })
        },
    }
}

/// The step taken for a session request (`RequestDiscovery` or
/// `SetDiscoverable`), over the token slot this connection holds for that
/// kind.  Stopping revokes the held token and always succeeds.  Starting
/// needs the active adapter (bounded wait as for bonding); if another
/// owner's token is live on it the request fails with `AlreadyInProgress`
/// and the held token is kept, otherwise the held token is replaced by a
/// fresh one created atomically with flipping the flag on.
pub open spec fn session_request_step(
    held: Option<Token>,
    pre: HostDispatcher,
    held_after: Option<Token>,
    post: HostDispatcher,
    kind: SessionKind,
    start: bool,
    waited_ms: u64,
    step: ServiceStep,
) -> bool {
    if !start {
        &&& step == ServiceStep::Reply(Response::Status(Ok(())))
        &&& held_after is None
        &&& released_held(pre, post, held)
    } else {
        match pre.active() {
            None => {
                &&& post == pre
                &&& held_after == held
                &&& step == (if waited_ms >= pre.timeout() {
                    ServiceStep::Reply(
                        Response::Status(Err(ErrorCode::NoActiveAdapter)),
                    )
                } else {
                    ServiceStep::WaitForAdapter
                })
            },
            Some(aid) => {
                if pre@[aid].session_live(kind) {
                    &&& post == pre
                    &&& held_after == held
                    &&& step == ServiceStep::Reply(
                        Response::Status(Err(ErrorCode::AlreadyInProgress)),
                    )
                } else {
                    &&& step == ServiceStep::Reply(Response::Status(Ok(())))
                    &&& held_after is Some
                    &&& fresh_session_via(pre, post, held, aid, kind, held_after->0)
                }
            },
        }
    }
}

/// The step taken for `GetAdapters`: with at least one adapter registered,
/// its snapshots are reported; with none, the caller waits out the bounded
/// window and then gets the empty list.
pub open spec fn get_adapters_step(
    pre: HostDispatcher,
    post: HostDispatcher,
    waited_ms: u64,
    step: ServiceStep,
) -> bool {
    &&& post == pre
    &&& if exists|id: u64| pre.registered(id) {
        step matches ServiceStep::Reply(Response::Adapters(infos)) && {
            &&& forall|j: int|
                0 <= j < infos@.len() ==> pre.registered(infos@[j].id) && info_matches(
                    pre@[infos@[j].id],
                    infos@[j],
                )
            &&& forall|id: u64|
                pre.registered(id) ==> exists|j: int|
                    0 <= j < infos@.len() && infos@[j].id == id
            &&& forall|j: int, k: int|
                0 <= j < k < infos@.len() ==> infos@[j].id != infos@[k].id
        }
    } else {
        if waited_ms >= pre.timeout() {
            step matches ServiceStep::Reply(Response::Adapters(infos)) && infos@.len()
                == 0
        } else {
            step == ServiceStep::WaitForAdapter
        }
    }
}

/// The step taken for `SetPairingDelegate`: fire-and-forget.  With an
/// active adapter, its delegate is unconditionally replaced (`None`
/// clears it) and the previous delegate is discarded; with none, nothing
/// changes.  Either way the request is acknowledged at once.
pub open spec fn set_pairing_delegate_step(
    pre: HostDispatcher,
    post: HostDispatcher,
    delegate: Option<u64>,
    step: ServiceStep,
) -> bool {
    &&& step == ServiceStep::Reply(Response::Ack)
    &&& match pre.active() {
        None => post == pre,
        Some(aid) => {
            &&& post@ == pre@.insert(aid, AdapterModel { delegate, ..pre@[aid] })
            &&& post.active() == pre.active()
            &&& post.fresh_serial() == pre.fresh_serial()
        },
    }
}

impl BonderService {
    /// A connection that has just been accepted, owning no tokens.
    pub fn new() -> (s: BonderService)
        ensures
            s.phase == Phase::Opening,
            s.discovery_token is None,
            s.discoverable_token is None,
    {
        BonderService { phase: Phase::Opening, discovery_token: None, discoverable_token: None }
    }

    /// Finish the handshake: the connection starts serving requests.
    pub fn open(&mut self)
        requires
            old(self).phase == Phase::Opening,
        ensures
            final(self).phase == Phase::Serving,
            final(self).discovery_token == old(self).discovery_token,
            final(self).discoverable_token == old(self).discoverable_token,
    {
        self.phase = Phase::Serving;
    }

    /// Handle one decoded request, `waited_ms` milliseconds after it was
    /// first received.  Returns the reply to send, or the instruction to
    /// wait for an adapter and hand the request in again.
    pub fn handle_request(
        &mut self,
        hd: &mut HostDispatcher,
        req: &Request,
        waited_ms: u64,
    ) -> (step: ServiceStep)
        requires
            old(self).phase == Phase::Serving,
            old(hd).wf(),
            old(hd).can_issue(),
        ensures
            final(self).phase == Phase::Serving,
            final(hd).wf(),
            final(hd).timeout() == old(hd).timeout(),
            match *req {
                Request::AddBondedDevices { local_id: _, records } => {
                    &&& add_bonded_step(*old(hd), *final(hd), records@, waited_ms, step)
                    &&& *final(self) == *old(self)
                },
                Request::RequestDiscovery { start } => {
                    &&& session_request_step(
                        old(self).discovery_token,
                        *old(hd),
                        final(self).discovery_token,
                        *final(hd),
                        SessionKind::Discovery,
                        start,
                        waited_ms,
                        step,
                    )
                    &&& final(self).discoverable_token == old(self).discoverable_token
                },
                Request::SetDiscoverable { start } => {
                    &&& session_request_step(
                        old(self).discoverable_token,
                        *old(hd),
                        final(self).discoverable_token,
                        *final(hd),
                        SessionKind::Discoverable,
                        start,
                        waited_ms,
                        step,
                    )
                    &&& final(self).discovery_token == old(self).discovery_token
                },
                Request::SetActiveAdapter { id } => {
                    &&& *final(self) == *old(self)
                    &&& if old(hd).registered(id) {
                        &&& final(hd)@ == old(hd)@
                        &&& final(hd).active() == Some(id)
                        &&& final(hd).fresh_serial() == old(hd).fresh_serial()
                        &&& step == ServiceStep::Reply(Response::Status(Ok(())))
                    } else {
                        &&& *final(hd) == *old(hd)
                        &&& step == ServiceStep::Reply(
                            Response::Status(Err(ErrorCode::NotFound)),
                        )
                    }
                },
                Request::GetActiveAdapterInfo => {
                    &&& *final(self) == *old(self)
                    &&& *final(hd) == *old(hd)
                    &&& step matches ServiceStep::Reply(
                        Response::ActiveAdapterInfo(oi),
                    ) && (match old(hd).active() {
                        None => oi is None,
                        Some(aid) => oi is Some && info_matches(old(hd)@[aid], oi->0),
                    })
                },
                Request::GetAdapters => {
                    &&& *final(self) == *old(self)
                    &&& get_adapters_step(*old(hd), *final(hd), waited_ms, step)
                },
                Request::SetPairingDelegate { delegate } => {
                    &&& *final(self) == *old(self)
                    &&& set_pairing_delegate_step(*old(hd), *final(hd), delegate, step)
                },
                Request::Connect { .. } => {
                    &&& *final(self) == *old(self)
                    &&& *final(hd) == *old(hd)
                    &&& step == ServiceStep::Reply(
                        Response::Status(Err(ErrorCode::NotSupported)),
                    )
                },
                Request::Disconnect { .. } => {
                    &&& *final(self) == *old(self)
                    &&& *final(hd) == *old(hd)
                    &&& step == ServiceStep::Reply(
                        Response::Status(Err(ErrorCode::NotSupported)),
                    )
                },
                Request::Forget { .. } => {
                    &&& *final(self) == *old(self)
                    &&& *final(hd) == *old(hd)
                    &&& step == ServiceStep::Reply(
                        Response::Status(Err(ErrorCode::NotSupported)),
                    )
                },
            },
    {
        match req {
            Request::AddBondedDevices { local_id: _, records } => {
                match hd.get_active_adapter(waited_ms) {
                    AdapterQuery::Ready(_) => {
                        let r = hd.add_bonded_devices(records);
                        match r {
                            Ok(()) => ServiceStep::Reply(Response::Status(Ok(()))),
                            Err(e) => {
                                // unreachable: an adapter is active, so the
                                // merge cannot fail
                                proof {
                                    assert(false);
                                }
                                ServiceStep::Reply(Response::Status(Err(e)))
                            },
                        }
                    },
                    AdapterQuery::Pending => ServiceStep::WaitForAdapter,
                    AdapterQuery::NotFound => ServiceStep::Reply(
                        Response::Status(Err(ErrorCode::NoActiveAdapter)),
                    ),
                }
            },
            Request::RequestDiscovery { start } => {
                let step = Self::session_request(
                    &mut self.discovery_token,
                    hd,
                    SessionKind::Discovery,
                    *start,
                    waited_ms,
                );
                step
            },
            Request::SetDiscoverable { start } => {
                let step = Self::session_request(
                    &mut self.discoverable_token,
                    hd,
                    SessionKind::Discoverable,
                    *start,
                    waited_ms,
                );
                step
            },
            Request::SetActiveAdapter { id } => {
                match hd.set_active_adapter(*id) {
                    Ok(()) => ServiceStep::Reply(Response::Status(Ok(()))),
                    Err(e) => ServiceStep::Reply(Response::Status(Err(e))),
                }
            },
            Request::GetActiveAdapterInfo => ServiceStep::Reply(
                Response::ActiveAdapterInfo(hd.get_active_adapter_info()),
            ),
            Request::GetAdapters => Self::adapters_request(hd, waited_ms),
            Request::SetPairingDelegate { delegate } => {
                match hd.active_adapter_id() {
                    None => ServiceStep::Reply(Response::Ack),
                    Some(aid) => {
                        proof {
                            hd.lemma_active_registered();
                        }
                        let r = hd.register_pairing_delegate(aid, *delegate);
                        match r {
                            Ok(()) => ServiceStep::Reply(Response::Ack),
                            Err(_) => {
                                // unreachable: the active adapter is
                                // registered, so registration cannot fail
                                proof {
                                    assert(false);
                                }
                                ServiceStep::Reply(Response::Ack)
                            },
                        }
                    },
                }
            },
            Request::Connect { .. } => ServiceStep::Reply(
                Response::Status(Err(ErrorCode::NotSupported)),
            ),
            Request::Disconnect { .. } => ServiceStep::Reply(
                Response::Status(Err(ErrorCode::NotSupported)),
            ),
            Request::Forget { .. } => ServiceStep::Reply(
                Response::Status(Err(ErrorCode::NotSupported)),
            ),
        }
    }

    /// The bounded-wait listing logic of `GetAdapters`.
    fn adapters_request(hd: &HostDispatcher, waited_ms: u64) -> (step: ServiceStep)
        requires
            hd.wf(),
        ensures
            get_adapters_step(*hd, *hd, waited_ms, step),
    {
        let infos = hd.get_adapters();
        let ghost iv = infos@;
        if infos.len() > 0 {
            let step = ServiceStep::Reply(Response::Adapters(infos));
            proof {
                assert(hd.registered(iv[0].id));
                assert(step matches ServiceStep::Reply(Response::Adapters(i)) && i@ == iv);
                assert(get_adapters_step(*hd, *hd, waited_ms, step));
            }
            step
        } else {
            proof {
                assert forall|id: u64| !hd.registered(id) by {
                    if hd.registered(id) {
                        let j = choose|j: int| 0 <= j < iv.len() && iv[j].id == id;
                        assert(false);
                    }
                }
            }
            if waited_ms >= hd.timeout_ms() {
                let step = ServiceStep::Reply(Response::Adapters(infos));
                proof {
                    assert(step matches ServiceStep::Reply(Response::Adapters(i)) && i@
                        == iv);
                    assert(get_adapters_step(*hd, *hd, waited_ms, step));
                }
                step
            } else {
                ServiceStep::WaitForAdapter
            }
        }
    }

    /// The shared start/stop logic of the two session requests, over the
    /// token slot this connection holds for the kind.
    fn session_request(
        held: &mut Option<Token>,
        hd: &mut HostDispatcher,
        kind: SessionKind,
        start: bool,
        waited_ms: u64,
    ) -> (step: ServiceStep)
        requires
            old(hd).wf(),
            old(hd).can_issue(),
        ensures
            final(hd).wf(),
            final(hd).timeout() == old(hd).timeout(),
            session_request_step(
                *old(held),
                *old(hd),
                *final(held),
                *final(hd),
                kind,
                start,
                waited_ms,
                step,
            ),
    {
        if !start {
            let t = held.take();
            match t {
                None => {},
                Some(t) => {
                    hd.revoke_token(&t);
                },
            }
            return ServiceStep::Reply(Response::Status(Ok(())));
        }
        match hd.get_active_adapter(waited_ms) {
            AdapterQuery::Pending => ServiceStep::WaitForAdapter,
            AdapterQuery::NotFound => ServiceStep::Reply(
                Response::Status(Err(ErrorCode::NoActiveAdapter)),
            ),
            AdapterQuery::Ready(aid) => {
                if hd.session_live_on(aid, kind) {
                    return ServiceStep::Reply(
                        Response::Status(Err(ErrorCode::AlreadyInProgress)),
                    );
                }
                let prev = held.take();
                match prev {
                    None => {},
                    Some(t) => {
                        hd.revoke_token(&t);
                    },
                }
                let ghost mid = *hd;
                proof {
                    assert(released_held(*old(hd), mid, *old(held)));
                }
                let r = hd.start_session(aid, kind);
                match r {
                    Ok(t) => {
                        *held = Some(t);
                        proof {
                            assert(HostDispatcher::start_session_post(
                                mid,
                                *hd,
                                aid,
                                kind,
                                Ok(t),
                            ));
                            assert(fresh_session_via(
                                *old(hd),
                                *hd,
                                *old(held),
                                aid,
                                kind,
                                t,
                            ));
                        }
                        ServiceStep::Reply(Response::Status(Ok(())))
                    },
                    Err(e) => {
                        // unreachable: the adapter is registered and its
                        // session of this kind was just seen (or made) free
                        proof {
                            assert(false);
                        }
                        ServiceStep::Reply(Response::Status(Err(e)))
                    },
                }
            },
        }
    }

    /// Close the connection: both tokens this connection owns are revoked
    /// (their session flags flip off, idempotently), and no other
    /// dispatcher state changes — the registry, the active designation,
    /// every adapter's bonds and delegate, and every other owner's live
    /// token survive.
    pub fn close(&mut self, hd: &mut HostDispatcher)
        requires
            old(hd).wf(),
        ensures
            final(self).phase == Phase::Closed,
            final(self).discovery_token is None,
            final(self).discoverable_token is None,
            final(hd).wf(),
            final(hd).active() == old(hd).active(),
            final(hd).fresh_serial() == old(hd).fresh_serial(),
            final(hd).timeout() == old(hd).timeout(),
            forall|a: u64| final(hd).registered(a) == old(hd).registered(a),
            forall|a: u64|
                old(hd).registered(a) ==> {
                    &&& final(hd)@[a].id == old(hd)@[a].id
                    &&& final(hd)@[a].name == old(hd)@[a].name
                    &&& final(hd)@[a].bonds == old(hd)@[a].bonds
                    &&& final(hd)@[a].delegate == old(hd)@[a].delegate
                },
            forall|u: Token|
                final(hd).token_live(u) <==> {
                    &&& old(hd).token_live(u)
                    &&& Some(u) != old(self).discovery_token
                    &&& Some(u) != old(self).discoverable_token
                },
    {
        let t = self.discovery_token.take();
        match t {
            None => {},
            Some(t) => {
                hd.revoke_token(&t);
            },
        }
        let t = self.discoverable_token.take();
        match t {
            None => {},
            Some(t) => {
                hd.revoke_token(&t);
            },
        }
        self.phase = Phase::Closed;
    }
}

} // verus!
