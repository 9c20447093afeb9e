use bt_gap::bonder_service::{BonderService, Phase, Request, Response, ServiceStep};
use bt_gap::dispatcher::HostDispatcher;
use bt_gap::types::{BondRecord, ErrorCode, SessionKind};

#[test]
fn connection_lifecycle() {
    let mut hd = HostDispatcher::new(5000);
    let mut conn = BonderService::new();
    assert_eq!(conn.phase, Phase::Opening);
    assert!(conn.discovery_token.is_none());
    assert!(conn.discoverable_token.is_none());
    conn.open();
    assert_eq!(conn.phase, Phase::Serving);
    conn.close(&mut hd);
    assert_eq!(conn.phase, Phase::Closed);
    assert!(conn.discovery_token.is_none());
    assert!(conn.discoverable_token.is_none());
}

#[test]
fn discovery_handoff_between_clients() {
    let mut hd = HostDispatcher::new(5000);
    // adapter A connects and becomes active
    assert!(hd.register_adapter(1, String::from("hci0")));
    let mut client1 = BonderService::new();
    client1.open();
    let mut client2 = BonderService::new();
    client2.open();
    // client 1 requests discovery and receives a token; the flag goes up
    let step = client1.handle_request(&mut hd, &Request::RequestDiscovery { start: true }, 0);
    match step {
        ServiceStep::Reply(Response::Status(r)) => assert_eq!(r, Ok(())),
        _ => panic!("expected a status reply"),
    }
    let t1 = client1.discovery_token.expect("client 1 should hold the token");
    assert!(hd.session_live_on(1, SessionKind::Discovery));
    // client 2 asks too and is refused
    let step = client2.handle_request(&mut hd, &Request::RequestDiscovery { start: true }, 0);
    match step {
        ServiceStep::Reply(Response::Status(r)) => {
            assert_eq!(r, Err(ErrorCode::AlreadyInProgress))
        },
        _ => panic!("expected a status reply"),
    }
    assert!(client2.discovery_token.is_none());
    // client 1 disconnects: the flag resets
    client1.close(&mut hd);
    assert!(!hd.session_live_on(1, SessionKind::Discovery));
    // client 2 retries and receives a fresh token
    let step = client2.handle_request(&mut hd, &Request::RequestDiscovery { start: true }, 0);
    match step {
        ServiceStep::Reply(Response::Status(r)) => assert_eq!(r, Ok(())),
        _ => panic!("expected a status reply"),
    }
    let t2 = client2.discovery_token.expect("client 2 should hold the token");
    assert_ne!(t1, t2);
    assert!(hd.session_live_on(1, SessionKind::Discovery));
}

#[test]
fn stop_discovery_without_token_succeeds() {
    let mut hd = HostDispatcher::new(5000);
    let mut conn = BonderService::new();
    conn.open();
    let step = conn.handle_request(&mut hd, &Request::RequestDiscovery { start: false }, 0);
    match step {
        ServiceStep::Reply(Response::Status(r)) => assert_eq!(r, Ok(())),
        _ => panic!("expected a status reply"),
    }
    assert!(conn.discovery_token.is_none());
}

#[test]
fn discovery_waits_then_fails_without_adapter() {
    let mut hd = HostDispatcher::new(5000);
    let mut conn = BonderService::new();
    conn.open();
    let req = Request::RequestDiscovery { start: true };
    // before the window elapses the service keeps waiting
    assert!(matches!(conn.handle_request(&mut hd, &req, 0), ServiceStep::WaitForAdapter));
    assert!(matches!(
        conn.handle_request(&mut hd, &req, 4999),
        ServiceStep::WaitForAdapter
    ));
    // once it has elapsed, a failure reply is substituted
    let step = conn.handle_request(&mut hd, &req, 5000);
    match step {
        ServiceStep::Reply(Response::Status(r)) => {
            assert_eq!(r, Err(ErrorCode::NoActiveAdapter))
        },
        _ => panic!("expected a status reply"),
    }
}

#[test]
fn add_bonded_devices_request_merges() {
    let mut hd = HostDispatcher::new(5000);
    assert!(hd.register_adapter(1, String::from("hci0")));
    let mut conn = BonderService::new();
    conn.open();
    let req = Request::AddBondedDevices {
        local_id: 1,
        records: vec![
            BondRecord { device_id: 7, key: 70 },
            BondRecord { device_id: 8, key: 80 },
        ],
    };
    let step = conn.handle_request(&mut hd, &req, 0);
    match step {
        ServiceStep::Reply(Response::Status(r)) => assert_eq!(r, Ok(())),
        _ => panic!("expected a status reply"),
    }
    assert_eq!(hd.bonded_device(1, 7), Some(BondRecord { device_id: 7, key: 70 }));
    assert_eq!(hd.bonded_device(1, 8), Some(BondRecord { device_id: 8, key: 80 }));
}

#[test]
fn add_bonded_devices_request_times_out() {
    let mut hd = HostDispatcher::new(5000);
    let mut conn = BonderService::new();
    conn.open();
    let req = Request::AddBondedDevices {
        local_id: 1,
        records: vec![BondRecord { device_id: 7, key: 70 }],
    };
    assert!(matches!(conn.handle_request(&mut hd, &req, 100), ServiceStep::WaitForAdapter));
    let step = conn.handle_request(&mut hd, &req, 6000);
    match step {
        ServiceStep::Reply(Response::Status(r)) => {
            assert_eq!(r, Err(ErrorCode::NoActiveAdapter))
        },
        _ => panic!("expected a status reply"),
    }
}

#[test]
fn get_adapters_waits_then_returns_empty() {
    let mut hd = HostDispatcher::new(5000);
    let mut conn = BonderService::new();
    conn.open();
    assert!(matches!(
        conn.handle_request(&mut hd, &Request::GetAdapters, 0),
        ServiceStep::WaitForAdapter
    ));
    // on timeout the empty list is substituted
    match conn.handle_request(&mut hd, &Request::GetAdapters, 5000) {
        ServiceStep::Reply(Response::Adapters(infos)) => assert!(infos.is_empty()),
        _ => panic!("expected an adapter list"),
    }
    assert!(hd.register_adapter(4, String::from("hci3")));
    match conn.handle_request(&mut hd, &Request::GetAdapters, 0) {
        ServiceStep::Reply(Response::Adapters(infos)) => {
            assert_eq!(infos.len(), 1);
            assert_eq!(infos[0].id, 4);
            assert_eq!(infos[0].name, "hci3");
        },
        _ => panic!("expected an adapter list"),
    }
}

#[test]
fn get_active_adapter_info_request() {
    let mut hd = HostDispatcher::new(5000);
    let mut conn = BonderService::new();
    conn.open();
    match conn.handle_request(&mut hd, &Request::GetActiveAdapterInfo, 0) {
        ServiceStep::Reply(Response::ActiveAdapterInfo(oi)) => assert!(oi.is_none()),
        _ => panic!("expected an info reply"),
    }
    assert!(hd.register_adapter(2, String::from("hci1")));
    match conn.handle_request(&mut hd, &Request::GetActiveAdapterInfo, 0) {
        ServiceStep::Reply(Response::ActiveAdapterInfo(oi)) => {
            let info = oi.expect("an adapter is active");
            assert_eq!(info.id, 2);
            assert_eq!(info.name, "hci1");
        },
        _ => panic!("expected an info reply"),
    }
}

#[test]
fn set_active_adapter_request() {
    let mut hd = HostDispatcher::new(5000);
    assert!(hd.register_adapter(1, String::from("hci0")));
    assert!(hd.register_adapter(2, String::from("hci1")));
    let mut conn = BonderService::new();
    conn.open();
    match conn.handle_request(&mut hd, &Request::SetActiveAdapter { id: 2 }, 0) {
        ServiceStep::Reply(Response::Status(r)) => assert_eq!(r, Ok(())),
        _ => panic!("expected a status reply"),
    }
    match conn.handle_request(&mut hd, &Request::SetActiveAdapter { id: 9 }, 0) {
        ServiceStep::Reply(Response::Status(r)) => assert_eq!(r, Err(ErrorCode::NotFound)),
        _ => panic!("expected a status reply"),
    }
    // the failed reassignment left the designation on adapter 2
    assert_eq!(hd.get_active_adapter_info().unwrap().id, 2);
}

#[test]
fn set_pairing_delegate_request_replaces() {
    let mut hd = HostDispatcher::new(5000);
    assert!(hd.register_adapter(1, String::from("hci0")));
    let mut conn = BonderService::new();
    conn.open();
    let step = conn.handle_request(
        &mut hd,
        &Request::SetPairingDelegate { delegate: Some(11) },
        0,
    );
    assert!(matches!(step, ServiceStep::Reply(Response::Ack)));
    assert_eq!(hd.pairing_delegate(1), Some(11));
    let step = conn.handle_request(
        &mut hd,
        &Request::SetPairingDelegate { delegate: Some(22) },
        0,
    );
    assert!(matches!(step, ServiceStep::Reply(Response::Ack)));
    // the second delegate is the sole registered one
    assert_eq!(hd.pairing_delegate(1), Some(22));
    // with no active adapter the request is still acknowledged
    let mut empty_hd = HostDispatcher::new(5000);
    let step = conn.handle_request(
        &mut empty_hd,
        &Request::SetPairingDelegate { delegate: Some(33) },
        0,
    );
    assert!(matches!(step, ServiceStep::Reply(Response::Ack)));
}

#[test]
fn unsupported_requests_are_refused() {
    let mut hd = HostDispatcher::new(5000);
    let mut conn = BonderService::new();
    conn.open();
    for req in [
        Request::Connect { device_id: 1 },
        Request::Disconnect { device_id: 1 },
        Request::Forget { device_id: 1 },
    ] {
        match conn.handle_request(&mut hd, &req, 0) {
            ServiceStep::Reply(Response::Status(r)) => {
                assert_eq!(r, Err(ErrorCode::NotSupported))
            },
            _ => panic!("expected a status reply"),
        }
    }
}

#[test]
fn discoverable_session_roundtrip() {
    let mut hd = HostDispatcher::new(5000);
    assert!(hd.register_adapter(1, String::from("hci0")));
    let mut conn = BonderService::new();
    conn.open();
    let step = conn.handle_request(&mut hd, &Request::SetDiscoverable { start: true }, 0);
    match step {
        ServiceStep::Reply(Response::Status(r)) => assert_eq!(r, Ok(())),
        _ => panic!("expected a status reply"),
    }
    assert!(conn.discoverable_token.is_some());
    assert!(hd.session_live_on(1, SessionKind::Discoverable));
    // discovery is untouched
    assert!(!hd.session_live_on(1, SessionKind::Discovery));
    let step = conn.handle_request(&mut hd, &Request::SetDiscoverable { start: false }, 0);
    match step {
        ServiceStep::Reply(Response::Status(r)) => assert_eq!(r, Ok(())),
        _ => panic!("expected a status reply"),
    }
    assert!(conn.discoverable_token.is_none());
    assert!(!hd.session_live_on(1, SessionKind::Discoverable));
}

#[test]
fn close_revokes_both_session_kinds() {
    let mut hd = HostDispatcher::new(5000);
    assert!(hd.register_adapter(1, String::from("hci0")));
    let mut conn = BonderService::new();
    conn.open();
    conn.handle_request(&mut hd, &Request::RequestDiscovery { start: true }, 0);
    conn.handle_request(&mut hd, &Request::SetDiscoverable { start: true }, 0);
    assert!(hd.session_live_on(1, SessionKind::Discovery));
    assert!(hd.session_live_on(1, SessionKind::Discoverable));
    conn.close(&mut hd);
    assert!(!hd.session_live_on(1, SessionKind::Discovery));
    assert!(!hd.session_live_on(1, SessionKind::Discoverable));
    assert_eq!(conn.phase, Phase::Closed);
}
