use bt_gap::dispatcher::{AdapterQuery, HostDispatcher, DEFAULT_TIMEOUT_MS};
use bt_gap::types::{BondRecord, ErrorCode, SessionKind};

#[test]
fn empty_dispatcher_times_out() {
    let hd = HostDispatcher::new(DEFAULT_TIMEOUT_MS);
    assert_eq!(hd.get_active_adapter(0), AdapterQuery::Pending);
    assert_eq!(hd.get_active_adapter(4999), AdapterQuery::Pending);
    assert_eq!(hd.get_active_adapter(5000), AdapterQuery::NotFound);
    assert_eq!(hd.get_active_adapter(u64::MAX), AdapterQuery::NotFound);
    assert!(hd.get_active_adapter_info().is_none());
    assert!(hd.get_adapters().is_empty());
}

#[test]
fn register_makes_first_adapter_active() {
    let mut hd = HostDispatcher::new(5000);
    assert!(hd.register_adapter(1, String::from("hci0")));
    assert_eq!(hd.get_active_adapter(0), AdapterQuery::Ready(1));
    let info = hd.get_active_adapter_info().unwrap();
    assert_eq!(info.id, 1);
    assert_eq!(info.name, "hci0");
    assert!(!info.discovering);
    assert!(!info.discoverable);
    // a second adapter does not displace the active one
    assert!(hd.register_adapter(2, String::from("hci1")));
    assert_eq!(hd.get_active_adapter(0), AdapterQuery::Ready(1));
    // a taken identifier is refused
    assert!(!hd.register_adapter(1, String::from("imposter")));
}

#[test]
fn set_active_adapter_switches_and_rejects_unknown() {
    let mut hd = HostDispatcher::new(5000);
    assert!(hd.register_adapter(1, String::from("hci0")));
    assert!(hd.register_adapter(2, String::from("hci1")));
    assert_eq!(hd.set_active_adapter(2), Ok(()));
    assert_eq!(hd.get_active_adapter(0), AdapterQuery::Ready(2));
    // an unregistered id fails and leaves the designation unchanged
    assert_eq!(hd.set_active_adapter(7), Err(ErrorCode::NotFound));
    assert_eq!(hd.get_active_adapter(0), AdapterQuery::Ready(2));
}

#[test]
fn discovery_token_exclusive() {
    let mut hd = HostDispatcher::new(5000);
    assert!(hd.register_adapter(1, String::from("hci0")));
    let t1 = hd.start_discovery(1).unwrap();
    assert_eq!(t1.adapter_id, 1);
    assert_eq!(t1.kind, SessionKind::Discovery);
    assert!(hd.session_live_on(1, SessionKind::Discovery));
    // a second concurrent discovery request fails
    assert_eq!(hd.start_discovery(1), Err(ErrorCode::AlreadyInProgress));
    // the discoverable session is independent of discovery
    let t2 = hd.set_discoverable(1).unwrap();
    assert_eq!(t2.kind, SessionKind::Discoverable);
    assert_eq!(hd.set_discoverable(1), Err(ErrorCode::AlreadyInProgress));
    let info = hd.get_active_adapter_info().unwrap();
    assert!(info.discovering);
    assert!(info.discoverable);
}

#[test]
fn start_discovery_unregistered_not_found() {
    let mut hd = HostDispatcher::new(5000);
    assert_eq!(hd.start_discovery(9), Err(ErrorCode::NotFound));
    assert!(hd.register_adapter(1, String::from("hci0")));
    assert_eq!(hd.set_discoverable(9), Err(ErrorCode::NotFound));
}

#[test]
fn revoke_is_idempotent() {
    let mut hd = HostDispatcher::new(5000);
    assert!(hd.register_adapter(1, String::from("hci0")));
    let t = hd.start_discovery(1).unwrap();
    assert!(hd.session_live_on(1, SessionKind::Discovery));
    // the first revocation flips the flag off
    assert!(hd.revoke_token(&t));
    assert!(!hd.session_live_on(1, SessionKind::Discovery));
    // the second is a no-op
    assert!(!hd.revoke_token(&t));
    assert!(!hd.session_live_on(1, SessionKind::Discovery));
    // and a new discovery session can start at once
    let t2 = hd.start_discovery(1).unwrap();
    assert_ne!(t, t2);
    assert_ne!(t.serial, t2.serial);
}

#[test]
fn bonded_devices_merge_last_write_wins() {
    let mut hd = HostDispatcher::new(5000);
    assert!(hd.register_adapter(1, String::from("hci0")));
    let first = vec![
        BondRecord { device_id: 10, key: 100 },
        BondRecord { device_id: 11, key: 101 },
    ];
    assert_eq!(hd.add_bonded_devices(&first), Ok(()));
    let second = vec![
        BondRecord { device_id: 11, key: 202 },
        BondRecord { device_id: 12, key: 203 },
    ];
    assert_eq!(hd.add_bonded_devices(&second), Ok(()));
    // disjoint keys are merged, the shared key holds the second record
    assert_eq!(hd.bonded_device(1, 10), Some(BondRecord { device_id: 10, key: 100 }));
    assert_eq!(hd.bonded_device(1, 11), Some(BondRecord { device_id: 11, key: 202 }));
    assert_eq!(hd.bonded_device(1, 12), Some(BondRecord { device_id: 12, key: 203 }));
    assert_eq!(hd.bonded_device(1, 13), None);
}

#[test]
fn bonded_devices_need_active_adapter() {
    let mut hd = HostDispatcher::new(5000);
    let records = vec![BondRecord { device_id: 1, key: 2 }];
    assert_eq!(hd.add_bonded_devices(&records), Err(ErrorCode::NoActiveAdapter));
    assert!(hd.register_adapter(1, String::from("hci0")));
    assert_eq!(hd.add_bonded_devices(&records), Ok(()));
    assert!(hd.remove_adapter(1));
    assert_eq!(hd.add_bonded_devices(&records), Err(ErrorCode::NoActiveAdapter));
}

#[test]
fn duplicate_keys_within_one_batch_last_wins() {
    let mut hd = HostDispatcher::new(5000);
    assert!(hd.register_adapter(1, String::from("hci0")));
    let records = vec![
        BondRecord { device_id: 5, key: 1 },
        BondRecord { device_id: 5, key: 2 },
    ];
    assert_eq!(hd.add_bonded_devices(&records), Ok(()));
    assert_eq!(hd.bonded_device(1, 5), Some(BondRecord { device_id: 5, key: 2 }));
}

#[test]
fn remove_adapter_clears_active_and_sessions() {
    let mut hd = HostDispatcher::new(5000);
    assert!(hd.register_adapter(1, String::from("hci0")));
    let t = hd.start_discovery(1).unwrap();
    assert!(hd.remove_adapter(1));
    assert_eq!(hd.get_active_adapter(5000), AdapterQuery::NotFound);
    assert!(!hd.session_live_on(1, SessionKind::Discovery));
    // the token's adapter is gone, so revoking it is a no-op
    assert!(!hd.revoke_token(&t));
    // removing again fails
    assert!(!hd.remove_adapter(1));
    // re-registration starts from a clean slate and is active again
    assert!(hd.register_adapter(1, String::from("hci0")));
    assert_eq!(hd.get_active_adapter(0), AdapterQuery::Ready(1));
    assert!(!hd.session_live_on(1, SessionKind::Discovery));
    assert_eq!(hd.bonded_device(1, 5), None);
}

#[test]
fn pairing_delegate_replaced() {
    let mut hd = HostDispatcher::new(5000);
    assert!(hd.register_adapter(1, String::from("hci0")));
    assert_eq!(hd.register_pairing_delegate(1, Some(11)), Ok(()));
    assert_eq!(hd.pairing_delegate(1), Some(11));
    // a new registration replaces the previous one: the second delegate is
    // the sole registered one
    assert_eq!(hd.register_pairing_delegate(1, Some(22)), Ok(()));
    assert_eq!(hd.pairing_delegate(1), Some(22));
    // None clears it
    assert_eq!(hd.register_pairing_delegate(1, None), Ok(()));
    assert_eq!(hd.pairing_delegate(1), None);
    assert_eq!(hd.register_pairing_delegate(9, Some(33)), Err(ErrorCode::NotFound));
}

#[test]
fn get_adapters_lists_all() {
    let mut hd = HostDispatcher::new(5000);
    assert!(hd.register_adapter(1, String::from("hci0")));
    assert!(hd.register_adapter(2, String::from("hci1")));
    assert!(hd.register_adapter(3, String::from("hci2")));
    let infos = hd.get_adapters();
    assert_eq!(infos.len(), 3);
    let mut ids: Vec<u64> = infos.iter().map(|i| i.id).collect();
    ids.sort();
    assert_eq!(ids, vec![1, 2, 3]);
    for info in &infos {
        if info.id == 2 {
            assert_eq!(info.name, "hci1");
        }
    }
}

#[test]
fn tokens_never_reuse_serials() {
    let mut hd = HostDispatcher::new(5000);
    assert!(hd.register_adapter(1, String::from("hci0")));
    let mut seen: Vec<u64> = Vec::new();
    for _ in 0..10 {
        let t = hd.start_discovery(1).unwrap();
        assert!(!seen.contains(&t.serial));
        seen.push(t.serial);
        assert!(hd.revoke_token(&t));
    }
}
