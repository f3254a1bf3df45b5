use spacedrive_core::p2p_manager::{
    get_instance, get_library_instances, listener_state, plan_config_change, relay_listener_state,
    relay_servers, revert_config, unwrap_infallible, ConfigChangePlan, ListenerState, Listeners,
    MdnsAction, P2PConfig, P2PDiscoveryState, PeerEntry,
};
use spacedrive_core::p2p_sync::{
    frame_message, get_operation, has_more, read_frame, FrameError, InstanceEntry, InstanceState,
    LibraryInstance, NetworkedLibraries, SyncResponderMessage, GET_OPERATION_HEADER,
    OPERATIONS_HEADER, OPS_PER_REQUEST,
};

#[test]
fn frames_read_back() {
    let payload = vec![1u8, 2, 3];
    let mut bytes = frame_message(OPERATIONS_HEADER, &payload);
    assert_eq!(bytes, vec![b'O', 3, 0, 0, 0, 1, 2, 3]);
    bytes.extend_from_slice(&[9, 9]);
    assert_eq!(read_frame(OPERATIONS_HEADER, &bytes), Ok((payload, 8)));
}

#[test]
fn frame_errors() {
    assert_eq!(read_frame(GET_OPERATION_HEADER, &vec![]), Err(FrameError::Empty));
    let bytes = frame_message(OPERATIONS_HEADER, &vec![7]);
    assert_eq!(read_frame(GET_OPERATION_HEADER, &bytes), Err(FrameError::InvalidHeader(b'O')));
    let long = vec![0u8; 300];
    let framed = frame_message(GET_OPERATION_HEADER, &long);
    assert_eq!(&framed[..5], &[b'G', 44, 1, 0, 0]);
}

#[test]
fn responder_asks_for_a_hundred_operations() {
    let SyncResponderMessage::GetOperation(args) = get_operation(vec![(1, 2)]);
    assert_eq!(args.count, 100);
    assert_eq!(args.clocks, vec![(1, 2)]);
    assert!(has_more(100));
    assert!(!has_more(99));
    assert_eq!(OPS_PER_REQUEST, 100);
}

fn own(identity: u128) -> LibraryInstance {
    LibraryInstance { identity, is_own: true }
}

#[test]
fn loading_a_library_keeps_its_own_instances() {
    let mut libs = NetworkedLibraries::new();
    let ids = libs.load_library(1, vec![own(10), LibraryInstance { identity: 11, is_own: false }]);
    assert_eq!(ids, vec![10, 11]);
    assert_eq!(
        libs.entries,
        vec![InstanceEntry { library_id: 1, identity: 10, state: InstanceState::Unavailable }]
    );
    // Reloading replaces the library's instances.
    libs.load_library(1, vec![own(12)]);
    assert_eq!(libs.entries.len(), 1);
    assert_eq!(libs.entries[0].identity, 12);
    libs.delete_library(1);
    assert!(libs.entries.is_empty());
}

#[test]
fn discovery_connection_and_expiry() {
    let mut libs = NetworkedLibraries::new();
    libs.load_library(1, vec![own(10), own(20)]);
    libs.load_library(2, vec![own(30)]);
    // A peer advertising instance 20 is dialled, as it was unavailable.
    assert!(libs.peer_discovered(7, vec![99, 20]));
    assert_eq!(libs.entries[1].state, InstanceState::Discovered(7));
    // Discovered again through another peer: no new dial.
    assert!(!libs.peer_discovered(8, vec![20]));
    assert_eq!(libs.entries[1].state, InstanceState::Discovered(8));
    libs.peer_connected(8);
    assert_eq!(libs.entries[1].state, InstanceState::Connected(8));
    // A connected instance stays connected when discovered.
    assert!(!libs.peer_discovered(9, vec![20]));
    assert_eq!(libs.entries[1].state, InstanceState::Connected(8));
    assert_eq!(libs.sync_originator_peers(1), vec![8]);
    assert_eq!(libs.sync_originator_peers(2), Vec::<u128>::new());
    libs.peer_disconnected(8);
    assert_eq!(libs.entries[1].state, InstanceState::Unavailable);
    assert!(libs.peer_discovered(5, vec![30]));
    libs.peer_expired(5);
    assert_eq!(libs.entries[2].state, InstanceState::Unavailable);
    libs.peer_connected2(10, 4);
    assert_eq!(libs.entries[0].state, InstanceState::Connected(4));
}

fn config(disabled: bool, disable_ipv6: bool, discovery: P2PDiscoveryState) -> P2PConfig {
    P2PConfig { disabled, disable_ipv6, disable_relay: false, discovery, port: 7373 }
}

#[test]
fn config_change_plans() {
    let plan = plan_config_change(&config(false, false, P2PDiscoveryState::Everyone), false);
    assert_eq!(
        plan,
        ConfigChangePlan {
            advertise_metadata: true,
            ipv4_port: Some(7373),
            ipv6_port: Some(7373),
            mdns: MdnsAction::Spawn,
        }
    );
    let plan = plan_config_change(&config(false, true, P2PDiscoveryState::ContactsOnly), true);
    assert!(!plan.advertise_metadata);
    assert_eq!(plan.ipv6_port, None);
    assert_eq!(plan.mdns, MdnsAction::Keep);
    let plan = plan_config_change(&config(true, false, P2PDiscoveryState::Everyone), true);
    assert_eq!(plan.ipv4_port, None);
    assert_eq!(plan.mdns, MdnsAction::Shutdown);
    let plan = plan_config_change(&config(false, false, P2PDiscoveryState::Disabled), false);
    assert_eq!(plan.mdns, MdnsAction::Shutdown);
}

#[test]
fn listener_states() {
    assert_eq!(listener_state(true, Ok(())), ListenerState::Listening);
    assert_eq!(listener_state(false, Ok(())), ListenerState::NotListening);
    assert_eq!(
        listener_state(true, Err("port taken".to_string())),
        ListenerState::Error { error: "port taken".to_string() }
    );
    assert_eq!(relay_listener_state(0, Ok(())), ListenerState::NotListening);
    assert_eq!(relay_listener_state(2, Ok(())), ListenerState::Listening);
    let l = Listeners::default();
    assert_eq!(l.ipv4, ListenerState::NotListening);
    assert_eq!(l.relay, ListenerState::default());
}

#[test]
fn failures_revert_the_config() {
    let mut c = config(true, true, P2PDiscoveryState::Everyone);
    revert_config(&mut c, true, false, true);
    assert!(!c.disabled);
    assert!(c.disable_ipv6);
    assert_eq!(c.discovery, P2PDiscoveryState::Disabled);
}

#[test]
fn relays_only_when_enabled() {
    let c = config(false, false, P2PDiscoveryState::Everyone);
    assert_eq!(relay_servers(&c, vec![1, 2]), vec![1, 2]);
    let c = P2PConfig { disable_relay: true, ..c };
    assert_eq!(relay_servers(&c, vec![1, 2]), Vec::<i32>::new());
}

#[test]
fn peers_holding_a_library() {
    let peers = vec![
        PeerEntry { identity: 1, metadata_keys: vec!["lib-a".to_string()] },
        PeerEntry { identity: 2, metadata_keys: vec!["name".to_string(), "lib-b".to_string()] },
        PeerEntry { identity: 3, metadata_keys: vec!["lib-a".to_string(), "lib-b".to_string()] },
    ];
    assert_eq!(get_library_instances(&peers, "lib-b"), vec![2, 3]);
    assert_eq!(get_instance(&peers, "lib-a", 3), Some(2));
    assert_eq!(get_instance(&peers, "lib-a", 2), None);
}

#[test]
fn infallible_results_unwrap() {
    assert_eq!(unwrap_infallible::<u8>(Ok(5)), 5);
}

#[test]
fn an_instance_is_loaded_once() {
    let mut nl = NetworkedLibraries::new();
    let ids = nl.load_library(
        1,
        vec![
            LibraryInstance { identity: 9, is_own: true },
            LibraryInstance { identity: 9, is_own: true },
            LibraryInstance { identity: 4, is_own: false },
        ],
    );
    assert_eq!(ids, vec![9, 9, 4]);
    assert_eq!(nl.entries, vec![InstanceEntry { library_id: 1, identity: 9, state: InstanceState::Unavailable }]);
}
