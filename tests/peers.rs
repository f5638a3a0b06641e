use todo_sync::peers::{
    endpoint_id_to_site_id, handshake_bytes, identity_less, keep_connection,
    parse_site_id_from_path, read_handshake, reconnect_targets, same_identity, scan_target,
    known_peers_path, secret_key_from_file, secret_key_path, should_dial, socket_name,
};
use todo_sync::supervisor::{next_legs_state, LegsAction, LegsEvent, LegsState};
use todo_sync::text::{decimal_text, parse_u32};

fn id(first: u8) -> [u8; 32] {
    let mut b = [0u8; 32];
    b[0] = first;
    b[31] = 7;
    b
}

#[test]
fn site_id_is_the_first_four_bytes() {
    let mut b = [0u8; 32];
    b[..4].copy_from_slice(&[0x12, 0x34, 0x56, 0x78]);
    b[4] = 0xff;
    assert_eq!(endpoint_id_to_site_id(&b), 0x12345678);
}

#[test]
fn only_the_lower_identity_dials() {
    let a = id(1);
    let b = id(2);
    assert!(identity_less(&a, &b));
    assert!(!identity_less(&b, &a));
    assert!(!identity_less(&a, &a));
    assert!(same_identity(&a, &a) && !same_identity(&a, &b));
    assert!(should_dial(&a, &b, false));
    assert!(!should_dial(&b, &a, false));
    assert!(!should_dial(&a, &b, true));
    assert!(!should_dial(&a, &a, false));
    let mut c = id(1);
    c[31] = 8;
    assert!(identity_less(&a, &c));
}

#[test]
fn duplicate_connections_resolve_to_the_lower_peers() {
    let lo = id(1);
    let hi = id(2);
    // the connection the lower peer dialled stays on both sides
    assert!(keep_connection(&lo, &hi, true, true));
    assert!(keep_connection(&hi, &lo, false, true));
    // the one the higher peer dialled goes on both sides
    assert!(!keep_connection(&hi, &lo, true, true));
    assert!(!keep_connection(&lo, &hi, false, true));
    // with no other connection, any connection stays
    assert!(keep_connection(&hi, &lo, true, false));
    assert!(keep_connection(&lo, &hi, false, false));
}

#[test]
fn reconnect_sweep_picks_known_higher_peers_not_connected() {
    let me = id(5);
    let known = vec![id(1), id(6), id(7), id(5), id(9)];
    let active = vec![id(7)];
    assert_eq!(reconnect_targets(&me, &known, &active), vec![id(6), id(9)]);
}

#[test]
fn socket_names_round_trip() {
    assert_eq!(socket_name(12345), "12345.sock");
    assert_eq!(socket_name(0), "0.sock");
    assert_eq!(parse_site_id_from_path("12345.sock"), Some(12345));
    assert_eq!(parse_site_id_from_path("4294967295.sock"), Some(u32::MAX));
    assert_eq!(parse_site_id_from_path("4294967296.sock"), None);
    assert_eq!(parse_site_id_from_path("+7.sock"), Some(7));
    assert_eq!(parse_site_id_from_path("12x.sock"), None);
    assert_eq!(parse_site_id_from_path(".sock"), None);
    assert_eq!(parse_site_id_from_path("12345.txt"), None);
    assert_eq!(parse_site_id_from_path("12345"), None);
}

#[test]
fn stale_socket_scan_dials_other_sites_only() {
    assert_eq!(scan_target(1, "12345.sock"), Some(12345));
    assert_eq!(scan_target(12345, "12345.sock"), None);
    assert_eq!(scan_target(1, "notes.txt"), None);
}

#[test]
fn handshake_is_the_site_id_big_endian() {
    assert_eq!(handshake_bytes(0x0a0b0c0d), vec![0x0a, 0x0b, 0x0c, 0x0d]);
    assert_eq!(read_handshake([0x0a, 0x0b, 0x0c, 0x0d]), 0x0a0b0c0d);
}

#[test]
fn decimal_text_and_parsing() {
    assert_eq!(decimal_text(0), "0");
    assert_eq!(decimal_text(1907), "1907");
    assert_eq!(decimal_text(u64::MAX), "18446744073709551615");
    let chars: Vec<char> = "+0042".chars().collect();
    assert_eq!(parse_u32(&chars), Some(42));
    assert_eq!(parse_u32(&[]), None);
    assert_eq!(parse_u32(&['+']), None);
    assert_eq!(parse_u32(&['-', '1']), None);
}

#[test]
fn discovery_legs_restart_after_backoff_or_network_change() {
    let (s, a) = next_legs_state(LegsState::Running, LegsEvent::LegEnded { failed: true });
    assert_eq!((s, a), (LegsState::Waiting, LegsAction::ReportAndWait { failed: true }));
    assert_eq!(
        next_legs_state(LegsState::Waiting, LegsEvent::BackoffElapsed),
        (LegsState::Running, LegsAction::Restart)
    );
    assert_eq!(
        next_legs_state(LegsState::Waiting, LegsEvent::NetworkChanged),
        (LegsState::Running, LegsAction::Restart)
    );
    assert_eq!(
        next_legs_state(LegsState::Running, LegsEvent::NetworkChanged),
        (LegsState::Running, LegsAction::ReportNetworkChange)
    );
    assert_eq!(
        next_legs_state(LegsState::Waiting, LegsEvent::LegEnded { failed: false }),
        (LegsState::Waiting, LegsAction::Nothing)
    );
}

#[test]
fn key_file_must_hold_exactly_32_bytes() {
    let bytes: Vec<u8> = (0..32).collect();
    let key = secret_key_from_file(&bytes).unwrap();
    assert_eq!(key[0], 0);
    assert_eq!(key[31], 31);
    assert!(secret_key_from_file(&bytes[..31]).is_none());
    assert!(secret_key_from_file(&[0u8; 33]).is_none());
    assert_eq!(secret_key_path("/data"), "/data/iroh_secret_key");
    assert_eq!(known_peers_path("/data"), "/data/known_peers.json");
}
