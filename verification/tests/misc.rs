use famp::bus::{bus_dir, is_nfs, is_nfs_type_name, path_parent, SpawnError};
use famp::config::{PeerEntry, Peers};
use famp::identity::{parse_wires, parse_wires_line, resolve_identity, IdentityError};
use famp::info::{card_text, encode_b64url, peer_card};
use famp::init::{emit_output, init_mode, is_absolute, load_identity, probe_existing, resolve_famp_home, InitError, InitMode, InitOutcome};

fn alice() -> PeerEntry {
    PeerEntry {
        alias: "alice".to_string(),
        endpoint: "https://127.0.0.1:9443".to_string(),
        pubkey_b64: "abc".to_string(),
        principal: None,
        tls_fingerprint_sha256: None,
    }
}

#[test]
fn peers_try_add_rejects_duplicate_alias() {
    let mut peers = Peers::new();
    peers.try_add(alice()).unwrap();
    let err = peers.try_add(alice()).unwrap_err();
    assert_eq!(err.alias, "alice");
    assert_eq!(peers.peers.len(), 1);
}

#[test]
fn peers_find_returns_none_for_unknown_alias() {
    let peers = Peers::new();
    assert!(peers.find("nope").is_none());
}

#[test]
fn peers_find_mut_updates_in_place() {
    let mut peers = Peers::new();
    peers.try_add(alice()).unwrap();
    peers.find_mut("alice").unwrap().principal = Some("agent:h/alice".to_string());
    assert_eq!(peers.find("alice").unwrap().principal.as_deref(), Some("agent:h/alice"));
}

#[test]
fn bus_dir_returns_parent() {
    assert_eq!(bus_dir("/tmp/famp/bus.sock"), "/tmp/famp");
    assert_eq!(path_parent("/tmp/famp/"), Some("/tmp".to_string()));
    assert_eq!(path_parent("/"), None);
}

#[test]
fn nonexistent_path_returns_false() {
    assert!(!is_nfs(None));
    assert!(is_nfs(Some(0x6969)));
    assert!(!is_nfs(Some(0xEF53)));
    assert!(is_nfs_type_name(Some("nfs4")));
    assert!(!is_nfs_type_name(Some("apfs")));
    assert!(!is_nfs_type_name(None));
}

#[test]
fn spawn_error_messages_name_the_cause() {
    assert_eq!(SpawnError::Io("permission denied".to_string()).message(), "io error spawning broker");
    assert_eq!(SpawnError::BrokerDidNotStart.message(), "broker did not start within 2s");
}

#[test]
fn tier_1_as_flag_wins() {
    let got = resolve_identity(Some("alice"), Some("bob"), None).unwrap();
    assert_eq!(got, "alice");
}

#[test]
fn identity_tiers_fall_through_in_order() {
    assert_eq!(resolve_identity(Some(""), Some("bob"), None).unwrap(), "bob");
    assert_eq!(resolve_identity(None, Some(""), Some("carol".to_string())).unwrap(), "carol");
    match resolve_identity(None, None, None) {
        Err(IdentityError::NoIdentityBound { reason }) => {
            assert!(reason.starts_with("no identity bound"));
            assert!(reason.contains("--as"));
        }
        other => panic!("expected NoIdentityBound, got {other:?}"),
    }
}

#[test]
fn wires_rows_split_at_the_first_tab() {
    assert_eq!(parse_wires_line("/work/a\talice"), Some(("/work/a".to_string(), "alice".to_string())));
    assert_eq!(parse_wires_line("/work/a\tal\tice"), Some(("/work/a".to_string(), "al\tice".to_string())));
    assert_eq!(parse_wires_line("\talice"), None);
    assert_eq!(parse_wires_line("/work/a\t"), None);
    assert_eq!(parse_wires_line("no tab"), None);
    assert_eq!(
        parse_wires("/a\tx\nbad\n/b\ty\n"),
        vec![("/a".to_string(), "x".to_string()), ("/b".to_string(), "y".to_string())]
    );
}

#[test]
fn load_identity_rejects_relative_home() {
    assert!(matches!(load_identity("relative/path", &[]), Err(InitError::HomeNotAbsolute { .. })));
}

#[test]
fn load_identity_reports_first_missing() {
    let entries = vec![
        ("/h/key.ed25519".to_string(), false),
        ("/h/pub.ed25519".to_string(), false),
        ("/h/config.toml".to_string(), true),
    ];
    match load_identity("/h", &entries) {
        Err(InitError::IdentityIncomplete { missing }) => assert!(missing.ends_with("key.ed25519")),
        other => panic!("expected IdentityIncomplete, got {other:?}"),
    }
    let all = vec![("/h/key.ed25519".to_string(), true)];
    assert!(load_identity("/h", &all).is_ok());
    assert_eq!(probe_existing(&entries), vec!["/h/config.toml".to_string()]);
}

#[test]
fn init_modes() {
    assert_eq!(init_mode("/h", false, vec![], false, Some(true)).unwrap(), InitMode::CreateInPlace);
    assert_eq!(init_mode("/h", true, vec![], false, Some(true)).unwrap(), InitMode::CreateInPlace);
    assert!(matches!(
        init_mode("/h", true, vec!["/h/key".to_string()], false, Some(true)),
        Err(InitError::AlreadyInitialized { .. })
    ));
    assert_eq!(init_mode("/h", true, vec!["/h/key".to_string()], true, Some(true)).unwrap(), InitMode::ReplaceAtomically);
    assert!(matches!(init_mode("/h", false, vec![], false, Some(false)), Err(InitError::HomeHasNoParent { .. })));
    assert!(matches!(init_mode("rel", false, vec![], false, Some(true)), Err(InitError::HomeNotAbsolute { .. })));
    assert!(is_absolute("/x"));
    assert!(!is_absolute("x"));
    assert!(matches!(resolve_famp_home(), Err(InitError::HomeNotSet)));
    let (out, err) = emit_output(&InitOutcome { pubkey_b64url: "KEY".to_string(), home: "/h".to_string() });
    assert_eq!(out, "KEY");
    assert_eq!(err, "initialized FAMP home at /h");
}

#[test]
fn peer_card_defaults_and_renders() {
    let card = peer_card(None, "127.0.0.1:8443", encode_b64url(&[0xfb, 0xff]));
    assert_eq!(card.principal, "agent:localhost/self");
    assert_eq!(card.alias, "self");
    assert_eq!(card.endpoint, "https://127.0.0.1:8443");
    assert_eq!(card.pubkey, "-_8");
    let lines = card_text(&card);
    assert_eq!(lines[0], "Alias:     self");
    assert_eq!(lines[3], "Principal: agent:localhost/self");
}

#[test]
fn load_identity_happy_after_init() {
    let entries: Vec<(String, bool)> = ["key.ed25519", "pub.ed25519", "config.toml", "peers.toml"]
        .iter()
        .map(|n| (format!("/h/famphome/{n}"), true))
        .collect();
    assert!(load_identity("/h/famphome", &entries).is_ok());
}
