//! Pairing, the trust stores, their places, and the reports of engines.
use hmac::digest::KeyInit;
use hmac::{Hmac, Mac};
use sha2::Sha256;
use tether::ipc::{EngineEvent, PairedPeer, Reporter, ShellCommand};
use tether::pairing::{
    generate_pin, pin_from_bytes, Direction, Fingerprint, KeyedPairing, PairingError, PairingStart,
    Transcript, APP_IDENTITY, CONFIRM_INFO, EXPORTER_CONTEXT, EXPORTER_LABEL, EXPORTER_LEN,
    PIN_DIGITS,
};
use tether::paths::{config_dir, known_hosts_path, NoConfigDir};
use tether::sorted_map::SortedMap;
use tether::store::{
    parse_tagged_fingerprint, tag_fingerprint, temp_extension, HostEntry, KnownHosts, PairedStore,
    PeerEntry, StoredFile,
};

const VER: &str = "tether/1";

fn sample_transcript<'a>(
    exporter: &'a [u8; EXPORTER_LEN],
    fp_host: &'a Fingerprint,
    fp_client: &'a Fingerprint,
) -> Transcript<'a> {
    Transcript { exporter, fp_host, fp_client, protocol_version: VER }
}

/// Run the exchange for two parties and return both keyed states.
fn exchange(pin: &[u8], peer_pin: &[u8]) -> (KeyedPairing, KeyedPairing) {
    let a = PairingStart::new(pin);
    let b = PairingStart::new(peer_pin);
    let a_msg = a.outbound_msg().to_vec();
    let b_msg = b.outbound_msg().to_vec();
    match (a.into_keyed(&b_msg), b.into_keyed(&a_msg)) {
        (Ok(x), Ok(y)) => (x, y),
        _ => panic!("both finish"),
    }
}

#[test]
fn matching_pin_confirmations_verify_both_directions() {
    let (host, client) = exchange(b"48271930", b"48271930");
    let exporter = [7u8; EXPORTER_LEN];
    let fp_host = [1u8; 32];
    let fp_client = [2u8; 32];
    let t = sample_transcript(&exporter, &fp_host, &fp_client);

    let mh = host.make_confirmation(Direction::HostToClient, &t);
    let mc = client.make_confirmation(Direction::ClientToHost, &t);

    assert!(client.verify_confirmation(Direction::HostToClient, &t, &mh));
    assert!(host.verify_confirmation(Direction::ClientToHost, &t, &mc));
}

#[test]
fn wrong_pin_fails_confirmation() {
    let (host, client) = exchange(b"48271930", b"00000000");
    let exporter = [7u8; EXPORTER_LEN];
    let fp_host = [1u8; 32];
    let fp_client = [2u8; 32];
    let t = sample_transcript(&exporter, &fp_host, &fp_client);

    let mh = host.make_confirmation(Direction::HostToClient, &t);
    assert!(!client.verify_confirmation(Direction::HostToClient, &t, &mh));
}

#[test]
fn reflected_message_fails_wrong_direction_tag() {
    let (host, client) = exchange(b"48271930", b"48271930");
    let exporter = [7u8; EXPORTER_LEN];
    let fp_host = [1u8; 32];
    let fp_client = [2u8; 32];
    let t = sample_transcript(&exporter, &fp_host, &fp_client);

    let mh = host.make_confirmation(Direction::HostToClient, &t);
    assert!(!client.verify_confirmation(Direction::ClientToHost, &t, &mh));
}

#[test]
fn each_transcript_field_is_bound() {
    let (host, client) = exchange(b"48271930", b"48271930");
    let exporter = [7u8; EXPORTER_LEN];
    let fp_host = [1u8; 32];
    let fp_client = [2u8; 32];
    let base = sample_transcript(&exporter, &fp_host, &fp_client);
    let mh = host.make_confirmation(Direction::HostToClient, &base);

    let other_exporter = [9u8; EXPORTER_LEN];
    let t_exp = sample_transcript(&other_exporter, &fp_host, &fp_client);
    assert!(!client.verify_confirmation(Direction::HostToClient, &t_exp, &mh));

    let other_fp = [0xAAu8; 32];
    let t_fph = sample_transcript(&exporter, &other_fp, &fp_client);
    assert!(!client.verify_confirmation(Direction::HostToClient, &t_fph, &mh));

    let t_fpc = sample_transcript(&exporter, &fp_host, &other_fp);
    assert!(!client.verify_confirmation(Direction::HostToClient, &t_fpc, &mh));

    let t_ver = Transcript {
        exporter: &exporter,
        fp_host: &fp_host,
        fp_client: &fp_client,
        protocol_version: "tether/2",
    };
    assert!(!client.verify_confirmation(Direction::HostToClient, &t_ver, &mh));
}

#[test]
fn generated_pin_is_eight_digits() {
    for _ in 0..1000 {
        let pin = generate_pin().expect("OS CSPRNG unavailable");
        assert_eq!(pin.len(), PIN_DIGITS);
        assert!(pin.chars().all(|c| c.is_ascii_digit()), "pin {pin} not all digits");
        let value: u32 = pin.parse().expect("pin parses as a number");
        assert!(value < 100_000_000);
    }
}

#[test]
fn generated_pins_differ() {
    let first = generate_pin();
    assert!((0..20).any(|_| generate_pin() != first));
}

#[test]
fn pins_come_from_usable_draws_only() {
    assert_eq!(pin_from_bytes([0, 0, 0, 0]).as_deref(), Some("00000000"));
    assert_eq!(pin_from_bytes([1, 2, 0, 0]).as_deref(), Some("00000513"));
    assert_eq!(pin_from_bytes(100_000_007u32.to_le_bytes()).as_deref(), Some("00000007"));
    assert_eq!(pin_from_bytes(4_199_999_999u32.to_le_bytes()).as_deref(), Some("99999999"));
    assert_eq!(pin_from_bytes(4_200_000_000u32.to_le_bytes()), None);
    assert_eq!(pin_from_bytes([0xff; 4]), None);
}

#[test]
fn corrupt_peer_message_errors() {
    let a = PairingStart::new(b"48271930");
    let err = a.into_keyed(&[0xFF; 8]);
    assert!(matches!(err, Err(PairingError::Spake2Failed)));
    assert_eq!(PairingError::Spake2Failed.message(), "SPAKE2 key agreement failed");
}

#[test]
fn messages_of_another_side_or_length_are_refused() {
    let peer = PairingStart::new(b"48271930").outbound_msg().to_vec();
    assert_eq!(peer.len(), 33);
    assert_eq!(peer[0], 0x53);
    let mut other_side = peer.clone();
    other_side[0] = 0x41;
    assert!(PairingStart::new(b"48271930").into_keyed(&other_side).is_err());
    assert!(PairingStart::new(b"48271930").into_keyed(&peer[..32]).is_err());
    assert!(PairingStart::new(b"48271930").into_keyed(&[]).is_err());
    assert!(PairingStart::new(b"48271930").into_keyed(&peer).is_ok());
}

#[test]
fn wrong_length_mac_rejected_without_panic() {
    let (_, client) = exchange(b"48271930", b"48271930");
    let exporter = [7u8; EXPORTER_LEN];
    let fp_host = [1u8; 32];
    let fp_client = [2u8; 32];
    let t = sample_transcript(&exporter, &fp_host, &fp_client);
    assert!(!client.verify_confirmation(Direction::HostToClient, &t, &[0u8; 8]));
    assert!(!client.verify_confirmation(Direction::HostToClient, &t, &[0u8; 64]));
}

#[test]
fn constants_spell_their_names() {
    assert_eq!(&APP_IDENTITY[..], b"tether-pairing-v1");
    assert_eq!(&CONFIRM_INFO[..], b"tether pairing v1 confirm");
    assert_eq!(&EXPORTER_LABEL[..], b"tether pairing exporter v1");
    assert_eq!(&EXPORTER_CONTEXT[..], b"");
    assert_eq!(&Direction::HostToClient.tag(), b"H2C");
    assert_eq!(&Direction::ClientToHost.tag(), b"C2H");
}

#[test]
fn a_confirmation_is_the_code_over_the_layout() {
    let exporter = [3u8; EXPORTER_LEN];
    let fp_host = [4u8; 32];
    let fp_client = [5u8; 32];
    let t = sample_transcript(&exporter, &fp_host, &fp_client);
    let made = KeyedPairing::from_shared(b"secret").make_confirmation(Direction::ClientToHost, &t);

    let mut key = [0u8; 32];
    hkdf::Hkdf::<Sha256>::new(None, b"secret").expand(b"tether pairing v1 confirm", &mut key).unwrap();
    let mut mac = <Hmac<Sha256> as KeyInit>::new_from_slice(&key).unwrap();
    for part in [&b"C2H"[..], &exporter, &fp_host, &fp_client, &8u32.to_be_bytes(), b"tether/1"] {
        mac.update(part);
    }
    let due: [u8; 32] = mac.finalize().into_bytes().into();
    assert_eq!(made, due);
}

#[test]
fn tag_format_is_sha256_prefixed_hex() {
    let fp = [0u8; 32];
    let tagged = tag_fingerprint(&fp);
    assert_eq!(tagged, format!("sha256:{}", "00".repeat(32)));
    assert!(tagged.starts_with("sha256:"));
    assert_eq!(tagged.len(), "sha256:".len() + 64);
}

#[test]
fn tagged_fingerprint_round_trips() {
    let fp: Fingerprint = std::array::from_fn(|i| i as u8);
    let parsed = parse_tagged_fingerprint(&tag_fingerprint(&fp)).expect("parses");
    assert_eq!(parsed, fp);
}

#[test]
fn parse_rejects_bad_input() {
    assert!(parse_tagged_fingerprint("md5:abcd").is_none());
    assert!(parse_tagged_fingerprint("sha256:zz").is_none());
    assert!(parse_tagged_fingerprint(&format!("sha256:{}", "00".repeat(16))).is_none());
    assert!(parse_tagged_fingerprint("deadbeef").is_none());
}

#[test]
fn parse_takes_digits_in_either_case() {
    let mixed = format!("sha256:aB{}", "0f".repeat(31));
    let fp = parse_tagged_fingerprint(&mixed).expect("parses");
    assert_eq!(fp[0], 0xab);
    assert_eq!(fp[31], 0x0f);
    assert!(parse_tagged_fingerprint(&format!("sha256:{}", "00".repeat(33))).is_none());
    assert!(parse_tagged_fingerprint(&format!("sha256:{}0", "00".repeat(31))).is_none());
    assert!(parse_tagged_fingerprint(&format!("SHA256:{}", "00".repeat(32))).is_none());
    assert!(parse_tagged_fingerprint(&format!("sha256:{}é", "00".repeat(31))).is_none());
    assert!(parse_tagged_fingerprint("").is_none());
}

#[test]
fn insert_contains_remove() {
    let mut store = PairedStore::default();
    let fp = [3u8; 32];
    assert!(!store.contains(&fp));
    store.insert(&fp, "laptop".to_string(), 1_700_000_000);
    assert!(store.contains(&fp));
    assert_eq!(store.len(), 1);
    assert!(store.remove(&fp));
    assert!(!store.contains(&fp));
    assert!(!store.remove(&fp));
}

#[test]
fn remove_tagged_matches_insert() {
    let mut store = PairedStore::default();
    let fp = [5u8; 32];
    store.insert(&fp, "x".to_string(), 0);
    let tagged = tag_fingerprint(&fp);
    assert!(store.remove_tagged(&tagged));
    assert!(!store.contains(&fp));
}

#[test]
fn known_hosts_insert_lookup_remove() {
    let mut hosts = KnownHosts::default();
    let fp = [6u8; 32];
    assert!(!hosts.contains("192.168.1.5:7654"));
    hosts.insert("192.168.1.5:7654".to_string(), &fp, "desktop".to_string(), 1_700_000_000);
    assert!(hosts.contains("192.168.1.5:7654"));
    assert_eq!(hosts.fingerprint("192.168.1.5:7654"), Some(fp));
    assert_eq!(hosts.fingerprint("10.0.0.1:7654"), None);
    assert!(hosts.remove("192.168.1.5:7654"));
    assert!(!hosts.contains("192.168.1.5:7654"));
    assert!(!hosts.remove("192.168.1.5:7654"));
}

#[test]
fn set_last_connected_only_touches_existing_hosts() {
    let mut hosts = KnownHosts::default();
    let fp = [8u8; 32];
    hosts.insert("a:7654".to_string(), &fp, "a".to_string(), 100);
    assert_eq!(hosts.iter()[0].1.last_connected_unix, None);

    assert!(hosts.set_last_connected("a:7654", 200));
    assert_eq!(hosts.iter()[0].1.last_connected_unix, Some(200));
    assert!(!hosts.set_last_connected("b:7654", 300));
}

#[test]
fn rename_changes_label_not_fingerprint() {
    let mut hosts = KnownHosts::default();
    let fp = [9u8; 32];
    hosts.insert("a:7654".to_string(), &fp, "old".to_string(), 100);
    assert!(hosts.rename("a:7654", "new".to_string()));
    assert_eq!(hosts.iter()[0].1.label, "new");
    assert_eq!(hosts.fingerprint("a:7654"), Some(fp));
    assert!(!hosts.rename("missing:7654", "x".to_string()));
}

#[test]
fn a_pin_that_is_no_fingerprint_pins_nothing() {
    let entry = HostEntry {
        fingerprint: "sha256:0000".to_string(),
        label: "work".to_string(),
        paired_at_unix: 1,
        last_connected_unix: None,
    };
    let file: StoredFile<HostEntry, String> =
        StoredFile::Entries(vec![("host.local:7654".to_string(), entry)]);
    let hosts = match KnownHosts::load(file) {
        Ok(h) => h,
        Err(e) => panic!("{e}"),
    };
    assert!(hosts.contains("host.local:7654"));
    assert_eq!(hosts.fingerprint("host.local:7654"), None);
    assert_eq!(hosts.len(), 1);
    assert!(!hosts.is_empty());
}

#[test]
fn a_saved_store_is_loaded_again() {
    let mut store = PairedStore::default();
    store.insert(&[2u8; 32], "phone".to_string(), 1_700_000_002);
    store.insert(&[1u8; 32], "desktop".to_string(), 1_700_000_001);
    let saved: Vec<(String, PeerEntry)> =
        store.save().into_iter().map(|(k, e)| (k.to_string(), e.clone())).collect();
    assert_eq!(saved[0].0, tag_fingerprint(&[1u8; 32]));
    let loaded = match PairedStore::load::<String>(StoredFile::Entries(saved)) {
        Ok(s) => s,
        Err(e) => panic!("{e}"),
    };
    assert_eq!(loaded.len(), 2);
    assert!(loaded.contains(&[1u8; 32]) && loaded.contains(&[2u8; 32]));
    let labels: Vec<&str> = loaded.iter().iter().map(|(_, e)| e.label.as_str()).collect();
    assert_eq!(labels, vec!["desktop", "phone"]);
}

#[test]
fn a_missing_file_is_an_empty_store_and_a_damaged_one_an_error() {
    let missing = PairedStore::load::<String>(StoredFile::Missing);
    assert!(missing.is_ok_and(|s| s.is_empty()));
    let corrupt = PairedStore::load(StoredFile::Corrupt("not json".to_string()));
    assert!(matches!(corrupt, Err(e) if e == "not json"));
    let denied = KnownHosts::load(StoredFile::Unreadable("denied".to_string()));
    assert!(matches!(denied, Err(e) if e == "denied"));
}

#[test]
fn the_later_of_two_entries_counts() {
    let entry = |label: &str| PeerEntry { label: label.to_string(), paired_at_unix: 0 };
    let file: StoredFile<PeerEntry, String> = StoredFile::Entries(vec![
        ("k".to_string(), entry("first")),
        ("j".to_string(), entry("other")),
        ("k".to_string(), entry("second")),
    ]);
    let store = match PairedStore::load(file) {
        Ok(s) => s,
        Err(e) => panic!("{e}"),
    };
    let all: Vec<(&str, &str)> = store.iter().iter().map(|(k, e)| (*k, e.label.as_str())).collect();
    assert_eq!(all, vec![("j", "other"), ("k", "second")]);
}

#[test]
fn entries_come_in_the_order_of_a_tree_map() {
    let keys = ["b", "", "a", "ab", "B", "é", "b", "😀", "a:1", "a:10", "a:9", "\u{ffff}"];
    let mut ours: SortedMap<usize> = SortedMap::new();
    let mut theirs = std::collections::BTreeMap::new();
    for (i, k) in keys.iter().enumerate() {
        ours.insert(k.to_string(), i);
        theirs.insert(k.to_string(), i);
    }
    assert_eq!(ours.len(), theirs.len());
    let a: Vec<(String, usize)> = ours.entries().iter().map(|(k, v)| (k.to_string(), **v)).collect();
    let b: Vec<(String, usize)> = theirs.into_iter().collect();
    assert_eq!(a, b);
    assert_eq!(ours.remove("ab"), Some(3));
    assert_eq!(ours.remove("ab"), None);
    assert_eq!(ours.get("b"), Some(&6));
    assert!(ours.get("ab").is_none());
}

#[test]
fn temporary_files_are_told_apart() {
    assert_eq!(temp_extension(4711, 0), "json.4711.0.tmp");
    assert_eq!(temp_extension(u32::MAX, u64::MAX), "json.4294967295.18446744073709551615.tmp");
    assert_ne!(temp_extension(1, 23), temp_extension(12, 3));
}

#[test]
fn config_dir_by_precedence() {
    let dir = config_dir(Some("/c"), Some("/h"), Some("/u")).ok().expect("set");
    assert_eq!((dir.base, dir.below), ("/c", vec![]));
    let dir = config_dir(None, Some("/h"), Some("/u")).ok().expect("set");
    assert_eq!((dir.base, dir.below), ("/h", vec![".tether"]));
    let dir = config_dir(None, None, Some("/u")).ok().expect("set");
    assert_eq!((dir.base, dir.below), ("/u", vec![".tether"]));
    assert!(matches!(config_dir::<&str>(None, None, None), Err(NoConfigDir)));
    assert_eq!(
        NoConfigDir.message(),
        "neither $TETHER_CERT_DIR nor $HOME/$USERPROFILE is set; can't choose a config directory"
    );
}

#[test]
fn known_hosts_lie_in_the_config_dir() {
    let file = known_hosts_path(None, Some("/h"), None).ok().expect("set");
    assert_eq!((file.base, file.below), ("/h", vec![".tether", "known_hosts.json"]));
    let file = known_hosts_path(Some("/c"), None, None).ok().expect("set");
    assert_eq!((file.base, file.below), ("/c", vec!["known_hosts.json"]));
    assert!(known_hosts_path::<&str>(None, None, None).is_err());
}

#[test]
fn reporter_follows_the_ipc_flag() {
    assert_eq!(Reporter::from_ipc_flag(true), Reporter::Json);
    assert_eq!(Reporter::from_ipc_flag(false), Reporter::Human);
    assert!(Reporter::Json.is_json());
    assert!(!Reporter::Human.is_json());
}

#[test]
fn reporter_writes_json_or_text() {
    let event = EngineEvent::Error { message: "no decoder".to_string() };
    assert_eq!(Reporter::Json.emit(&event, Some("{}".to_string())), vec!["{}"]);
    assert!(Reporter::Json.emit(&event, None).is_empty());
    assert_eq!(Reporter::Human.emit(&event, Some("{}".to_string())), vec!["error: no decoder"]);
}

#[test]
fn events_as_text_for_people() {
    let s = |t: &str| t.to_string();
    let cases = vec![
        (
            EngineEvent::Listening { addr: s("127.0.0.1:7654"), fingerprint: s("ab12") },
            vec![
                "tether-host listening on 127.0.0.1:7654",
                "cert fingerprint: ab12",
                "client cmd:      tether-client 127.0.0.1:7654 ab12",
            ],
        ),
        (EngineEvent::PeerConnected { peer: s("p") }, vec!["client connected: p"]),
        (EngineEvent::PeerDisconnected { reason: s("r") }, vec!["client disconnected: r"]),
        (EngineEvent::Connecting { host: s("h") }, vec!["connecting to h…"]),
        (
            EngineEvent::Connected { host: s("h"), profile: s("HEVC Main") },
            vec!["connected to h (HEVC Main)"],
        ),
        (EngineEvent::Disconnected { reason: s("r") }, vec!["disconnected: r"]),
        (EngineEvent::Error { message: s("m") }, vec!["error: m"]),
        (
            EngineEvent::PairingPin { pin: s("48271930"), expires_in_secs: 120 },
            vec!["pairing PIN: 48271930 (expires in 120s)"],
        ),
        (
            EngineEvent::Paired { peer: s("p"), label: s("l") },
            vec!["paired with l (p)"],
        ),
        (
            EngineEvent::PairingRequired { peer: s("p") },
            vec!["unpaired client p refused; start pairing to allow it"],
        ),
        (EngineEvent::PeerList { peers: vec![] }, vec!["paired devices (0):"]),
        (
            EngineEvent::PeerList {
                peers: vec![
                    PairedPeer { fingerprint: s("sha256:ab"), label: s("x"), paired_at_unix: 7 },
                    PairedPeer { fingerprint: s("sha256:cd"), label: s("y"), paired_at_unix: 8 },
                ],
            },
            vec!["paired devices (2):", "  x (sha256:ab)", "  y (sha256:cd)"],
        ),
    ];
    for (event, lines) in cases {
        assert_eq!(event.human_lines(), lines);
    }
    assert_ne!(ShellCommand::Stop, ShellCommand::ListPeers);
}
