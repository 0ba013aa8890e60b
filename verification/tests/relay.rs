//! The relay mesh: keys, packets, fan-out, listening and the local daemon.

use base64::prelude::{Engine, BASE64_STANDARD};
use plugkill::json::read;
use plugkill::relay::config::{
    default_config_toml, load_private_key, show_pubkey, validate, Config, GeneralConfig, PeerConfig,
    RetryConfig,
};
use plugkill::relay::crypto::{
    generate_keypair, generate_keys, hex_encode, key_text, public_key, random_nonce, sign, verify,
    NonceCache, NONCE_CACHE_SIZE,
};
use plugkill::relay::file::load;
use plugkill::relay::listener::{ack_packet, answer, Dropped, Listener, Reaction};
use plugkill::relay::protocol::{
    deserialize, serialize, PacketType, MAX_PACKET_SIZE, MIN_PACKET_SIZE,
};
use plugkill::relay::resolve::{Resolver, TTL_NANOS};
use plugkill::relay::sender::{
    check_ack, find_peer, kill_packet, nothing_sent, signed_packet, FanOut, FanOutResult, NextStep,
};
use plugkill::relay::trigger::{classify, kill_request, Outcome};
use plugkill::relay::watcher::Watcher;

// ---- crypto --------------------------------------------------------------

#[test]
fn test_keypair_roundtrip() {
    let (privkey, pubkey) = generate_keypair();
    let message = b"test message";
    let sig = sign(&privkey, message);
    assert!(verify(&pubkey, message, &sig));
    assert_eq!(public_key(&privkey), pubkey);
}

#[test]
fn test_wrong_key_rejects() {
    let (privkey, _) = generate_keypair();
    let (_, other_pubkey) = generate_keypair();
    let message = b"test message";
    let sig = sign(&privkey, message);
    assert!(!verify(&other_pubkey, message, &sig));
}

#[test]
fn test_tampered_message_rejects() {
    let (privkey, pubkey) = generate_keypair();
    let sig = sign(&privkey, b"original");
    assert!(!verify(&pubkey, b"tampered", &sig));
}

#[test]
fn test_nonce_cache_detects_replay() {
    let mut cache = NonceCache::new();
    let nonce = random_nonce();
    assert!(!cache.check_and_insert(&nonce));
    assert!(cache.check_and_insert(&nonce));
}

#[test]
fn test_nonce_cache_eviction() {
    let mut cache = NonceCache::new();
    let first_nonce = random_nonce();
    cache.check_and_insert(&first_nonce);

    for _ in 0..NONCE_CACHE_SIZE {
        cache.check_and_insert(&random_nonce());
    }

    // first nonce should be evicted
    assert!(!cache.check_and_insert(&first_nonce));
}

#[test]
fn keys_are_printed_in_base64_and_nonces_in_hex() {
    let key = [7u8; 32];
    assert_eq!(key_text(&key), BASE64_STANDARD.encode(key));
    assert_eq!(load_private_key(&format!(" {}\n", key_text(&key))), Ok(key));
    let nonce = [0xabu8, 0x01, 0xf0];
    assert_eq!(hex_encode(&nonce), hex::encode(nonce));
    assert!(load_private_key("!!!")
        .unwrap_err()
        .starts_with("private key is not valid base64: "));
    assert_eq!(
        load_private_key(&BASE64_STANDARD.encode([1u8; 5])).unwrap_err(),
        "private key must be 32 bytes, got 5"
    );
}

// ---- protocol ------------------------------------------------------------

#[test]
fn test_roundtrip_kill_packet() {
    let (privkey, pubkey) = generate_keypair();
    let nonce = random_nonce();
    let timestamp = 1712835600u64;
    let reason = "usb_violation";

    let data = serialize(
        PacketType::Kill,
        timestamp,
        &nonce,
        &pubkey,
        reason,
        |msg: &[u8]| sign(&privkey, msg),
    );

    let (packet, msg_bytes, sig) = deserialize(&data).unwrap();
    assert_eq!(packet.packet_type, PacketType::Kill);
    assert_eq!(packet.timestamp, timestamp);
    assert_eq!(packet.nonce, nonce);
    assert_eq!(packet.sender_id, pubkey);
    assert_eq!(packet.reason, reason);
    assert!(verify(&pubkey, msg_bytes, &sig));
}

#[test]
fn test_roundtrip_ack_packet() {
    let (privkey, pubkey) = generate_keypair();
    let nonce = random_nonce();
    let ack_reason = hex::encode(nonce);

    let data = serialize(
        PacketType::Ack,
        1712835600,
        &nonce,
        &pubkey,
        &ack_reason,
        |msg: &[u8]| sign(&privkey, msg),
    );

    let (packet, _, _) = deserialize(&data).unwrap();
    assert_eq!(packet.packet_type, PacketType::Ack);
    assert_eq!(packet.reason, ack_reason);
}

#[test]
fn test_bad_magic_rejected() {
    let mut data = vec![0u8; MIN_PACKET_SIZE];
    data[0..4].copy_from_slice(b"XXXX");
    assert_eq!(deserialize(&data).unwrap_err(), "invalid magic");
}

#[test]
fn test_too_short_rejected() {
    let data = vec![0u8; MIN_PACKET_SIZE - 1];
    assert_eq!(deserialize(&data).unwrap_err(), "packet too short");
}

#[test]
fn test_empty_reason() {
    let (privkey, pubkey) = generate_keypair();
    let nonce = random_nonce();
    let data = serialize(PacketType::Kill, 0, &nonce, &pubkey, "", |msg: &[u8]| {
        sign(&privkey, msg)
    });
    let (packet, _, _) = deserialize(&data).unwrap();
    assert_eq!(packet.reason, "");
}

#[test]
fn test_tampered_signature_fails_verify() {
    let (privkey, pubkey) = generate_keypair();
    let nonce = random_nonce();
    let mut data = serialize(PacketType::Kill, 0, &nonce, &pubkey, "test", |msg: &[u8]| {
        sign(&privkey, msg)
    });
    // flip a byte in the timestamp (covered by signature, not UTF-8 validated)
    data[6] ^= 0xFF;
    let (_, msg_bytes, sig) = deserialize(&data).unwrap();
    assert!(!verify(&pubkey, msg_bytes, &sig));
}

#[test]
fn every_flaw_of_a_packet_is_named() {
    let (privkey, pubkey) = generate_keypair();
    let nonce = [3u8; 16];
    let good = signed_packet(PacketType::Kill, 9, &nonce, &pubkey, "ab", &privkey);
    assert!(deserialize(&good).is_ok());
    let mut bad = good.clone();
    bad[4] = 9;
    assert_eq!(deserialize(&bad).unwrap_err(), "unknown version");
    let mut bad = good.clone();
    bad[5] = 0x77;
    assert_eq!(deserialize(&bad).unwrap_err(), "unknown packet type");
    let mut bad = good.clone();
    bad[64] = 0xff;
    assert_eq!(deserialize(&bad).unwrap_err(), "reason not valid UTF-8");
    let mut bad = good.clone();
    bad[62] = 0xff;
    assert_eq!(deserialize(&bad).unwrap_err(), "reason too long");
    let mut bad = good.clone();
    bad[63] = 9;
    assert_eq!(deserialize(&bad).unwrap_err(), "packet truncated");
}

#[test]
fn a_long_reason_is_cut_to_what_a_packet_holds() {
    let (privkey, pubkey) = generate_keypair();
    let reason = "x".repeat(1000);
    let data = signed_packet(PacketType::Kill, 0, &[0; 16], &pubkey, &reason, &privkey);
    assert_eq!(data.len(), MAX_PACKET_SIZE);
    let (packet, _, _) = deserialize(&data).unwrap();
    assert_eq!(packet.reason, "x".repeat(256));
}

// ---- config --------------------------------------------------------------

fn valid_pubkey_b64() -> String {
    let (_, pubkey) = generate_keypair();
    BASE64_STANDARD.encode(pubkey)
}

fn config(key_file: Option<&str>, peers: Vec<PeerConfig>) -> Config {
    Config {
        general: GeneralConfig {
            private_key_file: key_file.map(|s| s.to_string()),
            ..GeneralConfig::default()
        },
        retry: RetryConfig::default(),
        peers,
    }
}

fn peer(name: &str, pubkey: &str, addresses: &[&str]) -> PeerConfig {
    PeerConfig {
        name: name.to_string(),
        pubkey: pubkey.to_string(),
        addresses: addresses.iter().map(|s| s.to_string()).collect(),
    }
}

/// The contents of a file that reads.
fn written(content: &str) -> Result<String, String> {
    Ok(content.to_string())
}

#[test]
fn test_minimal_valid_config() {
    let pk = valid_pubkey_b64();
    let f = written(&format!(
        r#"
[general]
private_key_file = "/etc/plugkill-relay/key.priv"

[[peers]]
name = "test"
pubkey = "{pk}"
addresses = ["192.168.1.1:7654"]
"#
    ));
    let config = load("/etc/relay.toml", f, "").unwrap();
    assert_eq!(config.peers.len(), 1);
    assert_eq!(config.general.listen_port, 7654);
}

#[test]
fn test_missing_private_key_file_rejects() {
    let f = written("[general]\n");
    let err = load("/etc/relay.toml", f, "").unwrap_err();
    assert!(err.contains("private_key_file is required"));
}

#[test]
fn test_relative_key_path_rejects() {
    let f = written(
        r#"
[general]
private_key_file = "relative/path"
"#,
    );
    let err = load("/etc/relay.toml", f, "").unwrap_err();
    assert!(err.contains("absolute path"));
}

#[test]
fn test_duplicate_peer_name_rejects() {
    let pk = valid_pubkey_b64();
    let f = written(&format!(
        r#"
[general]
private_key_file = "/etc/key"

[[peers]]
name = "dup"
pubkey = "{pk}"

[[peers]]
name = "dup"
pubkey = "{pk}"
"#
    ));
    let err = load("/etc/relay.toml", f, "").unwrap_err();
    assert!(err.contains("duplicate peer name"));
}

#[test]
fn test_invalid_pubkey_rejects() {
    let f = written(
        r#"
[general]
private_key_file = "/etc/key"

[[peers]]
name = "bad"
pubkey = "not-base64!!!"
"#,
    );
    let err = load("/etc/relay.toml", f, "").unwrap_err();
    assert!(err.contains("invalid base64"));
}

#[test]
fn test_address_without_port_rejects() {
    let pk = valid_pubkey_b64();
    let f = written(&format!(
        r#"
[general]
private_key_file = "/etc/key"

[[peers]]
name = "noport"
pubkey = "{pk}"
addresses = ["192.168.1.1"]
"#
    ));
    let err = load("/etc/relay.toml", f, "").unwrap_err();
    assert!(err.contains("must include a port"));
}

#[test]
fn test_defaults_applied() {
    let pk = valid_pubkey_b64();
    let f = written(&format!(
        r#"
[general]
private_key_file = "/etc/key"

[[peers]]
name = "p"
pubkey = "{pk}"
"#
    ));
    let config = load("/etc/relay.toml", f, "").unwrap();
    assert_eq!(config.retry.ack_timeout_ms, 50);
    assert_eq!(config.retry.max_retries, 3);
    assert_eq!(config.general.poll_interval_ms, 250);
}

#[test]
fn test_hostname_addresses_accepted() {
    let pk = valid_pubkey_b64();
    let f = written(&format!(
        r#"
[general]
private_key_file = "/etc/key"

[[peers]]
name = "ts"
pubkey = "{pk}"
addresses = ["ted.tail12345.ts.net:7654", "192.168.1.10:7654"]
"#
    ));
    let config = load("/etc/relay.toml", f, "").unwrap();
    assert_eq!(config.peers[0].addresses.len(), 2);
}

#[test]
fn a_relay_file_is_refused_for_what_is_wrong_with_it() {
    let refused = |text: &str| load("/etc/relay.toml", written(text), "so it is").unwrap_err();
    assert!(refused("[general").starts_with("failed to parse config: TOML parse error"));
    for text in [
        "[x]\n",
        "[general]\nlisten_port = 70000\n",
        "[retry]\nmax_retries = -1\n",
        "[[peers]]\nname = \"a\"\n",
    ] {
        assert_eq!(refused(text), "failed to parse config: so it is", "{text}");
    }
    assert_eq!(
        load("/etc/relay.toml", Err("no such file".to_string()), "").unwrap_err(),
        "failed to read config /etc/relay.toml: no such file"
    );
}

#[test]
fn a_section_may_list_its_values() {
    let text = "general = [1, \"/s\", 100, \"/k\"]\nretry = [60]\n";
    let config = load("/etc/relay.toml", written(text), "").unwrap();
    assert_eq!(config.general.listen_port, 1);
    assert_eq!(config.general.plugkill_socket, "/s");
    assert_eq!(config.general.poll_interval_ms, 100);
    assert_eq!(config.general.private_key_file.as_deref(), Some("/k"));
    assert_eq!(config.retry.ack_timeout_ms, 60);
    assert_eq!(config.retry.max_retries, 3);
    assert!(load("/etc/relay.toml", written("general = [1]\n"), "").is_err());
}

#[test]
fn every_number_has_its_bounds() {
    let with = |f: &dyn Fn(&mut Config)| {
        let mut c = config(Some("/etc/key"), vec![]);
        f(&mut c);
        validate(&c)
    };
    assert!(with(&|_| {}).is_ok());
    assert_eq!(
        with(&|c| c.general.poll_interval_ms = 49).unwrap_err(),
        "poll_interval_ms must be >= 50"
    );
    assert_eq!(
        with(&|c| c.general.poll_interval_ms = 10001).unwrap_err(),
        "poll_interval_ms must be <= 10000"
    );
    assert_eq!(
        with(&|c| c.retry.ack_timeout_ms = 9).unwrap_err(),
        "ack_timeout_ms must be >= 10"
    );
    assert_eq!(
        with(&|c| c.retry.max_retries = 11).unwrap_err(),
        "max_retries must be <= 10"
    );
    assert_eq!(
        with(&|c| c.peers = vec![peer("", "", &[])]).unwrap_err(),
        "peer name must not be empty"
    );
    assert_eq!(
        peer("short", &BASE64_STANDARD.encode([1u8; 5]), &[])
            .decode_pubkey()
            .unwrap_err(),
        "peer 'short': pubkey must be 32 bytes, got 5"
    );
}

#[test]
fn test_generate_keys_output() {
    let stdout = generate_keys();
    assert!(stdout.contains("Private key"));
    assert!(stdout.contains("Public key"));

    // Extract base64 lines (non-label, non-empty)
    let key_lines: Vec<&str> = stdout
        .lines()
        .filter(|l| !l.contains("Private") && !l.contains("Public") && !l.is_empty())
        .collect();
    assert_eq!(key_lines.len(), 2);

    // Both should be valid 32-byte base64
    for line in &key_lines {
        let decoded = BASE64_STANDARD.decode(line.trim()).unwrap();
        assert_eq!(decoded.len(), 32);
    }
}

#[test]
fn test_show_pubkey() {
    let stdout = generate_keys();
    let key_lines: Vec<&str> = stdout
        .lines()
        .filter(|l| !l.contains("Private") && !l.contains("Public") && !l.is_empty())
        .collect();
    let priv_b64 = key_lines[0].trim();
    let pub_b64 = key_lines[1].trim();
    let shown_pub = show_pubkey(priv_b64).unwrap();
    assert_eq!(shown_pub.trim(), pub_b64);
    assert!(show_pubkey("!!!").is_err());
}

#[test]
fn test_default_config_output() {
    let text = default_config_toml();
    assert!(text.contains("listen_port"));
    assert!(text.contains("private_key_file"));
    assert!(text.contains("[[peers]]"));
}

#[test]
fn the_default_config_loads() {
    let config = load("/etc/relay.toml", written(default_config_toml()), "").unwrap();
    assert_eq!(config.general.plugkill_socket, "/run/plugkill/plugkill.sock");
    assert_eq!(config.retry, RetryConfig::default());
    assert!(config.peers.is_empty());
}

// ---- resolver ------------------------------------------------------------

#[test]
fn test_cache_returns_same_result() {
    let mut resolver: Resolver<u16> = Resolver::new();
    assert_eq!(resolver.lookup("127.0.0.1:7654", 0), None);
    resolver.remember("127.0.0.1:7654", &[7654], 0);
    let first = resolver.lookup("127.0.0.1:7654", 1);
    let second = resolver.lookup("127.0.0.1:7654", 2);
    assert_eq!(first, Some(vec![7654]));
    assert_eq!(first, second);
    assert_eq!(resolver.lookup("127.0.0.1:7654", TTL_NANOS), None);
    assert_eq!(resolver.lookup("127.0.0.2:7654", 1), None);
}

// ---- sender --------------------------------------------------------------

fn make_peer(name: &str, pubkey: &[u8; 32]) -> PeerConfig {
    peer(name, &BASE64_STANDARD.encode(pubkey), &["127.0.0.1:19999"])
}

#[test]
fn test_check_ack_valid() {
    let (privkey, pubkey) = generate_keypair();
    let nonce = random_nonce();
    let data = ack_packet(&nonce, 0, &nonce, &pubkey, &privkey);
    let peers = vec![make_peer("alpha", &pubkey)];
    assert_eq!(
        check_ack(&data, &nonce, &peers),
        Some("alpha".to_string())
    );
    assert_eq!(find_peer(&peers, &pubkey).unwrap().name, "alpha");
}

#[test]
fn test_check_ack_wrong_nonce() {
    let (privkey, pubkey) = generate_keypair();
    let nonce = random_nonce();
    let other_nonce = random_nonce();
    let data = ack_packet(&nonce, 0, &nonce, &pubkey, &privkey);
    let peers = vec![make_peer("alpha", &pubkey)];
    // check against a different nonce: must reject
    assert!(check_ack(&data, &other_nonce, &peers).is_none());
}

#[test]
fn test_check_ack_kill_packet_ignored() {
    let (privkey, pubkey) = generate_keypair();
    let nonce = random_nonce();
    let data = signed_packet(PacketType::Kill, 0, &nonce, &pubkey, "reason", &privkey);
    let peers = vec![make_peer("alpha", &pubkey)];
    assert!(check_ack(&data, &nonce, &peers).is_none());
}

#[test]
fn test_check_ack_unknown_sender_ignored() {
    let (privkey, pubkey) = generate_keypair();
    let (_, other_pubkey) = generate_keypair();
    let nonce = random_nonce();
    let data = ack_packet(&nonce, 0, &nonce, &pubkey, &privkey);
    // peer list has a different pubkey: sender is unknown
    let peers = vec![make_peer("stranger", &other_pubkey)];
    assert!(check_ack(&data, &nonce, &peers).is_none());
}

#[test]
fn test_check_ack_bad_signature_rejected() {
    let (privkey, pubkey) = generate_keypair();
    let nonce = random_nonce();
    let mut data = ack_packet(&nonce, 0, &nonce, &pubkey, &privkey);
    // corrupt the signature
    let last = data.len() - 1;
    data[last] ^= 0xFF;
    let peers = vec![make_peer("alpha", &pubkey)];
    assert!(check_ack(&data, &nonce, &peers).is_none());
}

/// A fan-out in which these datagrams come back in each round.
fn fan_out(
    peers: &[PeerConfig],
    max_retries: u32,
    exclude: Option<&[u8; 32]>,
    nonce: &[u8; 16],
    rounds: &[Vec<Vec<u8>>],
) -> FanOutResult {
    let mut fan = FanOut::start(peers, exclude);
    if fan.is_done() {
        return fan.finish(peers);
    }
    let mut round = 0;
    loop {
        assert!(!fan.to_send().is_empty());
        for data in rounds.get(round).into_iter().flatten() {
            fan.receive(data, nonce, peers);
        }
        match fan.round_over(peers, max_retries) {
            NextStep::Finish => return fan.finish(peers),
            NextStep::Resend => round += 1,
        }
    }
}

#[test]
fn test_fan_out_no_peers_returns_empty() {
    let result = fan_out(&[], 0, None, &[0; 16], &[]);
    assert!(result.acked.is_empty());
    assert!(result.timed_out.is_empty());
}

#[test]
fn test_fan_out_skips_send_only_peers() {
    let (_, peer_pubkey) = generate_keypair();
    let peers = [peer("send-only", &BASE64_STANDARD.encode(peer_pubkey), &[])];
    let result = fan_out(&peers, 0, None, &[0; 16], &[]);
    assert!(result.acked.is_empty());
    assert!(result.timed_out.is_empty());
}

#[test]
fn test_fan_out_exclude_pubkey() {
    let (_, peer_pubkey) = generate_keypair();
    let peers = [make_peer("excluded", &peer_pubkey)];
    let result = fan_out(&peers, 0, Some(&peer_pubkey), &[0; 16], &[]);
    assert!(result.acked.is_empty());
    assert!(result.timed_out.is_empty());
}

#[test]
fn test_fan_out_unreachable_peer_times_out() {
    let (_, peer_pubkey) = generate_keypair();
    let peers = [make_peer("ghost", &peer_pubkey)];
    let result = fan_out(&peers, 1, None, &[0; 16], &[]);
    assert!(result.acked.is_empty());
    assert_eq!(result.timed_out, vec!["ghost".to_string()]);
}

#[test]
fn a_late_answer_still_counts_and_a_repeated_one_counts_once() {
    let (a_priv, a_pub) = generate_keypair();
    let (b_priv, b_pub) = generate_keypair();
    let peers = [make_peer("a", &a_pub), make_peer("b", &b_pub)];
    let nonce = [9u8; 16];
    let a = ack_packet(&nonce, 0, &[1; 16], &a_pub, &a_priv);
    let b = ack_packet(&nonce, 0, &[2; 16], &b_pub, &b_priv);
    let result = fan_out(
        &peers,
        1,
        None,
        &nonce,
        &[vec![a.clone(), a.clone()], vec![a, b]],
    );
    assert_eq!(result.acked, vec!["a".to_string(), "b".to_string()]);
    assert!(result.timed_out.is_empty());
}

#[test]
fn without_a_socket_every_peer_times_out() {
    let c = config(Some("/k"), vec![peer("a", "", &[]), peer("b", "", &[])]);
    let result = nothing_sent(&c);
    assert_eq!(result.timed_out, vec!["a".to_string(), "b".to_string()]);
    assert!(result.acked.is_empty());
}

// ---- listener ------------------------------------------------------------

#[test]
fn a_trusted_kill_kills_once() {
    let (privkey, pubkey) = generate_keypair();
    let peers = [make_peer("alpha", &pubkey)];
    let data = signed_packet(PacketType::Kill, 100, &[5; 16], &pubkey, "usb", &privkey);
    let mut listener = Listener::new();
    match listener.hear(&data, &peers, 102, false) {
        Reaction::Kill(kill) => {
            assert_eq!(kill.peer, "alpha");
            assert_eq!(kill.nonce, [5; 16]);
            assert_eq!(kill.sender, pubkey);
            assert_eq!(kill.reason, "usb");
            assert_eq!(kill.relay_reason, "relay:usb");
        }
        other => panic!("{other:?}"),
    }
    assert_eq!(
        listener.hear(&data, &peers, 102, false),
        Reaction::Drop(Dropped::Replayed)
    );
}

#[test]
fn everything_else_is_dropped_for_its_reason() {
    let (privkey, pubkey) = generate_keypair();
    let (other_priv, other_pub) = generate_keypair();
    let peers = [make_peer("alpha", &pubkey)];
    let mut listener = Listener::new();
    assert_eq!(
        listener.hear(b"hello", &peers, 0, false),
        Reaction::Drop(Dropped::Unreadable)
    );
    let stranger = signed_packet(PacketType::Kill, 100, &[1; 16], &other_pub, "x", &other_priv);
    assert_eq!(
        listener.hear(&stranger, &peers, 100, false),
        Reaction::Drop(Dropped::UnknownSender)
    );
    let forged = signed_packet(PacketType::Kill, 100, &[1; 16], &pubkey, "x", &other_priv);
    assert_eq!(
        listener.hear(&forged, &peers, 100, false),
        Reaction::Drop(Dropped::BadSignature("alpha".to_string()))
    );
    let old = signed_packet(PacketType::Kill, 100, &[1; 16], &pubkey, "x", &privkey);
    assert_eq!(
        listener.hear(&old, &peers, 106, false),
        Reaction::Drop(Dropped::Stale("alpha".to_string(), 6))
    );
    assert!(matches!(
        listener.hear(&old, &peers, 105, false),
        Reaction::Kill(_)
    ));
    let ack = ack_packet(&[9; 16], 100, &[2; 16], &pubkey, &privkey);
    assert_eq!(listener.hear(&ack, &peers, 100, false), Reaction::Ignore);
}

#[test]
fn a_kill_and_its_answer_find_each_other() {
    let (a_priv, a_pub) = generate_keypair();
    let (b_priv, b_pub) = generate_keypair();
    let (nonce, packet) = kill_packet(100, &a_pub, "usb", &a_priv);
    let mut b = Listener::new();
    let Reaction::Kill(kill) = b.hear(&packet, &[make_peer("a", &a_pub)], 100, false) else {
        panic!("an honest KILL is heard");
    };
    assert_eq!(kill.nonce, nonce);
    let ack = answer(&kill.nonce, 100, &b_pub, &b_priv);
    assert_eq!(
        check_ack(&ack, &nonce, &[make_peer("b", &b_pub)]),
        Some("b".to_string())
    );
}

// ---- trigger -------------------------------------------------------------

#[test]
fn test_ok_true_is_accepted() {
    let resp = read(r#"{"ok": true, "data": {"message": "kill sequence scheduled"}}"#);
    assert_eq!(classify(resp), Outcome::Accepted);
}

#[test]
fn test_ok_false_falls_back_to_poweroff() {
    let resp = read(r#"{"ok": false, "error": "kill already pending"}"#);
    let Outcome::Poweroff(why) = classify(resp) else {
        panic!("expected Outcome::Poweroff");
    };
    assert!(why.contains("kill already pending"));
}

#[test]
fn test_transport_error_falls_back_to_poweroff() {
    let resp = Err("cannot connect to daemon socket /run/plugkill/plugkill.sock".to_string());
    let Outcome::Poweroff(why) = classify(resp) else {
        panic!("expected Outcome::Poweroff");
    };
    assert!(why.contains("cannot connect"));
}

#[test]
fn test_missing_ok_field_falls_back_to_poweroff() {
    // A response we cannot read as success is not success.
    let resp = read(r#"{"data": {}}"#);
    assert!(matches!(classify(resp), Outcome::Poweroff(_)));
    let request = kill_request("usb");
    assert_eq!(request.get_str("command"), Some("kill"));
    assert_eq!(request.get_str("reason"), Some("usb"));
}

// ---- watcher -------------------------------------------------------------

fn watcher() -> Watcher {
    Watcher::new("/nonexistent")
}

fn enforcing(violations: u64) -> plugkill::json::Json {
    read(&format!(
        r#"{{"ok": true, "data": {{"armed": true, "mode": "enforce",
            "violations_logged": {violations}}}}}"#
    ))
    .unwrap()
}

#[test]
fn first_poll_returns_none() {
    let mut w = watcher();
    // No socket, no answer.
    assert!(w.poll(None).is_none());
}

#[test]
fn baseline_set_on_first_valid_enforce_poll() {
    let mut w = watcher();
    let result = w.poll(Some(&enforcing(5)));
    assert!(result.is_none());
    assert_eq!(w.last_violations, Some(5));
}

#[test]
fn new_violation_detected() {
    let mut w = watcher();
    w.last_violations = Some(5);
    let result = w.poll(Some(&enforcing(7)));
    assert_eq!(w.last_violations, Some(7));
    assert_eq!(result, Some(7));
}

#[test]
fn no_violation_when_count_unchanged() {
    let mut w = watcher();
    w.last_violations = Some(5);
    assert!(w.poll(Some(&enforcing(5))).is_none());
}

#[test]
fn a_learning_daemon_only_moves_the_baseline() {
    let mut w = watcher();
    w.last_violations = Some(5);
    let learning = read(
        r#"{"ok": true, "data": {"armed": true, "mode": "learn", "violations_logged": 9}}"#,
    )
    .unwrap();
    assert!(w.poll(Some(&learning)).is_none());
    assert!(w.poll(Some(&enforcing(9))).is_none());
    assert_eq!(w.poll(Some(&enforcing(10))), Some(10));
}

#[test]
fn a_dry_run_only_answers() {
    let (privkey, pubkey) = generate_keypair();
    let peers = [make_peer("alpha", &pubkey)];
    let data = signed_packet(PacketType::Kill, 100, &[5; 16], &pubkey, "usb", &privkey);
    for dry_run in [false, true] {
        let mut listener = Listener::new();
        let Reaction::Kill(kill) = listener.hear(&data, &peers, 102, dry_run) else {
            panic!("an honest KILL is heard");
        };
        assert_eq!(kill.act, !dry_run);
    }
}

#[test]
fn the_timed_out_are_who_did_not_answer() {
    let keys: Vec<([u8; 32], [u8; 32])> = (0..4).map(|_| generate_keypair()).collect();
    let reachable = |name: &str, i: usize| {
        peer(name, &BASE64_STANDARD.encode(keys[i].1), &["192.0.2.1:7654"])
    };
    let peers = [
        reachable("a", 0),
        reachable("b", 1),
        reachable("left-out", 2),
        peer("send-only", &BASE64_STANDARD.encode(keys[3].1), &[]),
    ];
    let ack = answer(&[7; 16], 100, &keys[0].1, &keys[0].0);
    let rounds = [vec![], vec![ack]];
    let result = fan_out(&peers, 2, Some(&keys[2].1), &[7; 16], &rounds);
    assert_eq!(result.acked, ["a"]);
    assert_eq!(result.timed_out, ["b"]);
}
