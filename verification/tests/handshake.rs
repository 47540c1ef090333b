use ssh_core::banner::{find_line_end, make_banner_line, make_version_string, parse_banner};
use ssh_core::codec::Data;
use ssh_core::error::{AlgFamily, SshError};
use ssh_core::kex::{Config, Kex, KexPhase};
use ssh_core::negotiate::{choose_algorithm, parse_name_list};
use ssh_core::session::{CipherMode, Session};
use ssh_core::transcript::Transcript;

fn names(list: &[&[u8]]) -> Vec<Vec<u8>> {
    list.iter().map(|n| n.to_vec()).collect()
}

fn test_config() -> Config {
    Config {
        client_ident: b"testclient_0.1".to_vec(),
        kex_algorithms: names(&[b"curve25519-sha256", b"ecdh-sha2-nistp256"]),
        host_key_algorithms: names(&[b"ssh-ed25519", b"rsa-sha2-256"]),
        encryption_c2s: names(&[b"aes128-ctr"]),
        encryption_s2c: names(&[b"aes128-ctr"]),
        mac_c2s: names(&[b"hmac-sha2-256"]),
        mac_s2c: names(&[b"hmac-sha2-256"]),
        compression_c2s: names(&[b"none"]),
        compression_s2c: names(&[b"none"]),
        window_size: 2097152,
        max_packet_size: 32768,
    }
}

fn server_kexinit() -> Vec<u8> {
    let mut d = Data::new();
    d.put_u8(20);
    for _ in 0..16 {
        d.put_u8(7);
    }
    d.put_string(b"ecdh-sha2-nistp256,diffie-hellman-group14-sha1");
    d.put_string(b"ssh-ed25519");
    d.put_string(b"aes128-ctr,aes256-ctr");
    d.put_string(b"aes128-ctr");
    d.put_string(b"hmac-sha2-256");
    d.put_string(b"hmac-sha2-256,hmac-sha2-512");
    d.put_string(b"none");
    d.put_string(b"none,zlib");
    d.put_string(b"");
    d.put_string(b"");
    d.put_u8(0);
    d.put_u32(0);
    d.as_vec()
}

#[test]
fn banner_valid_line_is_recorded_stripped() {
    let line = b"SSH-2.0-OpenSSH_9.0\r\n".to_vec();
    assert_eq!(parse_banner(&line), Ok(b"SSH-2.0-OpenSSH_9.0".to_vec()));
}

#[test]
fn banner_old_protocol_is_invalid() {
    let line = b"SSH-1.5-x\r\n".to_vec();
    assert_eq!(parse_banner(&line), Err(SshError::BannerInvalid));
}

#[test]
fn banner_missing_crlf_is_invalid() {
    let line = b"SSH-2.0-OpenSSH_9.0".to_vec();
    assert_eq!(parse_banner(&line), Err(SshError::BannerInvalid));
}

#[test]
fn banner_line_building() {
    let version = make_version_string(&b"testclient_0.1".to_vec());
    assert_eq!(version, b"SSH-2.0-testclient_0.1".to_vec());
    let line = make_banner_line(&version);
    assert_eq!(line, b"SSH-2.0-testclient_0.1\r\n".to_vec());
    assert_eq!(find_line_end(&line), Some(22));
    assert_eq!(find_line_end(&b"no end here".to_vec()), None);
}

#[test]
fn negotiation_picks_first_client_match() {
    // the client prefers curve25519; the server lacks it, so the
    // second client preference wins
    let client = names(&[b"curve25519-sha256", b"ecdh-sha2-nistp256"]);
    let server = names(&[b"ecdh-sha2-nistp256", b"diffie-hellman-group14-sha1"]);
    let chosen = choose_algorithm(&client, &server, AlgFamily::KeyExchange).unwrap();
    assert_eq!(chosen, b"ecdh-sha2-nistp256".to_vec());
}

#[test]
fn negotiation_client_order_rules() {
    let client = names(&[b"a", b"b", b"c"]);
    let server = names(&[b"c", b"b"]);
    let chosen = choose_algorithm(&client, &server, AlgFamily::KeyExchange).unwrap();
    assert_eq!(chosen, b"b".to_vec());
}

#[test]
fn negotiation_empty_intersection_fails() {
    let client = names(&[b"a", b"b"]);
    let server = names(&[b"x"]);
    assert_eq!(
        choose_algorithm(&client, &server, AlgFamily::MacClientToServer),
        Err(SshError::NoCommonAlgorithm(AlgFamily::MacClientToServer))
    );
}

#[test]
fn name_list_splitting() {
    assert_eq!(parse_name_list(&Vec::new()).len(), 0);
    assert_eq!(parse_name_list(&b"one".to_vec()), names(&[b"one"]));
    assert_eq!(parse_name_list(&b"a,bc,d".to_vec()), names(&[b"a", b"bc", b"d"]));
    assert_eq!(parse_name_list(&b"a,".to_vec()), names(&[b"a", b""]));
}

#[test]
fn transcript_same_fields_same_bytes() {
    let mut a = Transcript::new();
    let mut b = Transcript::new();
    for t in [&mut a, &mut b] {
        t.set_v_c(b"SSH-2.0-c".to_vec());
        t.set_v_s(b"SSH-2.0-s".to_vec());
        t.set_i_c(vec![20, 1]);
        t.set_i_s(vec![20, 2]);
        t.set_k_s(b"hostkey".to_vec());
        t.set_q_c(vec![0xAA]);
        t.set_q_s(vec![0xBB]);
        t.set_k(vec![0x7F]);
    }
    assert_eq!(a.to_bytes(), b.to_bytes());
}

#[test]
fn transcript_exact_encoding() {
    let mut t = Transcript::new();
    t.set_v_c(b"a".to_vec());
    t.set_v_s(b"b".to_vec());
    t.set_i_c(vec![1]);
    t.set_i_s(vec![2]);
    t.set_k_s(vec![3]);
    t.set_q_c(vec![4]);
    t.set_q_s(vec![5]);
    t.set_k(vec![0x80]);
    let expected = vec![
        0, 0, 0, 1, b'a', 0, 0, 0, 1, b'b', 0, 0, 0, 1, 1, 0, 0, 0, 1, 2, 0, 0, 0, 1, 3, 0, 0,
        0, 1, 4, 0, 0, 0, 1, 5, 0, 0, 0, 2, 0, 0x80,
    ];
    assert_eq!(t.to_bytes(), expected);
}

#[test]
fn kex_full_exchange_and_signature_gate() {
    let cfg = test_config();
    let mut kex = Kex::new();
    let mut s = Session::new();
    assert_eq!(kex.phase, KexPhase::Start);

    let v_c = make_version_string(&cfg.client_ident);
    kex.set_versions(&v_c, &b"SSH-2.0-OpenSSH_9.0\r\n".to_vec()).unwrap();

    let cookie = vec![9u8; 16];
    kex.send_algorithm(&mut s, &cfg, &cookie).unwrap();
    assert_eq!(kex.phase, KexPhase::SentKexInit);
    assert_eq!(s.outbound.len(), 1);
    assert_eq!(s.outbound[0][0], 20);
    assert_eq!(kex.h.i_c, s.outbound[0]);

    let i_s = server_kexinit();
    s.feed_payload(vec![2]); // an IGNORE first: it is skipped
    s.feed_payload(i_s.clone());
    kex.receive_algorithm(&mut s, &cfg).unwrap();
    assert_eq!(kex.phase, KexPhase::GotKexInit);
    let neg = kex.negotiated.as_ref().unwrap();
    assert_eq!(neg.kex, b"ecdh-sha2-nistp256".to_vec());
    assert_eq!(neg.host_key, b"ssh-ed25519".to_vec());
    assert_eq!(neg.encryption_c2s, b"aes128-ctr".to_vec());
    assert_eq!(neg.compression_s2c, b"none".to_vec());
    assert_eq!(kex.h.i_s, i_s);

    let q_c = vec![0xC1, 0xC2, 0xC3];
    kex.send_qc(&mut s, &q_c).unwrap();
    assert_eq!(kex.phase, KexPhase::SentInit);
    assert_eq!(s.outbound[1], vec![30, 0, 0, 0, 3, 0xC1, 0xC2, 0xC3]);

    // the server's reply: host key, ephemeral value, signature blob
    let mut blob = Data::new();
    blob.put_string(b"ssh-ed25519");
    blob.put_string(b"SIGBYTES");
    let mut rd = Data::new();
    rd.put_u8(31);
    rd.put_string(b"hostkeyblob");
    rd.put_string(b"serverpub");
    rd.put_string(&blob.as_vec());
    let k = vec![0x11, 0x22];
    let (hash_input, signature) = kex
        .generate_session_id_and_get_signature(rd.as_vec(), &k)
        .unwrap();
    assert_eq!(signature, b"SIGBYTES".to_vec());

    // the hash input is the canonical transcript encoding
    let mut expect = Data::new();
    expect.put_string(b"SSH-2.0-testclient_0.1");
    expect.put_string(b"SSH-2.0-OpenSSH_9.0");
    expect.put_string(&kex.h.i_c);
    expect.put_string(&i_s);
    expect.put_string(b"hostkeyblob");
    expect.put_string(&q_c);
    expect.put_string(b"serverpub");
    expect.put_mpint(&k);
    assert_eq!(hash_input, expect.as_vec());

    let digest = vec![0xAB; 32];
    kex.set_exchange_digest(&digest);
    assert_eq!(kex.phase, KexPhase::GotReply);
    assert_eq!(kex.session_id, digest);

    // a flipped signature bit fails verification: the session ends
    // with SignatureMismatch and no NEWKEYS is ever sent
    let mode = CipherMode { block_size: 16, mac_len: 32 };
    let before = s.outbound.len();
    let r = kex.verify_signature_and_new_keys(&mut s, false, mode);
    assert_eq!(r, Err(SshError::SignatureMismatch));
    assert_eq!(s.outbound.len(), before);
    assert!(!s.outbound.iter().any(|m| m.as_slice() == [21]));

    // with a valid signature the switchover completes
    s.feed_payload(vec![21]);
    kex.verify_signature_and_new_keys(&mut s, true, mode).unwrap();
    assert_eq!(kex.phase, KexPhase::Established);
    assert_eq!(s.outbound.last().unwrap(), &vec![21]);
    assert_eq!(s.in_mode, Some(mode));
    // NEWKEYS itself goes out under the old mode: the outbound keys
    // switch only once the frames are drained
    assert_eq!(s.out_mode, None);
    let mut last_frame = Vec::new();
    while let Some(f) = s.pop_frame() {
        last_frame = f;
    }
    assert_eq!(last_frame.len(), 16); // block size 8, not 16
    s.install_out_keys(mode);
    assert_eq!(s.out_mode, Some(mode));

    // a server KEXINIT mid-session starts a rekey with the session
    // id frozen
    let frozen = kex.session_id.clone();
    kex.rekey();
    assert_eq!(kex.phase, KexPhase::Start);
    assert_eq!(kex.session_id, frozen);
    assert_eq!(kex.h.v_c, b"SSH-2.0-testclient_0.1".to_vec());
    kex.phase = KexPhase::SentInit;
    kex.set_exchange_digest(&vec![0x55; 32]);
    assert_eq!(kex.session_id, frozen);
    assert_eq!(kex.exchange_hash, vec![0x55; 32]);
}

#[test]
fn later_phase_code_before_kexinit_is_violation() {
    let cfg = test_config();
    let mut kex = Kex::new();
    let mut s = Session::new();
    let v_c = make_version_string(&cfg.client_ident);
    kex.set_versions(&v_c, &b"SSH-2.0-x\r\n".to_vec()).unwrap();
    kex.send_algorithm(&mut s, &cfg, &vec![0u8; 16]).unwrap();
    s.feed_payload(vec![31, 0, 0]);
    assert_eq!(
        kex.receive_algorithm(&mut s, &cfg),
        Err(SshError::ProtocolViolation(20, 31))
    );
}

#[test]
fn kdf_inputs_are_byte_exact() {
    let k = vec![0x80u8, 1];
    let h = vec![9u8, 8];
    let sid = vec![7u8];
    let first = ssh_core::kdf::build_kdf_initial_input(&k, &h, 65, &sid);
    // mpint(K) carries a leading zero for the set high bit
    assert_eq!(first, vec![0, 0, 0, 3, 0, 0x80, 1, 9, 8, 65, 7]);
    let more = ssh_core::kdf::build_kdf_extend_input(&k, &h, &vec![1, 2]);
    assert_eq!(more, vec![0, 0, 0, 3, 0, 0x80, 1, 9, 8, 1, 2]);
    let cut = ssh_core::kdf::key_prefix(&vec![1, 2, 3, 4], 3);
    assert_eq!(cut, vec![1, 2, 3]);
}

#[test]
fn mac_comparison_gates_bad_macs() {
    let good = vec![1u8, 2, 3];
    assert_eq!(ssh_core::packet::check_mac(&good, &vec![1, 2, 3]), Ok(()));
    assert_eq!(
        ssh_core::packet::check_mac(&good, &vec![1, 2, 4]),
        Err(SshError::BadMac)
    );
    assert_eq!(
        ssh_core::packet::check_mac(&good, &vec![1, 2]),
        Err(SshError::BadMac)
    );
}

#[test]
fn kex_rekey_keeps_session_id() {
    let mut kex = Kex::new();
    kex.session_id = vec![1, 2, 3];
    kex.phase = KexPhase::SentInit;
    kex.set_exchange_digest(&vec![9, 9, 9]);
    assert_eq!(kex.session_id, vec![1, 2, 3]);
    assert_eq!(kex.exchange_hash, vec![9, 9, 9]);
}

#[test]
fn receive_algorithm_times_out_when_nothing_buffered() {
    let cfg = test_config();
    let mut kex = Kex::new();
    let mut s = Session::new();
    let v_c = make_version_string(&cfg.client_ident);
    kex.set_versions(&v_c, &b"SSH-2.0-x\r\n".to_vec()).unwrap();
    kex.send_algorithm(&mut s, &cfg, &vec![0u8; 16]).unwrap();
    assert_eq!(kex.receive_algorithm(&mut s, &cfg), Err(SshError::Timeout));
}

#[test]
fn ecdh_reply_with_wrong_code_is_violation() {
    let cfg = test_config();
    let mut kex = Kex::new();
    let mut s = Session::new();
    let v_c = make_version_string(&cfg.client_ident);
    kex.set_versions(&v_c, &b"SSH-2.0-x\r\n".to_vec()).unwrap();
    kex.send_algorithm(&mut s, &cfg, &vec![0u8; 16]).unwrap();
    s.feed_payload(server_kexinit());
    kex.receive_algorithm(&mut s, &cfg).unwrap();
    kex.send_qc(&mut s, &vec![1]).unwrap();
    let r = kex.generate_session_id_and_get_signature(vec![94, 0], &vec![1]);
    assert_eq!(r, Err(SshError::ProtocolViolation(31, 94)));
}
