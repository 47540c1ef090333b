use ssh_core::channel::Channel;
use ssh_core::codec::Data;
use ssh_core::error::SshError;
use ssh_core::session::Session;
use ssh_core::shell::{build_pty_req, build_shell_req};

fn close_payload(recipient: u32) -> Vec<u8> {
    let mut d = Data::new();
    d.put_u8(97);
    d.put_u32(recipient);
    d.as_vec()
}

fn data_payload(recipient: u32, data: &[u8]) -> Vec<u8> {
    let mut d = Data::new();
    d.put_u8(94);
    d.put_u32(recipient);
    d.put_string(data);
    d.as_vec()
}

#[test]
fn open_confirmation_builds_channel() {
    let mut s = Session::new();
    let mut conf = Data::new();
    conf.put_u8(91);
    conf.put_u32(0); // recipient: our id
    conf.put_u32(7); // the server's id
    conf.put_u32(500); // the remote window
    conf.put_u32(1200); // the remote maximum packet
    s.feed_payload(conf.as_vec());
    let ch = Channel::open(&mut s, 0, 8, 32768).unwrap();
    assert_eq!(ch.client_channel_no, 0);
    assert_eq!(ch.server_channel_no, 7);
    assert_eq!(ch.local_window, 8);
    assert_eq!(ch.remote_window, 500);
    assert_eq!(ch.remote_max_packet, 1200);
    // the CHANNEL_OPEN that went out names the session type
    let open_msg = &s.outbound[0];
    assert_eq!(open_msg[0], 90);
    assert_eq!(&open_msg[1..12], b"\x00\x00\x00\x07session");
}

#[test]
fn open_failure_reports_reason_code() {
    let mut s = Session::new();
    let mut fail = Data::new();
    fail.put_u8(92);
    fail.put_u32(0);
    fail.put_u32(4); // the reason code
    s.feed_payload(fail.as_vec());
    let r = Channel::open(&mut s, 0, 8, 32768);
    assert!(matches!(r, Err(SshError::ChannelOpenRefused(4))));
}

#[test]
fn window_consume_and_adjust() {
    // with L_W = 8, five delivered bytes leave the window at 3,
    // under half: one adjust of 5 restores it to exactly 8
    let mut s = Session::new();
    let mut ch = Channel::create(0, 5, 8, 32768, 100, 1000);
    ch.consume_and_adjust(&mut s, 5).unwrap();
    assert_eq!(ch.local_window, 8);
    assert_eq!(s.outbound.len(), 1);
    assert_eq!(s.outbound[0], vec![93, 0, 0, 0, 5, 0, 0, 0, 5]);
}

#[test]
fn window_consume_above_half_sends_nothing() {
    let mut s = Session::new();
    let mut ch = Channel::create(0, 5, 8, 32768, 100, 1000);
    ch.consume_and_adjust(&mut s, 2).unwrap();
    assert_eq!(ch.local_window, 6);
    assert_eq!(s.outbound.len(), 0);
}

#[test]
fn window_overrun_is_an_error() {
    let mut s = Session::new();
    let mut ch = Channel::create(0, 5, 8, 32768, 100, 1000);
    assert_eq!(ch.consume_and_adjust(&mut s, 9), Err(SshError::WindowOverflow));
    assert_eq!(ch.local_window, 8);
}

#[test]
fn close_emits_one_channel_close_and_drains() {
    let mut s = Session::new();
    let mut ch = Channel::create(3, 5, 8, 32768, 100, 1000);
    s.feed_payload(vec![2]); // IGNORE while draining
    s.feed_payload(close_payload(3));
    ch.close(&mut s).unwrap();
    assert!(ch.local_close);
    assert!(ch.remote_close);
    let closes: Vec<_> = s.outbound.iter().filter(|m| m.as_slice() == [97, 0, 0, 0, 5]).collect();
    assert_eq!(closes.len(), 1);
}

#[test]
fn close_twice_yields_same_result_and_one_close() {
    let mut s = Session::new();
    let mut ch = Channel::create(3, 5, 8, 32768, 100, 1000);
    s.feed_payload(close_payload(3));
    assert_eq!(ch.close(&mut s), Ok(()));
    let queued = s.outbound.clone();
    assert_eq!(ch.close(&mut s), Ok(()));
    assert_eq!(s.outbound, queued);
    let closes: Vec<_> = s.outbound.iter().filter(|m| m[0] == 97).collect();
    assert_eq!(closes.len(), 1);
}

#[test]
fn global_request_gets_request_failure() {
    let mut s = Session::new();
    let mut ch = Channel::create(0, 5, 8, 32768, 100, 1000);
    ch.other(&mut s, 80, Data::from_vec(Vec::new())).unwrap();
    assert_eq!(s.outbound, vec![vec![82]]);
}

#[test]
fn window_adjust_saturates() {
    let mut s = Session::new();
    let mut ch = Channel::create(0, 5, 8, 32768, 100, 1000);
    ch.remote_window = u32::MAX - 10;
    let mut adj = Data::new();
    adj.put_u32(0);
    adj.put_u32(100);
    ch.other(&mut s, 93, Data::from_vec(adj.as_vec())).unwrap();
    assert_eq!(ch.remote_window, u32::MAX);
}

#[test]
fn server_kexinit_is_kept_for_rekey() {
    let mut s = Session::new();
    let mut ch = Channel::create(0, 5, 8, 32768, 100, 1000);
    let kexinit = vec![20u8, 1, 2, 3];
    let mut d = Data::from_vec(kexinit.clone());
    let _ = d.get_u8();
    ch.other(&mut s, 20, d).unwrap();
    assert_eq!(ch.pending_rekey, Some(kexinit));
    assert_eq!(s.outbound.len(), 0);
}

#[test]
fn channel_failure_is_fatal() {
    let mut s = Session::new();
    let mut ch = Channel::create(0, 5, 8, 32768, 100, 1000);
    assert_eq!(
        ch.other(&mut s, 100, Data::from_vec(Vec::new())),
        Err(SshError::ChannelFailure)
    );
}

#[test]
fn open_shell_sends_pty_then_shell_requests() {
    let mut s = Session::new();
    let ch = Channel::create(0, 5, 8, 32768, 100, 1000);
    s.feed_payload(vec![99, 0, 0, 0, 0]);
    s.feed_payload(vec![99, 0, 0, 0, 0]);
    let sh = ch.open_shell(&mut s, 80, 24).unwrap();
    assert_eq!(s.outbound.len(), 2);
    assert_eq!(s.outbound[0], build_pty_req(5, 80, 24));
    assert_eq!(s.outbound[1], build_shell_req(5));
    assert_eq!(sh.channel.server_channel_no, 5);
}

#[test]
fn open_shell_without_success_times_out() {
    let mut s = Session::new();
    let ch = Channel::create(0, 5, 8, 32768, 100, 1000);
    assert!(ch.open_shell(&mut s, 80, 24).is_err());
}

#[test]
fn shell_write_respects_remote_window() {
    let mut s = Session::new();
    let ch = Channel::create(0, 5, 8, 32768, 3, 1000);
    s.feed_payload(vec![99, 0, 0, 0, 0]);
    s.feed_payload(vec![99, 0, 0, 0, 0]);
    let mut sh = ch.open_shell(&mut s, 80, 24).unwrap();
    let queued = s.outbound.len();
    // only three window bytes remain: a five-byte write is cut
    let sent = sh.write(&mut s, &b"hello".to_vec());
    assert_eq!(sent, 3);
    assert_eq!(sh.channel.remote_window, 0);
    assert_eq!(s.outbound[queued], vec![94, 0, 0, 0, 5, 0, 0, 0, 3, b'h', b'e', b'l']);
    // an exhausted window sends nothing until an adjust arrives
    let sent2 = sh.write(&mut s, &b"lo".to_vec());
    assert_eq!(sent2, 0);
    let mut adj = Data::new();
    adj.put_u32(0);
    adj.put_u32(16);
    sh.channel.other(&mut s, 93, Data::from_vec(adj.as_vec())).unwrap();
    let sent3 = sh.write(&mut s, &b"lo".to_vec());
    assert_eq!(sent3, 2);
}

#[test]
fn shell_write_respects_remote_max_packet() {
    let mut s = Session::new();
    let ch = Channel::create(0, 5, 8, 32768, 1000, 4);
    s.feed_payload(vec![99, 0, 0, 0, 0]);
    s.feed_payload(vec![99, 0, 0, 0, 0]);
    let mut sh = ch.open_shell(&mut s, 80, 24).unwrap();
    let sent = sh.write(&mut s, &b"abcdefgh".to_vec());
    assert_eq!(sent, 4);
}

#[test]
fn shell_read_delivers_data_and_restores_window() {
    let mut s = Session::new();
    let ch = Channel::create(0, 5, 8, 32768, 100, 1000);
    s.feed_payload(vec![99, 0, 0, 0, 0]);
    s.feed_payload(vec![99, 0, 0, 0, 0]);
    let mut sh = ch.open_shell(&mut s, 80, 24).unwrap();
    let queued = s.outbound.len();
    s.feed_payload(vec![2]); // IGNORE in front of the data
    s.feed_payload(data_payload(0, b"hello"));
    let data = sh.read(&mut s).unwrap();
    assert_eq!(data, b"hello".to_vec());
    // 8 - 5 = 3 < 4: the adjust of 5 restored the window to 8
    assert_eq!(sh.channel.local_window, 8);
    assert_eq!(s.outbound[queued], vec![93, 0, 0, 0, 5, 0, 0, 0, 5]);
}

#[test]
fn shell_close_is_idempotent() {
    let mut s = Session::new();
    let ch = Channel::create(0, 5, 8, 32768, 100, 1000);
    s.feed_payload(vec![99, 0, 0, 0, 0]);
    s.feed_payload(vec![99, 0, 0, 0, 0]);
    let mut sh = ch.open_shell(&mut s, 80, 24).unwrap();
    s.feed_payload(close_payload(0));
    assert_eq!(sh.close(&mut s), Ok(()));
    let n = s.outbound.len();
    assert_eq!(sh.close(&mut s), Ok(()));
    assert_eq!(s.outbound.len(), n);
}
