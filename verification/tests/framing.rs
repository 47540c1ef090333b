use ssh_core::error::SshError;
use ssh_core::packet::{decode_packet, encode_packet, mac_input, padding_len};
use ssh_core::session::{CipherMode, Session};

#[test]
fn padding_block_sixteen_ten_byte_payload() {
    // (4 + 1 + 10 + p) % 16 == 0 with p >= 4 gives p = 17,
    // so the packet length field is 1 + 10 + 17 = 28
    assert_eq!(padding_len(10, 16), 17);
    let payload: Vec<u8> = (0..10).collect();
    let packet = encode_packet(&payload, 16);
    assert_eq!(&packet[0..4], &[0, 0, 0, 28]);
    assert_eq!(packet[4], 17);
    assert_eq!(packet.len(), 32);
    assert_eq!(packet.len() % 16, 0);
}

#[test]
fn round_trip_block_eight() {
    let payload = b"some payload bytes".to_vec();
    let packet = encode_packet(&payload, 8);
    assert_eq!(decode_packet(&packet), Ok(payload));
}

#[test]
fn round_trip_block_sixteen() {
    let payload = vec![7u8; 300];
    let packet = encode_packet(&payload, 16);
    assert_eq!(decode_packet(&packet), Ok(payload));
}

#[test]
fn round_trip_empty_payload() {
    let payload: Vec<u8> = Vec::new();
    let packet = encode_packet(&payload, 8);
    assert_eq!(decode_packet(&packet), Ok(payload));
}

#[test]
fn decode_truncated() {
    assert_eq!(decode_packet(&vec![0, 0, 0]), Err(SshError::Truncated));
    assert_eq!(decode_packet(&vec![0, 0, 0, 12, 4, 1]), Err(SshError::Truncated));
}

#[test]
fn decode_oversized() {
    // a length field of 40000 exceeds the 35000-byte cap
    let packet = vec![0, 0, 0x9C, 0x40, 4, 0];
    assert_eq!(decode_packet(&packet), Err(SshError::OversizedPacket));
}

#[test]
fn decode_bad_padding() {
    // padding length 3 is under the minimum of 4
    let mut packet = vec![0, 0, 0, 8, 3];
    packet.extend_from_slice(&[0; 7]);
    assert_eq!(decode_packet(&packet), Err(SshError::BadPadding));
}

#[test]
fn mac_input_prefixes_sequence_number() {
    let packet = vec![1, 2, 3];
    assert_eq!(mac_input(259, &packet), vec![0, 0, 1, 3, 1, 2, 3]);
}

#[test]
fn sequence_numbers_step_by_one_across_new_keys() {
    let mut s = Session::new();
    s.write(vec![20, 1]).unwrap();
    s.write(vec![21]).unwrap();
    assert_eq!(s.seq_out, 0);
    s.pop_frame().unwrap();
    assert_eq!(s.seq_out, 1);
    s.pop_frame().unwrap();
    assert_eq!(s.seq_out, 2);
    // installing keys must not reset the counters
    s.install_out_keys(CipherMode { block_size: 16, mac_len: 32 });
    s.install_in_keys(CipherMode { block_size: 16, mac_len: 32 });
    assert_eq!(s.seq_out, 2);
    assert_eq!(s.seq_in, 0);
    s.write(vec![94]).unwrap();
    let frame = s.pop_frame().unwrap();
    assert_eq!(s.seq_out, 3);
    // the new outbound block size shapes the frame
    assert_eq!(frame.len() % 16, 0);
}

#[test]
fn feed_frame_steps_inbound_sequence() {
    let mut s = Session::new();
    let frame = encode_packet(&vec![5, 6, 7], 8);
    assert_eq!(s.feed_frame(&frame), Ok(()));
    assert_eq!(s.seq_in, 1);
    assert_eq!(s.read(), Ok(vec![5, 6, 7]));
    let bad = vec![0, 0, 0];
    assert_eq!(s.feed_frame(&bad), Err(SshError::Truncated));
    assert_eq!(s.seq_in, 1);
}

#[test]
fn write_refuses_oversized_payload() {
    let mut s = Session::new();
    let big = vec![0u8; 32769];
    assert_eq!(s.write(big), Err(SshError::OversizedPacket));
    assert_eq!(s.outbound.len(), 0);
    assert_eq!(s.write(vec![0u8; 32768]), Ok(()));
}

#[test]
fn read_when_empty_is_timeout() {
    let mut s = Session::new();
    assert_eq!(s.read(), Err(SshError::Timeout));
}

#[test]
fn pop_frame_frames_like_encode_packet() {
    let mut s = Session::new();
    let msg = vec![94, 1, 2, 3];
    s.write(msg.clone()).unwrap();
    let frame = s.pop_frame().unwrap();
    assert_eq!(frame, encode_packet(&msg, 8));
    assert_eq!(s.pop_frame(), None);
}

#[test]
fn sequence_number_wraps_at_u32_max() {
    let mut s = Session::new();
    s.seq_out = u32::MAX;
    s.write(vec![2]).unwrap();
    s.pop_frame().unwrap();
    assert_eq!(s.seq_out, 0);
}

#[test]
fn inbound_buffering_is_visible() {
    let mut s = Session::new();
    assert!(!s.has_inbound());
    s.feed_payload(vec![2]);
    assert!(s.has_inbound());
    s.read().unwrap();
    assert!(!s.has_inbound());
}
