//! The SSH binary packet: `uint32 packet_length`, `byte padding_length`,
//! payload, padding. The cipher and MAC transforms are applied outside
//! this module; it owns the cleartext framing math alone.

use vstd::prelude::*;

use crate::codec::{u32_be_bytes, u32_from_be, lemma_u32_be_round_trip, lemma_u32_from_be_round_trip};
use crate::error::SshError;

verus! {

/// The largest payload one packet may carry.
pub const MAX_PAYLOAD: usize = 32768;

/// The largest value the packet length field may take.
pub const MAX_PACKET_LEN: u32 = 35000;

/// The padding length for a payload of `n` bytes at block size `b`:
/// the least `p >= 4` with `(4 + 1 + n + p) % b == 0`.
pub open spec fn spec_padding_len(n: int, b: int) -> int
    recommends
        b >= 8,
{
    let r = (b - ((5 + n) % b)) % b;
    if r < 4 {
        r + b
    } else {
        r
    }
}

/// `p` zero bytes, standing where the random padding goes on the wire.
pub open spec fn zero_bytes(p: int) -> Seq<u8> {
    Seq::new(p as nat, |i: int| 0u8)
}

/// The framed cleartext packet for a payload at block size `b`.
pub open spec fn spec_packet(payload: Seq<u8>, b: int) -> Seq<u8> {
    let p = spec_padding_len(payload.len() as int, b);
    u32_be_bytes((1 + payload.len() + p) as u32) + seq![p as u8] + payload + zero_bytes(p)
}

/// What unframing a cleartext packet yields: the payload, or the first
/// error among `Truncated`, `OversizedPacket` and `BadPadding`.
pub open spec fn spec_unframe(s: Seq<u8>) -> Result<Seq<u8>, SshError> {
    if s.len() < 4 {
        Err(SshError::Truncated)
    } else {
        let l = u32_from_be(s[0], s[1], s[2], s[3]) as int;
        if l > MAX_PACKET_LEN {
            Err(SshError::OversizedPacket)
        } else if s.len() < 4 + l {
            Err(SshError::Truncated)
        } else if s.len() > 4 + l || l < 1 {
            Err(SshError::BadPadding)
        } else {
            let p = s[4] as int;
            if p < 4 || 1 + p > l {
                Err(SshError::BadPadding)
            } else {
                Ok(s.subrange(5, 4 + l - p))
            }
        }
    }
}

/// The padding length is at least 4, below `b + 4`, and completes the
/// packet to a whole number of blocks.
pub proof fn lemma_padding_len_bounds(n: int, b: int)
    requires
        n >= 0,
        b >= 8,
    ensures
        4 <= spec_padding_len(n, b) < b + 4,
        (5 + n + spec_padding_len(n, b)) % b == 0,
{
    let m = (5 + n) % b;
    vstd::arithmetic::div_mod::lemma_mod_bound(5 + n, b);
    let r = (b - m) % b;
    vstd::arithmetic::div_mod::lemma_mod_bound(b - m, b);
    assert((5 + n + r) % b == 0) by {
        vstd::arithmetic::div_mod::lemma_mod_bound(5 + n, b);
        if m == 0 {
            vstd::arithmetic::div_mod::lemma_mod_self_0(b);
            assert(r == 0);
            vstd::arithmetic::div_mod::lemma_add_mod_noop(5 + n, 0, b);
        } else {
            vstd::arithmetic::div_mod::lemma_small_mod((b - m) as nat, b as nat);
            assert(r == b - m);
            vstd::arithmetic::div_mod::lemma_add_mod_noop(5 + n, b - m, b);
            assert((m + (b - m)) % b == b % b);
            vstd::arithmetic::div_mod::lemma_mod_self_0(b);
        }
    };
    if r < 4 {
        vstd::arithmetic::div_mod::lemma_mod_multiples_vanish(1, 5 + n + r, b);
        assert((5 + n + (r + b)) % b == 0);
    }
}

/// The exchange-visible padding rule, computed.
pub fn padding_len(n: usize, b: usize) -> (p: usize)
    requires
        n <= MAX_PAYLOAD,
        8 <= b <= 128,
    ensures
        p == spec_padding_len(n as int, b as int),
        4 <= p < b + 4,
{
    proof {
        lemma_padding_len_bounds(n as int, b as int);
    }
    let r: usize = (b - ((5 + n) % b)) % b;
    if r < 4 {
        r + b
    } else {
        r
    }
}

/// Frames a payload as a cleartext SSH packet at block size `b`.
/// The padding bytes are zero here; a caller that wants random padding
/// rewrites them before encrypting, which no reader inspects.
pub fn encode_packet(payload: &Vec<u8>, b: usize) -> (r: Vec<u8>)
    requires
        payload@.len() <= MAX_PAYLOAD,
        8 <= b <= 128,
    ensures
        r@ == spec_packet(payload@, b as int),
{
    let p = padding_len(payload.len(), b);
    let total: u32 = 1 + payload.len() as u32 + p as u32;
    let mut out = crate::codec::Data::new();
    out.put_u32(total);
    out.put_u8(p as u8);
    out.put_bytes(payload.as_slice());
    let mut i: usize = 0;
    let ghost head = u32_be_bytes(total) + seq![p as u8] + payload@;
    while i < p
        invariant
            i <= p,
            out.buf@ == head + zero_bytes(i as int),
        decreases p - i,
    {
        out.put_u8(0);
        i = i + 1;
        proof {
            assert(out.buf@ =~= head + zero_bytes(i as int));
        }
    }
    proof {
        assert(out.buf@ =~= spec_packet(payload@, b as int));
    }
    out.as_vec()
}

/// Unframes one cleartext packet, already stripped of any MAC and
/// decrypted: checks the length and padding fields and returns the
/// payload.
pub fn decode_packet(packet: &Vec<u8>) -> (r: Result<Vec<u8>, SshError>)
    ensures
        match r {
            Ok(v) => spec_unframe(packet@) == Ok::<Seq<u8>, SshError>(v@),
            Err(e) => spec_unframe(packet@) == Err::<Seq<u8>, SshError>(e),
        },
{
    if packet.len() < 4 {
        return Err(SshError::Truncated);
    }
    let l: u32 = ((packet[0] as u32) << 24) | ((packet[1] as u32) << 16)
        | ((packet[2] as u32) << 8) | (packet[3] as u32);
    if l > MAX_PACKET_LEN {
        return Err(SshError::OversizedPacket);
    }
    let l = l as usize;
    if packet.len() < 4 + l {
        return Err(SshError::Truncated);
    }
    if packet.len() > 4 + l || l < 1 {
        return Err(SshError::BadPadding);
    }
    let p = packet[4] as usize;
    if p < 4 || 1 + p > l {
        return Err(SshError::BadPadding);
    }
    let mut out: Vec<u8> = Vec::new();
    let end = 4 + l - p;
    let mut i: usize = 5;
    while i < end
        invariant
            5 <= i <= end,
            end <= packet@.len(),
            out@ == packet@.subrange(5, i as int),
        decreases end - i,
    {
        out.push(packet[i]);
        i = i + 1;
        proof {
            assert(out@ =~= packet@.subrange(5, i as int));
        }
    }
    Ok(out)
}

/// The canonical MAC input for a cleartext packet: the sequence number
/// big-endian, then the packet bytes. The MAC itself is computed by the
/// negotiated algorithm outside this library.
pub fn mac_input(sequence_number: u32, packet: &Vec<u8>) -> (r: Vec<u8>)
    ensures
        r@ == u32_be_bytes(sequence_number) + packet@,
{
    let mut out = crate::codec::Data::new();
    out.put_u32(sequence_number);
    out.put_bytes(packet.as_slice());
    out.as_vec()
}

/// Compares a MAC the caller computed with the one received off the
/// wire; a mismatch is exactly `BadMac`.
pub fn check_mac(computed: &Vec<u8>, received: &Vec<u8>) -> (r: Result<(), SshError>)
    ensures
        r is Ok <==> computed@ == received@,
        r is Err ==> r == Err::<(), SshError>(SshError::BadMac),
{
    if computed.len() != received.len() {
        return Err(SshError::BadMac);
    }
    let mut i: usize = 0;
    while i < computed.len()
        invariant
            i <= computed@.len(),
            computed@.len() == received@.len(),
            forall|j: int| 0 <= j < i ==> computed@[j] == received@[j],
        decreases computed@.len() - i,
    {
        if computed[i] != received[i] {
            return Err(SshError::BadMac);
        }
        i = i + 1;
    }
    proof {
        assert(computed@ =~= received@);
    }
    Ok(())
}

/// Framing round-trip: at every block size, unframing a framed payload
/// gives the payload back.
pub proof fn lemma_packet_round_trip(payload: Seq<u8>, b: int)
    requires
        payload.len() <= MAX_PAYLOAD,
        8 <= b <= 128,
    ensures
        spec_unframe(spec_packet(payload, b)) == Ok::<Seq<u8>, SshError>(payload),
{
    let n = payload.len() as int;
    lemma_padding_len_bounds(n, b);
    let p = spec_padding_len(n, b);
    let l = 1 + n + p;
    let s = spec_packet(payload, b);
    assert(s.len() == 4 + l);
    lemma_u32_be_round_trip(l as u32);
    assert(s[0] == u32_be_bytes(l as u32)[0]);
    assert(s[1] == u32_be_bytes(l as u32)[1]);
    assert(s[2] == u32_be_bytes(l as u32)[2]);
    assert(s[3] == u32_be_bytes(l as u32)[3]);
    assert(u32_from_be(s[0], s[1], s[2], s[3]) == l as u32);
    assert(s[4] == p as u8);
    assert(s.subrange(5, 4 + l - p) =~= payload);
}

} // verus!
