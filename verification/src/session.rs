//! The framer state one connection owns: the outbound and inbound
//! message queues, the per-direction sequence numbers, and the active
//! cipher modes.
//!
//! The session is sans-I/O. `write` queues a message; `pop_frame`
//! turns the oldest queued message into cleartext packet bytes for the
//! caller to encrypt and send; `feed_frame` takes one decrypted packet
//! off the wire and queues its payload; `read` hands the oldest
//! received payload to the protocol drivers.

use vstd::prelude::*;

use crate::error::SshError;
use crate::packet::{spec_packet, spec_unframe, MAX_PAYLOAD, encode_packet, decode_packet};

verus! {

/// The framing parameters of one negotiated suite: the cipher block
/// size and the MAC output length.
#[derive(Clone, Copy, Debug, PartialEq, Eq, Structural)]
pub struct CipherMode {
    pub block_size: usize,
    pub mac_len: usize,
}

impl CipherMode {
    pub open spec fn wf(&self) -> bool {
        8 <= self.block_size <= 128
    }
}

/// The block size framing uses in one direction: 8 in the clear,
/// the cipher's block size (at least 8) once keys are installed.
pub open spec fn mode_block(m: Option<CipherMode>) -> int {
    match m {
        Some(c) => c.block_size as int,
        None => 8,
    }
}

/// A sequence number's successor, wrapping at 2^32.
pub open spec fn seq_succ(n: u32) -> u32 {
    if n == u32::MAX {
        0
    } else {
        (n + 1) as u32
    }
}

pub struct Session {
    /// Messages written but not yet framed, oldest first.
    pub outbound: Vec<Vec<u8>>,
    /// Payloads received but not yet read, oldest first.
    pub inbound: Vec<Vec<u8>>,
    /// Counts every packet framed for sending, never reset.
    pub seq_out: u32,
    /// Counts every packet accepted off the wire, never reset.
    pub seq_in: u32,
    /// The outbound suite; `None` while sending in the clear.
    pub out_mode: Option<CipherMode>,
    /// The inbound suite; `None` while receiving in the clear.
    pub in_mode: Option<CipherMode>,
}

impl Session {
    pub open spec fn wf(&self) -> bool {
        &&& (self.out_mode is Some ==> self.out_mode->0.wf())
        &&& (self.in_mode is Some ==> self.in_mode->0.wf())
    }

    pub fn new() -> (r: Session)
        ensures
            r.outbound@ == Seq::<Vec<u8>>::empty(),
            r.inbound@ == Seq::<Vec<u8>>::empty(),
            r.seq_out == 0,
            r.seq_in == 0,
            r.out_mode is None,
            r.in_mode is None,
            r.wf(),
    {
        Session {
            outbound: Vec::new(),
            inbound: Vec::new(),
            seq_out: 0,
            seq_in: 0,
            out_mode: None,
            in_mode: None,
        }
    }

    /// Queues one message for the peer. Refuses a payload above the
    /// packet limit and then changes nothing.
    pub fn write(&mut self, msg: Vec<u8>) -> (r: Result<(), SshError>)
        ensures
            msg@.len() <= MAX_PAYLOAD ==> r == Ok::<(), SshError>(())
                && final(self).outbound@ == old(self).outbound@.push(msg),
            msg@.len() > MAX_PAYLOAD ==> r == Err::<(), SshError>(SshError::OversizedPacket)
                && *final(self) == *old(self),
            final(self).inbound@ == old(self).inbound@,
            final(self).seq_out == old(self).seq_out,
            final(self).seq_in == old(self).seq_in,
            final(self).out_mode == old(self).out_mode,
            final(self).in_mode == old(self).in_mode,
    {
        if msg.len() > MAX_PAYLOAD {
            return Err(SshError::OversizedPacket);
        }
        self.outbound.push(msg);
        Ok(())
    }

    /// Frames the oldest queued message at the active outbound block
    /// size and steps the outbound sequence number by exactly one.
    /// Returns `None`, changing nothing, when nothing is queued.
    pub fn pop_frame(&mut self) -> (r: Option<Vec<u8>>)
        requires
            old(self).wf(),
            forall|i: int| 0 <= i < old(self).outbound@.len()
                ==> #[trigger] old(self).outbound@[i]@.len() <= MAX_PAYLOAD,
        ensures
            final(self).wf(),
            old(self).outbound@.len() == 0 ==> r is None && *final(self) == *old(self),
            old(self).outbound@.len() > 0 ==> (r matches Some(f)
                && f@ == spec_packet(old(self).outbound@[0]@, mode_block(old(self).out_mode))
                && final(self).outbound@ == old(self).outbound@.skip(1)
                && final(self).seq_out == seq_succ(old(self).seq_out)),
            final(self).inbound@ == old(self).inbound@,
            final(self).seq_in == old(self).seq_in,
            final(self).out_mode == old(self).out_mode,
            final(self).in_mode == old(self).in_mode,
    {
        if self.outbound.len() == 0 {
            return None;
        }
        let msg = self.outbound.remove(0);
        let b: usize = match &self.out_mode {
            Some(m) => m.block_size,
            None => 8,
        };
        let frame = encode_packet(&msg, b);
        self.seq_out = if self.seq_out == u32::MAX {
            0
        } else {
            self.seq_out + 1
        };
        proof {
            assert(self.outbound@ =~= old(self).outbound@.skip(1));
        }
        Some(frame)
    }

    /// Accepts one decrypted, MAC-checked packet off the wire: unframes
    /// it, queues the payload, and steps the inbound sequence number by
    /// exactly one. On an error nothing changes.
    pub fn feed_frame(&mut self, frame: &Vec<u8>) -> (r: Result<(), SshError>)
        ensures
            match r {
                Ok(()) => spec_unframe(frame@) is Ok
                    && final(self).inbound@.len() == old(self).inbound@.len() + 1
                    && final(self).inbound@.take(old(self).inbound@.len() as int)
                        == old(self).inbound@
                    && final(self).inbound@.last()@ == spec_unframe(frame@)->Ok_0
                    && final(self).seq_in == seq_succ(old(self).seq_in),
                Err(e) => spec_unframe(frame@) == Err::<Seq<u8>, SshError>(e)
                    && *final(self) == *old(self),
            },
            final(self).outbound@ == old(self).outbound@,
            final(self).seq_out == old(self).seq_out,
            final(self).out_mode == old(self).out_mode,
            final(self).in_mode == old(self).in_mode,
    {
        let payload = match decode_packet(frame) {
            Ok(p) => p,
            Err(e) => {
                return Err(e);
            },
        };
        self.inbound.push(payload);
        self.seq_in = if self.seq_in == u32::MAX {
            0
        } else {
            self.seq_in + 1
        };
        Ok(())
    }

    /// Queues a received payload directly, for a caller that unframes
    /// elsewhere.
    pub fn feed_payload(&mut self, payload: Vec<u8>)
        ensures
            final(self).inbound@ == old(self).inbound@.push(payload),
            final(self).outbound@ == old(self).outbound@,
            final(self).seq_out == old(self).seq_out,
            final(self).seq_in == old(self).seq_in,
            final(self).out_mode == old(self).out_mode,
            final(self).in_mode == old(self).in_mode,
    {
        self.inbound.push(payload);
    }

    /// Hands out the oldest received payload; `Timeout` when none is
    /// buffered.
    pub fn read(&mut self) -> (r: Result<Vec<u8>, SshError>)
        ensures
            old(self).inbound@.len() == 0 ==> r == Err::<Vec<u8>, SshError>(SshError::Timeout)
                && *final(self) == *old(self),
            old(self).inbound@.len() > 0 ==> (r matches Ok(v)
                && v == old(self).inbound@[0]
                && final(self).inbound@ == old(self).inbound@.skip(1)),
            final(self).outbound@ == old(self).outbound@,
            final(self).seq_out == old(self).seq_out,
            final(self).seq_in == old(self).seq_in,
            final(self).out_mode == old(self).out_mode,
            final(self).in_mode == old(self).in_mode,
    {
        if self.inbound.len() == 0 {
            return Err(SshError::Timeout);
        }
        let v = self.inbound.remove(0);
        proof {
            assert(self.inbound@ =~= old(self).inbound@.skip(1));
        }
        Ok(v)
    }

    pub fn has_inbound(&self) -> (r: bool)
        ensures
            r == (self.inbound@.len() > 0),
    {
        self.inbound.len() > 0
    }

    /// Installs the outbound suite at the NEWKEYS boundary. The queue
    /// must be drained first: messages written before the switchover,
    /// NEWKEYS itself included, are thereby framed under the old mode,
    /// as the protocol demands of everything up to NEWKEYS. The
    /// sequence numbers do not reset.
    pub fn install_out_keys(&mut self, mode: CipherMode)
        requires
            mode.wf(),
            old(self).outbound@.len() == 0,
        ensures
            final(self).out_mode == Some(mode),
            final(self).in_mode == old(self).in_mode,
            final(self).outbound@ == old(self).outbound@,
            final(self).inbound@ == old(self).inbound@,
            final(self).seq_out == old(self).seq_out,
            final(self).seq_in == old(self).seq_in,
            old(self).wf() ==> final(self).wf(),
    {
        self.out_mode = Some(mode);
    }

    /// Installs the inbound suite at the NEWKEYS boundary. The
    /// sequence numbers do not reset.
    pub fn install_in_keys(&mut self, mode: CipherMode)
        requires
            mode.wf(),
        ensures
            final(self).in_mode == Some(mode),
            final(self).out_mode == old(self).out_mode,
            final(self).outbound@ == old(self).outbound@,
            final(self).inbound@ == old(self).inbound@,
            final(self).seq_out == old(self).seq_out,
            final(self).seq_in == old(self).seq_in,
            old(self).wf() ==> final(self).wf(),
    {
        self.in_mode = Some(mode);
    }
}

} // verus!
