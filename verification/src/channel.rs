//! The session-channel state machine: open, window flow control, the
//! general message handler, and the close handshake.

use vstd::prelude::*;

use crate::codec::{string_bytes, u32_be_bytes, u32_from_be, Data};
use crate::error::SshError;
use crate::messages::{
    SSH_MSG_CHANNEL_CLOSE, SSH_MSG_CHANNEL_OPEN, SSH_MSG_CHANNEL_OPEN_CONFIRMATION,
    SSH_MSG_CHANNEL_OPEN_FAILURE, SSH_MSG_CHANNEL_WINDOW_ADJUST, SSH_MSG_GLOBAL_REQUEST,
    SSH_MSG_REQUEST_FAILURE,
};
use crate::session::Session;

verus! {

/// `a + b` capped at the largest `u32`, as WINDOW_ADJUST accounting
/// demands.
pub open spec fn sat_add_u32(a: u32, b: u32) -> u32 {
    if a + b > u32::MAX {
        u32::MAX
    } else {
        (a + b) as u32
    }
}

/// The CHANNEL_CLOSE message for a recipient channel.
pub open spec fn channel_close_msg(recipient: u32) -> Seq<u8> {
    seq![SSH_MSG_CHANNEL_CLOSE] + u32_be_bytes(recipient)
}

/// The CHANNEL_WINDOW_ADJUST message granting `delta` more bytes.
pub open spec fn window_adjust_msg(recipient: u32, delta: u32) -> Seq<u8> {
    seq![SSH_MSG_CHANNEL_WINDOW_ADJUST] + u32_be_bytes(recipient) + u32_be_bytes(delta)
}

/// The REQUEST_FAILURE reply to an unsolicited global request.
pub open spec fn request_failure_msg() -> Seq<u8> {
    seq![SSH_MSG_REQUEST_FAILURE]
}

/// A buffered payload that is the peer's CHANNEL_CLOSE for the
/// channel this side numbered `id`.
pub open spec fn is_close_payload_for(p: Seq<u8>, id: u32) -> bool {
    p.len() >= 5 && p[0] == SSH_MSG_CHANNEL_CLOSE && u32_from_be(p[1], p[2], p[3], p[4]) == id
}

/// A buffered payload that is the CHANNEL_OPEN_CONFIRMATION for the
/// channel this side numbered `id`.
pub open spec fn is_open_confirmation_for(p: Seq<u8>, id: u32) -> bool {
    p.len() >= 17 && p[0] == SSH_MSG_CHANNEL_OPEN_CONFIRMATION && u32_from_be(
        p[1],
        p[2],
        p[3],
        p[4],
    ) == id
}

/// A buffered payload that is the CHANNEL_OPEN_FAILURE for the
/// channel this side numbered `id`.
pub open spec fn is_open_failure_for(p: Seq<u8>, id: u32) -> bool {
    p.len() >= 9 && p[0] == SSH_MSG_CHANNEL_OPEN_FAILURE && u32_from_be(p[1], p[2], p[3], p[4])
        == id
}

/// The bytes of the channel type `"session"`.
pub open spec fn session_type_bytes() -> Seq<u8> {
    seq![115u8, 101u8, 115u8, 115u8, 105u8, 111u8, 110u8]
}

/// The CHANNEL_OPEN message for one session channel.
pub open spec fn channel_open_msg(sender: u32, window: u32, max_packet: u32) -> Seq<u8> {
    seq![SSH_MSG_CHANNEL_OPEN] + string_bytes(session_type_bytes()) + u32_be_bytes(sender)
        + u32_be_bytes(window) + u32_be_bytes(max_packet)
}

/// How many queued messages are the CHANNEL_CLOSE for `recipient`.
pub open spec fn close_msg_count(msgs: Seq<Vec<u8>>, recipient: u32) -> int
    decreases msgs.len(),
{
    if msgs.len() == 0 {
        0
    } else {
        close_msg_count(msgs.drop_last(), recipient) + if msgs.last()@ == channel_close_msg(
            recipient,
        ) {
            1int
        } else {
            0int
        }
    }
}

/// Appending one message raises the close count by one exactly when
/// that message is the CHANNEL_CLOSE.
pub proof fn lemma_close_count_push(msgs: Seq<Vec<u8>>, m: Vec<u8>, recipient: u32)
    ensures
        close_msg_count(msgs.push(m), recipient) == close_msg_count(msgs, recipient) + if m@
            == channel_close_msg(recipient) {
            1int
        } else {
            0int
        },
{
    assert(msgs.push(m).drop_last() =~= msgs);
    assert(msgs.push(m).last() == m);
}

/// One open session channel.
pub struct Channel {
    /// The id this side assigned (the recipient id in inbound
    /// channel messages).
    pub client_channel_no: u32,
    /// The id the server assigned (the recipient id in outbound
    /// channel messages).
    pub server_channel_no: u32,
    /// How many more bytes the peer may send before an adjust.
    pub local_window: u32,
    /// The window size L_W every adjust restores.
    pub local_window_max: u32,
    /// How many more bytes this side may send.
    pub remote_window: u32,
    pub local_max_packet: u32,
    pub remote_max_packet: u32,
    pub local_close: bool,
    pub remote_close: bool,
    /// A server KEXINIT seen by the general handler, kept for the
    /// key-exchange driver to run the rekey with.
    pub pending_rekey: Option<Vec<u8>>,
    /// Every payload byte handed to the caller, counted.
    pub delivered: Ghost<nat>,
    /// Every window byte ever advertised to the peer: the initial
    /// window plus all adjusts.
    pub credited: Ghost<nat>,
}

impl Channel {
    /// The flow-control account balances: what was delivered plus
    /// what the peer may still send is exactly what was advertised.
    pub open spec fn wf(&self) -> bool {
        &&& self.local_window <= self.local_window_max
        &&& self.delivered@ + self.local_window == self.credited@
    }

    /// A channel as CHANNEL_OPEN_CONFIRMATION leaves it: nothing
    /// delivered yet, the initial window fully advertised.
    pub fn create(
        client_channel_no: u32,
        server_channel_no: u32,
        window: u32,
        max_packet: u32,
        remote_window: u32,
        remote_max_packet: u32,
    ) -> (r: Channel)
        ensures
            r == (Channel {
                client_channel_no,
                server_channel_no,
                local_window: window,
                local_window_max: window,
                remote_window,
                local_max_packet: max_packet,
                remote_max_packet,
                local_close: false,
                remote_close: false,
                pending_rekey: None,
                delivered: r.delivered,
                credited: r.credited,
            }),
            r.delivered@ == 0,
            r.credited@ == window,
            r.wf(),
    {
        Channel {
            client_channel_no,
            server_channel_no,
            local_window: window,
            local_window_max: window,
            remote_window,
            local_max_packet: max_packet,
            remote_max_packet,
            local_close: false,
            remote_close: false,
            pending_rekey: None,
            delivered: Ghost(0),
            credited: Ghost(window as nat),
        }
    }

    /// Sends CHANNEL_OPEN for one `"session"` channel and reads
    /// buffered messages until the server confirms or refuses it.
    pub fn open(session: &mut Session, client_channel_no: u32, window: u32, max_packet: u32) -> (r:
        Result<Channel, SshError>)
        ensures
            final(session).outbound@.len() == old(session).outbound@.len() + 1,
            final(session).outbound@.take(old(session).outbound@.len() as int)
                == old(session).outbound@,
            final(session).outbound@.last()@ == channel_open_msg(
                client_channel_no,
                window,
                max_packet,
            ),
            final(session).seq_out == old(session).seq_out,
            final(session).seq_in == old(session).seq_in,
            final(session).out_mode == old(session).out_mode,
            final(session).in_mode == old(session).in_mode,
            r is Ok ==> {
                let ch = r->Ok_0;
                &&& ch.wf()
                &&& ch.client_channel_no == client_channel_no
                &&& ch.local_window == window
                &&& ch.local_window_max == window
                &&& ch.local_max_packet == max_packet
                &&& !ch.local_close
                &&& !ch.remote_close
                &&& ch.delivered@ == 0
                &&& ch.credited@ == window
            },
            r is Ok ==> (exists|k: int| 0 <= k < old(session).inbound@.len()
                && is_open_confirmation_for(
                #[trigger] old(session).inbound@[k]@,
                client_channel_no,
            ) && r->Ok_0.server_channel_no == u32_from_be(
                old(session).inbound@[k]@[5],
                old(session).inbound@[k]@[6],
                old(session).inbound@[k]@[7],
                old(session).inbound@[k]@[8],
            ) && r->Ok_0.remote_window == u32_from_be(
                old(session).inbound@[k]@[9],
                old(session).inbound@[k]@[10],
                old(session).inbound@[k]@[11],
                old(session).inbound@[k]@[12],
            ) && r->Ok_0.remote_max_packet == u32_from_be(
                old(session).inbound@[k]@[13],
                old(session).inbound@[k]@[14],
                old(session).inbound@[k]@[15],
                old(session).inbound@[k]@[16],
            )),
            r == Err::<Channel, SshError>(SshError::Timeout) ==> forall|i: int|
                0 <= i < old(session).inbound@.len() ==> !is_open_confirmation_for(
                    #[trigger] old(session).inbound@[i]@,
                    client_channel_no,
                ) && !is_open_failure_for(old(session).inbound@[i]@, client_channel_no),
            r matches Err(SshError::ChannelOpenRefused(c)) ==> exists|k: int|
                0 <= k < old(session).inbound@.len() && is_open_failure_for(
                    #[trigger] old(session).inbound@[k]@,
                    client_channel_no,
                ) && c == u32_from_be(
                    old(session).inbound@[k]@[5],
                    old(session).inbound@[k]@[6],
                    old(session).inbound@[k]@[7],
                    old(session).inbound@[k]@[8],
                ),
            r is Err ==> (r->Err_0 == SshError::Timeout || r->Err_0 == SshError::Truncated
                || (r->Err_0 matches SshError::ChannelOpenRefused(_))),
    {
        let mut msg = Data::new();
        msg.put_u8(SSH_MSG_CHANNEL_OPEN);
        let mut ty: Vec<u8> = Vec::new();
        ty.push(115);
        ty.push(101);
        ty.push(115);
        ty.push(115);
        ty.push(105);
        ty.push(111);
        ty.push(110);
        proof {
            assert(ty@ =~= session_type_bytes());
        }
        msg.put_string(ty.as_slice());
        msg.put_u32(client_channel_no);
        msg.put_u32(window);
        msg.put_u32(max_packet);
        let w = session.write(msg.as_vec());
        proof {
            assert(w is Ok);
        }
        let ghost inbound0 = session.inbound@;
        let ghost mut consumed: int = 0;
        loop
            invariant
                session.outbound@.len() == old(session).outbound@.len() + 1,
                session.outbound@.take(old(session).outbound@.len() as int)
                    == old(session).outbound@,
                session.outbound@.last()@ == channel_open_msg(
                    client_channel_no,
                    window,
                    max_packet,
                ),
                session.seq_out == old(session).seq_out,
                session.seq_in == old(session).seq_in,
                session.out_mode == old(session).out_mode,
                session.in_mode == old(session).in_mode,
                inbound0 == old(session).inbound@,
                0 <= consumed <= inbound0.len(),
                session.inbound@ == inbound0.skip(consumed),
                forall|i: int| 0 <= i < consumed ==> !is_open_confirmation_for(
                    #[trigger] inbound0[i]@,
                    client_channel_no,
                ) && !is_open_failure_for(inbound0[i]@, client_channel_no),
            decreases session.inbound@.len(),
        {
            let payload = match session.read() {
                Ok(p) => p,
                Err(_) => {
                    return Err(SshError::Timeout);
                },
            };
            proof {
                assert(inbound0.skip(consumed)[0] == inbound0[consumed]);
                assert(inbound0.skip(consumed).skip(1) =~= inbound0.skip(consumed + 1));
            }
            let ghost pv = payload@;
            if payload.len() > 0 {
                let code = payload[0];
                if code == SSH_MSG_CHANNEL_OPEN_CONFIRMATION {
                    let mut d = Data::from_vec(payload);
                    match d.skip(1) {
                        Ok(()) => (),
                        Err(e) => {
                            return Err(e);
                        },
                    }
                    let recipient = match d.get_u32() {
                        Ok(v) => v,
                        Err(e) => {
                            return Err(e);
                        },
                    };
                    if recipient == client_channel_no {
                        let server_no = match d.get_u32() {
                            Ok(v) => v,
                            Err(e) => {
                                return Err(e);
                            },
                        };
                        let remote_window = match d.get_u32() {
                            Ok(v) => v,
                            Err(e) => {
                                return Err(e);
                            },
                        };
                        let remote_max_packet = match d.get_u32() {
                            Ok(v) => v,
                            Err(e) => {
                                return Err(e);
                            },
                        };
                        proof {
                            assert(pv.skip(1)[0] == pv[1]);
                            assert(is_open_confirmation_for(
                                inbound0[consumed]@,
                                client_channel_no,
                            ));
                        }
                        return Ok(
                            Channel::create(
                                client_channel_no,
                                server_no,
                                window,
                                max_packet,
                                remote_window,
                                remote_max_packet,
                            ),
                        );
                    }
                } else if code == SSH_MSG_CHANNEL_OPEN_FAILURE {
                    let mut d = Data::from_vec(payload);
                    match d.skip(1) {
                        Ok(()) => (),
                        Err(e) => {
                            return Err(e);
                        },
                    }
                    let recipient = match d.get_u32() {
                        Ok(v) => v,
                        Err(e) => {
                            return Err(e);
                        },
                    };
                    if recipient == client_channel_no {
                        let reason = match d.get_u32() {
                            Ok(v) => v,
                            Err(e) => {
                                return Err(e);
                            },
                        };
                        proof {
                            assert(is_open_failure_for(inbound0[consumed]@, client_channel_no));
                        }
                        return Err(SshError::ChannelOpenRefused(reason));
                    }
                }
                // anything else is not ours while opening
            }
            proof {
                consumed = consumed + 1;
            }
        }
    }

    /// The general handler for a message that is not channel data:
    /// it answers global requests with REQUEST_FAILURE, books window
    /// credit from WINDOW_ADJUST saturating at the largest `u32`,
    /// treats CHANNEL_FAILURE as fatal, keeps a server KEXINIT for
    /// the key-exchange driver to rekey with, and completes the
    /// close handshake when the peer's CHANNEL_CLOSE names this
    /// channel, answering it with this side's single CHANNEL_CLOSE
    /// if none went out yet. Every other code is ignored.
    pub fn other(&mut self, session: &mut Session, message_code: u8, result: Data) -> (r: Result<
        (),
        SshError,
    >)
        requires
            result.wf(),
        ensures
            final(self).client_channel_no == old(self).client_channel_no,
            final(self).server_channel_no == old(self).server_channel_no,
            final(self).local_window == old(self).local_window,
            final(self).local_window_max == old(self).local_window_max,
            final(self).local_max_packet == old(self).local_max_packet,
            final(self).remote_max_packet == old(self).remote_max_packet,
            final(self).delivered == old(self).delivered,
            final(self).credited == old(self).credited,
            old(self).wf() ==> final(self).wf(),
            old(self).local_close ==> final(self).local_close,
            final(session).inbound@ == old(session).inbound@,
            final(session).seq_out == old(session).seq_out,
            final(session).seq_in == old(session).seq_in,
            final(session).out_mode == old(session).out_mode,
            final(session).in_mode == old(session).in_mode,
            message_code != crate::messages::SSH_MSG_KEXINIT ==> final(self).pending_rekey
                == old(self).pending_rekey,
            message_code == crate::messages::SSH_MSG_KEXINIT ==> r is Ok
                && (final(self).pending_rekey matches Some(pk) && pk@ == result.buf@)
                && final(self).local_close == old(self).local_close
                && final(self).remote_close == old(self).remote_close
                && final(self).remote_window == old(self).remote_window
                && final(session).outbound@ == old(session).outbound@,
            message_code == SSH_MSG_GLOBAL_REQUEST ==> r is Ok && final(session).outbound@
                == old(session).outbound@.push(final(session).outbound@.last())
                && final(session).outbound@.last()@ == request_failure_msg()
                && *final(self) == *old(self),
            message_code == SSH_MSG_CHANNEL_WINDOW_ADJUST ==> final(session).outbound@ == old(
                session,
            ).outbound@ && final(self).local_close == old(self).local_close
                && final(self).remote_close == old(self).remote_close && (if result.rest().len()
                < 8 {
                r == Err::<(), SshError>(SshError::Truncated)
            } else {
                r is Ok && final(self).remote_window == sat_add_u32(
                    old(self).remote_window,
                    u32_from_be(
                        result.rest()[4],
                        result.rest()[5],
                        result.rest()[6],
                        result.rest()[7],
                    ),
                )
            }),
            message_code == crate::messages::SSH_MSG_CHANNEL_FAILURE ==> r == Err::<
                (),
                SshError,
            >(SshError::ChannelFailure) && *final(self) == *old(self) && final(session).outbound@
                == old(session).outbound@,
            message_code == SSH_MSG_CHANNEL_CLOSE ==> final(self).remote_window == old(
                self,
            ).remote_window && (if result.rest().len() < 4 {
                r == Err::<(), SshError>(SshError::Truncated) && final(session).outbound@ == old(
                    session,
                ).outbound@ && *final(self) == *old(self)
            } else if u32_from_be(
                result.rest()[0],
                result.rest()[1],
                result.rest()[2],
                result.rest()[3],
            ) == old(self).client_channel_no {
                r is Ok && final(self).remote_close && final(self).local_close && (if old(
                    self,
                ).local_close {
                    final(session).outbound@ == old(session).outbound@
                } else {
                    final(session).outbound@ == old(session).outbound@.push(
                        final(session).outbound@.last(),
                    ) && final(session).outbound@.last()@ == channel_close_msg(
                        old(self).server_channel_no,
                    )
                })
            } else {
                r is Ok && *final(self) == *old(self) && final(session).outbound@ == old(
                    session,
                ).outbound@
            }),
            !(message_code == SSH_MSG_GLOBAL_REQUEST || message_code
                == SSH_MSG_CHANNEL_WINDOW_ADJUST || message_code
                == crate::messages::SSH_MSG_CHANNEL_FAILURE || message_code
                == SSH_MSG_CHANNEL_CLOSE || message_code == crate::messages::SSH_MSG_KEXINIT)
                ==> r is Ok && *final(self) == *old(self) && final(session).outbound@ == old(
                session,
            ).outbound@,
    {
        let mut d = result;
        if message_code == SSH_MSG_GLOBAL_REQUEST {
            let mut msg: Vec<u8> = Vec::new();
            msg.push(SSH_MSG_REQUEST_FAILURE);
            let w = session.write(msg);
            proof {
                assert(w is Ok);
            }
            Ok(())
        } else if message_code == SSH_MSG_CHANNEL_WINDOW_ADJUST {
            // the recipient field names this side's channel
            match d.get_u32() {
                Ok(_) => (),
                Err(e) => {
                    return Err(e);
                },
            }
            let delta = match d.get_u32() {
                Ok(v) => v,
                Err(e) => {
                    return Err(e);
                },
            };
            self.remote_window = if delta > u32::MAX - self.remote_window {
                u32::MAX
            } else {
                self.remote_window + delta
            };
            Ok(())
        } else if message_code == crate::messages::SSH_MSG_CHANNEL_FAILURE {
            Err(SshError::ChannelFailure)
        } else if message_code == crate::messages::SSH_MSG_KEXINIT {
            // a server-initiated rekey: keep the whole payload so the
            // key-exchange driver can record it as I_S and run again
            self.pending_rekey = Some(d.as_vec());
            Ok(())
        } else if message_code == SSH_MSG_CHANNEL_CLOSE {
            let cc = match d.get_u32() {
                Ok(v) => v,
                Err(e) => {
                    return Err(e);
                },
            };
            if cc == self.client_channel_no {
                self.remote_close = true;
                self.send_close(session)?;
            }
            Ok(())
        } else {
            Ok(())
        }
    }

    /// Queues this side's CHANNEL_CLOSE once: a second call changes
    /// nothing.
    pub fn send_close(&mut self, session: &mut Session) -> (r: Result<(), SshError>)
        ensures
            r is Ok,
            final(self).local_close,
            *final(self) == (Channel { local_close: true, ..*old(self) }),
            old(self).local_close ==> *final(session) == *old(session),
            !old(self).local_close ==> final(session).outbound@ == old(session).outbound@.push(
                final(session).outbound@.last(),
            ) && final(session).outbound@.last()@ == channel_close_msg(
                old(self).server_channel_no,
            ),
            final(session).inbound@ == old(session).inbound@,
            final(session).seq_out == old(session).seq_out,
            final(session).seq_in == old(session).seq_in,
            final(session).out_mode == old(session).out_mode,
            final(session).in_mode == old(session).in_mode,
    {
        if self.local_close {
            return Ok(());
        }
        let mut msg = Data::new();
        msg.put_u8(SSH_MSG_CHANNEL_CLOSE);
        msg.put_u32(self.server_channel_no);
        let w = session.write(msg.as_vec());
        proof {
            assert(w is Ok);
        }
        self.local_close = true;
        Ok(())
    }

    /// Drains buffered messages until the peer's CHANNEL_CLOSE for
    /// this channel arrives, dispatching everything else to the
    /// general handler; success comes exactly from reading that
    /// CHANNEL_CLOSE, and `Timeout` only when no buffered payload
    /// carries it. No further CHANNEL_CLOSE is ever queued here.
    pub fn receive_close(&mut self, session: &mut Session) -> (r: Result<(), SshError>)
        requires
            old(self).local_close,
        ensures
            r is Ok ==> final(self).remote_close,
            r is Ok && !old(self).remote_close ==> exists|k: int|
                0 <= k < old(session).inbound@.len() && is_close_payload_for(
                    #[trigger] old(session).inbound@[k]@,
                    old(self).client_channel_no,
                ),
            r == Err::<(), SshError>(SshError::Timeout) ==> forall|i: int|
                0 <= i < old(session).inbound@.len() ==> !is_close_payload_for(
                    #[trigger] old(session).inbound@[i]@,
                    old(self).client_channel_no,
                ),
            old(self).remote_close ==> r is Ok && *final(self) == *old(self) && *final(session)
                == *old(session),
            final(self).local_close,
            final(self).client_channel_no == old(self).client_channel_no,
            final(self).server_channel_no == old(self).server_channel_no,
            final(self).local_window == old(self).local_window,
            final(self).local_window_max == old(self).local_window_max,
            final(self).local_max_packet == old(self).local_max_packet,
            final(self).remote_max_packet == old(self).remote_max_packet,
            final(self).delivered == old(self).delivered,
            final(self).credited == old(self).credited,
            old(self).wf() ==> final(self).wf(),
            close_msg_count(final(session).outbound@, old(self).server_channel_no)
                == close_msg_count(old(session).outbound@, old(self).server_channel_no),
            final(session).seq_out == old(session).seq_out,
            final(session).seq_in == old(session).seq_in,
            final(session).out_mode == old(session).out_mode,
            final(session).in_mode == old(session).in_mode,
    {
        if self.remote_close {
            return Ok(());
        }
        let ghost inbound0 = session.inbound@;
        let ghost mut consumed: int = 0;
        loop
            invariant
                !old(self).remote_close,
                self.local_close,
                self.client_channel_no == old(self).client_channel_no,
                self.server_channel_no == old(self).server_channel_no,
                self.local_window == old(self).local_window,
                self.local_window_max == old(self).local_window_max,
                self.local_max_packet == old(self).local_max_packet,
                self.remote_max_packet == old(self).remote_max_packet,
                self.delivered == old(self).delivered,
                self.credited == old(self).credited,
                old(self).wf() ==> self.wf(),
                close_msg_count(session.outbound@, old(self).server_channel_no)
                    == close_msg_count(old(session).outbound@, old(self).server_channel_no),
                session.seq_out == old(session).seq_out,
                session.seq_in == old(session).seq_in,
                session.out_mode == old(session).out_mode,
                session.in_mode == old(session).in_mode,
                inbound0 == old(session).inbound@,
                0 <= consumed <= inbound0.len(),
                session.inbound@ == inbound0.skip(consumed),
                forall|i: int| 0 <= i < consumed ==> !is_close_payload_for(
                    #[trigger] inbound0[i]@,
                    old(self).client_channel_no,
                ),
            decreases session.inbound@.len(),
        {
            let payload = match session.read() {
                Ok(p) => p,
                Err(_) => {
                    return Err(SshError::Timeout);
                },
            };
            proof {
                assert(inbound0.skip(consumed)[0] == inbound0[consumed]);
                assert(inbound0.skip(consumed).skip(1) =~= inbound0.skip(consumed + 1));
            }
            let ghost pv = payload@;
            let mut d = Data::from_vec(payload);
            let code = match d.get_u8() {
                Ok(c) => c,
                Err(_) => {
                    // an empty buffered payload carries nothing
                    proof {
                        consumed = consumed + 1;
                    }
                    continue ;
                },
            };
            let ghost out_snap = session.outbound@;
            if code == SSH_MSG_CHANNEL_CLOSE {
                let cc = match d.get_u32() {
                    Ok(v) => v,
                    Err(e) => {
                        return Err(e);
                    },
                };
                if cc == self.client_channel_no {
                    self.remote_close = true;
                    proof {
                        assert(pv.skip(1)[0] == pv[1]);
                        assert(is_close_payload_for(
                            inbound0[consumed]@,
                            old(self).client_channel_no,
                        ));
                    }
                    return Ok(());
                }
            } else {
                match self.other(session, code, d) {
                    Ok(()) => (),
                    Err(e) => {
                        return Err(e);
                    },
                }
                proof {
                    assert(channel_close_msg(old(self).server_channel_no).len() == 5);
                    assert(request_failure_msg().len() == 1);
                    if session.outbound@ != out_snap {
                        assert(out_snap.push(session.outbound@.last()) =~= session.outbound@);
                        lemma_close_count_push(
                            out_snap,
                            session.outbound@.last(),
                            old(self).server_channel_no,
                        );
                    }
                }
            }
            proof {
                consumed = consumed + 1;
            }
        }
    }

    /// The close handshake: queue this side's CHANNEL_CLOSE if none
    /// went out yet, then drain until the peer's arrives. Calling it
    /// again changes nothing more: over any number of calls exactly
    /// one CHANNEL_CLOSE is emitted.
    pub fn close(&mut self, session: &mut Session) -> (r: Result<(), SshError>)
        ensures
            r is Ok ==> final(self).local_close && final(self).remote_close,
            r is Ok && !old(self).remote_close ==> exists|k: int|
                0 <= k < old(session).inbound@.len() && is_close_payload_for(
                    #[trigger] old(session).inbound@[k]@,
                    old(self).client_channel_no,
                ),
            r == Err::<(), SshError>(SshError::Timeout) ==> forall|i: int|
                0 <= i < old(session).inbound@.len() ==> !is_close_payload_for(
                    #[trigger] old(session).inbound@[i]@,
                    old(self).client_channel_no,
                ),
            final(self).local_close,
            final(self).client_channel_no == old(self).client_channel_no,
            final(self).server_channel_no == old(self).server_channel_no,
            final(self).local_window == old(self).local_window,
            final(self).local_window_max == old(self).local_window_max,
            final(self).local_max_packet == old(self).local_max_packet,
            final(self).remote_max_packet == old(self).remote_max_packet,
            close_msg_count(final(session).outbound@, old(self).server_channel_no)
                == close_msg_count(old(session).outbound@, old(self).server_channel_no) + (
            if old(self).local_close {
                0int
            } else {
                1int
            }),
            old(self).local_close && old(self).remote_close ==> r is Ok && *final(session)
                == *old(session) && *final(self) == *old(self),
            final(self).delivered == old(self).delivered,
            final(self).credited == old(self).credited,
            old(self).wf() ==> final(self).wf(),
            final(session).seq_out == old(session).seq_out,
            final(session).seq_in == old(session).seq_in,
            final(session).out_mode == old(session).out_mode,
            final(session).in_mode == old(session).in_mode,
    {
        let ghost out0 = session.outbound@;
        let r = self.send_close(session);
        proof {
            assert(r is Ok);
            if !old(self).local_close {
                lemma_close_count_push(
                    out0,
                    session.outbound@.last(),
                    old(self).server_channel_no,
                );
                assert(out0.push(session.outbound@.last()) =~= session.outbound@);
            }
        }
        self.receive_close(session)
    }

    /// Books `n` delivered payload bytes against the local window and
    /// advertises fresh credit once the window falls under half of
    /// L_W, restoring it to exactly L_W. A peer that overruns the
    /// window it was granted is a `WindowOverflow`.
    pub fn consume_and_adjust(&mut self, session: &mut Session, n: u32) -> (r: Result<
        (),
        SshError,
    >)
        requires
            old(self).wf(),
        ensures
            final(self).wf(),
            final(self).client_channel_no == old(self).client_channel_no,
            final(self).server_channel_no == old(self).server_channel_no,
            final(self).local_window_max == old(self).local_window_max,
            final(self).remote_window == old(self).remote_window,
            final(self).local_close == old(self).local_close,
            final(self).remote_close == old(self).remote_close,
            n > old(self).local_window ==> r == Err::<(), SshError>(SshError::WindowOverflow)
                && *final(self) == *old(self) && *final(session) == *old(session),
            n <= old(self).local_window ==> r is Ok && final(self).delivered@ == old(
                self,
            ).delivered@ + n && (if old(self).local_window - n < old(self).local_window_max / 2 {
                final(self).local_window == old(self).local_window_max && final(self).credited@
                    == old(self).credited@ + (old(self).local_window_max - (old(self).local_window
                    - n)) && final(session).outbound@ == old(session).outbound@.push(
                    final(session).outbound@.last(),
                ) && final(session).outbound@.last()@ == window_adjust_msg(
                    old(self).server_channel_no,
                    (old(self).local_window_max - (old(self).local_window - n)) as u32,
                )
            } else {
                final(self).local_window == old(self).local_window - n && final(self).credited@
                    == old(self).credited@ && final(session).outbound@ == old(session).outbound@
            }),
            final(session).inbound@ == old(session).inbound@,
            final(session).seq_out == old(session).seq_out,
            final(session).seq_in == old(session).seq_in,
            final(session).out_mode == old(session).out_mode,
            final(session).in_mode == old(session).in_mode,
    {
        if n > self.local_window {
            return Err(SshError::WindowOverflow);
        }
        self.local_window = self.local_window - n;
        proof {
            self.delivered@ = self.delivered@ + n as nat;
        }
        if self.local_window < self.local_window_max / 2 {
            let delta = self.local_window_max - self.local_window;
            let mut msg = Data::new();
            msg.put_u8(SSH_MSG_CHANNEL_WINDOW_ADJUST);
            msg.put_u32(self.server_channel_no);
            msg.put_u32(delta);
            let w = session.write(msg.as_vec());
            proof {
                assert(w is Ok);
            }
            self.local_window = self.local_window_max;
            proof {
                self.credited@ = self.credited@ + delta as nat;
            }
        }
        Ok(())
    }
}

/// Window conservation: on a well-formed channel the bytes delivered
/// to the caller never exceed the window credit ever advertised.
pub proof fn lemma_window_conservation(ch: Channel)
    requires
        ch.wf(),
    ensures
        ch.delivered@ <= ch.credited@,
{
}

} // verus!
