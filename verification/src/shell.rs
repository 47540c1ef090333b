//! The interactive shell over one session channel: the pty-req and
//! shell requests, then bidirectional data under window flow control.

use vstd::prelude::*;

use crate::channel::{Channel, close_msg_count};
use crate::codec::{string_bytes, u32_be_bytes, Data};
use crate::error::SshError;
use crate::messages::{SSH_MSG_CHANNEL_DATA, SSH_MSG_CHANNEL_REQUEST, SSH_MSG_CHANNEL_SUCCESS};
use crate::session::Session;

verus! {

/// The CHANNEL_DATA message carrying `data` to a recipient channel.
pub open spec fn channel_data_msg(recipient: u32, data: Seq<u8>) -> Seq<u8> {
    seq![SSH_MSG_CHANNEL_DATA] + u32_be_bytes(recipient) + string_bytes(data)
}

/// The bytes of `"pty-req"`.
pub open spec fn pty_req_bytes() -> Seq<u8> {
    seq![112u8, 116u8, 121u8, 45u8, 114u8, 101u8, 113u8]
}

/// The bytes of `"xterm"`.
pub open spec fn xterm_bytes() -> Seq<u8> {
    seq![120u8, 116u8, 101u8, 114u8, 109u8]
}

/// The bytes of `"shell"`.
pub open spec fn shell_bytes() -> Seq<u8> {
    seq![115u8, 104u8, 101u8, 108u8, 108u8]
}

/// The CHANNEL_REQUEST for a pty: terminal `"xterm"`, the given
/// columns and rows, no pixel sizes, no modes, with a reply wanted.
pub open spec fn pty_req_msg(recipient: u32, cols: u32, rows: u32) -> Seq<u8> {
    seq![SSH_MSG_CHANNEL_REQUEST] + u32_be_bytes(recipient) + string_bytes(pty_req_bytes())
        + seq![1u8] + string_bytes(xterm_bytes()) + u32_be_bytes(cols) + u32_be_bytes(rows)
        + u32_be_bytes(0) + u32_be_bytes(0) + string_bytes(Seq::<u8>::empty())
}

/// A buffered payload that carries CHANNEL_SUCCESS.
pub open spec fn is_success_payload(p: Seq<u8>) -> bool {
    p.len() > 0 && p[0] == SSH_MSG_CHANNEL_SUCCESS
}

/// A buffered payload that is CHANNEL_DATA for the channel this side
/// numbered `id`.
pub open spec fn is_data_payload_for(p: Seq<u8>, id: u32) -> bool {
    p.len() >= 5 && p[0] == SSH_MSG_CHANNEL_DATA && crate::codec::u32_from_be(
        p[1],
        p[2],
        p[3],
        p[4],
    ) == id
}

/// The CHANNEL_REQUEST for the shell, with a reply wanted.
pub open spec fn shell_req_msg(recipient: u32) -> Seq<u8> {
    seq![SSH_MSG_CHANNEL_REQUEST] + u32_be_bytes(recipient) + string_bytes(shell_bytes())
        + seq![1u8]
}

/// Serializes the pty request.
pub fn build_pty_req(recipient: u32, cols: u32, rows: u32) -> (r: Vec<u8>)
    ensures
        r@ == pty_req_msg(recipient, cols, rows),
{
    let mut m = Data::new();
    m.put_u8(SSH_MSG_CHANNEL_REQUEST);
    m.put_u32(recipient);
    let mut name: Vec<u8> = Vec::new();
    name.push(112);
    name.push(116);
    name.push(121);
    name.push(45);
    name.push(114);
    name.push(101);
    name.push(113);
    proof {
        assert(name@ =~= pty_req_bytes());
    }
    m.put_string(name.as_slice());
    m.put_u8(1);
    let mut term: Vec<u8> = Vec::new();
    term.push(120);
    term.push(116);
    term.push(101);
    term.push(114);
    term.push(109);
    proof {
        assert(term@ =~= xterm_bytes());
    }
    m.put_string(term.as_slice());
    m.put_u32(cols);
    m.put_u32(rows);
    m.put_u32(0);
    m.put_u32(0);
    let empty: Vec<u8> = Vec::new();
    m.put_string(empty.as_slice());
    proof {
        assert(m.buf@ =~= pty_req_msg(recipient, cols, rows));
    }
    m.as_vec()
}

/// Serializes the shell request.
pub fn build_shell_req(recipient: u32) -> (r: Vec<u8>)
    ensures
        r@ == shell_req_msg(recipient),
{
    let mut m = Data::new();
    m.put_u8(SSH_MSG_CHANNEL_REQUEST);
    m.put_u32(recipient);
    let mut name: Vec<u8> = Vec::new();
    name.push(115);
    name.push(104);
    name.push(101);
    name.push(108);
    name.push(108);
    proof {
        assert(name@ =~= shell_bytes());
    }
    m.put_string(name.as_slice());
    m.put_u8(1);
    proof {
        assert(m.buf@ =~= shell_req_msg(recipient));
    }
    m.as_vec()
}

/// Drains buffered messages until a CHANNEL_SUCCESS arrives: success
/// comes exactly from reading the first one buffered, and `Timeout`
/// only when none is. Everything before it goes to the general
/// handler. Messages already queued for sending stay as they are; at
/// most replies are appended after them.
fn await_success(ch: &mut Channel, session: &mut Session) -> (r: Result<(), SshError>)
    ensures
        r is Ok ==> exists|k: int| 0 <= k < old(session).inbound@.len()
            && is_success_payload(#[trigger] old(session).inbound@[k]@)
            && final(session).inbound@ == old(session).inbound@.skip(k + 1)
            && (forall|j: int| 0 <= j < k ==> !is_success_payload(
                #[trigger] old(session).inbound@[j]@,
            )),
        r == Err::<(), SshError>(SshError::Timeout) ==> forall|i: int|
            0 <= i < old(session).inbound@.len() ==> !is_success_payload(
                #[trigger] old(session).inbound@[i]@,
            ),
        final(ch).client_channel_no == old(ch).client_channel_no,
        final(ch).server_channel_no == old(ch).server_channel_no,
        final(ch).local_window == old(ch).local_window,
        final(ch).local_window_max == old(ch).local_window_max,
        final(ch).local_max_packet == old(ch).local_max_packet,
        final(ch).remote_max_packet == old(ch).remote_max_packet,
        final(ch).delivered == old(ch).delivered,
        final(ch).credited == old(ch).credited,
        old(ch).wf() ==> final(ch).wf(),
        final(session).outbound@.len() >= old(session).outbound@.len(),
        final(session).outbound@.take(old(session).outbound@.len() as int)
            == old(session).outbound@,
        final(session).seq_out == old(session).seq_out,
        final(session).seq_in == old(session).seq_in,
        final(session).out_mode == old(session).out_mode,
        final(session).in_mode == old(session).in_mode,
{
    let ghost n0 = session.outbound@.len() as int;
    let ghost inbound0 = session.inbound@;
    let ghost mut consumed: int = 0;
    loop
        invariant
            inbound0 == old(session).inbound@,
            0 <= consumed <= inbound0.len(),
            session.inbound@ == inbound0.skip(consumed),
            forall|i: int| 0 <= i < consumed ==> !is_success_payload(#[trigger] inbound0[i]@),
            ch.client_channel_no == old(ch).client_channel_no,
            ch.server_channel_no == old(ch).server_channel_no,
            ch.local_window == old(ch).local_window,
            ch.local_window_max == old(ch).local_window_max,
            ch.local_max_packet == old(ch).local_max_packet,
            ch.remote_max_packet == old(ch).remote_max_packet,
            ch.delivered == old(ch).delivered,
            ch.credited == old(ch).credited,
            old(ch).wf() ==> ch.wf(),
            n0 == old(session).outbound@.len() as int,
            session.outbound@.len() >= n0,
            session.outbound@.take(n0) == old(session).outbound@,
            session.seq_out == old(session).seq_out,
            session.seq_in == old(session).seq_in,
            session.out_mode == old(session).out_mode,
            session.in_mode == old(session).in_mode,
        decreases session.inbound@.len(),
    {
        let payload = match session.read() {
            Ok(p) => p,
            Err(_) => {
                return Err(SshError::Timeout);
            },
        };
        proof {
            assert(inbound0.skip(consumed)[0] == inbound0[consumed]);
            assert(inbound0.skip(consumed).skip(1) =~= inbound0.skip(consumed + 1));
        }
        let mut d = Data::from_vec(payload);
        let code = match d.get_u8() {
            Ok(c) => c,
            Err(_) => {
                proof {
                    consumed = consumed + 1;
                }
                continue ;
            },
        };
        if code == SSH_MSG_CHANNEL_SUCCESS {
            proof {
                assert(is_success_payload(inbound0[consumed]@));
            }
            return Ok(());
        }
        let ghost out_snap = session.outbound@;
        match ch.other(session, code, d) {
            Ok(()) => (),
            Err(e) => {
                return Err(e);
            },
        }
        proof {
            if session.outbound@ != out_snap {
                assert(out_snap.push(session.outbound@.last()) =~= session.outbound@);
                assert(session.outbound@.take(n0) =~= out_snap.take(n0));
            }
            consumed = consumed + 1;
        }
    }
}

/// The shell running on one channel.
pub struct ChannelShell {
    pub channel: Channel,
}

impl Channel {
    /// Requests a pty and the shell, each with a reply wanted, and
    /// waits for both CHANNEL_SUCCESS replies. The two requests are
    /// queued in order; replies the handler owes may follow them.
    pub fn open_shell(self, session: &mut Session, cols: u32, rows: u32) -> (r: Result<
        ChannelShell,
        SshError,
    >)
        ensures
            r is Ok ==> {
                let sh = r->Ok_0;
                &&& sh.channel.client_channel_no == self.client_channel_no
                &&& sh.channel.server_channel_no == self.server_channel_no
                &&& sh.channel.local_window == self.local_window
                &&& sh.channel.local_window_max == self.local_window_max
                &&& sh.channel.delivered == self.delivered
                &&& sh.channel.credited == self.credited
                &&& (self.wf() ==> sh.channel.wf())
            },
            r is Ok ==> exists|i: int, j: int|
                old(session).outbound@.len() <= i < j < final(session).outbound@.len()
                    && #[trigger] final(session).outbound@[i]@ == pty_req_msg(
                    self.server_channel_no,
                    cols,
                    rows,
                ) && #[trigger] final(session).outbound@[j]@ == shell_req_msg(
                    self.server_channel_no,
                ),
            r is Ok ==> exists|i: int, j: int| 0 <= i < j < old(session).inbound@.len()
                && is_success_payload(#[trigger] old(session).inbound@[i]@)
                && is_success_payload(#[trigger] old(session).inbound@[j]@),
            final(session).outbound@.len() > old(session).outbound@.len(),
            final(session).outbound@[old(session).outbound@.len() as int]@ == pty_req_msg(
                self.server_channel_no,
                cols,
                rows,
            ),
            final(session).outbound@.take(old(session).outbound@.len() as int)
                == old(session).outbound@,
            final(session).seq_out == old(session).seq_out,
            final(session).seq_in == old(session).seq_in,
            final(session).out_mode == old(session).out_mode,
            final(session).in_mode == old(session).in_mode,
    {
        let mut ch = self;
        let ghost i = session.outbound@.len() as int;
        let pty = build_pty_req(ch.server_channel_no, cols, rows);
        let w1 = session.write(pty);
        proof {
            assert(w1 is Ok);
            assert(session.outbound@.take(i) =~= old(session).outbound@);
            assert(session.outbound@[i]@ == pty_req_msg(self.server_channel_no, cols, rows));
        }
        let ghost snap1 = session.outbound@;
        let ghost inb0 = session.inbound@;
        match await_success(&mut ch, session) {
            Ok(()) => (),
            Err(e) => {
                proof {
                    assert(snap1[i] == session.outbound@.take(snap1.len() as int)[i]);
                    assert(session.outbound@[i]@ == pty_req_msg(
                        self.server_channel_no,
                        cols,
                        rows,
                    ));
                    assert(session.outbound@.take(old(session).outbound@.len() as int)
                        =~= old(session).outbound@);
                }
                return Err(e);
            },
        }
        proof {
            assert(snap1[i] == session.outbound@.take(snap1.len() as int)[i]);
            assert(session.outbound@[i]@ == pty_req_msg(self.server_channel_no, cols, rows));
        }
        let ghost k1 = choose|k: int| 0 <= k < inb0.len() && is_success_payload(#[trigger] inb0[k]@)
            && session.inbound@ == inb0.skip(k + 1);
        let ghost inb1 = session.inbound@;
        let ghost j = session.outbound@.len() as int;
        let sh = build_shell_req(ch.server_channel_no);
        let w2 = session.write(sh);
        proof {
            assert(w2 is Ok);
            assert(session.outbound@[j]@ == shell_req_msg(self.server_channel_no));
        }
        let ghost snap2 = session.outbound@;
        match await_success(&mut ch, session) {
            Ok(()) => (),
            Err(e) => {
                proof {
                    assert(snap2[i] == session.outbound@.take(snap2.len() as int)[i]);
                    assert(session.outbound@[i]@ == pty_req_msg(
                        self.server_channel_no,
                        cols,
                        rows,
                    ));
                    assert(session.outbound@.take(old(session).outbound@.len() as int)
                        =~= old(session).outbound@);
                }
                return Err(e);
            },
        }
        proof {
            assert(snap2[i] == session.outbound@.take(snap2.len() as int)[i]);
            assert(snap2[j] == session.outbound@.take(snap2.len() as int)[j]);
            assert(session.outbound@[i]@ == pty_req_msg(self.server_channel_no, cols, rows));
            assert(session.outbound@[j]@ == shell_req_msg(self.server_channel_no));
            assert(session.outbound@.take(old(session).outbound@.len() as int)
                =~= old(session).outbound@);
            let k2 = choose|k: int| 0 <= k < inb1.len()
                && is_success_payload(#[trigger] inb1[k]@);
            assert(inb1[k2] == inb0.skip(k1 + 1)[k2]);
            assert(is_success_payload(inb0[k1 + 1 + k2]@));
            assert(0 <= k1 < k1 + 1 + k2 < inb0.len());
        }
        Ok(ChannelShell { channel: ch })
    }
}

impl ChannelShell {
    /// Sends at most one CHANNEL_DATA fragment from the front of
    /// `buf`, sized by the peer's window and maximum packet size, and
    /// books it against the remote window. Returns how many bytes
    /// went out; zero when the window is exhausted, until a
    /// WINDOW_ADJUST restores it.
    pub fn write(&mut self, session: &mut Session, buf: &Vec<u8>) -> (sent: usize)
        requires
            !old(self).channel.local_close,
        ensures
            final(self).channel == (Channel {
                remote_window: final(self).channel.remote_window,
                ..old(self).channel
            }),
            sent == vstd::math::min(
                buf@.len() as int,
                vstd::math::min(
                    old(self).channel.remote_window as int,
                    vstd::math::min(old(self).channel.remote_max_packet as int, 32759),
                ),
            ),
            final(self).channel.remote_window == old(self).channel.remote_window - sent,
            sent == 0 ==> *final(session) == *old(session),
            sent > 0 ==> final(session).outbound@ == old(session).outbound@.push(
                final(session).outbound@.last(),
            ) && final(session).outbound@.last()@ == channel_data_msg(
                old(self).channel.server_channel_no,
                buf@.take(sent as int),
            ),
            final(session).inbound@ == old(session).inbound@,
            final(session).seq_out == old(session).seq_out,
            final(session).seq_in == old(session).seq_in,
            final(session).out_mode == old(session).out_mode,
            final(session).in_mode == old(session).in_mode,
    {
        let cap: u32 = if self.channel.remote_max_packet < 32759 {
            self.channel.remote_max_packet
        } else {
            32759
        };
        let allowed: u32 = if self.channel.remote_window < cap {
            self.channel.remote_window
        } else {
            cap
        };
        let sent: usize = if buf.len() < allowed as usize {
            buf.len()
        } else {
            allowed as usize
        };
        if sent == 0 {
            return 0;
        }
        let mut chunk: Vec<u8> = Vec::new();
        let mut k: usize = 0;
        while k < sent
            invariant
                k <= sent,
                sent <= buf@.len(),
                chunk@ == buf@.subrange(0, k as int),
            decreases sent - k,
        {
            chunk.push(buf[k]);
            k = k + 1;
            proof {
                assert(chunk@ =~= buf@.subrange(0, k as int));
            }
        }
        let mut m = Data::new();
        m.put_u8(SSH_MSG_CHANNEL_DATA);
        m.put_u32(self.channel.server_channel_no);
        m.put_string(chunk.as_slice());
        let w = session.write(m.as_vec());
        proof {
            assert(w is Ok);
        }
        self.channel.remote_window = self.channel.remote_window - (sent as u32);
        sent
    }

    /// Waits for the next CHANNEL_DATA for this channel, hands its
    /// payload out, books it against the local window and advertises
    /// fresh credit when the window falls under half of L_W. After a
    /// successful read at least half the window is always open.
    pub fn read(&mut self, session: &mut Session) -> (r: Result<Vec<u8>, SshError>)
        requires
            old(self).channel.wf(),
        ensures
            final(self).channel.wf(),
            final(self).channel.client_channel_no == old(self).channel.client_channel_no,
            final(self).channel.server_channel_no == old(self).channel.server_channel_no,
            final(self).channel.local_window_max == old(self).channel.local_window_max,
            r is Ok ==> final(self).channel.delivered@ == old(self).channel.delivered@
                + r->Ok_0@.len() && final(self).channel.local_window
                >= final(self).channel.local_window_max / 2,
            r is Ok ==> r->Ok_0@.len() <= old(self).channel.local_window
                && final(self).channel.local_window == (
            if old(self).channel.local_window - r->Ok_0@.len()
                < old(self).channel.local_window_max / 2 {
                old(self).channel.local_window_max as int
            } else {
                old(self).channel.local_window - r->Ok_0@.len()
            }),
            r is Ok ==> exists|k: int| 0 <= k < old(session).inbound@.len()
                && is_data_payload_for(
                #[trigger] old(session).inbound@[k]@,
                old(self).channel.client_channel_no,
            ) && r->Ok_0@ == crate::codec::string_body(old(session).inbound@[k]@.skip(5)),
            r == Err::<Vec<u8>, SshError>(SshError::Timeout) ==> forall|i: int|
                0 <= i < old(session).inbound@.len() ==> !is_data_payload_for(
                    #[trigger] old(session).inbound@[i]@,
                    old(self).channel.client_channel_no,
                ),
            r is Err ==> final(self).channel.delivered == old(self).channel.delivered,
            final(session).seq_out == old(session).seq_out,
            final(session).seq_in == old(session).seq_in,
            final(session).out_mode == old(session).out_mode,
            final(session).in_mode == old(session).in_mode,
    {
        let ghost inbound0 = session.inbound@;
        let ghost mut consumed: int = 0;
        loop
            invariant
                self.channel.wf(),
                self.channel.client_channel_no == old(self).channel.client_channel_no,
                self.channel.server_channel_no == old(self).channel.server_channel_no,
                self.channel.local_window == old(self).channel.local_window,
                self.channel.local_window_max == old(self).channel.local_window_max,
                self.channel.delivered == old(self).channel.delivered,
                self.channel.credited == old(self).channel.credited,
                session.seq_out == old(session).seq_out,
                session.seq_in == old(session).seq_in,
                session.out_mode == old(session).out_mode,
                session.in_mode == old(session).in_mode,
                inbound0 == old(session).inbound@,
                0 <= consumed <= inbound0.len(),
                session.inbound@ == inbound0.skip(consumed),
                forall|i: int| 0 <= i < consumed ==> !is_data_payload_for(
                    #[trigger] inbound0[i]@,
                    old(self).channel.client_channel_no,
                ),
            decreases session.inbound@.len(),
        {
            let payload = match session.read() {
                Ok(p) => p,
                Err(_) => {
                    return Err(SshError::Timeout);
                },
            };
            proof {
                assert(inbound0.skip(consumed)[0] == inbound0[consumed]);
                assert(inbound0.skip(consumed).skip(1) =~= inbound0.skip(consumed + 1));
            }
            let ghost pv = payload@;
            let mut d = Data::from_vec(payload);
            let code = match d.get_u8() {
                Ok(c) => c,
                Err(_) => {
                    proof {
                        consumed = consumed + 1;
                    }
                    continue ;
                },
            };
            if code == SSH_MSG_CHANNEL_DATA {
                let recipient = match d.get_u32() {
                    Ok(v) => v,
                    Err(e) => {
                        return Err(e);
                    },
                };
                if recipient == self.channel.client_channel_no {
                    let ghost rest5 = d.rest();
                    proof {
                        assert(rest5 =~= pv.skip(5));
                    }
                    let data = match d.get_string() {
                        Ok(v) => v,
                        Err(e) => {
                            return Err(e);
                        },
                    };
                    proof {
                        assert(pv.skip(1)[0] == pv[1]);
                        assert(is_data_payload_for(
                            inbound0[consumed]@,
                            old(self).channel.client_channel_no,
                        ));
                        assert(rest5 == crate::codec::string_bytes(data@) + d.rest());
                        crate::codec::lemma_string_parse_step(data@, d.rest());
                        assert(data@ == crate::codec::string_body(pv.skip(5)));
                    }
                    if data.len() > 0xffff_ffff_usize {
                        return Err(SshError::WindowOverflow);
                    }
                    match self.channel.consume_and_adjust(session, data.len() as u32) {
                        Ok(()) => (),
                        Err(e) => {
                            return Err(e);
                        },
                    }
                    return Ok(data);
                }
            } else {
                match self.channel.other(session, code, d) {
                    Ok(()) => (),
                    Err(e) => {
                        return Err(e);
                    },
                }
            }
            proof {
                consumed = consumed + 1;
            }
        }
    }

    /// The close handshake for the shell's channel: one CHANNEL_CLOSE
    /// out, however often it is called.
    pub fn close(&mut self, session: &mut Session) -> (r: Result<(), SshError>)
        ensures
            r is Ok ==> final(self).channel.local_close && final(self).channel.remote_close,
            close_msg_count(final(session).outbound@, old(self).channel.server_channel_no)
                == close_msg_count(old(session).outbound@, old(self).channel.server_channel_no)
                + (if old(self).channel.local_close {
                0int
            } else {
                1int
            }),
            old(self).channel.local_close && old(self).channel.remote_close ==> r is Ok
                && *final(session) == *old(session),
            final(session).seq_out == old(session).seq_out,
            final(session).seq_in == old(session).seq_in,
            final(session).out_mode == old(session).out_mode,
            final(session).in_mode == old(session).in_mode,
    {
        self.channel.close(session)
    }
}

} // verus!
