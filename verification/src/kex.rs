//! The key-exchange driver: KEXINIT exchange, ECDH init and reply,
//! signature gate, NEWKEYS switchover.
//!
//! The driver is a state machine over phases; the cryptographic
//! primitives stay outside. The caller supplies the random cookie,
//! the ephemeral public key, the shared secret, the exchange-hash
//! digest and the signature verdict as plain values, and the driver
//! decides every transition.

use vstd::prelude::*;

use crate::codec::{
    skip_string, string_body, string_bytes, string_parse_len, strings_parse_ok,
    lemma_string_parse_step, Data, u32_be_bytes,
};
use crate::error::{AlgFamily, SshError};
use crate::messages::{
    SSH_MSG_KEXINIT, SSH_MSG_KEX_ECDH_INIT, SSH_MSG_KEX_ECDH_REPLY, SSH_MSG_NEWKEYS,
};
use crate::negotiate::{
    choose_algorithm, clone_bytes, names_comma_free, names_join, names_view, parse_name_list,
    spec_first_match,
};
use crate::packet::MAX_PAYLOAD;
use crate::session::{CipherMode, Session};
use crate::transcript::{exchange_hash_input, Transcript};

verus! {

/// The client's fixed preferences for one session.
pub struct Config {
    /// The identifier after `SSH-2.0-` in the client's banner.
    pub client_ident: Vec<u8>,
    pub kex_algorithms: Vec<Vec<u8>>,
    pub host_key_algorithms: Vec<Vec<u8>>,
    pub encryption_c2s: Vec<Vec<u8>>,
    pub encryption_s2c: Vec<Vec<u8>>,
    pub mac_c2s: Vec<Vec<u8>>,
    pub mac_s2c: Vec<Vec<u8>>,
    pub compression_c2s: Vec<Vec<u8>>,
    pub compression_s2c: Vec<Vec<u8>>,
    /// The local window size L_W granted to the peer.
    pub window_size: u32,
    /// The local maximum packet size M_P.
    pub max_packet_size: u32,
}

/// A preference list that can go on the wire.
pub open spec fn list_ok(l: Seq<Vec<u8>>) -> bool {
    names_comma_free(names_view(l)) && names_join(names_view(l)).len() <= 1024
}

impl Config {
    pub open spec fn wf(&self) -> bool {
        &&& self.client_ident@.len() <= 1024
        &&& list_ok(self.kex_algorithms@)
        &&& list_ok(self.host_key_algorithms@)
        &&& list_ok(self.encryption_c2s@)
        &&& list_ok(self.encryption_s2c@)
        &&& list_ok(self.mac_c2s@)
        &&& list_ok(self.mac_s2c@)
        &&& list_ok(self.compression_c2s@)
        &&& list_ok(self.compression_s2c@)
    }
}

/// The name-lists the server advertised in its KEXINIT.
pub struct ServerAlgorithms {
    pub kex_algorithms: Vec<Vec<u8>>,
    pub host_key_algorithms: Vec<Vec<u8>>,
    pub encryption_c2s: Vec<Vec<u8>>,
    pub encryption_s2c: Vec<Vec<u8>>,
    pub mac_c2s: Vec<Vec<u8>>,
    pub mac_s2c: Vec<Vec<u8>>,
    pub compression_c2s: Vec<Vec<u8>>,
    pub compression_s2c: Vec<Vec<u8>>,
}

/// The chosen algorithm of every family, each the first client
/// preference the server also offers.
pub struct Negotiated {
    pub kex: Vec<u8>,
    pub host_key: Vec<u8>,
    pub encryption_c2s: Vec<u8>,
    pub encryption_s2c: Vec<u8>,
    pub mac_c2s: Vec<u8>,
    pub mac_s2c: Vec<u8>,
    pub compression_c2s: Vec<u8>,
    pub compression_s2c: Vec<u8>,
}

/// The phases of one key exchange, in protocol order.
#[derive(Clone, Copy, Debug, PartialEq, Eq, Structural)]
pub enum KexPhase {
    Start,
    SentKexInit,
    GotKexInit,
    SentInit,
    GotReply,
    Verified,
    SentNewKeys,
    Established,
}

/// Joins a name-list with commas for the wire.
pub fn join_names(list: &Vec<Vec<u8>>) -> (r: Vec<u8>)
    ensures
        r@ == names_join(names_view(list@)),
{
    let mut out: Vec<u8> = Vec::new();
    let ghost lv = names_view(list@);
    let mut i: usize = 0;
    while i < list.len()
        invariant
            i <= list@.len(),
            lv == names_view(list@),
            out@ == names_join(lv.take(i as int)),
        decreases list@.len() - i,
    {
        let ghost prev = out@;
        if i > 0 {
            out.push(44);
        }
        let name = &list[i];
        proof {
            assert(name@.subrange(0, 0) =~= Seq::<u8>::empty());
            if i > 0 {
                assert(out@ =~= prev.push(44u8) + name@.subrange(0, 0));
            } else {
                assert(out@ =~= prev + name@.subrange(0, 0));
            }
        }
        let mut j: usize = 0;
        while j < name.len()
            invariant
                j <= name@.len(),
                i < list@.len(),
                name@ == list@[i as int]@,
                out@ == if i > 0 {
                    prev.push(44u8) + name@.subrange(0, j as int)
                } else {
                    prev + name@.subrange(0, j as int)
                },
            decreases name@.len() - j,
        {
            out.push(name[j]);
            j = j + 1;
            proof {
                if i > 0 {
                    assert(out@ =~= prev.push(44u8) + name@.subrange(0, j as int));
                } else {
                    assert(out@ =~= prev + name@.subrange(0, j as int));
                }
            }
        }
        i = i + 1;
        proof {
            let t = lv.take(i as int);
            assert(t.drop_last() =~= lv.take(i - 1));
            assert(t.last() == lv[i - 1]);
            assert(name@.subrange(0, name@.len() as int) =~= name@);
            if i == 1 {
                assert(names_join(t) == t[0]);
                assert(out@ =~= names_join(t));
            } else {
                assert(names_join(t) == names_join(lv.take(i - 1)) + seq![44u8] + lv[i - 1]);
                assert(out@ =~= names_join(t));
            }
        }
    }
    proof {
        assert(lv.take(i as int) =~= lv);
    }
    out
}

/// The client KEXINIT payload: the message code, the random cookie,
/// the eight preference lists, two empty language lists, a false
/// `first_kex_packet_follows`, and the reserved word.
pub open spec fn kexinit_bytes(cfg: Config, cookie: Seq<u8>) -> Seq<u8> {
    seq![SSH_MSG_KEXINIT] + cookie + string_bytes(names_join(names_view(cfg.kex_algorithms@)))
        + string_bytes(names_join(names_view(cfg.host_key_algorithms@)))
        + string_bytes(names_join(names_view(cfg.encryption_c2s@)))
        + string_bytes(names_join(names_view(cfg.encryption_s2c@)))
        + string_bytes(names_join(names_view(cfg.mac_c2s@)))
        + string_bytes(names_join(names_view(cfg.mac_s2c@)))
        + string_bytes(names_join(names_view(cfg.compression_c2s@)))
        + string_bytes(names_join(names_view(cfg.compression_s2c@)))
        + string_bytes(Seq::<u8>::empty()) + string_bytes(Seq::<u8>::empty()) + seq![0u8]
        + u32_be_bytes(0)
}

/// Serializes the client KEXINIT.
pub fn build_kexinit(cfg: &Config, cookie: &Vec<u8>) -> (r: Vec<u8>)
    requires
        cfg.wf(),
        cookie@.len() == 16,
    ensures
        r@ == kexinit_bytes(*cfg, cookie@),
        r@.len() <= MAX_PAYLOAD,
{
    let mut out = Data::new();
    out.put_u8(SSH_MSG_KEXINIT);
    out.put_bytes(cookie.as_slice());
    let l1 = join_names(&cfg.kex_algorithms);
    out.put_string(l1.as_slice());
    let l2 = join_names(&cfg.host_key_algorithms);
    out.put_string(l2.as_slice());
    let l3 = join_names(&cfg.encryption_c2s);
    out.put_string(l3.as_slice());
    let l4 = join_names(&cfg.encryption_s2c);
    out.put_string(l4.as_slice());
    let l5 = join_names(&cfg.mac_c2s);
    out.put_string(l5.as_slice());
    let l6 = join_names(&cfg.mac_s2c);
    out.put_string(l6.as_slice());
    let l7 = join_names(&cfg.compression_c2s);
    out.put_string(l7.as_slice());
    let l8 = join_names(&cfg.compression_s2c);
    out.put_string(l8.as_slice());
    let empty: Vec<u8> = Vec::new();
    out.put_string(empty.as_slice());
    out.put_string(empty.as_slice());
    out.put_u8(0);
    out.put_u32(0);
    proof {
        assert(out.buf@ =~= kexinit_bytes(*cfg, cookie@));
    }
    out.as_vec()
}

/// Reads one name-list field: an SSH `string` split at commas. It
/// succeeds exactly when a `string` read would.
pub fn read_name_list(data: &mut Data) -> (r: Result<Vec<Vec<u8>>, SshError>)
    requires
        old(data).wf(),
    ensures
        final(data).wf(),
        final(data).buf@ == old(data).buf@,
        r is Ok <==> string_parse_len(old(data).rest()) >= 0,
        r is Ok ==> old(data).rest() == string_bytes(names_join(names_view(r->Ok_0@)))
            + final(data).rest() && names_comma_free(names_view(r->Ok_0@))
            && final(data).rest() == skip_string(old(data).rest()),
        r is Ok ==> forall|k: nat|
            strings_parse_ok(old(data).rest(), (k + 1) as nat) == #[trigger] strings_parse_ok(
                final(data).rest(),
                k,
            ),
        r is Err ==> r == Err::<Vec<Vec<u8>>, SshError>(SshError::Truncated)
            && *final(data) == *old(data),
{
    let s = match data.get_string() {
        Ok(s) => s,
        Err(e) => {
            return Err(e);
        },
    };
    proof {
        lemma_string_parse_step(s@, data.rest());
        assert forall|k: nat|
            strings_parse_ok(old(data).rest(), (k + 1) as nat) == #[trigger] strings_parse_ok(
                data.rest(),
                k,
            ) by {
            assert(strings_parse_ok(old(data).rest(), (k + 1) as nat) == (string_parse_len(
                old(data).rest(),
            ) >= 0 && strings_parse_ok(skip_string(old(data).rest()), k)));
        };
    }
    let names = parse_name_list(&s);
    Ok(names)
}

/// Reads four consecutive name-list fields. It succeeds exactly when
/// four `string` reads fit in what remains.
#[verifier::rlimit(100)]
fn read_four_name_lists(data: &mut Data) -> (r: Result<
    (Vec<Vec<u8>>, Vec<Vec<u8>>, Vec<Vec<u8>>, Vec<Vec<u8>>),
    SshError,
>)
    requires
        old(data).wf(),
    ensures
        final(data).wf(),
        final(data).buf@ == old(data).buf@,
        r is Ok <==> strings_parse_ok(old(data).rest(), 4),
        r is Ok ==> {
            let (a, b, c, d) = r->Ok_0;
            old(data).rest() == string_bytes(names_join(names_view(a@))) + string_bytes(
                names_join(names_view(b@)),
            ) + string_bytes(names_join(names_view(c@))) + string_bytes(
                names_join(names_view(d@)),
            ) + final(data).rest() && names_comma_free(names_view(a@)) && names_comma_free(
                names_view(b@),
            ) && names_comma_free(names_view(c@)) && names_comma_free(names_view(d@))
        },
        r is Ok ==> forall|k: nat|
            strings_parse_ok(old(data).rest(), (k + 4) as nat) == #[trigger] strings_parse_ok(
                final(data).rest(),
                k,
            ),
        r is Err ==> r == Err::<
            (Vec<Vec<u8>>, Vec<Vec<u8>>, Vec<Vec<u8>>, Vec<Vec<u8>>),
            SshError,
        >(SshError::Truncated),
{
    let ghost r0 = data.rest();
    let a = match read_name_list(data) {
        Ok(v) => v,
        Err(e) => {
            proof {
                assert(!strings_parse_ok(r0, 4));
            }
            return Err(e);
        },
    };
    let ghost r1 = data.rest();
    let b = match read_name_list(data) {
        Ok(v) => v,
        Err(e) => {
            proof {
                assert(!strings_parse_ok(r1, 3));
                assert(!strings_parse_ok(r0, 4));
            }
            return Err(e);
        },
    };
    let ghost r2 = data.rest();
    let c = match read_name_list(data) {
        Ok(v) => v,
        Err(e) => {
            proof {
                assert(!strings_parse_ok(r2, 2));
                assert(!strings_parse_ok(r1, 3));
                assert(!strings_parse_ok(r0, 4));
            }
            return Err(e);
        },
    };
    let ghost r3 = data.rest();
    let d = match read_name_list(data) {
        Ok(v) => v,
        Err(e) => {
            proof {
                assert(!strings_parse_ok(r3, 1));
                assert(!strings_parse_ok(r2, 2));
                assert(!strings_parse_ok(r1, 3));
                assert(!strings_parse_ok(r0, 4));
            }
            return Err(e);
        },
    };
    proof {
        assert(strings_parse_ok(data.rest(), 0));
        assert(strings_parse_ok(r3, 1));
        assert(strings_parse_ok(r2, 2));
        assert(strings_parse_ok(r1, 3));
        assert(strings_parse_ok(r0, 4));
        assert(r0 =~= string_bytes(names_join(names_view(a@))) + string_bytes(
            names_join(names_view(b@)),
        ) + string_bytes(names_join(names_view(c@))) + string_bytes(
            names_join(names_view(d@)),
        ) + data.rest());
    }
    Ok((a, b, c, d))
}

/// Parses the server's KEXINIT payload into its eight name-lists,
/// past the message code and the sixteen-byte cookie. It succeeds
/// exactly when seventeen header bytes and eight `string` reads fit.
#[verifier::rlimit(100)]
pub fn processing_server_algorithm(data: &mut Data) -> (r: Result<ServerAlgorithms, SshError>)
    requires
        old(data).wf(),
    ensures
        final(data).wf(),
        r is Ok <==> old(data).rest().len() >= 17 && strings_parse_ok(
            old(data).rest().skip(17),
            8,
        ),
        r is Ok ==> {
            let a = r->Ok_0;
            old(data).rest().len() >= 17 && old(data).rest().skip(17)
                == string_bytes(names_join(names_view(a.kex_algorithms@)))
                + string_bytes(names_join(names_view(a.host_key_algorithms@)))
                + string_bytes(names_join(names_view(a.encryption_c2s@)))
                + string_bytes(names_join(names_view(a.encryption_s2c@)))
                + string_bytes(names_join(names_view(a.mac_c2s@)))
                + string_bytes(names_join(names_view(a.mac_s2c@)))
                + string_bytes(names_join(names_view(a.compression_c2s@)))
                + string_bytes(names_join(names_view(a.compression_s2c@)))
                + final(data).rest()
        },
        r is Err ==> r == Err::<ServerAlgorithms, SshError>(SshError::Truncated),
{
    if data.remaining() < 17 {
        return Err(SshError::Truncated);
    }
    match data.get_u8() {
        Ok(_) => (),
        Err(e) => {
            return Err(e);
        },
    }
    match data.skip(16) {
        Ok(_) => (),
        Err(e) => {
            return Err(e);
        },
    }
    let ghost lists_start = data.rest();
    proof {
        assert(lists_start =~= old(data).rest().skip(17));
    }
    let (kex_algorithms, host_key_algorithms, encryption_c2s, encryption_s2c) =
        match read_four_name_lists(data) {
        Ok(v) => v,
        Err(e) => {
            proof {
                if strings_parse_ok(lists_start, 8) {
                    crate::codec::lemma_strings_parse_prefix(lists_start, 4, 4);
                }
            }
            return Err(e);
        },
    };
    let ghost mid = data.rest();
    let (mac_c2s, mac_s2c, compression_c2s, compression_s2c) = match read_four_name_lists(
        data,
    ) {
        Ok(v) => v,
        Err(e) => {
            proof {
                assert(strings_parse_ok(lists_start, 8) == strings_parse_ok(mid, 4));
            }
            return Err(e);
        },
    };
    proof {
        assert(strings_parse_ok(lists_start, 8) == strings_parse_ok(mid, 4));
    }
    let a = ServerAlgorithms {
        kex_algorithms,
        host_key_algorithms,
        encryption_c2s,
        encryption_s2c,
        mac_c2s,
        mac_s2c,
        compression_c2s,
        compression_s2c,
    };
    proof {
        assert(lists_start =~= string_bytes(names_join(names_view(a.kex_algorithms@)))
            + string_bytes(names_join(names_view(a.host_key_algorithms@)))
            + string_bytes(names_join(names_view(a.encryption_c2s@)))
            + string_bytes(names_join(names_view(a.encryption_s2c@)))
            + string_bytes(names_join(names_view(a.mac_c2s@)))
            + string_bytes(names_join(names_view(a.mac_s2c@)))
            + string_bytes(names_join(names_view(a.compression_c2s@)))
            + string_bytes(names_join(names_view(a.compression_s2c@))) + data.rest());
    }
    Ok(a)
}

/// Negotiates every family by first-client-match. It succeeds
/// exactly when every family has a match; otherwise the first family
/// without one, in protocol order, names the error.
pub fn negotiate_all(cfg: &Config, srv: &ServerAlgorithms) -> (r: Result<Negotiated, SshError>)
    ensures
        r is Ok ==> {
            let n = r->Ok_0;
            &&& spec_first_match(names_view(cfg.kex_algorithms@), names_view(srv.kex_algorithms@))
                == Some(n.kex@)
            &&& spec_first_match(
                names_view(cfg.host_key_algorithms@),
                names_view(srv.host_key_algorithms@),
            ) == Some(n.host_key@)
            &&& spec_first_match(names_view(cfg.encryption_c2s@), names_view(srv.encryption_c2s@))
                == Some(n.encryption_c2s@)
            &&& spec_first_match(names_view(cfg.encryption_s2c@), names_view(srv.encryption_s2c@))
                == Some(n.encryption_s2c@)
            &&& spec_first_match(names_view(cfg.mac_c2s@), names_view(srv.mac_c2s@))
                == Some(n.mac_c2s@)
            &&& spec_first_match(names_view(cfg.mac_s2c@), names_view(srv.mac_s2c@))
                == Some(n.mac_s2c@)
            &&& spec_first_match(names_view(cfg.compression_c2s@), names_view(srv.compression_c2s@))
                == Some(n.compression_c2s@)
            &&& spec_first_match(names_view(cfg.compression_s2c@), names_view(srv.compression_s2c@))
                == Some(n.compression_s2c@)
        },
        r is Err ==> (r->Err_0 matches SshError::NoCommonAlgorithm(_)),
        spec_first_match(names_view(cfg.kex_algorithms@), names_view(srv.kex_algorithms@))
            is None ==> r == Err::<Negotiated, SshError>(
            SshError::NoCommonAlgorithm(AlgFamily::KeyExchange),
        ),
        r is Err && r->Err_0 == SshError::NoCommonAlgorithm(AlgFamily::KeyExchange)
            <==> spec_first_match(
            names_view(cfg.kex_algorithms@),
            names_view(srv.kex_algorithms@),
        ) is None,
        r is Err && r->Err_0 == SshError::NoCommonAlgorithm(AlgFamily::HostKey)
            <==> spec_first_match(
            names_view(cfg.kex_algorithms@),
            names_view(srv.kex_algorithms@),
        ) is Some && spec_first_match(
            names_view(cfg.host_key_algorithms@),
            names_view(srv.host_key_algorithms@),
        ) is None,
        r is Ok <==> spec_first_match(
            names_view(cfg.kex_algorithms@),
            names_view(srv.kex_algorithms@),
        ) is Some && spec_first_match(
            names_view(cfg.host_key_algorithms@),
            names_view(srv.host_key_algorithms@),
        ) is Some && spec_first_match(
            names_view(cfg.encryption_c2s@),
            names_view(srv.encryption_c2s@),
        ) is Some && spec_first_match(
            names_view(cfg.encryption_s2c@),
            names_view(srv.encryption_s2c@),
        ) is Some && spec_first_match(names_view(cfg.mac_c2s@), names_view(srv.mac_c2s@))
            is Some && spec_first_match(names_view(cfg.mac_s2c@), names_view(srv.mac_s2c@))
            is Some && spec_first_match(
            names_view(cfg.compression_c2s@),
            names_view(srv.compression_c2s@),
        ) is Some && spec_first_match(
            names_view(cfg.compression_s2c@),
            names_view(srv.compression_s2c@),
        ) is Some,
{
    let kex = choose_algorithm(&cfg.kex_algorithms, &srv.kex_algorithms, AlgFamily::KeyExchange)?;
    let host_key = choose_algorithm(
        &cfg.host_key_algorithms,
        &srv.host_key_algorithms,
        AlgFamily::HostKey,
    )?;
    let encryption_c2s = choose_algorithm(
        &cfg.encryption_c2s,
        &srv.encryption_c2s,
        AlgFamily::EncryptionClientToServer,
    )?;
    let encryption_s2c = choose_algorithm(
        &cfg.encryption_s2c,
        &srv.encryption_s2c,
        AlgFamily::EncryptionServerToClient,
    )?;
    let mac_c2s = choose_algorithm(&cfg.mac_c2s, &srv.mac_c2s, AlgFamily::MacClientToServer)?;
    let mac_s2c = choose_algorithm(&cfg.mac_s2c, &srv.mac_s2c, AlgFamily::MacServerToClient)?;
    let compression_c2s = choose_algorithm(
        &cfg.compression_c2s,
        &srv.compression_c2s,
        AlgFamily::CompressionClientToServer,
    )?;
    let compression_s2c = choose_algorithm(
        &cfg.compression_s2c,
        &srv.compression_s2c,
        AlgFamily::CompressionServerToClient,
    )?;
    Ok(Negotiated {
        kex,
        host_key,
        encryption_c2s,
        encryption_s2c,
        mac_c2s,
        mac_s2c,
        compression_c2s,
        compression_s2c,
    })
}

/// A buffered payload the KEXINIT wait accepts: the server's
/// KEXINIT, within the packet-size cap.
pub open spec fn is_kexinit_payload(p: Seq<u8>) -> bool {
    p.len() > 0 && p[0] == SSH_MSG_KEXINIT && p.len() <= MAX_PAYLOAD
}

/// A buffered payload of a later exchange phase, a protocol
/// violation while KEXINIT is still awaited.
pub open spec fn is_later_kex_payload(p: Seq<u8>) -> bool {
    p.len() > 0 && (p[0] == SSH_MSG_NEWKEYS || p[0] == SSH_MSG_KEX_ECDH_REPLY)
}

/// A buffered payload that carries the peer's NEWKEYS.
pub open spec fn is_newkeys_payload(p: Seq<u8>) -> bool {
    p.len() > 0 && p[0] == SSH_MSG_NEWKEYS
}

/// The K_S field of a KEX_ECDH_REPLY payload.
pub open spec fn ecdh_reply_k_s(b: Seq<u8>) -> Seq<u8> {
    string_body(b.skip(1))
}

/// The Q_S field of a KEX_ECDH_REPLY payload.
pub open spec fn ecdh_reply_q_s(b: Seq<u8>) -> Seq<u8> {
    string_body(skip_string(b.skip(1)))
}

/// The signature blob of a KEX_ECDH_REPLY payload: itself a pair of
/// `string`s, the algorithm name and the raw signature bytes.
pub open spec fn ecdh_reply_sig_blob(b: Seq<u8>) -> Seq<u8> {
    string_body(skip_string(skip_string(b.skip(1))))
}

/// The raw signature bytes inside the blob.
pub open spec fn ecdh_reply_signature(b: Seq<u8>) -> Seq<u8> {
    string_body(skip_string(ecdh_reply_sig_blob(b)))
}

/// A payload that parses as KEX_ECDH_REPLY: the code, three
/// `string`s, and two `string`s inside the third.
pub open spec fn ecdh_reply_shape(b: Seq<u8>) -> bool {
    &&& b.len() >= 1
    &&& b[0] == SSH_MSG_KEX_ECDH_REPLY
    &&& strings_parse_ok(b.skip(1), 3)
    &&& strings_parse_ok(ecdh_reply_sig_blob(b), 2)
}

/// One key exchange in progress.
pub struct Kex {
    pub phase: KexPhase,
    pub h: Transcript,
    /// The exchange hash of the first exchange, frozen for the
    /// session's lifetime; empty until the first exchange finishes.
    pub session_id: Vec<u8>,
    /// The digest of the current exchange hash, once computed.
    pub exchange_hash: Vec<u8>,
    pub server_algorithms: Option<ServerAlgorithms>,
    pub negotiated: Option<Negotiated>,
}

impl Kex {
    pub fn new() -> (r: Kex)
        ensures
            r.phase == KexPhase::Start,
            r.session_id@.len() == 0,
            !r.h.have_v_c && !r.h.have_v_s && !r.h.have_i_c && !r.h.have_i_s,
            !r.h.have_k_s && !r.h.have_q_c && !r.h.have_q_s && !r.h.have_k,
            r.h.lens_ok(),
            r.negotiated is None,
    {
        Kex {
            phase: KexPhase::Start,
            h: Transcript::new(),
            session_id: Vec::new(),
            exchange_hash: Vec::new(),
            server_algorithms: None,
            negotiated: None,
        }
    }

    /// Records both version strings after the banner exchange: the
    /// client's own, and the server's line as read off the wire,
    /// which must begin with `SSH-2.0-` and end with `\r\n`.
    pub fn set_versions(&mut self, client_version: &Vec<u8>, server_line: &Vec<u8>) -> (r: Result<
        (),
        SshError,
    >)
        requires
            old(self).phase == KexPhase::Start,
            !old(self).h.have_v_c,
            !old(self).h.have_v_s,
            client_version@.len() <= u32::MAX,
        ensures
            r is Ok <==> crate::banner::banner_ok(server_line@),
            r is Ok ==> final(self).h.v_c@ == client_version@ && final(self).h.have_v_c
                && final(self).h.v_s@ == server_line@.subrange(0, server_line@.len() - 2)
                && final(self).h.have_v_s && final(self).phase == KexPhase::Start
                && final(self).h.have_i_c == old(self).h.have_i_c
                && final(self).h.have_i_s == old(self).h.have_i_s
                && final(self).h.have_k_s == old(self).h.have_k_s
                && final(self).h.have_q_c == old(self).h.have_q_c
                && final(self).h.have_q_s == old(self).h.have_q_s
                && final(self).h.have_k == old(self).h.have_k
                && (old(self).h.lens_ok() && server_line@.len() <= u32::MAX
                    ==> final(self).h.lens_ok())
                && final(self).session_id@ == old(self).session_id@,
            r is Err ==> r == Err::<(), SshError>(SshError::BannerInvalid)
                && *final(self) == *old(self),
    {
        let v_s = match crate::banner::parse_banner(server_line) {
            Ok(v) => v,
            Err(e) => {
                return Err(e);
            },
        };
        self.h.set_v_c(clone_bytes(client_version));
        self.h.set_v_s(v_s);
        Ok(())
    }

    /// Builds the client KEXINIT from the configuration and the
    /// sixteen random cookie bytes the caller drew, records it as
    /// I_C, and queues it for the peer. It demands the banner
    /// exchange done: after an invalid banner no KEXINIT can be
    /// queued, because only `set_versions`'s success sets V_S.
    pub fn send_algorithm(&mut self, session: &mut Session, cfg: &Config, cookie: &Vec<u8>) -> (r:
        Result<(), SshError>)
        requires
            old(self).phase == KexPhase::Start,
            old(self).h.have_v_c,
            old(self).h.have_v_s,
            !old(self).h.have_i_c,
            cfg.wf(),
            cookie@.len() == 16,
        ensures
            r == Ok::<(), SshError>(()),
            final(session).outbound@.len() == old(session).outbound@.len() + 1,
            final(session).outbound@.take(old(session).outbound@.len() as int)
                == old(session).outbound@,
            final(session).outbound@.last()@ == kexinit_bytes(*cfg, cookie@),
            final(session).inbound@ == old(session).inbound@,
            final(session).seq_out == old(session).seq_out,
            final(session).seq_in == old(session).seq_in,
            final(session).out_mode == old(session).out_mode,
            final(session).in_mode == old(session).in_mode,
            final(self).phase == KexPhase::SentKexInit,
            final(self).h == (Transcript {
                i_c: final(self).h.i_c,
                have_i_c: true,
                ..old(self).h
            }),
            final(self).h.i_c@ == kexinit_bytes(*cfg, cookie@),
            final(self).session_id@ == old(self).session_id@,
            final(self).negotiated == old(self).negotiated,
    {
        let payload = build_kexinit(cfg, cookie);
        self.h.set_i_c(clone_bytes(&payload));
        let r = session.write(payload);
        proof {
            assert(r is Ok);
        }
        self.phase = KexPhase::SentKexInit;
        Ok(())
    }

    /// Reads buffered messages until the server's KEXINIT arrives,
    /// records its full payload as I_S, parses its name-lists and
    /// negotiates every family by first-client-match. A message of a
    /// later exchange phase first is a protocol violation; anything
    /// else is ignored, as the exchange permits. `Timeout` comes
    /// exactly when no buffered payload is a KEXINIT or a violation.
    pub fn receive_algorithm(&mut self, session: &mut Session, cfg: &Config) -> (r: Result<
        (),
        SshError,
    >)
        requires
            old(self).phase == KexPhase::SentKexInit,
            !old(self).h.have_i_s,
            old(self).h.lens_ok(),
        ensures
            r is Ok ==> final(self).phase == KexPhase::GotKexInit && final(self).h.have_i_s
                && final(self).h.lens_ok() && (final(self).negotiated matches Some(n)
                && final(self).server_algorithms matches Some(srv)
                && spec_first_match(
                    names_view(cfg.kex_algorithms@),
                    names_view(srv.kex_algorithms@),
                ) == Some(n.kex@) && spec_first_match(
                    names_view(cfg.host_key_algorithms@),
                    names_view(srv.host_key_algorithms@),
                ) == Some(n.host_key@) && spec_first_match(
                    names_view(cfg.encryption_c2s@),
                    names_view(srv.encryption_c2s@),
                ) == Some(n.encryption_c2s@) && spec_first_match(
                    names_view(cfg.encryption_s2c@),
                    names_view(srv.encryption_s2c@),
                ) == Some(n.encryption_s2c@) && spec_first_match(
                    names_view(cfg.mac_c2s@),
                    names_view(srv.mac_c2s@),
                ) == Some(n.mac_c2s@) && spec_first_match(
                    names_view(cfg.mac_s2c@),
                    names_view(srv.mac_s2c@),
                ) == Some(n.mac_s2c@) && spec_first_match(
                    names_view(cfg.compression_c2s@),
                    names_view(srv.compression_c2s@),
                ) == Some(n.compression_c2s@) && spec_first_match(
                    names_view(cfg.compression_s2c@),
                    names_view(srv.compression_s2c@),
                ) == Some(n.compression_s2c@)),
            r is Ok ==> (exists|k: int| 0 <= k < old(session).inbound@.len()
                && is_kexinit_payload(#[trigger] old(session).inbound@[k]@)
                && final(self).h.i_s@ == old(session).inbound@[k]@),
            r is Ok ==> (final(self).server_algorithms matches Some(srv)
                && final(self).h.i_s@.len() >= 17 && (exists|tail: Seq<u8>|
                final(self).h.i_s@.skip(17) == string_bytes(
                    names_join(names_view(srv.kex_algorithms@)),
                ) + string_bytes(names_join(names_view(srv.host_key_algorithms@)))
                    + string_bytes(names_join(names_view(srv.encryption_c2s@)))
                    + string_bytes(names_join(names_view(srv.encryption_s2c@)))
                    + string_bytes(names_join(names_view(srv.mac_c2s@)))
                    + string_bytes(names_join(names_view(srv.mac_s2c@)))
                    + string_bytes(names_join(names_view(srv.compression_c2s@)))
                    + string_bytes(names_join(names_view(srv.compression_s2c@)))
                    + tail)),
            r == Err::<(), SshError>(SshError::Timeout) ==> forall|i: int|
                0 <= i < old(session).inbound@.len()
                    ==> !is_kexinit_payload(#[trigger] old(session).inbound@[i]@)
                    && !is_later_kex_payload(old(session).inbound@[i]@),
            r is Err ==> final(self).phase == old(self).phase
                && final(self).negotiated == old(self).negotiated,
            r is Err ==> (r->Err_0 == SshError::Timeout || r->Err_0 == SshError::Truncated
                || (r->Err_0 matches SshError::NoCommonAlgorithm(_)) || (r->Err_0
                matches SshError::ProtocolViolation(_, _))),
            final(self).session_id@ == old(self).session_id@,
            final(self).h.have_v_c == old(self).h.have_v_c,
            final(self).h.v_c@ == old(self).h.v_c@,
            final(self).h.have_v_s == old(self).h.have_v_s,
            final(self).h.v_s@ == old(self).h.v_s@,
            final(self).h.have_i_c == old(self).h.have_i_c,
            final(self).h.i_c@ == old(self).h.i_c@,
            final(self).h.have_k_s == old(self).h.have_k_s,
            final(self).h.have_q_c == old(self).h.have_q_c,
            final(self).h.have_q_s == old(self).h.have_q_s,
            final(self).h.have_k == old(self).h.have_k,
            final(session).outbound@ == old(session).outbound@,
            final(session).seq_out == old(session).seq_out,
            final(session).seq_in == old(session).seq_in,
            final(session).out_mode == old(session).out_mode,
            final(session).in_mode == old(session).in_mode,
    {
        let ghost inbound0 = session.inbound@;
        let ghost mut consumed: int = 0;
        loop
            invariant
                self.phase == old(self).phase,
                self.h == old(self).h,
                self.session_id@ == old(self).session_id@,
                self.negotiated == old(self).negotiated,
                session.outbound@ == old(session).outbound@,
                session.seq_out == old(session).seq_out,
                session.seq_in == old(session).seq_in,
                session.out_mode == old(session).out_mode,
                session.in_mode == old(session).in_mode,
                !self.h.have_i_s,
                self.h.lens_ok(),
                inbound0 == old(session).inbound@,
                0 <= consumed <= inbound0.len(),
                session.inbound@ == inbound0.skip(consumed),
                forall|i: int| 0 <= i < consumed
                    ==> !is_kexinit_payload(#[trigger] inbound0[i]@)
                        && !is_later_kex_payload(inbound0[i]@),
            decreases session.inbound@.len(),
        {
            let payload = match session.read() {
                Ok(p) => p,
                Err(_) => {
                    return Err(SshError::Timeout);
                },
            };
            proof {
                assert(inbound0.skip(consumed)[0] == inbound0[consumed]);
                assert(inbound0.skip(consumed).skip(1) =~= inbound0.skip(consumed + 1));
            }
            if payload.len() > 0 {
                let code = payload[0];
                if code == SSH_MSG_NEWKEYS || code == SSH_MSG_KEX_ECDH_REPLY {
                    return Err(SshError::ProtocolViolation(SSH_MSG_KEXINIT, code));
                }
                if code == SSH_MSG_KEXINIT && payload.len() <= MAX_PAYLOAD {
                    self.h.set_i_s(clone_bytes(&payload));
                    let mut d = Data::from_vec(payload);
                    let srv = match processing_server_algorithm(&mut d) {
                        Ok(a) => a,
                        Err(e) => {
                            return Err(e);
                        },
                    };
                    let neg = match negotiate_all(cfg, &srv) {
                        Ok(n) => n,
                        Err(e) => {
                            return Err(e);
                        },
                    };
                    self.server_algorithms = Some(srv);
                    self.negotiated = Some(neg);
                    self.phase = KexPhase::GotKexInit;
                    proof {
                        assert(is_kexinit_payload(inbound0[consumed]@));
                        assert(self.h.i_s@ == inbound0[consumed]@);
                    }
                    return Ok(());
                }
            }
            proof {
                consumed = consumed + 1;
            }
        }
    }

    /// Queues the `KEX_ECDH_INIT` message carrying the client's
    /// ephemeral public value, and records it as Q_C.
    pub fn send_qc(&mut self, session: &mut Session, q_c: &Vec<u8>) -> (r: Result<(), SshError>)
        requires
            old(self).phase == KexPhase::GotKexInit,
            !old(self).h.have_q_c,
            q_c@.len() + 5 <= MAX_PAYLOAD,
        ensures
            r == Ok::<(), SshError>(()),
            final(session).outbound@.len() == old(session).outbound@.len() + 1,
            final(session).outbound@.take(old(session).outbound@.len() as int)
                == old(session).outbound@,
            final(session).outbound@.last()@ == seq![SSH_MSG_KEX_ECDH_INIT]
                + string_bytes(q_c@),
            final(session).inbound@ == old(session).inbound@,
            final(session).seq_out == old(session).seq_out,
            final(session).seq_in == old(session).seq_in,
            final(session).out_mode == old(session).out_mode,
            final(session).in_mode == old(session).in_mode,
            final(self).phase == KexPhase::SentInit,
            final(self).h == (Transcript {
                q_c: final(self).h.q_c,
                have_q_c: true,
                ..old(self).h
            }),
            final(self).h.q_c@ == q_c@,
            final(self).session_id@ == old(self).session_id@,
            final(self).negotiated == old(self).negotiated,
    {
        let mut msg = Data::new();
        msg.put_u8(SSH_MSG_KEX_ECDH_INIT);
        msg.put_string(q_c.as_slice());
        self.h.set_q_c(clone_bytes(q_c));
        let r = session.write(msg.as_vec());
        proof {
            assert(r is Ok);
        }
        self.phase = KexPhase::SentInit;
        Ok(())
    }

    /// Takes the `KEX_ECDH_REPLY` payload and the shared secret the
    /// caller computed from Q_S, completes the transcript, and
    /// returns the canonical exchange-hash input together with the
    /// raw signature bytes extracted from the signature blob. The
    /// caller hashes the first, verifies the second over the digest,
    /// and reports both results back.
    #[verifier::rlimit(100)]
    pub fn generate_session_id_and_get_signature(
        &mut self,
        reply: Vec<u8>,
        shared_secret: &Vec<u8>,
    ) -> (r: Result<(Vec<u8>, Vec<u8>), SshError>)
        requires
            old(self).phase == KexPhase::SentInit,
            old(self).h.have_v_c && old(self).h.have_v_s && old(self).h.have_i_c
                && old(self).h.have_i_s && old(self).h.have_q_c,
            !old(self).h.have_k_s && !old(self).h.have_q_s && !old(self).h.have_k,
            old(self).h.lens_ok(),
            reply@.len() <= MAX_PAYLOAD,
            shared_secret@.len() + 1 <= u32::MAX,
        ensures
            r is Ok <==> ecdh_reply_shape(reply@),
            r is Ok ==> {
                let (hb, sig) = r->Ok_0;
                &&& final(self).h.complete()
                &&& final(self).h.k_s@ == ecdh_reply_k_s(reply@)
                &&& final(self).h.q_s@ == ecdh_reply_q_s(reply@)
                &&& final(self).h.k@ == shared_secret@
                &&& sig@ == ecdh_reply_signature(reply@)
                &&& hb@ == exchange_hash_input(
                    old(self).h.v_c@,
                    old(self).h.v_s@,
                    old(self).h.i_c@,
                    old(self).h.i_s@,
                    ecdh_reply_k_s(reply@),
                    old(self).h.q_c@,
                    ecdh_reply_q_s(reply@),
                    shared_secret@,
                )
                &&& final(self).phase == KexPhase::SentInit
            },
            reply@.len() >= 1 && reply@[0] != SSH_MSG_KEX_ECDH_REPLY ==> r == Err::<
                (Vec<u8>, Vec<u8>),
                SshError,
            >(SshError::ProtocolViolation(SSH_MSG_KEX_ECDH_REPLY, reply@[0])),
            r is Err ==> (r->Err_0 == SshError::Truncated || (r->Err_0
                matches SshError::ProtocolViolation(_, _))),
            final(self).session_id@ == old(self).session_id@,
            final(self).negotiated == old(self).negotiated,
    {
        let mut d = Data::from_vec(reply);
        let code = match d.get_u8() {
            Ok(c) => c,
            Err(e) => {
                return Err(e);
            },
        };
        if code != SSH_MSG_KEX_ECDH_REPLY {
            return Err(SshError::ProtocolViolation(SSH_MSG_KEX_ECDH_REPLY, code));
        }
        let ghost b1 = reply@.skip(1);
        proof {
            assert(d.rest() =~= b1);
        }
        let k_s = match d.get_string() {
            Ok(v) => v,
            Err(e) => {
                proof {
                    assert(!strings_parse_ok(b1, 3));
                }
                return Err(e);
            },
        };
        proof {
            // the read equation pins the field against the spec parse
            // and bounds its length by the wire encoding
            lemma_string_parse_step(k_s@, d.rest());
            assert(k_s@ == string_body(b1));
        }
        let ghost b2 = skip_string(b1);
        let q_s = match d.get_string() {
            Ok(v) => v,
            Err(e) => {
                proof {
                    assert(!strings_parse_ok(b2, 2));
                    assert(!strings_parse_ok(b1, 3));
                }
                return Err(e);
            },
        };
        proof {
            lemma_string_parse_step(q_s@, d.rest());
            assert(q_s@ == string_body(b2));
        }
        let ghost b3 = skip_string(b2);
        let sig_blob = match d.get_string() {
            Ok(v) => v,
            Err(e) => {
                proof {
                    assert(!strings_parse_ok(b3, 1));
                    assert(!strings_parse_ok(b2, 2));
                    assert(!strings_parse_ok(b1, 3));
                }
                return Err(e);
            },
        };
        proof {
            lemma_string_parse_step(sig_blob@, d.rest());
            assert(sig_blob@ == string_body(b3));
            assert(sig_blob@ == ecdh_reply_sig_blob(reply@));
            assert(strings_parse_ok(d.rest(), 0));
            assert(strings_parse_ok(b3, 1));
            assert(strings_parse_ok(b2, 2));
            assert(strings_parse_ok(b1, 3));
        }
        self.h.set_k_s(k_s);
        self.h.set_q_s(q_s);
        self.h.set_k(clone_bytes(shared_secret));
        proof {
            assert(string_bytes(self.h.k_s@).len() == 4 + self.h.k_s@.len());
            assert(string_bytes(self.h.q_s@).len() == 4 + self.h.q_s@.len());
            assert(self.h.lens_ok());
        }
        let hash_input = self.h.to_bytes();
        // the blob is `string sig_alg_name` then `string sig_bytes`
        let ghost blob = sig_blob@;
        let mut sd = Data::from_vec(sig_blob);
        let alg = match sd.get_string() {
            Ok(v) => v,
            Err(e) => {
                proof {
                    assert(!strings_parse_ok(blob, 2));
                }
                return Err(e);
            },
        };
        proof {
            lemma_string_parse_step(alg@, sd.rest());
        }
        let ghost blob2 = skip_string(blob);
        let signature = match sd.get_string() {
            Ok(v) => v,
            Err(e) => {
                proof {
                    assert(!strings_parse_ok(blob2, 1));
                    assert(!strings_parse_ok(blob, 2));
                }
                return Err(e);
            },
        };
        proof {
            lemma_string_parse_step(signature@, sd.rest());
            assert(signature@ == string_body(blob2));
            assert(signature@ == ecdh_reply_signature(reply@));
            assert(strings_parse_ok(skip_string(blob2), 0));
            assert(strings_parse_ok(blob2, 1));
            assert(strings_parse_ok(blob, 2));
            assert(ecdh_reply_shape(reply@));
        }
        Ok((hash_input, signature))
    }

    /// Records the digest the caller computed over the exchange-hash
    /// input. On the first exchange the digest becomes the session
    /// id, frozen from then on.
    pub fn set_exchange_digest(&mut self, digest: &Vec<u8>)
        requires
            old(self).phase == KexPhase::SentInit,
        ensures
            final(self).phase == KexPhase::GotReply,
            final(self).exchange_hash@ == digest@,
            old(self).session_id@.len() == 0 ==> final(self).session_id@ == digest@,
            old(self).session_id@.len() > 0 ==> final(self).session_id@ == old(
                self,
            ).session_id@,
            final(self).h == old(self).h,
            final(self).negotiated == old(self).negotiated,
    {
        self.exchange_hash = clone_bytes(digest);
        if self.session_id.len() == 0 {
            self.session_id = clone_bytes(digest);
        }
        self.phase = KexPhase::GotReply;
    }

    /// Begins a new exchange on an established session: the
    /// transcript starts afresh with both version strings carried
    /// over, and the session id stays frozen to the first exchange
    /// hash, as a rekey demands.
    pub fn rekey(&mut self)
        requires
            old(self).phase == KexPhase::Established,
        ensures
            final(self).phase == KexPhase::Start,
            final(self).h.have_v_c && final(self).h.have_v_s,
            final(self).h.v_c@ == old(self).h.v_c@,
            final(self).h.v_s@ == old(self).h.v_s@,
            !final(self).h.have_i_c && !final(self).h.have_i_s,
            !final(self).h.have_k_s && !final(self).h.have_q_c,
            !final(self).h.have_q_s && !final(self).h.have_k,
            old(self).h.lens_ok() ==> final(self).h.lens_ok(),
            final(self).session_id@ == old(self).session_id@,
            final(self).negotiated is None,
    {
        let v_c = clone_bytes(&self.h.v_c);
        let v_s = clone_bytes(&self.h.v_s);
        let mut fresh = Transcript::new();
        fresh.set_v_c(v_c);
        fresh.set_v_s(v_s);
        self.h = fresh;
        self.server_algorithms = None;
        self.negotiated = None;
        self.phase = KexPhase::Start;
    }

    /// Queues NEWKEYS. The outbound mode stays as it is: NEWKEYS
    /// itself, and everything queued before it, must still be framed
    /// under the old mode. Once the caller has drained the frames it
    /// installs the new outbound keys with
    /// [`Session::install_out_keys`], which asks for exactly that.
    pub fn new_keys(&mut self, session: &mut Session) -> (r: Result<(), SshError>)
        requires
            old(self).phase == KexPhase::Verified,
        ensures
            r == Ok::<(), SshError>(()),
            final(session).outbound@.len() == old(session).outbound@.len() + 1,
            final(session).outbound@.take(old(session).outbound@.len() as int)
                == old(session).outbound@,
            final(session).outbound@.last()@ == seq![SSH_MSG_NEWKEYS],
            final(session).inbound@ == old(session).inbound@,
            final(session).seq_out == old(session).seq_out,
            final(session).seq_in == old(session).seq_in,
            final(session).out_mode == old(session).out_mode,
            final(session).in_mode == old(session).in_mode,
            final(self).phase == KexPhase::SentNewKeys,
            final(self).h == old(self).h,
            final(self).session_id@ == old(self).session_id@,
    {
        let mut msg: Vec<u8> = Vec::new();
        msg.push(SSH_MSG_NEWKEYS);
        let r = session.write(msg);
        proof {
            assert(r is Ok);
        }
        self.phase = KexPhase::SentNewKeys;
        Ok(())
    }

    /// The signature gate and the NEWKEYS switchover. When the
    /// caller's verification of the host-key signature over the
    /// exchange hash failed, the exchange stops with
    /// `SignatureMismatch` and nothing is sent: in particular no
    /// NEWKEYS ever goes out. Otherwise NEWKEYS is queued, still
    /// under the old outbound mode, and buffered messages are read
    /// until the peer's NEWKEYS switches the inbound keys; the
    /// outbound switch follows once the caller drains the frames.
    /// `Timeout` comes exactly when no buffered payload carries the
    /// NEWKEYS code.
    pub fn verify_signature_and_new_keys(
        &mut self,
        session: &mut Session,
        signature_valid: bool,
        in_mode: CipherMode,
    ) -> (r: Result<(), SshError>)
        requires
            old(self).phase == KexPhase::GotReply,
            in_mode.wf(),
        ensures
            !signature_valid ==> r == Err::<(), SshError>(SshError::SignatureMismatch)
                && *final(session) == *old(session) && final(self).phase == old(self).phase,
            signature_valid ==> final(session).outbound@.len() == old(
                session,
            ).outbound@.len() + 1 && final(session).outbound@.take(
                old(session).outbound@.len() as int,
            ) == old(session).outbound@ && final(session).outbound@.last()@
                == seq![SSH_MSG_NEWKEYS] && final(session).out_mode == old(session).out_mode
                && final(session).seq_out == old(session).seq_out
                && final(session).seq_in == old(session).seq_in,
            signature_valid && r is Ok ==> final(self).phase == KexPhase::Established
                && final(session).in_mode == Some(in_mode) && (exists|i: int|
                0 <= i < old(session).inbound@.len()
                    && is_newkeys_payload(#[trigger] old(session).inbound@[i]@)),
            signature_valid && r is Err ==> r == Err::<(), SshError>(SshError::Timeout)
                && final(self).phase == KexPhase::SentNewKeys
                && final(session).in_mode == old(session).in_mode
                && (forall|i: int| 0 <= i < old(session).inbound@.len()
                    ==> !is_newkeys_payload(#[trigger] old(session).inbound@[i]@)),
            final(self).session_id@ == old(self).session_id@,
            final(self).h == old(self).h,
    {
        if !signature_valid {
            return Err(SshError::SignatureMismatch);
        }
        self.phase = KexPhase::Verified;
        let r = self.new_keys(session);
        proof {
            assert(r is Ok);
        }
        let ghost inbound0 = session.inbound@;
        let ghost mut consumed: int = 0;
        loop
            invariant
                signature_valid,
                self.phase == KexPhase::SentNewKeys,
                self.h == old(self).h,
                self.session_id@ == old(self).session_id@,
                session.outbound@.len() == old(session).outbound@.len() + 1,
                session.outbound@.take(old(session).outbound@.len() as int)
                    == old(session).outbound@,
                session.outbound@.last()@ == seq![SSH_MSG_NEWKEYS],
                session.out_mode == old(session).out_mode,
                session.in_mode == old(session).in_mode,
                session.seq_out == old(session).seq_out,
                session.seq_in == old(session).seq_in,
                in_mode.wf(),
                inbound0 == old(session).inbound@,
                0 <= consumed <= inbound0.len(),
                session.inbound@ == inbound0.skip(consumed),
                forall|i: int| 0 <= i < consumed
                    ==> !is_newkeys_payload(#[trigger] inbound0[i]@),
            decreases session.inbound@.len(),
        {
            let payload = match session.read() {
                Ok(p) => p,
                Err(_) => {
                    return Err(SshError::Timeout);
                },
            };
            proof {
                assert(inbound0.skip(consumed)[0] == inbound0[consumed]);
                assert(inbound0.skip(consumed).skip(1) =~= inbound0.skip(consumed + 1));
            }
            if payload.len() > 0 {
                if payload[0] == SSH_MSG_NEWKEYS {
                    session.install_in_keys(in_mode);
                    self.phase = KexPhase::Established;
                    return Ok(());
                }
            }
            proof {
                consumed = consumed + 1;
            }
        }
    }
}

} // verus!
