//! The exchange-hash transcript H: the ordered tuple
//! (V_C, V_S, I_C, I_S, K_S, Q_C, Q_S, K). Each field is settable
//! exactly once per exchange; the hash input encodes the first seven
//! as SSH `string`s and K as `mpint`, in exactly that order.

use vstd::prelude::*;

use crate::codec::{string_bytes, mpint_bytes, Data};

verus! {

/// The canonical byte sequence both peers hash: every field as an SSH
/// `string`, in transcript order, with the shared secret as `mpint`.
pub open spec fn exchange_hash_input(
    v_c: Seq<u8>,
    v_s: Seq<u8>,
    i_c: Seq<u8>,
    i_s: Seq<u8>,
    k_s: Seq<u8>,
    q_c: Seq<u8>,
    q_s: Seq<u8>,
    k: Seq<u8>,
) -> Seq<u8> {
    string_bytes(v_c) + string_bytes(v_s) + string_bytes(i_c) + string_bytes(i_s)
        + string_bytes(k_s) + string_bytes(q_c) + string_bytes(q_s) + mpint_bytes(k)
}

pub struct Transcript {
    pub v_c: Vec<u8>,
    pub v_s: Vec<u8>,
    pub i_c: Vec<u8>,
    pub i_s: Vec<u8>,
    pub k_s: Vec<u8>,
    pub q_c: Vec<u8>,
    pub q_s: Vec<u8>,
    pub k: Vec<u8>,
    pub have_v_c: bool,
    pub have_v_s: bool,
    pub have_i_c: bool,
    pub have_i_s: bool,
    pub have_k_s: bool,
    pub have_q_c: bool,
    pub have_q_s: bool,
    pub have_k: bool,
}

impl Transcript {
    /// All eight fields are present: the hash input may be computed.
    pub open spec fn complete(&self) -> bool {
        self.have_v_c && self.have_v_s && self.have_i_c && self.have_i_s && self.have_k_s
            && self.have_q_c && self.have_q_s && self.have_k
    }

    /// Every present field fits its wire encoding.
    pub open spec fn lens_ok(&self) -> bool {
        &&& self.v_c@.len() <= u32::MAX
        &&& self.v_s@.len() <= u32::MAX
        &&& self.i_c@.len() <= u32::MAX
        &&& self.i_s@.len() <= u32::MAX
        &&& self.k_s@.len() <= u32::MAX
        &&& self.q_c@.len() <= u32::MAX
        &&& self.q_s@.len() <= u32::MAX
        &&& self.k@.len() + 1 <= u32::MAX
    }

    pub fn new() -> (r: Transcript)
        ensures
            !r.have_v_c && !r.have_v_s && !r.have_i_c && !r.have_i_s,
            !r.have_k_s && !r.have_q_c && !r.have_q_s && !r.have_k,
            r.lens_ok(),
    {
        Transcript {
            v_c: Vec::new(),
            v_s: Vec::new(),
            i_c: Vec::new(),
            i_s: Vec::new(),
            k_s: Vec::new(),
            q_c: Vec::new(),
            q_s: Vec::new(),
            k: Vec::new(),
            have_v_c: false,
            have_v_s: false,
            have_i_c: false,
            have_i_s: false,
            have_k_s: false,
            have_q_c: false,
            have_q_s: false,
            have_k: false,
        }
    }

    pub fn set_v_c(&mut self, v: Vec<u8>)
        requires
            !old(self).have_v_c,
        ensures
            *final(self) == (Transcript { v_c: v, have_v_c: true, ..*old(self) }),
    {
        self.v_c = v;
        self.have_v_c = true;
    }

    pub fn set_v_s(&mut self, v: Vec<u8>)
        requires
            !old(self).have_v_s,
        ensures
            *final(self) == (Transcript { v_s: v, have_v_s: true, ..*old(self) }),
    {
        self.v_s = v;
        self.have_v_s = true;
    }

    pub fn set_i_c(&mut self, v: Vec<u8>)
        requires
            !old(self).have_i_c,
        ensures
            *final(self) == (Transcript { i_c: v, have_i_c: true, ..*old(self) }),
    {
        self.i_c = v;
        self.have_i_c = true;
    }

    pub fn set_i_s(&mut self, v: Vec<u8>)
        requires
            !old(self).have_i_s,
        ensures
            *final(self) == (Transcript { i_s: v, have_i_s: true, ..*old(self) }),
    {
        self.i_s = v;
        self.have_i_s = true;
    }

    pub fn set_k_s(&mut self, v: Vec<u8>)
        requires
            !old(self).have_k_s,
        ensures
            *final(self) == (Transcript { k_s: v, have_k_s: true, ..*old(self) }),
    {
        self.k_s = v;
        self.have_k_s = true;
    }

    pub fn set_q_c(&mut self, v: Vec<u8>)
        requires
            !old(self).have_q_c,
        ensures
            *final(self) == (Transcript { q_c: v, have_q_c: true, ..*old(self) }),
    {
        self.q_c = v;
        self.have_q_c = true;
    }

    pub fn set_q_s(&mut self, v: Vec<u8>)
        requires
            !old(self).have_q_s,
        ensures
            *final(self) == (Transcript { q_s: v, have_q_s: true, ..*old(self) }),
    {
        self.q_s = v;
        self.have_q_s = true;
    }

    pub fn set_k(&mut self, v: Vec<u8>)
        requires
            !old(self).have_k,
        ensures
            *final(self) == (Transcript { k: v, have_k: true, ..*old(self) }),
    {
        self.k = v;
        self.have_k = true;
    }

    /// The canonical hash input of a complete transcript: exactly
    /// `exchange_hash_input` over the eight fields.
    pub fn to_bytes(&self) -> (r: Vec<u8>)
        requires
            self.complete(),
            self.lens_ok(),
        ensures
            r@ == exchange_hash_input(
                self.v_c@,
                self.v_s@,
                self.i_c@,
                self.i_s@,
                self.k_s@,
                self.q_c@,
                self.q_s@,
                self.k@,
            ),
    {
        let mut out = Data::new();
        out.put_string(self.v_c.as_slice());
        out.put_string(self.v_s.as_slice());
        out.put_string(self.i_c.as_slice());
        out.put_string(self.i_s.as_slice());
        out.put_string(self.k_s.as_slice());
        out.put_string(self.q_c.as_slice());
        out.put_string(self.q_s.as_slice());
        out.put_mpint(self.k.as_slice());
        proof {
            assert(out.buf@ =~= exchange_hash_input(
                self.v_c@,
                self.v_s@,
                self.i_c@,
                self.i_s@,
                self.k_s@,
                self.q_c@,
                self.q_s@,
                self.k@,
            ));
        }
        out.as_vec()
    }
}

/// Transcript canonicality: two transcripts over the same eight
/// values produce byte-identical input to the exchange hash.
pub proof fn lemma_transcript_canonical(a: Transcript, b: Transcript)
    requires
        a.v_c@ == b.v_c@,
        a.v_s@ == b.v_s@,
        a.i_c@ == b.i_c@,
        a.i_s@ == b.i_s@,
        a.k_s@ == b.k_s@,
        a.q_c@ == b.q_c@,
        a.q_s@ == b.q_s@,
        a.k@ == b.k@,
    ensures
        exchange_hash_input(a.v_c@, a.v_s@, a.i_c@, a.i_s@, a.k_s@, a.q_c@, a.q_s@, a.k@)
            == exchange_hash_input(b.v_c@, b.v_s@, b.i_c@, b.i_s@, b.k_s@, b.q_c@, b.q_s@, b.k@),
{
}

} // verus!
