//! The cipher-suite key derivation composition: each key is
//! `HASH(K || H || X || session_id)` for its letter X, extended by
//! `HASH(K || H || key_so_far)` until the required length is reached,
//! with K encoded as `mpint`. The hash itself runs outside; this
//! module builds its inputs byte-exactly and cuts the result.

use vstd::prelude::*;

use crate::codec::{mpint_bytes, Data};

verus! {

/// The letter of the first key: the IV client-to-server. The letters
/// run from here through the MAC key server-to-client.
pub const KDF_LETTER_A: u8 = 65;

/// The last key letter.
pub const KDF_LETTER_F: u8 = 70;

/// The first hash input for key letter `letter`.
pub open spec fn kdf_initial_input(
    k: Seq<u8>,
    h: Seq<u8>,
    letter: u8,
    session_id: Seq<u8>,
) -> Seq<u8> {
    mpint_bytes(k) + h + seq![letter] + session_id
}

/// The hash input that extends key material already derived.
pub open spec fn kdf_extend_input(k: Seq<u8>, h: Seq<u8>, key_so_far: Seq<u8>) -> Seq<u8> {
    mpint_bytes(k) + h + key_so_far
}

/// Builds `K || H || X || session_id` for one key letter, K as
/// `mpint`.
pub fn build_kdf_initial_input(
    k: &Vec<u8>,
    h: &Vec<u8>,
    letter: u8,
    session_id: &Vec<u8>,
) -> (r: Vec<u8>)
    requires
        k@.len() + 1 <= u32::MAX,
        KDF_LETTER_A <= letter <= KDF_LETTER_F,
    ensures
        r@ == kdf_initial_input(k@, h@, letter, session_id@),
{
    let mut out = Data::new();
    out.put_mpint(k.as_slice());
    out.put_bytes(h.as_slice());
    out.put_u8(letter);
    out.put_bytes(session_id.as_slice());
    proof {
        assert(out.buf@ =~= kdf_initial_input(k@, h@, letter, session_id@));
    }
    out.as_vec()
}

/// Builds `K || H || key_so_far` for one extension round, K as
/// `mpint`.
pub fn build_kdf_extend_input(k: &Vec<u8>, h: &Vec<u8>, key_so_far: &Vec<u8>) -> (r: Vec<u8>)
    requires
        k@.len() + 1 <= u32::MAX,
    ensures
        r@ == kdf_extend_input(k@, h@, key_so_far@),
{
    let mut out = Data::new();
    out.put_mpint(k.as_slice());
    out.put_bytes(h.as_slice());
    out.put_bytes(key_so_far.as_slice());
    proof {
        assert(out.buf@ =~= kdf_extend_input(k@, h@, key_so_far@));
    }
    out.as_vec()
}

/// Cuts derived material to exactly the key length a suite needs.
pub fn key_prefix(material: &Vec<u8>, n: usize) -> (r: Vec<u8>)
    requires
        n <= material@.len(),
    ensures
        r@ == material@.subrange(0, n as int),
{
    let mut out: Vec<u8> = Vec::new();
    let mut i: usize = 0;
    while i < n
        invariant
            i <= n,
            n <= material@.len(),
            out@ == material@.subrange(0, i as int),
        decreases n - i,
    {
        out.push(material[i]);
        i = i + 1;
        proof {
            assert(out@ =~= material@.subrange(0, i as int));
        }
    }
    out
}

} // verus!
