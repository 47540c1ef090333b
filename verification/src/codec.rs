//! Reader-writer for the SSH wire primitives over a byte buffer:
//! `byte`, `boolean`, `uint32`, `uint64`, `string` and `mpint`.
//!
//! Writers append to the buffer and never fail; readers consume from a
//! cursor and fail with [`SshError::Truncated`] when fewer bytes remain
//! than required, leaving the cursor where it was.

use vstd::prelude::*;

use crate::error::SshError;

verus! {

/// The four big-endian bytes of `n`.
pub open spec fn u32_be_bytes(n: u32) -> Seq<u8> {
    seq![(n >> 24) as u8, (n >> 16) as u8, (n >> 8) as u8, n as u8]
}

/// The eight big-endian bytes of `n`.
pub open spec fn u64_be_bytes(n: u64) -> Seq<u8> {
    seq![
        (n >> 56) as u8,
        (n >> 48) as u8,
        (n >> 40) as u8,
        (n >> 32) as u8,
        (n >> 24) as u8,
        (n >> 16) as u8,
        (n >> 8) as u8,
        n as u8,
    ]
}

/// The `u32` read big-endian from four bytes.
pub open spec fn u32_from_be(b0: u8, b1: u8, b2: u8, b3: u8) -> u32 {
    ((b0 as u32) << 24) | ((b1 as u32) << 16) | ((b2 as u32) << 8) | (b3 as u32)
}

/// Reading back the four big-endian bytes of `n` gives `n`.
pub proof fn lemma_u32_be_round_trip(n: u32)
    ensures
        u32_from_be(
            u32_be_bytes(n)[0],
            u32_be_bytes(n)[1],
            u32_be_bytes(n)[2],
            u32_be_bytes(n)[3],
        ) == n,
{
    assert(((((n >> 24) as u8) as u32) << 24) | ((((n >> 16) as u8) as u32) << 16)
        | ((((n >> 8) as u8) as u32) << 8) | ((n as u8) as u32) == n) by (bit_vector);
}

/// Writing back the `u32` read big-endian from four bytes gives the
/// same four bytes.
pub proof fn lemma_u32_from_be_round_trip(b0: u8, b1: u8, b2: u8, b3: u8)
    ensures
        u32_be_bytes(u32_from_be(b0, b1, b2, b3)) == seq![b0, b1, b2, b3],
{
    let n = u32_from_be(b0, b1, b2, b3);
    assert((((((b0 as u32) << 24) | ((b1 as u32) << 16) | ((b2 as u32) << 8) | (b3 as u32))
        >> 24) as u8) == b0) by (bit_vector);
    assert((((((b0 as u32) << 24) | ((b1 as u32) << 16) | ((b2 as u32) << 8) | (b3 as u32))
        >> 16) as u8) == b1) by (bit_vector);
    assert((((((b0 as u32) << 24) | ((b1 as u32) << 16) | ((b2 as u32) << 8) | (b3 as u32))
        >> 8) as u8) == b2) by (bit_vector);
    assert(((((b0 as u32) << 24) | ((b1 as u32) << 16) | ((b2 as u32) << 8) | (b3 as u32))
        as u8) == b3) by (bit_vector);
    assert(u32_be_bytes(n) =~= seq![b0, b1, b2, b3]);
}

/// The SSH `string` encoding: a `u32` length prefix, then the bytes.
pub open spec fn string_bytes(s: Seq<u8>) -> Seq<u8> {
    u32_be_bytes(s.len() as u32) + s
}

/// How an SSH `string` sits in a longer byte sequence: the length
/// field carries exactly `s.len()`, the body is `s`, and what follows
/// is untouched. This pins the parse: a reader that follows the
/// length field recovers `s` and `tail` and nothing else.
pub proof fn lemma_string_bytes_parse(s: Seq<u8>, tail: Seq<u8>)
    requires
        s.len() <= u32::MAX,
    ensures
        (string_bytes(s) + tail).len() == 4 + s.len() + tail.len(),
        u32_from_be(
            (string_bytes(s) + tail)[0],
            (string_bytes(s) + tail)[1],
            (string_bytes(s) + tail)[2],
            (string_bytes(s) + tail)[3],
        ) == s.len(),
        (string_bytes(s) + tail).subrange(4, 4 + s.len() as int) == s,
        (string_bytes(s) + tail).skip(4 + s.len() as int) == tail,
{
    lemma_u32_be_round_trip(s.len() as u32);
    let w = string_bytes(s) + tail;
    assert(w[0] == u32_be_bytes(s.len() as u32)[0]);
    assert(w[1] == u32_be_bytes(s.len() as u32)[1]);
    assert(w[2] == u32_be_bytes(s.len() as u32)[2]);
    assert(w[3] == u32_be_bytes(s.len() as u32)[3]);
    assert(w.subrange(4, 4 + s.len() as int) =~= s);
    assert(w.skip(4 + s.len() as int) =~= tail);
}

/// The length a `string` read would follow at the front of `b`:
/// the `u32` field when four bytes carry it and the body fits in
/// what remains, `-1` when the read must fail.
pub open spec fn string_parse_len(b: Seq<u8>) -> int {
    if b.len() < 4 {
        -1
    } else if 4 + u32_from_be(b[0], b[1], b[2], b[3]) <= b.len() {
        u32_from_be(b[0], b[1], b[2], b[3]) as int
    } else {
        -1
    }
}

/// The body of the `string` at the front of `b`.
pub open spec fn string_body(b: Seq<u8>) -> Seq<u8> {
    b.subrange(4, 4 + string_parse_len(b))
}

/// What follows the `string` at the front of `b`.
pub open spec fn skip_string(b: Seq<u8>) -> Seq<u8> {
    b.skip(4 + string_parse_len(b))
}

/// Whether `count` consecutive `string` reads succeed on `b`.
pub open spec fn strings_parse_ok(b: Seq<u8>, count: nat) -> bool
    decreases count,
{
    if count == 0 {
        true
    } else {
        string_parse_len(b) >= 0 && strings_parse_ok(skip_string(b), (count - 1) as nat)
    }
}

/// When `m + n` consecutive `string` reads fit, so do the first `m`.
pub proof fn lemma_strings_parse_prefix(b: Seq<u8>, m: nat, n: nat)
    requires
        strings_parse_ok(b, (m + n) as nat),
    ensures
        strings_parse_ok(b, m),
    decreases m,
{
    if m > 0 {
        lemma_strings_parse_prefix(skip_string(b), (m - 1) as nat, n);
    }
}

/// A byte sequence that begins with the encoding of `s` parses back
/// to exactly `s`, with exactly `tail` left over.
pub proof fn lemma_string_parse_step(s: Seq<u8>, tail: Seq<u8>)
    requires
        s.len() <= u32::MAX,
    ensures
        string_parse_len(string_bytes(s) + tail) == s.len(),
        string_body(string_bytes(s) + tail) == s,
        skip_string(string_bytes(s) + tail) == tail,
{
    lemma_string_bytes_parse(s, tail);
}

/// `s` with its leading zero bytes removed.
pub open spec fn strip_zeros(s: Seq<u8>) -> Seq<u8>
    decreases s.len(),
{
    if s.len() == 0 {
        s
    } else if s[0] == 0 {
        strip_zeros(s.subrange(1, s.len() as int))
    } else {
        s
    }
}

/// The body of the SSH `mpint` encoding of a non-negative integer given
/// big-endian: leading zeros dropped, one `0x00` prepended when the
/// most significant bit is set, empty for zero.
pub open spec fn mpint_body(s: Seq<u8>) -> Seq<u8> {
    let t = strip_zeros(s);
    if t.len() > 0 && t[0] >= 0x80 {
        seq![0u8] + t
    } else {
        t
    }
}

/// The full `mpint` encoding: the body as an SSH `string`.
pub open spec fn mpint_bytes(s: Seq<u8>) -> Seq<u8> {
    string_bytes(mpint_body(s))
}

/// `strip_zeros` never lengthens a sequence.
pub proof fn lemma_strip_zeros_len(s: Seq<u8>)
    ensures
        strip_zeros(s).len() <= s.len(),
    decreases s.len(),
{
    if s.len() > 0 && s[0] == 0 {
        lemma_strip_zeros_len(s.subrange(1, s.len() as int));
    }
}

/// When the first `i` bytes are zero, stripping may start at `i`.
proof fn lemma_strip_zeros_skip(s: Seq<u8>, i: int)
    requires
        0 <= i <= s.len(),
        forall|j: int| 0 <= j < i ==> s[j] == 0,
    ensures
        strip_zeros(s) == strip_zeros(s.subrange(i, s.len() as int)),
    decreases i,
{
    if i > 0 {
        let tail = s.subrange(1, s.len() as int);
        lemma_strip_zeros_skip(tail, i - 1);
        assert(tail.subrange(i - 1, tail.len() as int) =~= s.subrange(i, s.len() as int));
    } else {
        assert(s.subrange(0, s.len() as int) =~= s);
    }
}

/// A byte buffer with a read cursor, carrying one message payload.
pub struct Data {
    pub buf: Vec<u8>,
    pub pos: usize,
}

impl Data {
    /// The cursor never passes the end of the buffer.
    pub open spec fn wf(&self) -> bool {
        self.pos <= self.buf@.len()
    }

    /// The bytes not yet consumed.
    pub open spec fn rest(&self) -> Seq<u8> {
        self.buf@.subrange(self.pos as int, self.buf@.len() as int)
    }

    pub fn new() -> (r: Data)
        ensures
            r.buf@ == Seq::<u8>::empty(),
            r.pos == 0,
            r.wf(),
    {
        Data { buf: Vec::new(), pos: 0 }
    }

    pub fn from_vec(v: Vec<u8>) -> (r: Data)
        ensures
            r.buf@ == v@,
            r.pos == 0,
            r.wf(),
            r.rest() == v@,
    {
        let d = Data { buf: v, pos: 0 };
        proof {
            assert(d.rest() =~= d.buf@);
        }
        d
    }

    pub fn as_vec(self) -> (r: Vec<u8>)
        ensures
            r@ == self.buf@,
    {
        self.buf
    }

    pub fn remaining(&self) -> (r: usize)
        requires
            self.wf(),
        ensures
            r == self.rest().len(),
    {
        self.buf.len() - self.pos
    }

    pub fn is_empty(&self) -> (r: bool)
        requires
            self.wf(),
        ensures
            r == (self.rest().len() == 0),
    {
        self.buf.len() == self.pos
    }

    pub fn put_u8(&mut self, b: u8)
        ensures
            final(self).buf@ == old(self).buf@.push(b),
            final(self).pos == old(self).pos,
    {
        self.buf.push(b);
    }

    /// Writes `true` as 1 and `false` as 0.
    pub fn put_bool(&mut self, b: bool)
        ensures
            final(self).buf@ == old(self).buf@.push(if b { 1u8 } else { 0u8 }),
            final(self).pos == old(self).pos,
    {
        self.buf.push(if b { 1u8 } else { 0u8 });
    }

    pub fn put_u32(&mut self, n: u32)
        ensures
            final(self).buf@ == old(self).buf@ + u32_be_bytes(n),
            final(self).pos == old(self).pos,
    {
        self.buf.push(#[verifier::truncate] ((n >> 24) as u8));
        self.buf.push(#[verifier::truncate] ((n >> 16) as u8));
        self.buf.push(#[verifier::truncate] ((n >> 8) as u8));
        self.buf.push(#[verifier::truncate] (n as u8));
        proof {
            assert(self.buf@ =~= old(self).buf@ + u32_be_bytes(n));
        }
    }

    pub fn put_u64(&mut self, n: u64)
        ensures
            final(self).buf@ == old(self).buf@ + u64_be_bytes(n),
            final(self).pos == old(self).pos,
    {
        self.buf.push(#[verifier::truncate] ((n >> 56) as u8));
        self.buf.push(#[verifier::truncate] ((n >> 48) as u8));
        self.buf.push(#[verifier::truncate] ((n >> 40) as u8));
        self.buf.push(#[verifier::truncate] ((n >> 32) as u8));
        self.buf.push(#[verifier::truncate] ((n >> 24) as u8));
        self.buf.push(#[verifier::truncate] ((n >> 16) as u8));
        self.buf.push(#[verifier::truncate] ((n >> 8) as u8));
        self.buf.push(#[verifier::truncate] (n as u8));
        proof {
            assert(self.buf@ =~= old(self).buf@ + u64_be_bytes(n));
        }
    }

    /// Appends raw bytes with no length prefix.
    pub fn put_bytes(&mut self, v: &[u8])
        ensures
            final(self).buf@ == old(self).buf@ + v@,
            final(self).pos == old(self).pos,
    {
        let mut i: usize = 0;
        while i < v.len()
            invariant
                i <= v@.len(),
                self.buf@ == old(self).buf@ + v@.subrange(0, i as int),
                self.pos == old(self).pos,
            decreases v@.len() - i,
        {
            self.buf.push(v[i]);
            i = i + 1;
            proof {
                assert(self.buf@ =~= old(self).buf@ + v@.subrange(0, i as int));
            }
        }
        proof {
            assert(v@.subrange(0, v@.len() as int) =~= v@);
        }
    }

    /// Appends an SSH `string`: a `u32` length, then the bytes.
    pub fn put_string(&mut self, v: &[u8])
        requires
            v@.len() <= u32::MAX,
        ensures
            final(self).buf@ == old(self).buf@ + string_bytes(v@),
            final(self).pos == old(self).pos,
    {
        self.put_u32(v.len() as u32);
        self.put_bytes(v);
        proof {
            assert(self.buf@ =~= old(self).buf@ + string_bytes(v@));
        }
    }

    /// Appends the bytes of `v` from index `from` on, with no prefix.
    fn put_tail(&mut self, v: &[u8], from: usize)
        requires
            from <= v@.len(),
        ensures
            final(self).buf@ == old(self).buf@ + v@.subrange(from as int, v@.len() as int),
            final(self).pos == old(self).pos,
    {
        let mut j: usize = from;
        while j < v.len()
            invariant
                from <= j <= v@.len(),
                self.buf@ == old(self).buf@ + v@.subrange(from as int, j as int),
                self.pos == old(self).pos,
            decreases v@.len() - j,
        {
            self.buf.push(v[j]);
            j = j + 1;
            proof {
                assert(self.buf@ =~= old(self).buf@ + v@.subrange(from as int, j as int));
            }
        }
    }

    /// Appends the `mpint` encoding of a non-negative integer given as
    /// big-endian bytes.
    pub fn put_mpint(&mut self, v: &[u8])
        requires
            v@.len() + 1 <= u32::MAX,
        ensures
            final(self).buf@ == old(self).buf@ + mpint_bytes(v@),
            final(self).pos == old(self).pos,
    {
        let mut i: usize = 0;
        while i < v.len() && v[i] == 0
            invariant
                i <= v@.len(),
                forall|j: int| 0 <= j < i ==> v@[j] == 0,
            decreases v@.len() - i,
        {
            i = i + 1;
        }
        proof {
            lemma_strip_zeros_skip(v@, i as int);
            lemma_strip_zeros_len(v@);
        }
        let ghost stripped = strip_zeros(v@);
        proof {
            assert(v@.subrange(i as int, v@.len() as int) =~= stripped);
        }
        if i == v.len() {
            // all zero bytes: the integer is zero, encoded empty
            self.put_u32(0);
            proof {
                assert(mpint_body(v@) =~= Seq::<u8>::empty());
                assert(self.buf@ =~= old(self).buf@ + mpint_bytes(v@));
            }
        } else if v[i] >= 0x80 {
            self.put_u32((v.len() - i) as u32 + 1);
            self.put_u8(0);
            self.put_tail(v, i);
            proof {
                assert(mpint_body(v@) =~= seq![0u8] + stripped);
                assert(self.buf@ =~= old(self).buf@ + mpint_bytes(v@));
            }
        } else {
            self.put_u32((v.len() - i) as u32);
            self.put_tail(v, i);
            proof {
                assert(mpint_body(v@) =~= stripped);
                assert(self.buf@ =~= old(self).buf@ + mpint_bytes(v@));
            }
        }
    }

    pub fn get_u8(&mut self) -> (r: Result<u8, SshError>)
        requires
            old(self).wf(),
        ensures
            final(self).wf(),
            final(self).buf@ == old(self).buf@,
            old(self).rest().len() >= 1 ==> r == Ok::<u8, SshError>(old(self).rest()[0])
                && final(self).rest() == old(self).rest().skip(1),
            old(self).rest().len() < 1 ==> r == Err::<u8, SshError>(SshError::Truncated)
                && *final(self) == *old(self),
    {
        if self.pos < self.buf.len() {
            let b = self.buf[self.pos];
            self.pos = self.pos + 1;
            proof {
                assert(self.rest() =~= old(self).rest().skip(1));
            }
            Ok(b)
        } else {
            Err(SshError::Truncated)
        }
    }

    /// Reads one byte as a boolean: nonzero means `true`.
    pub fn get_bool(&mut self) -> (r: Result<bool, SshError>)
        requires
            old(self).wf(),
        ensures
            final(self).wf(),
            final(self).buf@ == old(self).buf@,
            old(self).rest().len() >= 1 ==> r == Ok::<bool, SshError>(old(self).rest()[0] != 0)
                && final(self).rest() == old(self).rest().skip(1),
            old(self).rest().len() < 1 ==> r == Err::<bool, SshError>(SshError::Truncated)
                && *final(self) == *old(self),
    {
        match self.get_u8() {
            Ok(b) => Ok(b != 0),
            Err(e) => Err(e),
        }
    }

    pub fn get_u32(&mut self) -> (r: Result<u32, SshError>)
        requires
            old(self).wf(),
        ensures
            final(self).wf(),
            final(self).buf@ == old(self).buf@,
            old(self).rest().len() >= 4 ==> r == Ok::<u32, SshError>(
                u32_from_be(
                    old(self).rest()[0],
                    old(self).rest()[1],
                    old(self).rest()[2],
                    old(self).rest()[3],
                ),
            ) && final(self).rest() == old(self).rest().skip(4),
            old(self).rest().len() < 4 ==> r == Err::<u32, SshError>(SshError::Truncated)
                && *final(self) == *old(self),
    {
        if self.buf.len() - self.pos >= 4 {
            let b0 = self.buf[self.pos];
            let b1 = self.buf[self.pos + 1];
            let b2 = self.buf[self.pos + 2];
            let b3 = self.buf[self.pos + 3];
            self.pos = self.pos + 4;
            proof {
                assert(self.rest() =~= old(self).rest().skip(4));
            }
            Ok(((b0 as u32) << 24) | ((b1 as u32) << 16) | ((b2 as u32) << 8) | (b3 as u32))
        } else {
            Err(SshError::Truncated)
        }
    }

    /// Advances the cursor over `n` bytes without reading them.
    pub fn skip(&mut self, n: usize) -> (r: Result<(), SshError>)
        requires
            old(self).wf(),
        ensures
            final(self).wf(),
            final(self).buf@ == old(self).buf@,
            old(self).rest().len() >= n ==> r == Ok::<(), SshError>(())
                && final(self).rest() == old(self).rest().skip(n as int),
            old(self).rest().len() < n ==> r == Err::<(), SshError>(SshError::Truncated)
                && *final(self) == *old(self),
    {
        if self.buf.len() - self.pos >= n {
            self.pos = self.pos + n;
            proof {
                assert(self.rest() =~= old(self).rest().skip(n as int));
            }
            Ok(())
        } else {
            Err(SshError::Truncated)
        }
    }

    /// Reads an SSH `string`: a `u32` length, then that many bytes.
    /// It succeeds exactly when four length bytes remain and the
    /// length they carry fits in what follows; otherwise the cursor
    /// does not move.
    pub fn get_string(&mut self) -> (r: Result<Vec<u8>, SshError>)
        requires
            old(self).wf(),
        ensures
            final(self).wf(),
            final(self).buf@ == old(self).buf@,
            r is Ok <==> old(self).rest().len() >= 4 && 4 + u32_from_be(
                old(self).rest()[0],
                old(self).rest()[1],
                old(self).rest()[2],
                old(self).rest()[3],
            ) <= old(self).rest().len(),
            r is Ok ==> {
                let s = r->Ok_0@;
                s.len() <= u32::MAX && old(self).rest() == string_bytes(s) + final(self).rest()
            },
            r is Err ==> r == Err::<Vec<u8>, SshError>(SshError::Truncated)
                && *final(self) == *old(self),
    {
        if self.buf.len() - self.pos < 4 {
            return Err(SshError::Truncated);
        }
        let b0 = self.buf[self.pos];
        let b1 = self.buf[self.pos + 1];
        let b2 = self.buf[self.pos + 2];
        let b3 = self.buf[self.pos + 3];
        let n = ((b0 as u32) << 24) | ((b1 as u32) << 16) | ((b2 as u32) << 8) | (b3 as u32);
        if ((self.buf.len() - self.pos - 4) as u64) < (n as u64) {
            return Err(SshError::Truncated);
        }
        let n = n as usize;
        let mut out: Vec<u8> = Vec::new();
        let start = self.pos + 4;
        let len = self.buf.len();
        let mut i: usize = 0;
        while i < n
            invariant
                i <= n,
                start + n <= len,
                len == self.buf@.len(),
                out@ == self.buf@.subrange(start as int, (start + i) as int),
                self.pos == old(self).pos,
                self.buf@ == old(self).buf@,
                start == self.pos + 4,
            decreases n - i,
        {
            out.push(self.buf[start + i]);
            i = i + 1;
            proof {
                assert(out@ =~= self.buf@.subrange(start as int, (start + i) as int));
            }
        }
        self.pos = start + n;
        proof {
            lemma_u32_from_be_round_trip(b0, b1, b2, b3);
            assert(old(self).rest() =~= string_bytes(out@) + self.rest());
        }
        Ok(out)
    }
}

} // verus!
