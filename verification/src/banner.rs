//! The version exchange: `SSH-2.0-<ident>\r\n` is the first line each
//! peer sends. The stripped lines become V_C and V_S in the transcript.

use vstd::prelude::*;

use crate::error::SshError;

verus! {

/// The bytes of `"SSH-2.0-"`.
pub open spec fn ssh2_prefix() -> Seq<u8> {
    seq![83u8, 83u8, 72u8, 45u8, 50u8, 46u8, 48u8, 45u8]
}

/// The bytes of `"\r\n"`.
pub open spec fn crlf() -> Seq<u8> {
    seq![13u8, 10u8]
}

/// A line is a valid version banner when it is the version string,
/// beginning with `SSH-2.0-`, followed by `\r\n`.
pub open spec fn banner_ok(line: Seq<u8>) -> bool {
    &&& line.len() >= 10
    &&& line.subrange(0, 8) == ssh2_prefix()
    &&& line.subrange(line.len() - 2, line.len() as int) == crlf()
}

/// The client's own version string: `SSH-2.0-` followed by its
/// identifier, without the line ending.
pub fn make_version_string(ident: &Vec<u8>) -> (r: Vec<u8>)
    ensures
        r@ == ssh2_prefix() + ident@,
{
    let mut out: Vec<u8> = Vec::new();
    out.push(83);
    out.push(83);
    out.push(72);
    out.push(45);
    out.push(50);
    out.push(46);
    out.push(48);
    out.push(45);
    let mut i: usize = 0;
    while i < ident.len()
        invariant
            i <= ident@.len(),
            out@ == ssh2_prefix() + ident@.subrange(0, i as int),
        decreases ident@.len() - i,
    {
        out.push(ident[i]);
        i = i + 1;
        proof {
            assert(out@ =~= ssh2_prefix() + ident@.subrange(0, i as int));
        }
    }
    proof {
        assert(out@ =~= ssh2_prefix() + ident@);
    }
    out
}

/// The wire line for a version string: the string plus `\r\n`.
pub fn make_banner_line(version: &Vec<u8>) -> (r: Vec<u8>)
    ensures
        r@ == version@ + crlf(),
{
    let mut out: Vec<u8> = Vec::new();
    let mut i: usize = 0;
    while i < version.len()
        invariant
            i <= version@.len(),
            out@ == version@.subrange(0, i as int),
        decreases version@.len() - i,
    {
        out.push(version[i]);
        i = i + 1;
        proof {
            assert(out@ =~= version@.subrange(0, i as int));
        }
    }
    out.push(13);
    out.push(10);
    proof {
        assert(out@ =~= version@ + crlf());
    }
    out
}

/// Validates the peer's banner line and returns the version string
/// with the line ending stripped: exactly the lines beginning with
/// `SSH-2.0-` pass; anything else is `BannerInvalid`.
pub fn parse_banner(line: &Vec<u8>) -> (r: Result<Vec<u8>, SshError>)
    ensures
        r is Ok <==> banner_ok(line@),
        r is Ok ==> r->Ok_0@ == line@.subrange(0, line@.len() - 2),
        r is Err ==> r == Err::<Vec<u8>, SshError>(SshError::BannerInvalid),
{
    if line.len() < 10 {
        return Err(SshError::BannerInvalid);
    }
    if line[line.len() - 2] != 13 || line[line.len() - 1] != 10 {
        proof {
            assert(line@.subrange(line@.len() - 2, line@.len() as int) != crlf());
        }
        return Err(SshError::BannerInvalid);
    }
    if line[0] != 83 || line[1] != 83 || line[2] != 72 || line[3] != 45 || line[4] != 50
        || line[5] != 46 || line[6] != 48 || line[7] != 45 {
        proof {
            assert(line@.subrange(0, 8) != ssh2_prefix());
        }
        return Err(SshError::BannerInvalid);
    }
    proof {
        assert(line@.subrange(0, 8) =~= ssh2_prefix());
        assert(line@.subrange(line@.len() - 2, line@.len() as int) =~= crlf());
    }
    let end = line.len() - 2;
    let mut out: Vec<u8> = Vec::new();
    let mut i: usize = 0;
    while i < end
        invariant
            i <= end,
            end == line@.len() - 2,
            out@ == line@.subrange(0, i as int),
        decreases end - i,
    {
        out.push(line[i]);
        i = i + 1;
        proof {
            assert(out@ =~= line@.subrange(0, i as int));
        }
    }
    Ok(out)
}

/// Finds the first `\r\n` in a receive buffer: `Some(i)` when the
/// earliest pair sits at `i`, `None` when the buffer holds none yet.
pub fn find_line_end(buf: &Vec<u8>) -> (r: Option<usize>)
    ensures
        match r {
            Some(i) => i + 2 <= buf@.len() && buf@[i as int] == 13 && buf@[i + 1] == 10
                && forall|j: int| 0 <= j < i ==> !(#[trigger] buf@[j] == 13 && buf@[j + 1] == 10),
            None => forall|j: int| 0 <= j && j + 1 < buf@.len()
                ==> !(#[trigger] buf@[j] == 13 && buf@[j + 1] == 10),
        },
{
    if buf.len() < 2 {
        return None;
    }
    let mut i: usize = 0;
    while i < buf.len() - 1
        invariant
            i + 1 <= buf@.len(),
            forall|j: int| 0 <= j < i ==> !(#[trigger] buf@[j] == 13 && buf@[j + 1] == 10),
        decreases buf@.len() - i,
    {
        if buf[i] == 13 && buf[i + 1] == 10 {
            return Some(i);
        }
        i = i + 1;
    }
    None
}

} // verus!
