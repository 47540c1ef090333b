//! Algorithm negotiation: name-lists and the first-client-match rule.
//!
//! A name-list is a comma-separated sequence of ASCII tokens carried
//! as one SSH `string`. For each family the chosen algorithm is the
//! first entry of the client's list that the server's list also holds.

use vstd::prelude::*;

use crate::error::{AlgFamily, SshError};

verus! {

/// The views of a list of byte-string names.
pub open spec fn names_view(l: Seq<Vec<u8>>) -> Seq<Seq<u8>> {
    l.map(|i: int, v: Vec<u8>| v@)
}

/// Whether `n` occurs in `l`.
pub open spec fn seq_has_name(l: Seq<Seq<u8>>, n: Seq<u8>) -> bool {
    exists|i: int| 0 <= i < l.len() && l[i] == n
}

/// The first-client-match rule: the first entry of `c` that occurs in
/// `s`, if any.
pub open spec fn spec_first_match(c: Seq<Seq<u8>>, s: Seq<Seq<u8>>) -> Option<Seq<u8>>
    decreases c.len(),
{
    if c.len() == 0 {
        None
    } else if seq_has_name(s, c[0]) {
        Some(c[0])
    } else {
        spec_first_match(c.skip(1), s)
    }
}

/// The comma-joined wire form of a name-list.
pub open spec fn names_join(l: Seq<Seq<u8>>) -> Seq<u8>
    decreases l.len(),
{
    if l.len() == 0 {
        Seq::empty()
    } else if l.len() == 1 {
        l[0]
    } else {
        names_join(l.drop_last()) + seq![44u8] + l.last()
    }
}

/// No byte of any name is a comma.
pub open spec fn names_comma_free(l: Seq<Seq<u8>>) -> bool {
    forall|i: int, j: int| 0 <= i < l.len() && 0 <= j < l[i].len() ==> #[trigger] l[i][j] != 44
}

/// A byte-for-byte copy.
pub fn clone_bytes(v: &Vec<u8>) -> (r: Vec<u8>)
    ensures
        r@ == v@,
{
    let mut out: Vec<u8> = Vec::new();
    let mut i: usize = 0;
    while i < v.len()
        invariant
            i <= v@.len(),
            out@ == v@.subrange(0, i as int),
        decreases v@.len() - i,
    {
        out.push(v[i]);
        i = i + 1;
        proof {
            assert(out@ =~= v@.subrange(0, i as int));
        }
    }
    proof {
        assert(out@ =~= v@);
    }
    out
}

/// Byte-string equality.
pub fn name_eq(a: &Vec<u8>, b: &Vec<u8>) -> (r: bool)
    ensures
        r == (a@ == b@),
{
    if a.len() != b.len() {
        return false;
    }
    let mut i: usize = 0;
    while i < a.len()
        invariant
            i <= a@.len(),
            a@.len() == b@.len(),
            forall|j: int| 0 <= j < i ==> a@[j] == b@[j],
        decreases a@.len() - i,
    {
        if a[i] != b[i] {
            return false;
        }
        i = i + 1;
    }
    proof {
        assert(a@ =~= b@);
    }
    true
}

/// Whether `name` occurs in `list`.
pub fn contains_name(list: &Vec<Vec<u8>>, name: &Vec<u8>) -> (r: bool)
    ensures
        r == seq_has_name(names_view(list@), name@),
{
    let mut i: usize = 0;
    while i < list.len()
        invariant
            i <= list@.len(),
            forall|j: int| 0 <= j < i ==> names_view(list@)[j] != name@,
        decreases list@.len() - i,
    {
        if name_eq(&list[i], name) {
            proof {
                assert(names_view(list@)[i as int] == name@);
            }
            return true;
        }
        i = i + 1;
    }
    false
}

/// Negotiates one family: returns the first client preference the
/// server also offers, or `NoCommonAlgorithm` for that family when
/// the intersection is empty.
pub fn choose_algorithm(client: &Vec<Vec<u8>>, server: &Vec<Vec<u8>>, family: AlgFamily) -> (r:
    Result<Vec<u8>, SshError>)
    ensures
        match r {
            Ok(v) => spec_first_match(names_view(client@), names_view(server@))
                == Some(v@),
            Err(e) => e == SshError::NoCommonAlgorithm(family)
                && spec_first_match(names_view(client@), names_view(server@)) is None,
        },
{
    let ghost cv = names_view(client@);
    let ghost sv = names_view(server@);
    proof {
        assert(cv.skip(0) =~= cv);
    }
    let mut i: usize = 0;
    while i < client.len()
        invariant
            i <= client@.len(),
            cv == names_view(client@),
            sv == names_view(server@),
            spec_first_match(cv, sv) == spec_first_match(cv.skip(i as int), sv),
        decreases client@.len() - i,
    {
        if contains_name(server, &client[i]) {
            proof {
                assert(cv.skip(i as int)[0] == cv[i as int]);
            }
            return Ok(clone_bytes(&client[i]));
        }
        proof {
            assert(cv.skip(i as int)[0] == cv[i as int]);
            assert(cv.skip(i as int).skip(1) =~= cv.skip(i + 1));
        }
        i = i + 1;
    }
    proof {
        assert(cv.skip(i as int).len() == 0);
    }
    Err(SshError::NoCommonAlgorithm(family))
}

/// Splits the contents of a name-list `string` at commas. The result
/// is the unique comma-free list whose join is the input; an empty
/// input is the empty list.
pub fn parse_name_list(bytes: &Vec<u8>) -> (r: Vec<Vec<u8>>)
    ensures
        names_join(names_view(r@)) == bytes@,
        names_comma_free(names_view(r@)),
        bytes@.len() == 0 ==> r@.len() == 0,
        bytes@.len() > 0 ==> r@.len() >= 1,
{
    let mut out: Vec<Vec<u8>> = Vec::new();
    let mut cur: Vec<u8> = Vec::new();
    if bytes.len() == 0 {
        proof {
            assert(names_view(out@) =~= Seq::<Seq<u8>>::empty());
        }
        return out;
    }
    proof {
        assert(names_view(out@).push(cur@) =~= seq![cur@]);
        assert(names_join(seq![cur@]) =~= bytes@.take(0));
    }
    let mut i: usize = 0;
    while i < bytes.len()
        invariant
            i <= bytes@.len(),
            names_join(names_view(out@).push(cur@)) == bytes@.take(i as int),
            names_comma_free(names_view(out@)),
            forall|j: int| 0 <= j < cur@.len() ==> cur@[j] != 44,
        decreases bytes@.len() - i,
    {
        let ghost pv = names_view(out@).push(cur@);
        let b = bytes[i];
        proof {
            assert(bytes@.take(i + 1) =~= bytes@.take(i as int).push(b));
        }
        if b == 44 {
            let ghost oldcur = cur@;
            out.push(cur);
            cur = Vec::new();
            proof {
                assert(names_view(out@) =~= pv);
                let nv = names_view(out@).push(cur@);
                assert(nv.drop_last() =~= pv);
                assert(nv.last() == cur@);
                assert(names_join(nv) == names_join(pv) + seq![44u8] + cur@);
                assert(names_join(nv) =~= bytes@.take(i + 1));
            }
        } else {
            let ghost oldcur = cur@;
            cur.push(b);
            proof {
                let nv = names_view(out@).push(cur@);
                if pv.len() == 1 {
                    assert(names_join(nv) == nv[0]);
                    assert(nv[0] == cur@);
                    assert(names_join(pv) == pv[0]);
                    assert(pv[0] == oldcur);
                } else {
                    assert(nv.drop_last() =~= pv.drop_last());
                    assert(nv.last() == cur@);
                    assert(pv.last() == oldcur);
                    assert(names_join(nv) == names_join(pv.drop_last()) + seq![44u8] + cur@);
                    assert(names_join(pv) == names_join(pv.drop_last()) + seq![44u8] + oldcur);
                }
                assert(names_join(nv) =~= bytes@.take(i + 1));
            }
        }
        i = i + 1;
    }
    let ghost prev = names_view(out@);
    let ghost prevcur = cur@;
    out.push(cur);
    proof {
        assert(names_view(out@) =~= prev.push(prevcur));
        assert(bytes@.take(i as int) =~= bytes@);
    }
    out
}

} // verus!
