//! Kernel source text: a kernel is written with a group size of one, and
//! the host writes the group size it dispatches with into the text.
use vstd::prelude::*;
use vstd::string::StringSliceAdditionalSpecFns;

use crate::ppm::{decimal, push_decimal};
use crate::vector::UVec3;

verus! {

/// Every non-overlapping occurrence of `pat` replaced by `rep`, scanning
/// from the front.
pub open spec fn replace_all(s: Seq<u8>, pat: Seq<u8>, rep: Seq<u8>) -> Seq<u8>
    decreases s.len(),
{
    if s.len() == 0 {
        Seq::empty()
    } else if 0 < pat.len() <= s.len() && s.subrange(0, pat.len() as int) == pat {
        rep + replace_all(s.subrange(pat.len() as int, s.len() as int), pat, rep)
    } else {
        seq![s[0]] + replace_all(s.subrange(1, s.len() as int), pat, rep)
    }
}

/// `@workgroup_size(`
pub open spec fn attribute_open() -> Seq<u8> {
    seq![64u8, 119, 111, 114, 107, 103, 114, 111, 117, 112, 95, 115, 105, 122, 101, 40]
}

/// `@workgroup_size(1)`, as the kernels are written.
pub open spec fn placeholder() -> Seq<u8> {
    attribute_open() + seq![49u8, 41]
}

/// `@workgroup_size(x, y, z)`
pub open spec fn group_attribute(size: UVec3) -> Seq<u8> {
    attribute_open() + decimal(size.x as nat) + seq![44u8, 32] + decimal(size.y as nat) + seq![44u8, 32]
        + decimal(size.z as nat) + seq![41u8]
}

fn push_attribute_open(out: &mut Vec<u8>)
    ensures
        final(out)@ == old(out)@ + attribute_open(),
{
    out.push(64);
    out.push(119);
    out.push(111);
    out.push(114);
    out.push(107);
    out.push(103);
    out.push(114);
    out.push(111);
    out.push(117);
    out.push(112);
    out.push(95);
    out.push(115);
    out.push(105);
    out.push(122);
    out.push(101);
    out.push(40);
    assert(out@ =~= old(out)@ + attribute_open());
}

/// Whether `pat` occurs in `b` at index `at`.
fn occurs_at(b: &[u8], at: usize, pat: &Vec<u8>) -> (r: bool)
    requires
        at <= b@.len(),
    ensures
        r == (at + pat@.len() <= b@.len() && b@.subrange(at as int, at + pat@.len()) == pat@),
{
    if pat.len() > b.len() - at {
        return false;
    }
    let blen = b.len();
    let mut k: usize = 0;
    while k < pat.len()
        invariant
            blen == b@.len(),
            at + pat@.len() <= b@.len(),
            k <= pat@.len(),
            forall|j: int| 0 <= j < k ==> b@[at + j] == pat@[j],
        decreases pat@.len() - k,
    {
        if b[at + k] != pat[k] {
            proof {
                assert(b@.subrange(at as int, at + pat@.len())[k as int] != pat@[k as int]);
            }
            return false;
        }
        k = k + 1;
    }
    assert(b@.subrange(at as int, at + pat@.len()) =~= pat@);
    true
}

/// The kernel text with each group-size placeholder replaced by `size`.
pub fn with_group_size(source: &str, size: UVec3) -> (r: Vec<u8>)
    ensures
        r@ == replace_all(source.spec_bytes(), placeholder(), group_attribute(size)),
{
    let b = source.as_bytes();
    let len = b.len();
    let mut pat: Vec<u8> = Vec::new();
    push_attribute_open(&mut pat);
    pat.push(49);
    pat.push(41);
    assert(pat@ =~= placeholder());
    let mut rep: Vec<u8> = Vec::new();
    push_attribute_open(&mut rep);
    push_decimal(&mut rep, size.x);
    rep.push(44);
    rep.push(32);
    push_decimal(&mut rep, size.y);
    rep.push(44);
    rep.push(32);
    push_decimal(&mut rep, size.z);
    rep.push(41);
    assert(rep@ =~= group_attribute(size));
    let ghost s = b@;
    let mut out: Vec<u8> = Vec::new();
    let mut i: usize = 0;
    proof {
        assert(s.subrange(0, len as int) =~= s);
        assert(out@ + replace_all(s, pat@, rep@) =~= replace_all(s, pat@, rep@));
    }
    while i < len
        invariant
            len == b@.len(),
            s == b@,
            s == source.spec_bytes(),
            pat@ == placeholder(),
            rep@ == group_attribute(size),
            i <= len,
            replace_all(s, pat@, rep@) == out@ + replace_all(s.subrange(i as int, len as int), pat@, rep@),
        decreases len - i,
    {
        let ghost rest = s.subrange(i as int, len as int);
        if occurs_at(b, i, &pat) {
            proof {
                assert(rest.subrange(0, pat@.len() as int) =~= s.subrange(i as int, i + pat@.len()));
                assert(rest.subrange(pat@.len() as int, rest.len() as int) =~= s.subrange(
                    i + pat@.len(),
                    len as int,
                ));
            }
            let mut k: usize = 0;
            let ghost before = out@;
            while k < rep.len()
                invariant
                    k <= rep@.len(),
                    out@ == before + rep@.subrange(0, k as int),
                decreases rep@.len() - k,
            {
                out.push(rep[k]);
                k = k + 1;
                assert(out@ =~= before + rep@.subrange(0, k as int));
            }
            proof {
                assert(rep@.subrange(0, k as int) =~= rep@);
                assert(out@ + replace_all(s.subrange(i + pat@.len(), len as int), pat@, rep@)
                    =~= before + replace_all(rest, pat@, rep@));
            }
            i = i + pat.len();
        } else {
            proof {
                assert(rest.subrange(1, rest.len() as int) =~= s.subrange(i + 1, len as int));
                if 0 < pat@.len() <= rest.len() {
                    assert(rest.subrange(0, pat@.len() as int) =~= s.subrange(i as int, i + pat@.len()));
                }
            }
            let ghost before = out@;
            out.push(b[i]);
            proof {
                assert(out@ + replace_all(s.subrange(i + 1, len as int), pat@, rep@)
                    =~= before + replace_all(rest, pat@, rep@));
            }
            i = i + 1;
        }
    }
    proof {
        assert(s.subrange(len as int, len as int) =~= Seq::<u8>::empty());
        assert(out@ + Seq::<u8>::empty() =~= out@);
    }
    out
}

} // verus!
