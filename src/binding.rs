//! Binding slots of a kernel's resource layout.
use vstd::prelude::*;

use crate::vector::UVec3;

verus! {

/// One storage-buffer slot: its index, whether the kernel only reads it,
/// and the fewest bytes a buffer bound there may hold.
#[derive(Clone, Copy, Debug, PartialEq, Eq, Structural)]
pub struct Binding {
    pub slot: u32,
    pub read_only: bool,
    pub min_size: u64,
}

/// Slots are numbered from zero in the order they are listed.
pub open spec fn slots_in_order(bs: Seq<Binding>) -> bool {
    forall|i: int| 0 <= i < bs.len() ==> #[trigger] bs[i].slot == i
}

/// Bytes to place in a read-only slot before a dispatch.
#[derive(Debug)]
pub struct Upload {
    pub slot: u32,
    pub bytes: Vec<u8>,
}

/// Everything one dispatch needs: the uploads, the slot and byte size of
/// the device's output buffer, the bytes copied from it into the staging
/// buffer (which has that size), and the group counts. The output buffer may
/// be larger than what is read back: a device buffer is never smaller than
/// its slot's minimum.
#[derive(Debug)]
pub struct Dispatch {
    pub uploads: Vec<Upload>,
    pub output_slot: u32,
    pub output_size: u64,
    pub staging_size: u64,
    pub groups: UVec3,
}

/// The bytes, followed by zeros up to `min` bytes when they are fewer.
pub open spec fn padded(b: Seq<u8>, min: nat) -> Seq<u8> {
    if b.len() >= min {
        b
    } else {
        b + Seq::new((min - b.len()) as nat, |i: int| 0u8)
    }
}

/// Every buffer of the dispatch goes to a listed slot and holds at least
/// that slot's minimum, and the staging copy fits in the output buffer.
pub open spec fn meets_minimums(d: Dispatch, bs: Seq<Binding>) -> bool {
    &&& forall|i: int| 0 <= i < d.uploads@.len() ==> {
        &&& (#[trigger] d.uploads@[i]).slot < bs.len()
        &&& d.uploads@[i].bytes@.len() >= bs[d.uploads@[i].slot as int].min_size
    }
    &&& d.output_slot < bs.len()
    &&& d.output_size >= bs[d.output_slot as int].min_size
    &&& d.staging_size <= d.output_size
}

/// Pads bytes with zeros up to `min` bytes.
pub fn pad_to(b: Vec<u8>, min: u64) -> (r: Vec<u8>)
    ensures
        r@ == padded(b@, min as nat),
{
    let ghost orig = b@;
    let mut out = b;
    while (out.len() as u64) < min
        invariant
            orig.len() <= out@.len(),
            out@.len() == orig.len() || out@.len() <= min,
            out@ =~= orig + Seq::new((out@.len() - orig.len()) as nat, |i: int| 0u8),
        decreases min - out@.len(),
    {
        out.push(0);
    }
    proof {
        if orig.len() >= min {
            assert(out@.len() == orig.len());
            assert(out@ =~= orig);
        } else {
            assert(out@.len() == min);
        }
    }
    out
}

} // verus!
