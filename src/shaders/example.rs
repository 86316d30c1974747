//! The example kernel: it reads a record with a trailing array of words and
//! writes a record of the same shape.
use vstd::prelude::*;

use crate::binding::{meets_minimums, pad_to, padded, slots_in_order, Binding, Dispatch, Upload};
use crate::layout::{
    aggregate_size, flat, lemma_flat_index, lemma_flat_push, lemma_words_le_at, lemma_words_le_len,
    read_word, word_at, words_le, words_to_bytes,
};
use crate::vector::{UVec3, Vec3};
use crate::Error;

verus! {

/// Bytes before the first array element (the vector is aligned to sixteen
/// bytes, and so is the array), and bytes per element.
pub const HEADER_SIZE: u64 = 32;
pub const STRIDE: u64 = 4;

/// The record the kernel reads and writes. Its array length is not stored:
/// it is written from `arr` and read back as the count in front of it.
#[derive(Debug)]
pub struct Type {
    pub array_length_call_ret_val: u32,
    pub a: Vec3,
    pub arr: Vec<u32>,
}

/// The two slots: the input (read) and the output (written), each at least
/// a header and one element.
pub open spec fn binding_list() -> Seq<Binding> {
    seq![
        Binding { slot: 0, read_only: true, min_size: 36 },
        Binding { slot: 1, read_only: false, min_size: 36 },
    ]
}

pub fn bindings() -> (r: Vec<Binding>)
    ensures
        r@ == binding_list(),
        slots_in_order(r@),
{
    let mut r: Vec<Binding> = Vec::new();
    r.push(Binding { slot: 0, read_only: true, min_size: HEADER_SIZE + STRIDE });
    r.push(Binding { slot: 1, read_only: false, min_size: HEADER_SIZE + STRIDE });
    r
}

/// The kernel runs as a single group.
pub fn workgroups() -> (r: UVec3)
    ensures
        r == (UVec3 { x: 1, y: 1, z: 1 }),
{
    UVec3 { x: 1, y: 1, z: 1 }
}

pub open spec fn type_words(v: Type) -> Seq<u32> {
    seq![v.arr@.len() as u32, v.array_length_call_ret_val, 0u32, 0u32, v.a.x, v.a.y, v.a.z, 0u32]
        + flat(v.arr@.map_values(|w: u32| seq![w]), 1)
}

/// The count stored in the header.
pub open spec fn stored_len(b: Seq<u8>) -> nat {
    word_at(b, 0) as nat
}

pub open spec fn fits(b: Seq<u8>) -> bool {
    b.len() >= 32 && 32 + 4 * stored_len(b) <= b.len()
}

impl Type {
    /// Plans one dispatch: the encoded record in slot 0 and an output buffer
    /// in slot 1, both padded with zeros up to their slots' minimum, run as
    /// a single group. The staging copy holds exactly the encoded size.
    /// `None` when the array is too long to encode.
    pub fn prepare(&self) -> (r: Option<Dispatch>)
        ensures
            r is Some <==> self.arr@.len() <= u32::MAX && self.arr@.len() * 4 + 32 <= usize::MAX,
            r matches Some(d) ==> {
                &&& d.uploads@.len() == 1
                &&& d.uploads@[0].slot == 0
                &&& d.uploads@[0].bytes@ == padded(words_le(type_words(*self)), 36)
                &&& d.output_slot == 1
                &&& d.staging_size == aggregate_size(32, self.arr@.len(), 4)
                &&& d.output_size == if d.staging_size >= 36 { d.staging_size } else { 36 }
                &&& d.groups == (UVec3 { x: 1, y: 1, z: 1 })
                &&& meets_minimums(d, binding_list())
            },
    {
        let n = self.arr.len();
        if n > 0xffff_ffff || n > (usize::MAX - 32) / 4 {
            proof {
                if n <= 0xffff_ffff {
                    assert(n * 4 + 32 > usize::MAX) by (nonlinear_arith)
                        requires n > (usize::MAX - 32) / 4;
                }
            }
            return None;
        }
        proof {
            assert(n * 4 + 32 <= usize::MAX) by (nonlinear_arith)
                requires n <= (usize::MAX - 32) / 4;
        }
        let bytes = self.encode();
        let staging_size = bytes.len() as u64;
        let output_size = if staging_size >= HEADER_SIZE + STRIDE { staging_size } else { HEADER_SIZE + STRIDE };
        let mut uploads: Vec<Upload> = Vec::new();
        uploads.push(Upload { slot: 0, bytes: pad_to(bytes, HEADER_SIZE + STRIDE) });
        let d = Dispatch { uploads, output_slot: 1, output_size, staging_size, groups: workgroups() };
        assert(d.uploads@[0].slot == 0);
        Some(d)
    }

    /// Serialises the record in the kernel's layout.
    pub fn encode(&self) -> (r: Vec<u8>)
        requires
            self.arr@.len() <= u32::MAX,
            self.arr@.len() * 4 + 32 <= usize::MAX,
        ensures
            r@ == words_le(type_words(*self)),
            r@.len() == aggregate_size(32, self.arr@.len(), 4),
    {
        let ghost recs = self.arr@.map_values(|w: u32| seq![w]);
        let mut ws: Vec<u32> = Vec::new();
        ws.push(self.arr.len() as u32);
        ws.push(self.array_length_call_ret_val);
        ws.push(0);
        ws.push(0);
        ws.push(self.a.x);
        ws.push(self.a.y);
        ws.push(self.a.z);
        ws.push(0);
        let ghost hdr = ws@;
        let mut i: usize = 0;
        while i < self.arr.len()
            invariant
                i <= self.arr@.len(),
                self.arr@.len() * 4 + 32 <= usize::MAX,
                recs == self.arr@.map_values(|w: u32| seq![w]),
                hdr == seq![self.arr@.len() as u32, self.array_length_call_ret_val, 0u32, 0u32, self.a.x, self.a.y, self.a.z, 0u32],
                ws@ == hdr + flat(recs.subrange(0, i as int), 1),
            decreases self.arr@.len() - i,
        {
            let w = self.arr[i];
            ws.push(w);
            proof {
                lemma_flat_push(recs.subrange(0, i as int), 1, seq![w]);
                assert(recs.subrange(0, i + 1) =~= recs.subrange(0, i as int).push(seq![w]));
                assert(ws@ =~= hdr + flat(recs.subrange(0, i + 1), 1));
            }
            i = i + 1;
        }
        proof {
            assert(recs.subrange(0, i as int) =~= recs);
            lemma_words_le_len(ws@);
        }
        words_to_bytes(&ws)
    }

    /// Reads a record back. Fails when the bytes are shorter than the header
    /// plus the elements it counts.
    pub fn decode(b: &[u8]) -> (r: Result<Type, Error>)
        ensures
            r is Ok <==> fits(b@),
            r matches Err(e) ==> e == Error::LayoutMismatch,
            r matches Ok(v) ==> {
                &&& v.array_length_call_ret_val == word_at(b@, 4)
                &&& v.a == (Vec3 { x: word_at(b@, 16), y: word_at(b@, 20), z: word_at(b@, 24) })
                &&& v.arr@ == Seq::new(stored_len(b@), |i: int| word_at(b@, 32 + 4 * i))
            },
    {
        let len = b.len();
        if len < 32 {
            return Err(Error::LayoutMismatch);
        }
        let n = read_word(b, 0) as usize;
        if (len - 32) / 4 < n {
            proof {
                assert(32 + 4 * n > len) by (nonlinear_arith)
                    requires (len - 32) / 4 < n, len >= 32;
            }
            return Err(Error::LayoutMismatch);
        }
        proof {
            assert(32 + 4 * n <= len) by (nonlinear_arith)
                requires (len - 32) / 4 >= n, len >= 32;
        }
        let mut arr: Vec<u32> = Vec::new();
        let mut i: usize = 0;
        while i < n
            invariant
                len == b@.len(),
                n == stored_len(b@),
                32 + 4 * n <= len,
                i <= n,
                arr@ =~= Seq::new(i as nat, |k: int| word_at(b@, 32 + 4 * k)),
            decreases n - i,
        {
            arr.push(read_word(b, 32 + 4 * i));
            i = i + 1;
        }
        Ok(Type {
            array_length_call_ret_val: read_word(b, 4),
            a: Vec3 { x: read_word(b, 16), y: read_word(b, 20), z: read_word(b, 24) },
            arr,
        })
    }
}

/// Decoding the bytes of an encoded record gives the same record back, for
/// any array length, zero included.
pub proof fn lemma_type_round_trip(v: Type)
    requires
        v.arr@.len() <= u32::MAX,
    ensures
        ({
            let b = words_le(type_words(v));
            &&& fits(b)
            &&& word_at(b, 4) == v.array_length_call_ret_val
            &&& (Vec3 { x: word_at(b, 16), y: word_at(b, 20), z: word_at(b, 24) }) == v.a
            &&& Seq::new(stored_len(b), |i: int| word_at(b, 32 + 4 * i)) == v.arr@
        }),
{
    let ws = type_words(v);
    let recs = v.arr@.map_values(|w: u32| seq![w]);
    let b = words_le(ws);
    lemma_words_le_len(ws);
    lemma_words_le_at(ws, 0);
    lemma_words_le_at(ws, 1);
    lemma_words_le_at(ws, 4);
    lemma_words_le_at(ws, 5);
    lemma_words_le_at(ws, 6);
    let d = Seq::new(stored_len(b), |i: int| word_at(b, 32 + 4 * i));
    assert forall|i: int| 0 <= i < v.arr@.len() implies #[trigger] d[i] == v.arr@[i] by {
        lemma_flat_index(recs, 1, i, 0);
        lemma_words_le_at(ws, 8 + i);
    }
    assert(d =~= v.arr@);
}

} // verus!
