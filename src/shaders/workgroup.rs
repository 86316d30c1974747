//! The workgroup probe kernel: it is told a data-set size and writes one
//! vector per invocation.
use vstd::prelude::*;

use crate::binding::{meets_minimums, slots_in_order, Binding, Dispatch, Upload};
use crate::counted::{counted_decoded, counted_fits, decode_counted};
use crate::dispatch::{plan, plan_spec, valid_group_size};
use crate::layout::{
    aggregate_size, buffer_size, lemma_words_le_at, lemma_words_le_len, read_word, word_at, words_le,
    words_to_bytes,
};
use crate::vector::UVec3;
use crate::Error;

verus! {

/// Invocations per group along each axis.
pub const GROUP_X: u32 = 16;
pub const GROUP_Y: u32 = 16;
pub const GROUP_Z: u32 = 1;

/// Elements the output buffer is sized for: the kernel's whole output
/// grid, which is not known ahead of the dispatch.
pub const MAX_OUTPUT_ELEMENTS: u64 = 65536;

/// What the kernel reads.
#[derive(Clone, Copy, Debug, PartialEq, Eq, Structural)]
pub struct InputType {
    pub data_set_size: UVec3,
}

/// What the kernel writes.
#[derive(Debug)]
pub struct OutputType {
    pub arr: Vec<UVec3>,
}

pub open spec fn group_size() -> UVec3 {
    UVec3 { x: GROUP_X as u32, y: GROUP_Y as u32, z: GROUP_Z as u32 }
}

/// The two slots: the input (read) and the output (written).
pub open spec fn binding_list() -> Seq<Binding> {
    seq![
        Binding { slot: 0, read_only: true, min_size: 16 },
        Binding { slot: 1, read_only: false, min_size: 32 },
    ]
}

pub fn bindings() -> (r: Vec<Binding>)
    ensures
        r@ == binding_list(),
        slots_in_order(r@),
{
    let mut r: Vec<Binding> = Vec::new();
    r.push(Binding { slot: 0, read_only: true, min_size: 16 });
    r.push(Binding { slot: 1, read_only: false, min_size: 32 });
    r
}

/// Groups to dispatch so that every point of the data set is covered.
pub fn workgroups(input: &InputType) -> (r: UVec3)
    ensures
        r == plan_spec(input.data_set_size, group_size()),
{
    proof {
        assert(valid_group_size(group_size()));
    }
    plan(input.data_set_size, UVec3 { x: GROUP_X, y: GROUP_Y, z: GROUP_Z })
}

/// Bytes of the output buffer and of its staging copy.
pub fn output_buffer_size() -> (r: u64)
    ensures
        r == aggregate_size(16, MAX_OUTPUT_ELEMENTS as nat, 16),
{
    match buffer_size(16, MAX_OUTPUT_ELEMENTS, 16) {
        Some(n) => n,
        None => 0,
    }
}

/// Plans one dispatch: the encoded input in slot 0, the output buffer in
/// slot 1 (read back whole), and enough groups to cover the data set.
pub fn prepare(input: &InputType) -> (r: Dispatch)
    ensures
        r.uploads@.len() == 1,
        r.uploads@[0].slot == 0,
        r.uploads@[0].bytes@ == words_le(input_words(*input)),
        r.output_slot == 1,
        r.output_size == aggregate_size(16, MAX_OUTPUT_ELEMENTS as nat, 16),
        r.staging_size == r.output_size,
        r.groups == plan_spec(input.data_set_size, group_size()),
        meets_minimums(r, binding_list()),
{
    let mut uploads: Vec<Upload> = Vec::new();
    uploads.push(Upload { slot: 0, bytes: input.encode() });
    let size = output_buffer_size();
    let d = Dispatch { uploads, output_slot: 1, output_size: size, staging_size: size, groups: workgroups(input) };
    assert(d.uploads@[0].slot == 0);
    d
}

pub open spec fn input_words(v: InputType) -> Seq<u32> {
    seq![v.data_set_size.x, v.data_set_size.y, v.data_set_size.z, 0u32]
}

impl InputType {
    /// Serialises the input: a vector padded to sixteen bytes.
    pub fn encode(&self) -> (r: Vec<u8>)
        ensures
            r@ == words_le(input_words(*self)),
            r@.len() == 16,
    {
        let mut ws: Vec<u32> = Vec::new();
        ws.push(self.data_set_size.x);
        ws.push(self.data_set_size.y);
        ws.push(self.data_set_size.z);
        ws.push(0);
        proof {
            assert(ws@ =~= input_words(*self));
            lemma_words_le_len(ws@);
        }
        words_to_bytes(&ws)
    }

    /// Reads an input back. Fails when the bytes are fewer than sixteen.
    pub fn decode(b: &[u8]) -> (r: Result<InputType, Error>)
        ensures
            r is Err <==> b@.len() < 16,
            r matches Err(e) ==> e == Error::LayoutMismatch,
            r matches Ok(v) ==> v.data_set_size == (UVec3 {
                x: word_at(b@, 0),
                y: word_at(b@, 4),
                z: word_at(b@, 8),
            }),
    {
        if b.len() < 16 {
            return Err(Error::LayoutMismatch);
        }
        Ok(InputType {
            data_set_size: UVec3 { x: read_word(b, 0), y: read_word(b, 4), z: read_word(b, 8) },
        })
    }
}

impl OutputType {
    /// Reads what the kernel wrote. Fails when the bytes are shorter than
    /// the header plus the elements it counts.
    pub fn decode(b: &[u8]) -> (r: Result<OutputType, Error>)
        ensures
            r is Ok <==> counted_fits(b@),
            r matches Err(e) ==> e == Error::LayoutMismatch,
            r matches Ok(v) ==> v.arr@ == counted_decoded(b@),
    {
        match decode_counted(b) {
            Ok(arr) => Ok(OutputType { arr }),
            Err(e) => Err(e),
        }
    }
}

/// Decoding the bytes of an encoded input gives the same input back.
pub proof fn lemma_input_round_trip(v: InputType)
    ensures
        words_le(input_words(v)).len() >= 16,
        ({
            let b = words_le(input_words(v));
            (UVec3 { x: word_at(b, 0), y: word_at(b, 4), z: word_at(b, 8) }) == v.data_set_size
        }),
{
    lemma_words_le_len(input_words(v));
    lemma_words_le_at(input_words(v), 0);
    lemma_words_le_at(input_words(v), 1);
    lemma_words_le_at(input_words(v), 2);
}

} // verus!
