//! A length-prefixed runtime array of unsigned 3-vectors: a word holding
//! the element count, padding to sixteen bytes, then one sixteen-byte
//! element per vector (three words and one of padding).
use vstd::prelude::*;

use crate::layout::{
    aggregate_size, flat, lemma_flat_index, lemma_flat_push, lemma_words_le_at, lemma_words_le_len,
    read_word, word_at, words_le, words_to_bytes,
};
use crate::vector::UVec3;
use crate::Error;

verus! {

pub open spec fn uvec3_record(p: UVec3) -> Seq<u32> {
    seq![p.x, p.y, p.z, 0u32]
}

pub open spec fn counted_words(ps: Seq<UVec3>) -> Seq<u32> {
    seq![ps.len() as u32, 0u32, 0u32, 0u32] + flat(ps.map_values(|p: UVec3| uvec3_record(p)), 4)
}

pub open spec fn uvec3_at(b: Seq<u8>, at: int) -> UVec3 {
    UVec3 { x: word_at(b, at), y: word_at(b, at + 4), z: word_at(b, at + 8) }
}

/// The count stored in the header.
pub open spec fn counted_len(b: Seq<u8>) -> nat {
    word_at(b, 0) as nat
}

/// Whether the bytes hold the header and every element the header counts.
pub open spec fn counted_fits(b: Seq<u8>) -> bool {
    b.len() >= 16 && 16 + 16 * counted_len(b) <= b.len()
}

/// The vectors the bytes hold, when they fit.
pub open spec fn counted_decoded(b: Seq<u8>) -> Seq<UVec3> {
    Seq::new(counted_len(b), |i: int| uvec3_at(b, 16 + 16 * i))
}

/// Serialises vectors with their count in front.
pub fn encode_counted(ps: &Vec<UVec3>) -> (r: Vec<u8>)
    requires
        ps@.len() * 16 + 16 <= usize::MAX,
        ps@.len() <= u32::MAX,
    ensures
        r@ == words_le(counted_words(ps@)),
        r@.len() == aggregate_size(16, ps@.len(), 16),
{
    let ghost recs = ps@.map_values(|p: UVec3| uvec3_record(p));
    let mut ws: Vec<u32> = Vec::new();
    ws.push(ps.len() as u32);
    ws.push(0);
    ws.push(0);
    ws.push(0);
    let ghost hdr = ws@;
    let mut i: usize = 0;
    while i < ps.len()
        invariant
            i <= ps@.len(),
            ps@.len() * 16 + 16 <= usize::MAX,
            recs == ps@.map_values(|p: UVec3| uvec3_record(p)),
            hdr == seq![ps@.len() as u32, 0u32, 0u32, 0u32],
            ws@ == hdr + flat(recs.subrange(0, i as int), 4),
        decreases ps@.len() - i,
    {
        let p = ps[i];
        ws.push(p.x);
        ws.push(p.y);
        ws.push(p.z);
        ws.push(0);
        proof {
            lemma_flat_push(recs.subrange(0, i as int), 4, uvec3_record(p));
            assert(recs.subrange(0, i + 1) =~= recs.subrange(0, i as int).push(uvec3_record(p)));
            assert(ws@ =~= hdr + flat(recs.subrange(0, i + 1), 4));
        }
        i = i + 1;
    }
    proof {
        assert(recs.subrange(0, i as int) =~= recs);
        lemma_words_le_len(ws@);
    }
    words_to_bytes(&ws)
}

/// Reads the vectors back. Fails when the bytes are shorter than the
/// header plus the elements it counts.
pub fn decode_counted(b: &[u8]) -> (r: Result<Vec<UVec3>, Error>)
    ensures
        r is Ok <==> counted_fits(b@),
        r matches Err(e) ==> e == Error::LayoutMismatch,
        r matches Ok(v) ==> v@ == counted_decoded(b@),
{
    let len = b.len();
    if len < 16 {
        return Err(Error::LayoutMismatch);
    }
    let n = read_word(b, 0) as usize;
    if (len - 16) / 16 < n {
        proof {
            assert(16 + 16 * n > len) by (nonlinear_arith)
                requires (len - 16) / 16 < n, len >= 16;
        }
        return Err(Error::LayoutMismatch);
    }
    proof {
        assert(16 + 16 * n <= len) by (nonlinear_arith)
            requires (len - 16) / 16 >= n, len >= 16;
    }
    let mut out: Vec<UVec3> = Vec::new();
    let mut i: usize = 0;
    while i < n
        invariant
            len == b@.len(),
            n == counted_len(b@),
            16 + 16 * n <= len,
            i <= n,
            out@ =~= Seq::new(i as nat, |k: int| uvec3_at(b@, 16 + 16 * k)),
        decreases n - i,
    {
        let at = 16 + 16 * i;
        out.push(UVec3 { x: read_word(b, at), y: read_word(b, at + 4), z: read_word(b, at + 8) });
        i = i + 1;
    }
    Ok(out)
}

/// Decoding the bytes of encoded vectors gives the same vectors back, for
/// any count, zero included.
pub proof fn lemma_counted_round_trip(ps: Seq<UVec3>)
    requires
        ps.len() <= u32::MAX,
    ensures
        counted_fits(words_le(counted_words(ps))),
        counted_decoded(words_le(counted_words(ps))) == ps,
{
    let ws = counted_words(ps);
    let recs = ps.map_values(|p: UVec3| uvec3_record(p));
    let n = ps.len();
    let b = words_le(ws);
    lemma_words_le_len(ws);
    lemma_words_le_at(ws, 0);
    assert(counted_len(b) == n);
    let d = counted_decoded(b);
    assert forall|i: int| 0 <= i < n implies #[trigger] d[i] == ps[i] by {
        assert forall|j: int| 0 <= j < 3 implies word_at(b, 16 + 16 * i + 4 * j) == recs[i][j] by {
            lemma_flat_index(recs, 4, i, j);
            lemma_words_le_at(ws, 4 + i * 4 + j);
            assert(4 * (4 + i * 4 + j) == 16 + 16 * i + 4 * j);
        }
        assert(word_at(b, 16 + 16 * i + 4 * 0) == recs[i][0]);
        assert(word_at(b, 16 + 16 * i + 4 * 1) == recs[i][1]);
        assert(word_at(b, 16 + 16 * i + 4 * 2) == recs[i][2]);
    }
    assert(d =~= ps);
}

} // verus!
