//! The byte layout shared with the kernels. Every field the kernels read is
//! a 32-bit word (an unsigned integer or the bit pattern of a single-precision
//! value), stored little-endian; padding is written as zero words.
use vstd::arithmetic::div_mod::lemma_fundamental_div_mod_converse;
use vstd::prelude::*;

verus! {

/// The four little-endian bytes of a word.
pub open spec fn word_le(w: u32) -> Seq<u8> {
    seq![(w & 0xff) as u8, ((w >> 8) & 0xff) as u8, ((w >> 16) & 0xff) as u8, ((w >> 24) & 0xff) as u8]
}

/// The word stored little-endian at byte offset `i`.
pub open spec fn word_at(b: Seq<u8>, i: int) -> u32 {
    (b[i] as u32) | ((b[i + 1] as u32) << 8) | ((b[i + 2] as u32) << 16) | ((b[i + 3] as u32) << 24)
}

/// The bytes of a sequence of words, one after the other.
pub open spec fn words_le(ws: Seq<u32>) -> Seq<u8>
    decreases ws.len(),
{
    if ws.len() == 0 {
        Seq::empty()
    } else {
        words_le(ws.drop_last()) + word_le(ws.last())
    }
}

/// The words read from the first `4 * n` bytes.
pub open spec fn words_from(b: Seq<u8>, n: nat) -> Seq<u32> {
    Seq::new(n, |k: int| word_at(b, 4 * k))
}

proof fn lemma_word_round_trip(w: u32)
    ensures
        word_at(word_le(w), 0) == w,
{
    let b0 = (w & 0xff) as u8;
    let b1 = ((w >> 8) & 0xff) as u8;
    let b2 = ((w >> 16) & 0xff) as u8;
    let b3 = ((w >> 24) & 0xff) as u8;
    assert((b0 as u32) | ((b1 as u32) << 8) | ((b2 as u32) << 16) | ((b3 as u32) << 24) == w)
        by (bit_vector)
        requires
            b0 == (w & 0xff) as u8,
            b1 == ((w >> 8) & 0xff) as u8,
            b2 == ((w >> 16) & 0xff) as u8,
            b3 == ((w >> 24) & 0xff) as u8,
    ;
}

pub proof fn lemma_words_le_len(ws: Seq<u32>)
    ensures
        words_le(ws).len() == 4 * ws.len(),
    decreases ws.len(),
{
    if ws.len() > 0 {
        lemma_words_le_len(ws.drop_last());
    }
}

/// Each word can be read back at its offset.
pub proof fn lemma_words_le_at(ws: Seq<u32>, k: int)
    requires
        0 <= k < ws.len(),
    ensures
        word_at(words_le(ws), 4 * k) == ws[k],
    decreases ws.len(),
{
    lemma_words_le_len(ws);
    lemma_words_le_len(ws.drop_last());
    let b = words_le(ws);
    if k == ws.len() - 1 {
        let t = word_le(ws.last());
        lemma_word_round_trip(ws.last());
        assert(b[4 * k] == t[0]);
        assert(b[4 * k + 1] == t[1]);
        assert(b[4 * k + 2] == t[2]);
        assert(b[4 * k + 3] == t[3]);
    } else {
        lemma_words_le_at(ws.drop_last(), k);
        let p = words_le(ws.drop_last());
        assert(b[4 * k] == p[4 * k]);
        assert(b[4 * k + 1] == p[4 * k + 1]);
        assert(b[4 * k + 2] == p[4 * k + 2]);
        assert(b[4 * k + 3] == p[4 * k + 3]);
    }
}

/// Reading the words of an encoded word sequence gives the sequence back.
pub proof fn lemma_words_round_trip(ws: Seq<u32>)
    ensures
        words_le(ws).len() == 4 * ws.len(),
        words_from(words_le(ws), ws.len()) == ws,
{
    lemma_words_le_len(ws);
    assert forall|k: int| 0 <= k < ws.len() implies words_from(words_le(ws), ws.len())[k] == ws[k] by {
        lemma_words_le_at(ws, k);
    }
    assert(words_from(words_le(ws), ws.len()) =~= ws);
}

/// Writes words as little-endian bytes.
pub fn words_to_bytes(ws: &Vec<u32>) -> (r: Vec<u8>)
    requires
        ws@.len() <= usize::MAX / 4,
    ensures
        r@ == words_le(ws@),
{
    let mut out: Vec<u8> = Vec::new();
    let mut i: usize = 0;
    while i < ws.len()
        invariant
            i <= ws@.len(),
            out@ == words_le(ws@.subrange(0, i as int)),
        decreases ws@.len() - i,
    {
        let w = ws[i];
        out.push((w & 0xff) as u8);
        out.push(((w >> 8) & 0xff) as u8);
        out.push(((w >> 16) & 0xff) as u8);
        out.push(((w >> 24) & 0xff) as u8);
        proof {
            let next = ws@.subrange(0, i + 1);
            assert(next.drop_last() =~= ws@.subrange(0, i as int));
            assert(out@ =~= words_le(next));
        }
        i = i + 1;
    }
    assert(ws@.subrange(0, ws@.len() as int) =~= ws@);
    out
}

/// Reads a little-endian word at byte offset `at`.
pub fn read_word(b: &[u8], at: usize) -> (r: u32)
    requires
        at + 4 <= b@.len(),
    ensures
        r == word_at(b@, at as int),
{
    (b[at] as u32) | ((b[at + 1] as u32) << 8) | ((b[at + 2] as u32) << 16) | ((b[at + 3] as u32) << 24)
}

/// Reads the first `n` words.
pub fn bytes_to_words(b: &[u8], n: usize) -> (r: Vec<u32>)
    requires
        4 * n <= b@.len(),
    ensures
        r@ == words_from(b@, n as nat),
{
    let len = b.len();
    let mut out: Vec<u32> = Vec::new();
    let mut k: usize = 0;
    while k < n
        invariant
            k <= n,
            4 * n <= b@.len(),
            len == b@.len(),
            out@ =~= words_from(b@, k as nat),
        decreases n - k,
    {
        let w = read_word(b, 4 * k);
        out.push(w);
        k = k + 1;
        assert(out@ =~= words_from(b@, k as nat));
    }
    out
}

/// Fixed-size records of `s` words laid out one after the other, as the
/// elements of a runtime array are.
pub open spec fn flat(rs: Seq<Seq<u32>>, s: nat) -> Seq<u32> {
    Seq::new(rs.len() * s, |k: int| rs[k / (s as int)][k % (s as int)])
}

/// Word `j` of record `i` stands at index `i * s + j`.
pub proof fn lemma_flat_index(rs: Seq<Seq<u32>>, s: nat, i: int, j: int)
    requires
        s > 0,
        0 <= i < rs.len(),
        0 <= j < s,
    ensures
        i * s + j < rs.len() * s,
        flat(rs, s)[i * s + j] == rs[i][j],
{
    lemma_fundamental_div_mod_converse(i * s + j, s as int, i, j);
    assert(i * s + j < rs.len() * s) by (nonlinear_arith)
        requires 0 <= i < rs.len(), 0 <= j < s;
}

/// Appending a record appends its words.
pub proof fn lemma_flat_push(rs: Seq<Seq<u32>>, s: nat, r: Seq<u32>)
    requires
        s > 0,
        r.len() == s,
    ensures
        flat(rs.push(r), s) =~= flat(rs, s) + r,
{
    let n = rs.len() as int;
    assert((n + 1) * s == n * s + s) by (nonlinear_arith);
    assert forall|k: int| 0 <= k < (n + 1) * s implies #[trigger] flat(rs.push(r), s)[k] == (flat(rs, s) + r)[k] by {
        if k < n * s {
            let q = k / (s as int);
            let m = k % (s as int);
            assert(k == q * s + m && 0 <= m < s) by (nonlinear_arith)
                requires s > 0, q == k / (s as int), m == k % (s as int);
            assert(q < n) by (nonlinear_arith)
                requires k == q * s + m, 0 <= m < s, k < n * s, s > 0;
            assert(0 <= q) by (nonlinear_arith)
                requires k == q * s + m, 0 <= m < s, k >= 0, s > 0;
        } else {
            lemma_fundamental_div_mod_converse(k, s as int, n, k - n * s);
        }
    }
}

/// Byte size of an aggregate: its header followed by `count` elements of
/// `stride` bytes each.
pub open spec fn aggregate_size(header_size: nat, count: nat, stride: nat) -> nat {
    header_size + count * stride
}

/// Byte size of a buffer that holds an aggregate with `count` elements.
pub fn buffer_size(header_size: u64, count: u64, stride: u64) -> (r: Option<u64>)
    ensures
        r is Some <==> aggregate_size(header_size as nat, count as nat, stride as nat) <= u64::MAX,
        r matches Some(n) ==> n == aggregate_size(header_size as nat, count as nat, stride as nat),
{
    match count.checked_mul(stride) {
        Some(t) => header_size.checked_add(t),
        None => {
            proof {
                assert(count * stride <= header_size + count * stride) by (nonlinear_arith);
            }
            None
        },
    }
}

} // verus!
