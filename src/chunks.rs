//! Chunked dispatch: an image is cut into rectangles of at most a chunk's
//! size, each rendered by a dispatch of its own, and the pixels of every
//! rectangle are put back at their absolute place in one image, row by row.
use vstd::arithmetic::div_mod::lemma_fundamental_div_mod_converse;
use vstd::prelude::*;

use crate::dispatch::{ceil_div, ceil_div_spec, lemma_ceil_div_bounds};
use crate::vector::{UVec2, UVec3};
use crate::Error;

verus! {

/// A rectangle of the image: where it starts and how large it is.
#[derive(Clone, Copy, Debug, PartialEq, Eq, Structural)]
pub struct Chunk {
    pub offset: UVec2,
    pub size: UVec2,
}

pub open spec fn min_spec(a: int, b: int) -> int {
    if a <= b { a } else { b }
}

pub open spec fn valid_chunk_size(cs: UVec2) -> bool {
    cs.x >= 1 && cs.y >= 1
}

/// Chunks per row and per column.
pub open spec fn cols(size: UVec2, cs: UVec2) -> int {
    ceil_div_spec(size.x as int, cs.x as int)
}

pub open spec fn rows(size: UVec2, cs: UVec2) -> int {
    ceil_div_spec(size.y as int, cs.y as int)
}

/// The chunk in column `c` and row `r`; the last ones in a row or a
/// column are cut at the image's edge.
pub open spec fn chunk_spec(size: UVec2, cs: UVec2, c: int, r: int) -> Chunk {
    let ox = c * cs.x;
    let oy = r * cs.y;
    Chunk {
        offset: UVec2 { x: ox as u32, y: oy as u32 },
        size: UVec2 {
            x: min_spec(cs.x as int, size.x - ox) as u32,
            y: min_spec(cs.y as int, size.y - oy) as u32,
        },
    }
}

/// The `k`-th chunk, counting row by row.
pub open spec fn chunk_at(size: UVec2, cs: UVec2, k: int) -> Chunk {
    chunk_spec(size, cs, k % cols(size, cs), k / cols(size, cs))
}

proof fn lemma_offset_inside(n: int, s: int, c: int)
    requires
        n >= 0,
        s >= 1,
        0 <= c < ceil_div_spec(n, s),
    ensures
        0 <= c * s < n,
        c * s + min_spec(s, n - c * s) <= n,
        min_spec(s, n - c * s) >= 1,
{
    assert(n >= 1) by (nonlinear_arith)
        requires n >= 0, s >= 1, 0 <= c, c < (n + s - 1) / s;
    lemma_ceil_div_bounds(n, s);
    let g = ceil_div_spec(n, s);
    assert(c * s <= (g - 1) * s) by (nonlinear_arith)
        requires c <= g - 1, s >= 1;
    assert(c * s >= 0) by (nonlinear_arith)
        requires c >= 0, s >= 1;
}

/// The chunk in column `c` and row `r`.
pub fn chunk(size: UVec2, cs: UVec2, c: u32, r: u32) -> (out: Chunk)
    requires
        valid_chunk_size(cs),
        c < cols(size, cs),
        r < rows(size, cs),
    ensures
        out == chunk_spec(size, cs, c as int, r as int),
        out.offset.x + out.size.x <= size.x,
        out.offset.y + out.size.y <= size.y,
        out.size.x >= 1 && out.size.y >= 1,
{
    proof {
        lemma_offset_inside(size.x as int, cs.x as int, c as int);
        lemma_offset_inside(size.y as int, cs.y as int, r as int);
    }
    let ox = c * cs.x;
    let oy = r * cs.y;
    let rest_x = size.x - ox;
    let rest_y = size.y - oy;
    let sx = if cs.x <= rest_x { cs.x } else { rest_x };
    let sy = if cs.y <= rest_y { cs.y } else { rest_y };
    Chunk { offset: UVec2 { x: ox, y: oy }, size: UVec2 { x: sx, y: sy } }
}

/// All chunks of an image, row by row.
pub fn chunks(size: UVec2, cs: UVec2) -> (out: Vec<Chunk>)
    requires
        valid_chunk_size(cs),
        cols(size, cs) * rows(size, cs) <= usize::MAX,
    ensures
        out@.len() == cols(size, cs) * rows(size, cs),
        forall|k: int| 0 <= k < out@.len() ==> #[trigger] out@[k] == chunk_at(size, cs, k),
{
    let ncols = ceil_div(size.x, cs.x);
    let nrows = ceil_div(size.y, cs.y);
    let mut out: Vec<Chunk> = Vec::new();
    let mut r: u32 = 0;
    while r < nrows
        invariant
            valid_chunk_size(cs),
            ncols == cols(size, cs),
            nrows == rows(size, cs),
            r <= nrows,
            out@.len() == r * ncols,
            forall|k: int| 0 <= k < out@.len() ==> #[trigger] out@[k] == chunk_at(size, cs, k),
        decreases nrows - r,
    {
        let mut c: u32 = 0;
        while c < ncols
            invariant
                valid_chunk_size(cs),
                ncols == cols(size, cs),
                nrows == rows(size, cs),
                r < nrows,
                c <= ncols,
                out@.len() == r * ncols + c,
                forall|k: int| 0 <= k < out@.len() ==> #[trigger] out@[k] == chunk_at(size, cs, k),
            decreases ncols - c,
        {
            let ch = chunk(size, cs, c, r);
            proof {
                lemma_fundamental_div_mod_converse(r * ncols + c, ncols as int, r as int, c as int);
            }
            out.push(ch);
            c = c + 1;
        }
        proof {
            assert(r * ncols + ncols == (r + 1) * ncols) by (nonlinear_arith);
        }
        r = r + 1;
    }
    proof {
        assert(nrows * ncols == cols(size, cs) * rows(size, cs)) by (nonlinear_arith)
            requires ncols == cols(size, cs), nrows == rows(size, cs);
    }
    out
}

/// Which chunk holds pixel `(x, y)`, counting row by row.
pub open spec fn chunk_index(size: UVec2, cs: UVec2, x: int, y: int) -> int {
    (y / cs.y as int) * cols(size, cs) + x / cs.x as int
}

/// Where pixel `(x, y)` stands among the pixels of its chunk, row by row.
pub open spec fn local_index(size: UVec2, cs: UVec2, x: int, y: int) -> int {
    let c = chunk_spec(size, cs, x / cs.x as int, y / cs.y as int);
    (y - c.offset.y) * c.size.x + (x - c.offset.x)
}

/// One pixel list per chunk, in the order of `chunks`, each as long as its
/// chunk has pixels.
pub open spec fn parts_fit(size: UVec2, cs: UVec2, parts: Seq<Seq<UVec3>>) -> bool {
    &&& parts.len() == cols(size, cs) * rows(size, cs)
    &&& forall|k: int| 0 <= k < parts.len() ==> #[trigger] parts[k].len()
        == chunk_at(size, cs, k).size.x * chunk_at(size, cs, k).size.y
}

pub open spec fn views(parts: Seq<Vec<UVec3>>) -> Seq<Seq<UVec3>> {
    parts.map_values(|v: Vec<UVec3>| v@)
}

/// The whole image, row by row, each pixel taken from its chunk.
pub open spec fn assembled(size: UVec2, cs: UVec2, parts: Seq<Seq<UVec3>>) -> Seq<UVec3> {
    Seq::new(
        (size.x * size.y) as nat,
        |p: int| parts[chunk_index(size, cs, p % size.x as int, p / size.x as int)][local_index(
            size,
            cs,
            p % size.x as int,
            p / size.x as int,
        )],
    )
}

proof fn lemma_cell(size: UVec2, cs: UVec2, x: int, y: int)
    requires
        valid_chunk_size(cs),
        0 <= x < size.x,
        0 <= y < size.y,
    ensures
        ({
            let c = x / cs.x as int;
            let r = y / cs.y as int;
            let k = chunk_index(size, cs, x, y);
            let ch = chunk_spec(size, cs, c, r);
            &&& 0 <= c < cols(size, cs)
            &&& 0 <= r < rows(size, cs)
            &&& 0 <= k < cols(size, cs) * rows(size, cs)
            &&& chunk_at(size, cs, k) == ch
            &&& ch.offset.x <= x < ch.offset.x + ch.size.x
            &&& ch.offset.y <= y < ch.offset.y + ch.size.y
            &&& 0 <= local_index(size, cs, x, y) < ch.size.x * ch.size.y
        }),
{
    let sx = cs.x as int;
    let sy = cs.y as int;
    let c = x / sx;
    let r = y / sy;
    let nc = cols(size, cs);
    let nr = rows(size, cs);
    lemma_ceil_div_bounds(size.x as int, sx);
    lemma_ceil_div_bounds(size.y as int, sy);
    assert(c * sx <= x < c * sx + sx && 0 <= c) by (nonlinear_arith)
        requires c == x / sx, sx >= 1, x >= 0;
    assert(r * sy <= y < r * sy + sy && 0 <= r) by (nonlinear_arith)
        requires r == y / sy, sy >= 1, y >= 0;
    assert(c < nc) by (nonlinear_arith)
        requires c * sx <= x, x < size.x, nc * sx >= size.x, sx >= 1;
    assert(r < nr) by (nonlinear_arith)
        requires r * sy <= y, y < size.y, nr * sy >= size.y, sy >= 1;
    let k = r * nc + c;
    assert(0 <= k < nc * nr) by (nonlinear_arith)
        requires 0 <= c < nc, 0 <= r < nr, k == r * nc + c;
    lemma_fundamental_div_mod_converse(k, nc, r, c);
    lemma_offset_inside(size.x as int, sx, c);
    lemma_offset_inside(size.y as int, sy, r);
    let ch = chunk_spec(size, cs, c, r);
    let lx = x - ch.offset.x;
    let ly = y - ch.offset.y;
    assert(0 <= ly * ch.size.x + lx < ch.size.x * ch.size.y) by (nonlinear_arith)
        requires 0 <= lx < ch.size.x, 0 <= ly < ch.size.y;
}

/// Puts the pixels of every chunk at their place in the whole image. Fails
/// when there is not one pixel list per chunk, or a list does not hold
/// exactly its chunk's pixels.
pub fn assemble(size: UVec2, cs: UVec2, parts: &Vec<Vec<UVec3>>) -> (r: Result<Vec<UVec3>, Error>)
    requires
        valid_chunk_size(cs),
        size.x * size.y <= usize::MAX,
    ensures
        r is Ok <==> parts_fit(size, cs, views(parts@)),
        r matches Err(e) ==> e == Error::LayoutMismatch,
        r matches Ok(img) ==> img@ == assembled(size, cs, views(parts@)),
{
    let ncols = ceil_div(size.x, cs.x);
    let nrows = ceil_div(size.y, cs.y);
    proof {
        lemma_ceil_div_bounds(size.x as int + 1, cs.x as int);
        assert(ncols <= size.x && nrows <= size.y) by (nonlinear_arith)
            requires ncols == (size.x + cs.x - 1) / cs.x as int, nrows == (size.y + cs.y - 1) / cs.y as int,
                cs.x >= 1, cs.y >= 1;
        assert(ncols * nrows <= size.x * size.y) by (nonlinear_arith)
            requires ncols <= size.x, nrows <= size.y;
    }
    let n = ncols as usize * nrows as usize;
    if parts.len() != n {
        return Err(Error::LayoutMismatch);
    }
    let mut k: usize = 0;
    while k < n
        invariant
            valid_chunk_size(cs),
            size.x * size.y <= usize::MAX,
            ncols == cols(size, cs),
            nrows == rows(size, cs),
            n == ncols * nrows,
            parts@.len() == n,
            k <= n,
            forall|j: int| 0 <= j < k ==> #[trigger] parts@[j]@.len()
                == chunk_at(size, cs, j).size.x * chunk_at(size, cs, j).size.y,
        decreases n - k,
    {
        proof {
            assert(ncols >= 1) by (nonlinear_arith)
                requires k < n, n == ncols * nrows, ncols >= 0, nrows >= 0;
        }
        let cu = k % (ncols as usize);
        let ru = k / (ncols as usize);
        proof {
            assert(ru < nrows) by (nonlinear_arith)
                requires ru as int == k as int / (ncols as int), k < ncols * nrows, ncols >= 1;
        }
        let c = cu as u32;
        let r = ru as u32;
        let ch = chunk(size, cs, c, r);
        proof {
            assert(ch.size.x * ch.size.y <= size.x * size.y) by (nonlinear_arith)
                requires ch.size.x <= size.x, ch.size.y <= size.y;
        }
        let want = ch.size.x as usize * ch.size.y as usize;
        if parts[k].len() != want {
            proof {
                assert(!parts_fit(size, cs, views(parts@))) by {
                    assert(views(parts@)[k as int].len() != chunk_at(size, cs, k as int).size.x
                        * chunk_at(size, cs, k as int).size.y);
                }
            }
            return Err(Error::LayoutMismatch);
        }
        k = k + 1;
    }
    proof {
        assert(parts_fit(size, cs, views(parts@)));
    }
    let ghost ps = views(parts@);
    let w = size.x;
    let h = size.y;
    let mut out: Vec<UVec3> = Vec::new();
    let mut y: u32 = 0;
    while y < h
        invariant
            valid_chunk_size(cs),
            size.x * size.y <= usize::MAX,
            w == size.x,
            h == size.y,
            ncols == cols(size, cs),
            n == ncols * rows(size, cs),
            ps == views(parts@),
            parts_fit(size, cs, ps),
            y <= h,
            out@.len() == y * w,
            forall|p: int| 0 <= p < out@.len() ==> #[trigger] out@[p] == assembled(size, cs, ps)[p],
        decreases h - y,
    {
        let mut x: u32 = 0;
        while x < w
            invariant
                valid_chunk_size(cs),
                size.x * size.y <= usize::MAX,
                w == size.x,
                h == size.y,
                ncols == cols(size, cs),
                n == ncols * rows(size, cs),
                ps == views(parts@),
                parts_fit(size, cs, ps),
                y < h,
                x <= w,
                out@.len() == y * w + x,
                forall|p: int| 0 <= p < out@.len() ==> #[trigger] out@[p] == assembled(size, cs, ps)[p],
            decreases w - x,
        {
            proof {
                lemma_cell(size, cs, x as int, y as int);
            }
            let c = x / cs.x;
            let r = y / cs.y;
            let ch = chunk(size, cs, c, r);
            let kk = r as usize * ncols as usize + c as usize;
            let plen = parts[kk].len();
            proof {
                assert(ps[kk as int] == parts@[kk as int]@);
                assert(plen == ch.size.x * ch.size.y);
                let ly = (y - ch.offset.y) as int;
                let lx = (x - ch.offset.x) as int;
                assert(ly * ch.size.x <= ly * ch.size.x + lx < plen);
                assert(ly * ch.size.x + lx <= usize::MAX);
                assert(ly * ch.size.x <= usize::MAX);
            }
            let local = (y - ch.offset.y) as usize * ch.size.x as usize + (x - ch.offset.x) as usize;
            proof {
                let p = y * w + x;
                assert(p < w * h) by (nonlinear_arith)
                    requires y < h, x < w, p == y * w + x;
                lemma_fundamental_div_mod_converse(p, w as int, y as int, x as int);
                assert(ps[kk as int] == parts@[kk as int]@);
            }
            out.push(parts[kk][local]);
            x = x + 1;
        }
        proof {
            assert(y * w + w == (y + 1) * w) by (nonlinear_arith);
        }
        y = y + 1;
    }
    proof {
        assert(h * w == size.x * size.y) by (nonlinear_arith)
            requires h == size.y, w == size.x;
        assert(out@ =~= assembled(size, cs, ps));
    }
    Ok(out)
}

/// Rendering in chunks puts every pixel where one dispatch over the whole
/// image puts it: when each chunk's pixels are the image's pixels at the
/// chunk's place (row by row within the chunk), the assembled image is the
/// whole image row by row.
pub proof fn lemma_chunked_matches_single(
    size: UVec2,
    cs: UVec2,
    parts: Seq<Seq<UVec3>>,
    pixel: spec_fn(int, int) -> UVec3,
)
    requires
        valid_chunk_size(cs),
        parts_fit(size, cs, parts),
        forall|k: int, i: int|
            0 <= k < parts.len() && 0 <= i < parts[k].len() ==> #[trigger] parts[k][i] == pixel(
                chunk_at(size, cs, k).offset.x + i % (chunk_at(size, cs, k).size.x as int),
                chunk_at(size, cs, k).offset.y + i / (chunk_at(size, cs, k).size.x as int),
            ),
    ensures
        assembled(size, cs, parts) == Seq::new(
            (size.x * size.y) as nat,
            |p: int| pixel(p % size.x as int, p / size.x as int),
        ),
{
    let w = size.x as int;
    let a = assembled(size, cs, parts);
    let b = Seq::new((size.x * size.y) as nat, |p: int| pixel(p % w, p / w));
    assert forall|p: int| 0 <= p < a.len() implies #[trigger] a[p] == b[p] by {
        let x = p % w;
        let y = p / w;
        assert(0 <= x < w && 0 <= y < size.y) by (nonlinear_arith)
            requires 0 <= p < size.x * size.y, x == p % w, y == p / w, w == size.x;
        lemma_cell(size, cs, x, y);
        let k = chunk_index(size, cs, x, y);
        let ch = chunk_at(size, cs, k);
        let li = local_index(size, cs, x, y);
        lemma_fundamental_div_mod_converse(li, ch.size.x as int, y - ch.offset.y, x - ch.offset.x);
        assert(parts[k][li] == pixel(x, y));
    }
    assert(a =~= b);
}

} // verus!
