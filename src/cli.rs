//! Command-line values: their defaults, and the `W:H` pairs they carry.
use vstd::prelude::*;
use vstd::string::StringSliceAdditionalSpecFns;
use vstd::utf8::encode_utf8;

use crate::vector::UVec2;

verus! {

/// The command line's values once defaults are filled in.
#[derive(Debug)]
pub struct CliArgs {
    /// chunk size (width:height)
    pub chunk_size: String,
    /// output file
    pub output: String,
    /// samples per pixel
    pub samples_per_pixel: u32,
    /// screen size (width:height)
    pub screen_size: String,
    /// view box position (x_offset:y_offset)
    pub view_box_position: Option<String>,
    /// view box size (width:height)
    pub view_box_size: Option<String>,
}

pub const DEFAULT_SAMPLES_PER_PIXEL: u32 = 500;

pub open spec fn opt_view(o: Option<String>) -> Option<Seq<char>> {
    match o {
        Some(s) => Some(s@),
        None => None,
    }
}

/// Fills in the defaults for the flags that were not given: chunks of
/// `64:64`, output to `image.ppm`, 500 samples per pixel and a `1920:1080`
/// screen. The view box has no default.
pub fn parse(
    chunk_size: Option<String>,
    output: Option<String>,
    samples_per_pixel: Option<u32>,
    screen_size: Option<String>,
    view_box_position: Option<String>,
    view_box_size: Option<String>,
) -> (r: CliArgs)
    ensures
        r.chunk_size@ == (match chunk_size {
            Some(s) => s@,
            None => "64:64"@,
        }),
        r.output@ == (match output {
            Some(s) => s@,
            None => "image.ppm"@,
        }),
        r.samples_per_pixel == (match samples_per_pixel {
            Some(n) => n,
            None => DEFAULT_SAMPLES_PER_PIXEL,
        }),
        r.screen_size@ == (match screen_size {
            Some(s) => s@,
            None => "1920:1080"@,
        }),
        opt_view(r.view_box_position) == opt_view(view_box_position),
        opt_view(r.view_box_size) == opt_view(view_box_size),
{
    CliArgs {
        chunk_size: match chunk_size {
            Some(s) => s,
            None => "64:64".to_owned(),
        },
        output: match output {
            Some(s) => s,
            None => "image.ppm".to_owned(),
        },
        samples_per_pixel: match samples_per_pixel {
            Some(n) => n,
            None => DEFAULT_SAMPLES_PER_PIXEL,
        },
        screen_size: match screen_size {
            Some(s) => s,
            None => "1920:1080".to_owned(),
        },
        view_box_position,
        view_box_size,
    }
}

pub open spec fn is_digit(c: u8) -> bool {
    48 <= c <= 57
}

/// The value of a string of decimal digits.
pub open spec fn digits_value(b: Seq<u8>) -> nat
    decreases b.len(),
{
    if b.len() == 0 {
        0
    } else {
        digits_value(b.drop_last()) * 10 + (b.last() - 48) as nat
    }
}

/// The text after an optional leading `+`.
pub open spec fn unsigned_part(b: Seq<u8>) -> Seq<u8> {
    if b.len() > 0 && b[0] == 43 { b.drop_first() } else { b }
}

pub open spec fn all_digits(d: Seq<u8>) -> bool {
    forall|i: int| 0 <= i < d.len() ==> is_digit(#[trigger] d[i])
}

/// An unsigned 32-bit number as text: an optional `+`, then one or more
/// decimal digits, whose value fits in 32 bits.
pub open spec fn parse_u32_spec(b: Seq<u8>) -> Option<u32> {
    let d = unsigned_part(b);
    if d.len() > 0 && all_digits(d) && digits_value(d) <= u32::MAX {
        Some(digits_value(d) as u32)
    } else {
        None
    }
}

/// Index of the first `:` at or after `from`, or -1 when there is none.
pub open spec fn find_colon(b: Seq<u8>, from: int) -> int
    decreases b.len() - from,
{
    if from >= b.len() || from < 0 {
        -1
    } else if b[from] == 58 {
        from
    } else {
        find_colon(b, from + 1)
    }
}

/// A `W:H` pair: text before the first `:` and after it, each a number.
pub open spec fn vec2_spec(b: Seq<u8>) -> Option<UVec2> {
    let i = find_colon(b, 0);
    if i < 0 {
        None
    } else {
        match (parse_u32_spec(b.subrange(0, i)), parse_u32_spec(b.subrange(i + 1, b.len() as int))) {
            (Some(x), Some(y)) => Some(UVec2 { x, y }),
            _ => None,
        }
    }
}

proof fn lemma_digits_prefix_le(b: Seq<u8>, j: int)
    requires
        0 <= j <= b.len(),
    ensures
        digits_value(b.subrange(0, j)) <= digits_value(b),
    decreases b.len() - j,
{
    if j < b.len() {
        lemma_digits_prefix_le(b, j + 1);
        assert(b.subrange(0, j + 1).drop_last() =~= b.subrange(0, j));
    } else {
        assert(b.subrange(0, j) =~= b);
    }
}

/// Reads an unsigned 32-bit number from the bytes `b[lo..hi]`.
fn parse_u32(b: &[u8], lo: usize, hi: usize) -> (r: Option<u32>)
    requires
        lo <= hi <= b@.len(),
    ensures
        r == parse_u32_spec(b@.subrange(lo as int, hi as int)),
{
    let ghost s = b@.subrange(lo as int, hi as int);
    let mut start = lo;
    if lo < hi && b[lo] == 43 {
        start = lo + 1;
    }
    let ghost d = b@.subrange(start as int, hi as int);
    proof {
        if s.len() > 0 && s[0] == 43 {
            assert(d =~= s.drop_first());
        } else {
            assert(d =~= s);
        }
    }
    if start == hi {
        return None;
    }
    let mut acc: u64 = 0;
    let mut i = start;
    while i < hi
        invariant
            lo <= start <= i <= hi <= b@.len(),
            start < hi,
            s == b@.subrange(lo as int, hi as int),
            d == b@.subrange(start as int, hi as int),
            d == unsigned_part(s),
            forall|k: int| 0 <= k < i - start ==> is_digit(#[trigger] d[k]),
            acc == digits_value(d.subrange(0, i - start)),
            acc <= u32::MAX,
        decreases hi - i,
    {
        let c = b[i];
        if c < 48 || c > 57 {
            proof {
                assert(d[i - start] == c);
                assert(!is_digit(d[i - start]));
                assert(!(forall|k: int| 0 <= k < d.len() ==> is_digit(#[trigger] d[k])));
                assert(parse_u32_spec(s) is None);
            }
            return None;
        }
        proof {
            assert(d.subrange(0, i + 1 - start).drop_last() =~= d.subrange(0, i - start));
        }
        acc = acc * 10 + (c - 48) as u64;
        proof {
            assert(d[i - start] == c);
        }
        if acc > 0xffff_ffff {
            proof {
                lemma_digits_prefix_le(d, i + 1 - start);
                assert(digits_value(d) > u32::MAX);
            }
            return None;
        }
        i = i + 1;
    }
    proof {
        assert(d.subrange(0, i - start) =~= d);
    }
    Some(acc as u32)
}

/// Reads a `W:H` pair. `None` when there is no `:` or either side is not
/// an unsigned 32-bit number.
pub fn str_to_vec2(value: &str) -> (r: Option<UVec2>)
    ensures
        r == vec2_spec(value.spec_bytes()),
{
    let b = value.as_bytes();
    let len = b.len();
    let mut i: usize = 0;
    while i < len
        invariant
            len == b@.len(),
            b@ == value.spec_bytes(),
            i <= len,
            find_colon(b@, i as int) == find_colon(b@, 0),
        decreases len - i,
    {
        if b[i] == 58 {
            let x = parse_u32(b, 0, i);
            let y = parse_u32(b, i + 1, len);
            return match (x, y) {
                (Some(x), Some(y)) => Some(UVec2 { x, y }),
                _ => None,
            };
        }
        i = i + 1;
    }
    None
}

/// The numbers the command line carries, read from its `W:H` pairs.
#[derive(Debug)]
pub struct RenderSettings {
    pub chunk_size: UVec2,
    pub output: String,
    pub samples_per_pixel: u32,
    pub screen_size: UVec2,
    pub view_box_position: Option<UVec2>,
    pub view_box_size: Option<UVec2>,
}

pub open spec fn opt_vec2_spec(o: Option<String>) -> Option<Option<UVec2>> {
    match o {
        None => Some(None),
        Some(s) => match vec2_spec(encode_utf8(s@)) {
            Some(v) => Some(Some(v)),
            None => None,
        },
    }
}

fn opt_vec2(o: &Option<String>) -> (r: Option<Option<UVec2>>)
    ensures
        r == opt_vec2_spec(*o),
{
    match o {
        None => Some(None),
        Some(s) => match str_to_vec2(s.as_str()) {
            Some(v) => Some(Some(v)),
            None => None,
        },
    }
}

impl CliArgs {
    /// Reads every `W:H` pair. `None` when any of them is malformed, so that
    /// the caller can stop before any device work.
    pub fn settings(&self) -> (r: Option<RenderSettings>)
        ensures
            r is Some <==> {
                &&& vec2_spec(encode_utf8(self.chunk_size@)) is Some
                &&& vec2_spec(encode_utf8(self.screen_size@)) is Some
                &&& opt_vec2_spec(self.view_box_position) is Some
                &&& opt_vec2_spec(self.view_box_size) is Some
            },
            r matches Some(v) ==> {
                &&& Some(v.chunk_size) == vec2_spec(encode_utf8(self.chunk_size@))
                &&& Some(v.screen_size) == vec2_spec(encode_utf8(self.screen_size@))
                &&& Some(v.view_box_position) == opt_vec2_spec(self.view_box_position)
                &&& Some(v.view_box_size) == opt_vec2_spec(self.view_box_size)
                &&& v.samples_per_pixel == self.samples_per_pixel
                &&& v.output@ == self.output@
            },
    {
        let chunk_size = match str_to_vec2(self.chunk_size.as_str()) {
            Some(v) => v,
            None => return None,
        };
        let screen_size = match str_to_vec2(self.screen_size.as_str()) {
            Some(v) => v,
            None => return None,
        };
        let view_box_position = match opt_vec2(&self.view_box_position) {
            Some(v) => v,
            None => return None,
        };
        let view_box_size = match opt_vec2(&self.view_box_size) {
            Some(v) => v,
            None => return None,
        };
        Some(RenderSettings {
            chunk_size,
            output: self.output.clone(),
            samples_per_pixel: self.samples_per_pixel,
            screen_size,
            view_box_position,
            view_box_size,
        })
    }
}

} // verus!
