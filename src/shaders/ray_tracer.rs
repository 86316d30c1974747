//! The path-tracing kernel: its scene records, their byte layout, and the
//! size of the pixel buffer it writes.
use vstd::prelude::*;

use crate::binding::{meets_minimums, pad_to, padded, slots_in_order, Binding, Dispatch, Upload};
use crate::counted::{counted_decoded, counted_fits, counted_words, decode_counted, encode_counted};
use crate::dispatch::{plan, plan_spec};
use crate::layout::{
    aggregate_size, buffer_size, flat, lemma_flat_index, lemma_flat_push, lemma_words_le_at,
    lemma_words_le_len, read_word, word_at, words_le, words_to_bytes,
};
use crate::vector::{UVec2, UVec3, Vec3};
use crate::Error;

verus! {

/// Bit pattern of the single-precision value 1.0.
pub const ONE_BITS: u32 = 0x3f80_0000;

/// Material kinds as the kernel numbers them.
pub const KIND_BACKGROUND: u32 = 0;
pub const KIND_LAMBERTIAN: u32 = 1;
pub const KIND_METAL: u32 = 2;
pub const KIND_DIELECTRIC: u32 = 3;

/// Invocations per group along each axis.
pub const GROUP_X: u32 = 8;
pub const GROUP_Y: u32 = 8;
pub const GROUP_Z: u32 = 1;

/// Bytes before the first sphere, and bytes per sphere.
pub const INPUT_HEADER_SIZE: u64 = 16;
pub const SPHERE_STRIDE: u64 = 48;
/// Bytes before the first pixel, and bytes per pixel.
pub const OUTPUT_HEADER_SIZE: u64 = 16;
pub const PIXEL_STRIDE: u64 = 16;

/// A surface material. The four kinds share one record; fields a kind does
/// not use hold a neutral value. Single-precision values are bit patterns.
#[derive(Clone, Copy, Debug, PartialEq, Eq, Structural)]
pub struct InputTypeMaterial {
    pub albedo: Vec3,
    pub type_: u32,
    pub fuzz: u32,
    pub index_of_refraction: u32,
}

/// A sphere. A negative radius is meaningful: it turns the surface inside out.
#[derive(Clone, Copy, Debug, PartialEq, Eq, Structural)]
pub struct InputTypeSphere {
    pub center: Vec3,
    pub radius: u32,
    pub material: InputTypeMaterial,
}

/// What the kernel reads: the screen size and the scene.
#[derive(Debug)]
pub struct InputType {
    pub screen_size: UVec2,
    pub spheres: Vec<InputTypeSphere>,
}

/// What the kernel writes: one colour per pixel, row by row from the bottom.
#[derive(Debug)]
pub struct OutputType {
    pub pixels: Vec<UVec3>,
}

impl InputTypeMaterial {
    pub fn new_lambertian(albedo: Vec3) -> (r: InputTypeMaterial)
        ensures
            r.albedo == albedo,
            r.type_ == KIND_LAMBERTIAN,
            r.fuzz == 0,
            r.index_of_refraction == 0,
    {
        InputTypeMaterial { albedo, type_: KIND_LAMBERTIAN, fuzz: 0, index_of_refraction: 0 }
    }

    pub fn new_metal(albedo: Vec3, fuzz: u32) -> (r: InputTypeMaterial)
        ensures
            r.albedo == albedo,
            r.type_ == KIND_METAL,
            r.fuzz == fuzz,
            r.index_of_refraction == 0,
    {
        InputTypeMaterial { albedo, type_: KIND_METAL, fuzz, index_of_refraction: 0 }
    }

    /// A dielectric is always white and never fuzzy.
    pub fn new_dielectric(index_of_refraction: u32) -> (r: InputTypeMaterial)
        ensures
            r.albedo == (Vec3 { x: ONE_BITS, y: ONE_BITS, z: ONE_BITS }),
            r.type_ == KIND_DIELECTRIC,
            r.fuzz == 0,
            r.index_of_refraction == index_of_refraction,
    {
        InputTypeMaterial {
            albedo: Vec3 { x: ONE_BITS, y: ONE_BITS, z: ONE_BITS },
            type_: KIND_DIELECTRIC,
            fuzz: 0,
            index_of_refraction,
        }
    }
}

/// The twelve words of a sphere: centre, radius, then the material's albedo,
/// kind, fuzz and index of refraction, padded to a multiple of sixteen bytes.
pub open spec fn sphere_record(s: InputTypeSphere) -> Seq<u32> {
    seq![
        s.center.x, s.center.y, s.center.z, s.radius,
        s.material.albedo.x, s.material.albedo.y, s.material.albedo.z, s.material.type_,
        s.material.fuzz, s.material.index_of_refraction, 0u32, 0u32,
    ]
}

pub open spec fn sphere_from_words(b: Seq<u8>, at: int) -> InputTypeSphere {
    InputTypeSphere {
        center: Vec3 { x: word_at(b, at), y: word_at(b, at + 4), z: word_at(b, at + 8) },
        radius: word_at(b, at + 12),
        material: InputTypeMaterial {
            albedo: Vec3 { x: word_at(b, at + 16), y: word_at(b, at + 20), z: word_at(b, at + 24) },
            type_: word_at(b, at + 28),
            fuzz: word_at(b, at + 32),
            index_of_refraction: word_at(b, at + 36),
        },
    }
}

/// The words of the kernel's input: screen size, padding, then the spheres.
pub open spec fn input_words(v: InputType) -> Seq<u32> {
    seq![v.screen_size.x, v.screen_size.y, 0u32, 0u32]
        + flat(v.spheres@.map_values(|s: InputTypeSphere| sphere_record(s)), 12)
}

/// Single-precision values in the entropy buffer unless a caller asks for
/// another amount.
pub const DEFAULT_ENTROPY_LEN: usize = 1_000_000;

/// Group size of the kernel.
pub open spec fn group_size() -> UVec3 {
    UVec3 { x: GROUP_X as u32, y: GROUP_Y as u32, z: GROUP_Z as u32 }
}

/// The three slots: the scene (read), the pixels (written) and the entropy
/// buffer (read). Each minimum is the header plus one element.
pub open spec fn binding_list() -> Seq<Binding> {
    seq![
        Binding { slot: 0, read_only: true, min_size: 64 },
        Binding { slot: 1, read_only: false, min_size: 32 },
        Binding { slot: 2, read_only: true, min_size: 4 },
    ]
}

pub fn bindings() -> (r: Vec<Binding>)
    ensures
        r@ == binding_list(),
        slots_in_order(r@),
{
    let mut r: Vec<Binding> = Vec::new();
    r.push(Binding { slot: 0, read_only: true, min_size: INPUT_HEADER_SIZE + SPHERE_STRIDE });
    r.push(Binding { slot: 1, read_only: false, min_size: OUTPUT_HEADER_SIZE + PIXEL_STRIDE });
    r.push(Binding { slot: 2, read_only: true, min_size: 4 });
    r
}

/// Groups to dispatch for a screen: one invocation per pixel, rounded up to
/// whole groups.
pub fn workgroups(screen_size: UVec2) -> (r: UVec3)
    ensures
        r == plan_spec(UVec3 { x: screen_size.x, y: screen_size.y, z: 1 }, group_size()),
{
    plan(screen_size.extend(1), UVec3 { x: GROUP_X, y: GROUP_Y, z: GROUP_Z })
}

/// Bytes of the pixel buffer and of its staging copy for a screen: the
/// header and one element per pixel. `None` when that does not fit in 64 bits.
pub fn output_buffer_size(screen_size: UVec2) -> (r: Option<u64>)
    ensures
        r is Some <==> aggregate_size(16, screen_size.x as nat * screen_size.y as nat, 16) <= u64::MAX,
        r matches Some(n) ==> n == aggregate_size(16, screen_size.x as nat * screen_size.y as nat, 16),
{
    assert((screen_size.x as u64) * (screen_size.y as u64) <= u64::MAX) by (nonlinear_arith)
        requires screen_size.x <= u32::MAX, screen_size.y <= u32::MAX;
    let count = (screen_size.x as u64) * (screen_size.y as u64);
    buffer_size(OUTPUT_HEADER_SIZE, count, PIXEL_STRIDE)
}

impl OutputType {
    /// Serialises the pixels with their count in front.
    pub fn encode(&self) -> (r: Vec<u8>)
        requires
            self.pixels@.len() <= u32::MAX,
            self.pixels@.len() * 16 + 16 <= usize::MAX,
        ensures
            r@ == words_le(counted_words(self.pixels@)),
            r@.len() == aggregate_size(16, self.pixels@.len(), 16),
    {
        encode_counted(&self.pixels)
    }

    /// Reads the pixels the kernel wrote. Fails when the bytes are shorter
    /// than the header plus the pixels it counts.
    pub fn decode(b: &[u8]) -> (r: Result<OutputType, Error>)
        ensures
            r is Ok <==> counted_fits(b@),
            r matches Err(e) ==> e == Error::LayoutMismatch,
            r matches Ok(v) ==> v.pixels@ == counted_decoded(b@),
    {
        match decode_counted(b) {
            Ok(pixels) => Ok(OutputType { pixels }),
            Err(e) => Err(e),
        }
    }
}

/// Serialises the entropy buffer: the values one after the other, with no
/// header.
pub fn encode_entropy(values: &Vec<u32>) -> (r: Vec<u8>)
    requires
        values@.len() <= usize::MAX / 4,
    ensures
        r@ == words_le(values@),
{
    words_to_bytes(values)
}

/// Plans one dispatch over the whole screen: the encoded scene in slot 0,
/// the encoded entropy values in slot 2, and a pixel buffer in slot 1, each
/// padded with zeros up to its slot's minimum. The staging copy holds the
/// header and one element per pixel; enough groups cover the screen. `None`
/// when the scene, the entropy or the pixel buffer is too large to address.
pub fn prepare(input: &InputType, entropy: &Vec<u32>) -> (r: Option<Dispatch>)
    ensures
        r is Some <==> {
            &&& input.spheres@.len() * 48 + 16 <= usize::MAX
            &&& entropy@.len() <= usize::MAX / 4
            &&& aggregate_size(16, input.screen_size.x as nat * input.screen_size.y as nat, 16) <= u64::MAX
        },
        r matches Some(d) ==> {
            &&& d.uploads@.len() == 2
            &&& d.uploads@[0].slot == 0
            &&& d.uploads@[0].bytes@ == padded(words_le(input_words(*input)), 64)
            &&& d.uploads@[1].slot == 2
            &&& d.uploads@[1].bytes@ == padded(words_le(entropy@), 4)
            &&& d.output_slot == 1
            &&& d.staging_size == aggregate_size(16, input.screen_size.x as nat * input.screen_size.y as nat, 16)
            &&& d.output_size == if d.staging_size >= 32 { d.staging_size } else { 32 }
            &&& d.groups == plan_spec(UVec3 { x: input.screen_size.x, y: input.screen_size.y, z: 1 }, group_size())
            &&& meets_minimums(d, binding_list())
        },
{
    let n = input.spheres.len();
    if n > (usize::MAX - 16) / 48 {
        proof {
            assert(n * 48 + 16 > usize::MAX) by (nonlinear_arith)
                requires n > (usize::MAX - 16) / 48;
        }
        return None;
    }
    proof {
        assert(n * 48 + 16 <= usize::MAX) by (nonlinear_arith)
            requires n <= (usize::MAX - 16) / 48;
    }
    if entropy.len() > usize::MAX / 4 {
        return None;
    }
    let staging_size = match output_buffer_size(input.screen_size) {
        Some(size) => size,
        None => return None,
    };
    let output_size = if staging_size >= OUTPUT_HEADER_SIZE + PIXEL_STRIDE {
        staging_size
    } else {
        OUTPUT_HEADER_SIZE + PIXEL_STRIDE
    };
    let mut uploads: Vec<Upload> = Vec::new();
    uploads.push(Upload { slot: 0, bytes: pad_to(input.encode(), INPUT_HEADER_SIZE + SPHERE_STRIDE) });
    uploads.push(Upload { slot: 2, bytes: pad_to(encode_entropy(entropy), 4) });
    let d = Dispatch { uploads, output_slot: 1, output_size, staging_size, groups: workgroups(input.screen_size) };
    assert(d.uploads@[0].slot == 0);
    assert(d.uploads@[1].slot == 2);
    Some(d)
}

/// Number of whole spheres that follow the header in `len` bytes.
pub open spec fn sphere_count(len: nat) -> nat {
    ((len - 16) / 48) as nat
}

impl InputType {
    /// Serialises the input in the kernel's layout.
    pub fn encode(&self) -> (r: Vec<u8>)
        requires
            self.spheres@.len() * 48 + 16 <= usize::MAX,
        ensures
            r@ == words_le(input_words(*self)),
            r@.len() == aggregate_size(16, self.spheres@.len(), 48),
    {
        let ghost recs = self.spheres@.map_values(|s: InputTypeSphere| sphere_record(s));
        let mut ws: Vec<u32> = Vec::new();
        ws.push(self.screen_size.x);
        ws.push(self.screen_size.y);
        ws.push(0);
        ws.push(0);
        let ghost hdr = ws@;
        let mut i: usize = 0;
        while i < self.spheres.len()
            invariant
                i <= self.spheres@.len(),
                self.spheres@.len() * 48 + 16 <= usize::MAX,
                recs == self.spheres@.map_values(|s: InputTypeSphere| sphere_record(s)),
                hdr == seq![self.screen_size.x, self.screen_size.y, 0u32, 0u32],
                ws@ == hdr + flat(recs.subrange(0, i as int), 12),
            decreases self.spheres@.len() - i,
        {
            let s = self.spheres[i];
            ws.push(s.center.x);
            ws.push(s.center.y);
            ws.push(s.center.z);
            ws.push(s.radius);
            ws.push(s.material.albedo.x);
            ws.push(s.material.albedo.y);
            ws.push(s.material.albedo.z);
            ws.push(s.material.type_);
            ws.push(s.material.fuzz);
            ws.push(s.material.index_of_refraction);
            ws.push(0);
            ws.push(0);
            proof {
                lemma_flat_push(recs.subrange(0, i as int), 12, sphere_record(s));
                assert(recs.subrange(0, i + 1) =~= recs.subrange(0, i as int).push(sphere_record(s)));
                assert(ws@ =~= hdr + flat(recs.subrange(0, i + 1), 12));
            }
            i = i + 1;
        }
        proof {
            assert(recs.subrange(0, i as int) =~= recs);
            lemma_words_le_len(ws@);
        }
        words_to_bytes(&ws)
    }

    /// Reads an input back: the screen size, then as many whole spheres as
    /// the bytes hold. Fails when the bytes do not hold the header.
    pub fn decode(b: &[u8]) -> (r: Result<InputType, Error>)
        ensures
            r is Err <==> b@.len() < 16,
            r matches Err(e) ==> e == Error::LayoutMismatch,
            r matches Ok(v) ==> {
                &&& v.screen_size == (UVec2 { x: word_at(b@, 0), y: word_at(b@, 4) })
                &&& v.spheres@ == Seq::new(
                    sphere_count(b@.len()),
                    |i: int| sphere_from_words(b@, 16 + 48 * i),
                )
            },
    {
        let len = b.len();
        if len < 16 {
            return Err(Error::LayoutMismatch);
        }
        let screen_size = UVec2 { x: read_word(b, 0), y: read_word(b, 4) };
        let n = (len - 16) / 48;
        let mut spheres: Vec<InputTypeSphere> = Vec::new();
        let mut i: usize = 0;
        while i < n
            invariant
                len == b@.len(),
                len >= 16,
                n == sphere_count(len as nat),
                i <= n,
                spheres@ =~= Seq::new(i as nat, |k: int| sphere_from_words(b@, 16 + 48 * k)),
            decreases n - i,
        {
            assert(16 + 48 * i + 48 <= len) by (nonlinear_arith)
                requires i < n, n == (len - 16) / 48, len >= 16;
            let at = 16 + 48 * i;
            let s = InputTypeSphere {
                center: Vec3 { x: read_word(b, at), y: read_word(b, at + 4), z: read_word(b, at + 8) },
                radius: read_word(b, at + 12),
                material: InputTypeMaterial {
                    albedo: Vec3 {
                        x: read_word(b, at + 16),
                        y: read_word(b, at + 20),
                        z: read_word(b, at + 24),
                    },
                    type_: read_word(b, at + 28),
                    fuzz: read_word(b, at + 32),
                    index_of_refraction: read_word(b, at + 36),
                },
            };
            spheres.push(s);
            i = i + 1;
        }
        Ok(InputType { screen_size, spheres })
    }
}

/// Decoding the bytes of an encoded input gives the same input back, for
/// any number of spheres, none included.
pub proof fn lemma_input_round_trip(v: InputType)
    ensures
        ({
            let b = words_le(input_words(v));
            &&& b.len() >= 16
            &&& (UVec2 { x: word_at(b, 0), y: word_at(b, 4) }) == v.screen_size
            &&& Seq::new(sphere_count(b.len()), |i: int| sphere_from_words(b, 16 + 48 * i)) == v.spheres@
        }),
{
    let ws = input_words(v);
    let recs = v.spheres@.map_values(|s: InputTypeSphere| sphere_record(s));
    let n = v.spheres@.len();
    let b = words_le(ws);
    lemma_words_le_len(ws);
    assert(ws.len() == 4 + n * 12);
    assert(b.len() == 16 + 48 * n);
    assert((16 + 48 * n - 16) / 48 == n) by (nonlinear_arith);
    lemma_words_le_at(ws, 0);
    lemma_words_le_at(ws, 1);
    let d = Seq::new(sphere_count(b.len()), |i: int| sphere_from_words(b, 16 + 48 * i));
    assert forall|i: int| 0 <= i < n implies #[trigger] d[i] == v.spheres@[i] by {
        assert forall|j: int| 0 <= j < 12 implies word_at(b, 16 + 48 * i + 4 * j) == recs[i][j] by {
            lemma_flat_index(recs, 12, i, j);
            lemma_words_le_at(ws, 4 + i * 12 + j);
            assert(4 * (4 + i * 12 + j) == 16 + 48 * i + 4 * j);
        }
        assert(word_at(b, 16 + 48 * i + 4 * 0) == recs[i][0]);
        assert(word_at(b, 16 + 48 * i + 4 * 1) == recs[i][1]);
        assert(word_at(b, 16 + 48 * i + 4 * 2) == recs[i][2]);
        assert(word_at(b, 16 + 48 * i + 4 * 3) == recs[i][3]);
        assert(word_at(b, 16 + 48 * i + 4 * 4) == recs[i][4]);
        assert(word_at(b, 16 + 48 * i + 4 * 5) == recs[i][5]);
        assert(word_at(b, 16 + 48 * i + 4 * 6) == recs[i][6]);
        assert(word_at(b, 16 + 48 * i + 4 * 7) == recs[i][7]);
        assert(word_at(b, 16 + 48 * i + 4 * 8) == recs[i][8]);
        assert(word_at(b, 16 + 48 * i + 4 * 9) == recs[i][9]);
    }
    assert(d =~= v.spheres@);
}

} // verus!
