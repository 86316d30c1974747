use ray_tracing_in_one_weekend_webgpu::chunks::{assemble, chunks, Chunk};
use ray_tracing_in_one_weekend_webgpu::layout::read_word;
use ray_tracing_in_one_weekend_webgpu::ppm::{file_order, ppm};
use ray_tracing_in_one_weekend_webgpu::shaders::ray_tracer::{
    bindings, encode_entropy, output_buffer_size, prepare, workgroups, InputType, InputTypeMaterial, InputTypeSphere,
    OutputType,
};
use ray_tracing_in_one_weekend_webgpu::vector::{UVec2, UVec3, Vec3};
use ray_tracing_in_one_weekend_webgpu::Error;

fn v3(x: f32, y: f32, z: f32) -> Vec3 {
    Vec3 { x: x.to_bits(), y: y.to_bits(), z: z.to_bits() }
}

#[test]
fn dielectric_is_canonical() {
    for x in [1.5f32, 0.0, -2.0, 1e9] {
        let m = InputTypeMaterial::new_dielectric(x.to_bits());
        assert_eq!(m.albedo, v3(1.0, 1.0, 1.0));
        assert_eq!(m.type_, 3);
        assert_eq!(m.fuzz, 0.0f32.to_bits());
        assert_eq!(m.index_of_refraction, x.to_bits());
    }
    assert_eq!(InputTypeMaterial::new_dielectric(1.5f32.to_bits()), InputTypeMaterial::new_dielectric(1.5f32.to_bits()));
}

#[test]
fn lambertian_and_metal_are_canonical() {
    let m = InputTypeMaterial::new_lambertian(v3(0.5, 0.5, 0.5));
    assert_eq!(m.albedo, v3(0.5, 0.5, 0.5));
    assert_eq!((m.type_, m.fuzz, m.index_of_refraction), (1, 0, 0));
    let m = InputTypeMaterial::new_metal(v3(0.7, 0.6, 0.5), 0.25f32.to_bits());
    assert_eq!(m.albedo, v3(0.7, 0.6, 0.5));
    assert_eq!((m.type_, m.fuzz, m.index_of_refraction), (2, 0.25f32.to_bits(), 0));
}

fn sphere(x: f32, radius: f32, material: InputTypeMaterial) -> InputTypeSphere {
    InputTypeSphere { center: v3(x, 1.0, 0.0), radius: radius.to_bits(), material }
}

#[test]
fn scene_round_trip() {
    let spheres = vec![
        sphere(0.0, 1000.0, InputTypeMaterial::new_lambertian(v3(0.5, 0.5, 0.5))),
        sphere(-4.0, -0.9, InputTypeMaterial::new_dielectric(1.5f32.to_bits())),
        sphere(4.0, 1.0, InputTypeMaterial::new_metal(v3(0.7, 0.6, 0.5), 0)),
    ];
    for n in [0usize, 1, 3] {
        let input = InputType { screen_size: UVec2::new(400, 224), spheres: spheres[..n].to_vec() };
        let b = input.encode();
        assert_eq!(b.len(), 16 + 48 * n);
        assert_eq!(read_word(&b, 0), 400);
        assert_eq!(read_word(&b, 4), 224);
        let d = InputType::decode(&b).unwrap();
        assert_eq!(d.screen_size, input.screen_size);
        assert_eq!(d.spheres, input.spheres);
    }
}

#[test]
fn sphere_record_layout() {
    let input = InputType {
        screen_size: UVec2::new(1, 1),
        spheres: vec![sphere(2.0, -0.5, InputTypeMaterial::new_dielectric(1.5f32.to_bits()))],
    };
    let b = input.encode();
    assert_eq!(read_word(&b, 16), 2.0f32.to_bits());
    assert_eq!(read_word(&b, 28), (-0.5f32).to_bits());
    assert_eq!(read_word(&b, 32), 1.0f32.to_bits());
    assert_eq!(read_word(&b, 44), 3);
    assert_eq!(read_word(&b, 48), 0);
    assert_eq!(read_word(&b, 52), 1.5f32.to_bits());
    assert_eq!(read_word(&b, 56), 0);
    assert_eq!(read_word(&b, 60), 0);
}

#[test]
fn scene_decode_rejects_short_header() {
    assert!(matches!(InputType::decode(&[0u8; 15]), Err(Error::LayoutMismatch)));
    let d = InputType::decode(&[0u8; 16 + 47]).unwrap();
    assert_eq!(d.spheres.len(), 0);
}

#[test]
fn output_buffer_size_per_pixel_count() {
    assert_eq!(output_buffer_size(UVec2::new(0, 0)), Some(16));
    assert_eq!(output_buffer_size(UVec2::new(1, 1)), Some(32));
    assert_eq!(output_buffer_size(UVec2::new(256, 256)), Some(16 + 16 * 65536));
    assert_eq!(output_buffer_size(UVec2::new(u32::MAX, u32::MAX)), None);
}

#[test]
fn screen_dispatch_and_bindings() {
    assert_eq!(workgroups(UVec2::new(256, 256)), UVec3::new(32, 32, 1));
    assert_eq!(workgroups(UVec2::new(400, 225)), UVec3::new(50, 29, 1));
    let b = bindings();
    assert_eq!(b.iter().map(|b| b.slot).collect::<Vec<_>>(), vec![0, 1, 2]);
    assert_eq!(b.iter().map(|b| b.read_only).collect::<Vec<_>>(), vec![true, false, true]);
    assert_eq!(b.iter().map(|b| b.min_size).collect::<Vec<_>>(), vec![64, 32, 4]);
}

#[test]
fn output_round_trip_full_screen() {
    let pixels: Vec<UVec3> = (0..256u32 * 256).map(|i| UVec3::new(i % 256, i / 256, 255)).collect();
    let out = OutputType { pixels: pixels.clone() };
    let b = out.encode();
    assert_eq!(b.len(), 16 + 16 * 65536);
    let d = OutputType::decode(&b).unwrap();
    assert_eq!(d.pixels.len(), 65536);
    assert!(d.pixels.iter().all(|p| p.x <= 255 && p.y <= 255 && p.z <= 255));
    assert_eq!(d.pixels, pixels);
}

#[test]
fn entropy_is_packed_words() {
    let b = encode_entropy(&vec![0.5f32.to_bits(), 0.25f32.to_bits()]);
    assert_eq!(b.len(), 8);
    assert_eq!(read_word(&b, 0), 0.5f32.to_bits());
    assert_eq!(read_word(&b, 4), 0.25f32.to_bits());
}

#[test]
fn chunks_of_an_image() {
    let cs = chunks(UVec2::new(128, 128), UVec2::new(64, 64));
    assert_eq!(cs.len(), 4);
    assert_eq!(cs[1], Chunk { offset: UVec2::new(64, 0), size: UVec2::new(64, 64) });
    assert_eq!(cs[2], Chunk { offset: UVec2::new(0, 64), size: UVec2::new(64, 64) });
    let cs = chunks(UVec2::new(100, 70), UVec2::new(64, 64));
    assert_eq!(cs.len(), 4);
    assert_eq!(cs[3], Chunk { offset: UVec2::new(64, 64), size: UVec2::new(36, 6) });
    assert_eq!(chunks(UVec2::new(0, 10), UVec2::new(4, 4)).len(), 0);
}

fn render(offset: UVec2, size: UVec2) -> Vec<UVec3> {
    let mut v = Vec::new();
    for y in 0..size.y {
        for x in 0..size.x {
            v.push(UVec3::new(offset.x + x, offset.y + y, 7));
        }
    }
    v
}

#[test]
fn chunked_render_matches_single_dispatch() {
    let size = UVec2::new(128, 128);
    let chunk_size = UVec2::new(64, 64);
    // chunks completed in reverse order are still put at their own place
    let cs = chunks(size, chunk_size);
    let parts: Vec<Vec<UVec3>> = cs.iter().map(|c| render(c.offset, c.size)).collect();
    let img = assemble(size, chunk_size, &parts).unwrap();
    let single = render(UVec2::new(0, 0), size);
    assert_eq!(img, single);

    let size = UVec2::new(100, 70);
    let cs = chunks(size, chunk_size);
    let parts: Vec<Vec<UVec3>> = cs.iter().map(|c| render(c.offset, c.size)).collect();
    assert_eq!(assemble(size, chunk_size, &parts).unwrap(), render(UVec2::new(0, 0), size));
}

#[test]
fn assemble_rejects_wrong_parts() {
    let size = UVec2::new(128, 128);
    let chunk_size = UVec2::new(64, 64);
    let cs = chunks(size, chunk_size);
    let mut parts: Vec<Vec<UVec3>> = cs.iter().map(|c| render(c.offset, c.size)).collect();
    parts[2].pop();
    assert_eq!(assemble(size, chunk_size, &parts), Err(Error::LayoutMismatch));
    parts.pop();
    assert_eq!(assemble(size, chunk_size, &parts), Err(Error::LayoutMismatch));
}

#[test]
fn file_order_reverses_rows() {
    let size = UVec2::new(256, 256);
    let pixels = render(UVec2::new(0, 0), size);
    let out = file_order(&pixels, size);
    assert_eq!(out.len(), 65536);
    assert_eq!(out[0], UVec3::new(0, 255, 7));
    assert_eq!(out[255], UVec3::new(255, 255, 7));
    assert_eq!(out[65535], UVec3::new(255, 0, 7));
    let small = vec![UVec3::new(1, 0, 0), UVec3::new(2, 0, 0), UVec3::new(3, 0, 0), UVec3::new(4, 0, 0)];
    assert_eq!(
        file_order(&small, UVec2::new(2, 2)),
        vec![UVec3::new(3, 0, 0), UVec3::new(4, 0, 0), UVec3::new(1, 0, 0), UVec3::new(2, 0, 0)]
    );
}

#[test]
fn prepare_plans_whole_screen() {
    let input = InputType {
        screen_size: UVec2::new(256, 256),
        spheres: vec![sphere(0.0, 1.0, InputTypeMaterial::new_lambertian(v3(0.5, 0.5, 0.5)))],
    };
    let entropy = vec![0.5f32.to_bits(); 3];
    let d = prepare(&input, &entropy).unwrap();
    assert_eq!(d.uploads.len(), 2);
    assert_eq!(d.uploads[0].slot, 0);
    assert_eq!(d.uploads[0].bytes, input.encode());
    assert_eq!(d.uploads[1].slot, 2);
    assert_eq!(d.uploads[1].bytes.len(), 12);
    assert_eq!(d.staging_size, 16 + 16 * 65536);
    assert_eq!(d.output_slot, 1);
    assert_eq!(d.output_size, 16 + 16 * 65536);
    assert_eq!(d.groups, UVec3::new(32, 32, 1));
    let huge = InputType { screen_size: UVec2::new(u32::MAX, u32::MAX), spheres: vec![] };
    assert!(prepare(&huge, &entropy).is_none());
}

#[test]
fn end_to_end_empty_scene_file() {
    // what the kernel hands back for a 256x256 screen and no spheres
    let input = InputType { screen_size: UVec2::new(256, 256), spheres: Vec::new() };
    assert_eq!(input.encode().len(), 16);
    let size = input.screen_size;
    let pixels: Vec<UVec3> = (0..256u32 * 256).map(|i| UVec3::new(i % 256, i / 256, 128)).collect();
    let bytes = OutputType { pixels }.encode();
    assert_eq!(Some(bytes.len() as u64), output_buffer_size(size));
    let out = OutputType::decode(&bytes).unwrap();
    assert_eq!(out.pixels.len(), 65536);
    assert!(out.pixels.iter().all(|p| p.x <= 255 && p.y <= 255 && p.z <= 255));
    let text = String::from_utf8(ppm(&out.pixels, size)).unwrap();
    assert!(text.starts_with("P3\n256 256\n255\n"));
    let data: Vec<&str> = text.lines().skip(3).collect();
    assert_eq!(data.len(), 65536);
    // the first line written is the last row of the buffer
    assert_eq!(data[0], "0 255 128");
    assert_eq!(data[65535], "255 0 128");
}

#[test]
fn ppm_small_image_text() {
    let pixels = vec![UVec3::new(1, 2, 3), UVec3::new(10, 20, 30), UVec3::new(0, 0, 0), UVec3::new(255, 255, 255)];
    let text = String::from_utf8(ppm(&pixels, UVec2::new(2, 2))).unwrap();
    assert_eq!(text, "P3\n2 2\n255\n0 0 0\n255 255 255\n1 2 3\n10 20 30\n");
    assert_eq!(String::from_utf8(ppm(&vec![], UVec2::new(0, 0))).unwrap(), "P3\n0 0\n255\n");
}

#[test]
fn empty_scene_meets_slot_minimums() {
    let input = InputType { screen_size: UVec2::new(256, 256), spheres: Vec::new() };
    let d = prepare(&input, &vec![]).unwrap();
    let mins = bindings();
    // the encoded 16-byte header, then zeros up to one sphere
    assert_eq!(d.uploads[0].bytes.len(), 64);
    assert_eq!(&d.uploads[0].bytes[..16], &input.encode()[..]);
    assert!(d.uploads[0].bytes[16..].iter().all(|b| *b == 0));
    assert_eq!(d.uploads[1].bytes, vec![0u8; 4]);
    for u in &d.uploads {
        assert!(u.bytes.len() as u64 >= mins[u.slot as usize].min_size);
    }
    assert_eq!((d.output_size, d.staging_size), (16 + 16 * 65536, 16 + 16 * 65536));
    let none = InputType { screen_size: UVec2::new(0, 5), spheres: Vec::new() };
    let d = prepare(&none, &vec![0.5f32.to_bits()]).unwrap();
    assert_eq!((d.output_size, d.staging_size), (32, 16));
}
