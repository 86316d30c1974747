use ray_tracing_in_one_weekend_webgpu::counted::{decode_counted, encode_counted};
use ray_tracing_in_one_weekend_webgpu::dispatch::{ceil_div, plan};
use ray_tracing_in_one_weekend_webgpu::binding::pad_to;
use ray_tracing_in_one_weekend_webgpu::kernel_text::with_group_size;
use ray_tracing_in_one_weekend_webgpu::layout::{buffer_size, bytes_to_words, read_word, words_to_bytes};
use ray_tracing_in_one_weekend_webgpu::shaders::{example, workgroup};
use ray_tracing_in_one_weekend_webgpu::vector::{UVec3, Vec3};
use ray_tracing_in_one_weekend_webgpu::Error;

#[test]
fn ceil_div_rounds_up() {
    assert_eq!(ceil_div(0, 8), 0);
    assert_eq!(ceil_div(1, 8), 1);
    assert_eq!(ceil_div(8, 8), 1);
    assert_eq!(ceil_div(9, 8), 2);
    assert_eq!(ceil_div(u32::MAX, 1), u32::MAX);
    assert_eq!(ceil_div(u32::MAX, 2), 2147483648);
}

#[test]
fn plan_covers_each_axis() {
    let g = plan(UVec3::new(4, 3, 2), UVec3::new(16, 16, 1));
    assert_eq!(g, UVec3::new(1, 1, 2));
    let g = plan(UVec3::new(256, 256, 1), UVec3::new(8, 8, 1));
    assert_eq!(g, UVec3::new(32, 32, 1));
    let g = plan(UVec3::new(400, 225, 1), UVec3::new(8, 8, 1));
    assert_eq!(g, UVec3::new(50, 29, 1));
    // every axis covered, and one group less would not cover it
    assert!(g.x * 8 >= 400 && (g.x - 1) * 8 < 400);
    assert!(g.y * 8 >= 225 && (g.y - 1) * 8 < 225);
}

#[test]
fn workgroup_probe_dispatch() {
    let input = workgroup::InputType { data_set_size: UVec3::new(4, 3, 2) };
    assert_eq!(workgroup::workgroups(&input), UVec3::new(1, 1, 2));
    let input = workgroup::InputType { data_set_size: UVec3::new(33, 16, 1) };
    assert_eq!(workgroup::workgroups(&input), UVec3::new(3, 1, 1));
}

#[test]
fn words_are_little_endian() {
    let b = words_to_bytes(&vec![0x0403_0201, 0xdead_beef]);
    assert_eq!(b, vec![1, 2, 3, 4, 0xef, 0xbe, 0xad, 0xde]);
    assert_eq!(read_word(&b, 4), 0xdead_beef);
    assert_eq!(bytes_to_words(&b, 2), vec![0x0403_0201, 0xdead_beef]);
    assert_eq!(bytes_to_words(&b, 1), vec![0x0403_0201]);
}

#[test]
fn buffer_size_is_header_plus_elements() {
    assert_eq!(buffer_size(16, 0, 16), Some(16));
    assert_eq!(buffer_size(16, 1, 16), Some(32));
    assert_eq!(buffer_size(16, 256 * 256, 16), Some(1_048_592));
    assert_eq!(buffer_size(16, u64::MAX, 16), None);
    assert_eq!(buffer_size(u64::MAX, 1, 1), None);
    assert_eq!(workgroup::output_buffer_size(), 16 + 16 * 65536);
}

#[test]
fn counted_round_trip_lengths() {
    for n in [0usize, 1, 7] {
        let ps: Vec<UVec3> = (0..n as u32).map(|i| UVec3::new(i, i + 1, i * 2)).collect();
        let b = encode_counted(&ps);
        assert_eq!(b.len(), 16 + 16 * n);
        assert_eq!(read_word(&b, 0), n as u32);
        assert_eq!(decode_counted(&b), Ok(ps));
    }
}

#[test]
fn counted_decode_rejects_short_bytes() {
    assert_eq!(decode_counted(&[0u8; 15]), Err(Error::LayoutMismatch));
    // header counts two elements but only one follows
    let mut b = encode_counted(&vec![UVec3::new(1, 2, 3)]);
    b[0] = 2;
    assert_eq!(decode_counted(&b), Err(Error::LayoutMismatch));
    // extra bytes after the counted elements are ignored
    let mut b = encode_counted(&vec![UVec3::new(1, 2, 3)]);
    b.extend_from_slice(&[9u8; 16]);
    assert_eq!(decode_counted(&b), Ok(vec![UVec3::new(1, 2, 3)]));
}

#[test]
fn workgroup_output_decodes_what_the_kernel_wrote() {
    let b = encode_counted(&vec![UVec3::new(0, 0, 0), UVec3::new(1, 0, 0)]);
    let out = workgroup::OutputType::decode(&b).unwrap();
    assert_eq!(out.arr, vec![UVec3::new(0, 0, 0), UVec3::new(1, 0, 0)]);
    assert!(matches!(workgroup::OutputType::decode(&[0u8; 8]), Err(Error::LayoutMismatch)));
}

#[test]
fn workgroup_input_round_trip() {
    let input = workgroup::InputType { data_set_size: UVec3::new(4, 3, 2) };
    let b = input.encode();
    assert_eq!(b, vec![4, 0, 0, 0, 3, 0, 0, 0, 2, 0, 0, 0, 0, 0, 0, 0]);
    assert_eq!(workgroup::InputType::decode(&b), Ok(input));
    assert_eq!(workgroup::InputType::decode(&b[..15]), Err(Error::LayoutMismatch));
}

fn example_value(arr: Vec<u32>) -> example::Type {
    example::Type {
        array_length_call_ret_val: 4,
        a: Vec3 { x: 5.0f32.to_bits(), y: 4.0f32.to_bits(), z: 6.0f32.to_bits() },
        arr,
    }
}

#[test]
fn example_round_trip() {
    for arr in [vec![45, 46, 47, 48, 49], vec![45], vec![]] {
        let v = example_value(arr.clone());
        let b = v.encode();
        assert_eq!(b.len(), 32 + 4 * arr.len());
        assert_eq!(read_word(&b, 0), arr.len() as u32);
        assert_eq!(read_word(&b, 4), 4);
        assert_eq!(read_word(&b, 16), 5.0f32.to_bits());
        let d = example::Type::decode(&b).unwrap();
        assert_eq!(d.array_length_call_ret_val, 4);
        assert_eq!(d.a, v.a);
        assert_eq!(d.arr, arr);
    }
}

#[test]
fn example_decode_rejects_short_bytes() {
    let b = example_value(vec![45, 46]).encode();
    assert!(matches!(example::Type::decode(&b[..35]), Err(Error::LayoutMismatch)));
    assert!(matches!(example::Type::decode(&b[..31]), Err(Error::LayoutMismatch)));
    let d = example::Type::decode(&b[..40]).unwrap();
    assert_eq!(d.arr, vec![45, 46]);
}

#[test]
fn example_bindings_and_dispatch() {
    let b = example::bindings();
    assert_eq!(b.len(), 2);
    assert!(b[0].read_only && !b[1].read_only);
    assert_eq!(b[0].min_size, 36);
    assert_eq!(example::workgroups(), UVec3::new(1, 1, 1));
}

#[test]
fn prepare_plans_probe_and_example() {
    let input = workgroup::InputType { data_set_size: UVec3::new(4, 3, 2) };
    let d = workgroup::prepare(&input);
    assert_eq!(d.uploads.len(), 1);
    assert_eq!(d.uploads[0].bytes, input.encode());
    assert_eq!((d.output_slot, d.output_size, d.staging_size), (1, 16 + 16 * 65536, 16 + 16 * 65536));
    assert_eq!(d.groups, UVec3::new(1, 1, 2));

    let v = example_value(vec![45, 46, 47, 48, 49]);
    let d = v.prepare().unwrap();
    assert_eq!(d.uploads[0].bytes, v.encode());
    assert_eq!((d.output_slot, d.output_size, d.staging_size), (1, 52, 52));
    assert_eq!(d.groups, UVec3::new(1, 1, 1));
}

#[test]
fn example_empty_array_meets_slot_minimums() {
    let v = example_value(vec![]);
    assert_eq!(v.encode().len(), 32);
    let d = v.prepare().unwrap();
    // the upload is the 32 encoded bytes and four zero bytes
    assert_eq!(d.uploads[0].bytes.len(), 36);
    assert_eq!(&d.uploads[0].bytes[..32], &v.encode()[..]);
    assert_eq!(&d.uploads[0].bytes[32..], &[0u8; 4]);
    // the device buffer meets the slot minimum; the read-back stays exact
    assert_eq!((d.output_size, d.staging_size), (36, 32));
    let mins = example::bindings();
    assert!(d.uploads[0].bytes.len() as u64 >= mins[0].min_size);
    assert!(d.output_size >= mins[1].min_size);
    let d = example_value(vec![45]).prepare().unwrap();
    assert_eq!((d.uploads[0].bytes.len(), d.output_size, d.staging_size), (36, 36, 36));
}

#[test]
fn pad_to_fills_with_zeros() {
    assert_eq!(pad_to(vec![1, 2], 5), vec![1, 2, 0, 0, 0]);
    assert_eq!(pad_to(vec![1, 2, 3], 2), vec![1, 2, 3]);
    assert_eq!(pad_to(vec![], 0), Vec::<u8>::new());
}

#[test]
fn group_size_written_into_kernel_text() {
    let src = "@compute @workgroup_size(1)\nfn main() {}\n// @workgroup_size(1)";
    let out = String::from_utf8(with_group_size(src, UVec3::new(8, 8, 1))).unwrap();
    assert_eq!(out, "@compute @workgroup_size(8, 8, 1)\nfn main() {}\n// @workgroup_size(8, 8, 1)");
    let out = String::from_utf8(with_group_size("@workgroup_size(12)", UVec3::new(16, 16, 1))).unwrap();
    assert_eq!(out, "@workgroup_size(12)");
    let out = String::from_utf8(with_group_size("x@workgroup_size(1)", UVec3::new(16, 160, 1))).unwrap();
    assert_eq!(out, "x@workgroup_size(16, 160, 1)");
    assert_eq!(with_group_size("", UVec3::new(1, 1, 1)), Vec::<u8>::new());
}
