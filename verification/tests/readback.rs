use raytracing::error::RenderError;
use raytracing::layout::validate_bind_group;
use raytracing::pixel::{decode_rgba8, RecordLayout};
use raytracing::renderer::{finish_readback, plan_render, resolution_bytes};

#[test]
fn plan_fixes_sizes_and_grid() {
    let plan = plan_render(1024, 768, RecordLayout::Float32x4).unwrap();
    assert_eq!(plan.width, 1024);
    assert_eq!(plan.height, 768);
    assert_eq!(plan.output_size, 1024 * 768 * 16);
    assert_eq!(plan.bytes_per_row, 1024 * 16);
    assert_eq!(plan.grid.x, 128);
    assert_eq!(plan.grid.y, 96);
    assert_eq!(plan.grid.z, 1);
}

#[test]
fn plan_bind_group_matches_layout() {
    let plan = plan_render(64, 64, RecordLayout::Uint8x4).unwrap();
    assert!(validate_bind_group(&plan.bind_entries, &plan.layout_slots).is_ok());
    assert_eq!(plan.layout_slots.len(), 2);
    assert_eq!(plan.bind_entries.len(), 2);
}

#[test]
fn plan_uniform_record_is_little_endian_resolution() {
    let plan = plan_render(2, 2, RecordLayout::Float32x4).unwrap();
    assert_eq!(plan.uniform_bytes, vec![2, 0, 0, 0, 2, 0, 0, 0]);
    assert_eq!(resolution_bytes(258, 65536), vec![2, 1, 0, 0, 0, 0, 1, 0]);
}

#[test]
fn readback_success_returns_bytes_unchanged() {
    let plan = plan_render(2, 2, RecordLayout::Uint8x4).unwrap();
    let bytes: Vec<u8> = (0u8..16).collect();
    let out = finish_readback(&plan, Some(bytes.clone())).unwrap();
    assert_eq!(out, bytes);
    assert_eq!(out.len() as u64, 2 * 2 * 4);
}

#[test]
fn map_failure_surfaces_as_readback_failed() {
    let plan = plan_render(2, 2, RecordLayout::Float32x4).unwrap();
    let r = finish_readback(&plan, None);
    assert_eq!(r, Err(RenderError::ReadbackFailed));
}

#[test]
fn partial_or_empty_data_is_never_returned_silently() {
    let plan = plan_render(2, 2, RecordLayout::Float32x4).unwrap();
    // One byte short of the 64 the plan promises.
    let r = finish_readback(&plan, Some(vec![0u8; 63]));
    assert_eq!(r, Err(RenderError::ReadbackFailed));
    // Zero-length data is equally a failure, not an empty success.
    let r = finish_readback(&plan, Some(Vec::new()));
    assert_eq!(r, Err(RenderError::ReadbackFailed));
}

#[test]
fn identical_renders_are_byte_identical() {
    // With a deterministic kernel the device returns the same bytes; the
    // planning and decoding around it are pure, so the whole pass repeats
    // byte for byte.
    let kernel_output: Vec<u8> = (0u8..64).collect();
    let mut results = Vec::new();
    for _ in 0..2 {
        let plan = plan_render(2, 2, RecordLayout::Float32x4).unwrap();
        let raw = finish_readback(&plan, Some(kernel_output.clone())).unwrap();
        let pixels = decode_rgba8(&raw, 2, 2, RecordLayout::Float32x4).unwrap();
        results.push((plan.uniform_bytes.clone(), plan.grid, raw, pixels));
    }
    assert_eq!(results[0], results[1]);
}

#[test]
fn render_2x2_opaque_red_decodes_to_red_pixels() {
    // A kernel contracted to write (1.0, 0.0, 0.0, 1.0) to every pixel of a
    // 2x2 float32x4 target produces these 64 readback bytes; after 8-bit
    // scaling every pixel must be (255, 0, 0, 255).
    let plan = plan_render(2, 2, RecordLayout::Float32x4).unwrap();
    let mut kernel_output = Vec::new();
    for _ in 0..4 {
        for c in [1.0f32, 0.0, 0.0, 1.0] {
            kernel_output.extend_from_slice(&c.to_le_bytes());
        }
    }
    let raw = finish_readback(&plan, Some(kernel_output)).unwrap();
    assert_eq!(raw.len() as u64, plan.output_size);
    let pixels = decode_rgba8(&raw, 2, 2, RecordLayout::Float32x4).unwrap();
    assert_eq!(pixels.len(), 16);
    for pixel in pixels.chunks(4) {
        assert_eq!(pixel, [255, 0, 0, 255]);
    }
}
