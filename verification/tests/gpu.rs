use lunaris_api::render::gpu::{
    assemble_rows, is_readable, padded_bytes_per_row, read_texture_into_raw, readback_layout, Extent3d,
    GpuContext, ReadbackLayout, TextureDescriptor, TextureDimension, TextureFormat, TextureUsages,
    COPY_BYTES_PER_ROW_ALIGNMENT, USAGE_COPY_DST, USAGE_COPY_SRC, USAGE_TEXTURE_BINDING,
};
use lunaris_api::render::image::{PixelFormat, RawImage};
use lunaris_api::util::error::LunarisError;
use std::cell::Cell;

/// What a device keeps of a texture: the rows at the stride of the layout,
/// with a filler in the padding.
fn device_copy(image: &RawImage, layout: &ReadbackLayout) -> Vec<u8> {
    let row = layout.bytes_per_row as usize;
    let pitch = layout.padded_bytes_per_row as usize;
    let mut mapped = vec![0xaau8; layout.buffer_size as usize];
    for r in 0..layout.height as usize {
        mapped[r * pitch..r * pitch + row].copy_from_slice(&image.as_bytes()[r * row..(r + 1) * row]);
    }
    mapped
}

fn sample(format: PixelFormat, width: u32, height: u32) -> RawImage {
    let len = (width * height) as usize * format.bytes_per_pixel();
    let bytes = (0..len).map(|i| (i * 13 % 255) as u8).collect();
    RawImage::from_bytes(format, width, height, bytes).unwrap()
}

#[test]
fn usage_bits_are_the_device_bits() {
    assert_eq!(TextureUsages::copy_src().bits, 1);
    assert_eq!(TextureUsages::copy_dst().bits, 2);
    assert_eq!(TextureUsages::texture_binding().bits, 4);
    assert_eq!(USAGE_COPY_SRC, 1);
    assert_eq!(USAGE_COPY_DST, 2);
    assert_eq!(USAGE_TEXTURE_BINDING, 4);
    assert_eq!(TextureUsages::from_bits(0x15).bits, 0x15);
}

#[test]
fn usages_union_and_contains() {
    let both = TextureUsages::copy_src().union(TextureUsages::texture_binding());
    assert_eq!(both.bits, 5);
    assert!(both.contains(TextureUsages::copy_src()));
    assert!(both.contains(TextureUsages::texture_binding()));
    assert!(!both.contains(TextureUsages::copy_dst()));
    assert!(both.contains(TextureUsages::from_bits(0)));
    assert!(!TextureUsages::copy_src().contains(both));
}

#[test]
fn formats_map_both_ways() {
    assert_eq!(PixelFormat::Rgba8Unorm.to_wgpu(), TextureFormat::Rgba8Unorm);
    assert_eq!(PixelFormat::Rgba8UnormSrgb.to_wgpu(), TextureFormat::Rgba8UnormSrgb);
    assert_eq!(PixelFormat::Gray8.to_wgpu(), TextureFormat::R8Unorm);
    for format in [PixelFormat::Rgba8Unorm, PixelFormat::Rgba8UnormSrgb, PixelFormat::Gray8] {
        assert_eq!(PixelFormat::from_wgpu(format.to_wgpu()), Some(format));
    }
    assert_eq!(PixelFormat::from_wgpu(TextureFormat::Other), None);
}

#[test]
fn extent_is_one_layer_deep() {
    let image = sample(PixelFormat::Gray8, 7, 3);
    assert_eq!(image.extent(), Extent3d { width: 7, height: 3, depth_or_array_layers: 1 });
}

#[test]
fn texture_descriptor_always_allows_copy_destination() {
    let image = sample(PixelFormat::Rgba8UnormSrgb, 4, 2);
    let d = image.texture_descriptor(TextureUsages::texture_binding());
    assert_eq!(d.usage.bits, USAGE_TEXTURE_BINDING | USAGE_COPY_DST);
    assert_eq!(d.size, Extent3d { width: 4, height: 2, depth_or_array_layers: 1 });
    assert_eq!(d.mip_level_count, 1);
    assert_eq!(d.sample_count, 1);
    assert_eq!(d.dimension, TextureDimension::D2);
    assert_eq!(d.format, TextureFormat::Rgba8UnormSrgb);
    let none = image.texture_descriptor(TextureUsages::from_bits(0));
    assert_eq!(none.usage.bits, USAGE_COPY_DST);
    let already = image.texture_descriptor(TextureUsages::copy_dst());
    assert_eq!(already.usage.bits, USAGE_COPY_DST);
}

#[test]
fn to_texture_hands_descriptor_and_bytes_to_the_device() {
    let image = sample(PixelFormat::Gray8, 3, 2);
    let expected = image.texture_descriptor(TextureUsages::copy_src());
    let texture = image.to_texture(TextureUsages::copy_src(), |descriptor, bytes| {
        (descriptor, bytes.to_vec())
    });
    assert_eq!(texture.0, expected);
    assert_eq!(texture.0.usage.bits, USAGE_COPY_SRC | USAGE_COPY_DST);
    assert_eq!(texture.1, image.as_bytes());
}

#[test]
fn padded_bytes_per_row_rounds_up_to_the_alignment() {
    assert_eq!(COPY_BYTES_PER_ROW_ALIGNMENT, 256);
    assert_eq!(padded_bytes_per_row(0), 256);
    assert_eq!(padded_bytes_per_row(1), 256);
    assert_eq!(padded_bytes_per_row(255), 256);
    assert_eq!(padded_bytes_per_row(256), 256);
    assert_eq!(padded_bytes_per_row(257), 512);
    assert_eq!(padded_bytes_per_row(4 * 1000), 4096);
}

fn readable(width: u32, height: u32, format: TextureFormat) -> TextureDescriptor {
    TextureDescriptor {
        size: Extent3d { width, height, depth_or_array_layers: 1 },
        mip_level_count: 1,
        sample_count: 1,
        dimension: TextureDimension::D2,
        format,
        usage: TextureUsages::copy_src().union(TextureUsages::copy_dst()),
    }
}

#[test]
fn readback_layout_of_a_narrow_texture() {
    let layout = readback_layout(&readable(3, 5, TextureFormat::Rgba8Unorm));
    assert_eq!(
        layout,
        ReadbackLayout {
            width: 3,
            height: 5,
            format: PixelFormat::Rgba8Unorm,
            bytes_per_row: 12,
            padded_bytes_per_row: 256,
            buffer_size: 1280,
        }
    );
}

#[test]
fn readback_layout_of_an_aligned_texture() {
    let layout = readback_layout(&readable(64, 2, TextureFormat::Rgba8UnormSrgb));
    assert_eq!(layout.bytes_per_row, 256);
    assert_eq!(layout.padded_bytes_per_row, 256);
    assert_eq!(layout.buffer_size, 512);
    let gray = readback_layout(&readable(300, 4, TextureFormat::R8Unorm));
    assert_eq!(gray.format, PixelFormat::Gray8);
    assert_eq!(gray.bytes_per_row, 300);
    assert_eq!(gray.padded_bytes_per_row, 512);
    assert_eq!(gray.buffer_size, 2048);
}

#[test]
fn assemble_rows_strips_the_padding() {
    let layout = ReadbackLayout {
        width: 2,
        height: 3,
        format: PixelFormat::Gray8,
        bytes_per_row: 2,
        padded_bytes_per_row: 4,
        buffer_size: 12,
    };
    let mapped = [1, 2, 0xee, 0xee, 3, 4, 0xee, 0xee, 5, 6, 0xee, 0xee];
    let image = assemble_rows(&layout, &mapped);
    assert_eq!(image.size(), (2, 3));
    assert_eq!(image.format(), PixelFormat::Gray8);
    assert_eq!(image.as_bytes(), &[1, 2, 3, 4, 5, 6]);
}

#[test]
fn assemble_rows_reads_a_last_row_without_padding() {
    let layout = ReadbackLayout {
        width: 2,
        height: 2,
        format: PixelFormat::Gray8,
        bytes_per_row: 2,
        padded_bytes_per_row: 4,
        buffer_size: 8,
    };
    let image = assemble_rows(&layout, &[1, 2, 0, 0, 3, 4]);
    assert_eq!(image.as_bytes(), &[1, 2, 3, 4]);
}

#[test]
fn readback_of_an_upload_reproduces_the_bytes() {
    // Widths whose rows are no multiple of the row alignment.
    for (format, width, height) in [
        (PixelFormat::Rgba8Unorm, 3, 5),
        (PixelFormat::Rgba8UnormSrgb, 65, 2),
        (PixelFormat::Gray8, 257, 3),
        (PixelFormat::Gray8, 1, 1),
        (PixelFormat::Rgba8Unorm, 64, 2),
    ] {
        let image = sample(format, width, height);
        let descriptor = image.to_texture(TextureUsages::copy_src(), |descriptor, _| descriptor);
        let back = read_texture_into_raw(&descriptor, |layout| device_copy(&image, &layout));
        assert_eq!(back.size(), image.size());
        assert_eq!(back.format(), image.format());
        assert_eq!(back.as_bytes(), image.as_bytes());
    }
}

#[test]
fn readback_of_a_texture_without_area_does_not_touch_the_device() {
    let called = Cell::new(false);
    let back = read_texture_into_raw(&readable(0, 4, TextureFormat::R8Unorm), |_| {
        called.set(true);
        Vec::new()
    });
    assert!(!called.get());
    assert_eq!(back.size(), (0, 4));
    assert_eq!(back.format(), PixelFormat::Gray8);
    assert!(back.is_empty());
}

#[test]
fn gpu_context_is_set_once() {
    let mut ctx: GpuContext<&str, u32> = GpuContext::new();
    assert!(!ctx.is_initialized());
    assert!(ctx.init_gpu("device", 7).is_ok());
    assert!(ctx.is_initialized());
    assert_eq!(*ctx.device(), "device");
    assert_eq!(*ctx.queue(), 7);
    match ctx.init_gpu("other", 8) {
        Err(LunarisError::AlreadyExists { item }) => assert_eq!(item, "wgpu device"),
        other => panic!("unexpected result: {:?}", other),
    }
    assert_eq!(*ctx.device(), "device");
    assert_eq!(*ctx.queue(), 7);
}

#[test]
fn needed_len_leaves_out_the_last_padding() {
    let layout = readback_layout(&readable(3, 5, TextureFormat::Rgba8Unorm));
    assert_eq!(layout.needed_len(), 4 * 256 + 12);
    let empty = ReadbackLayout {
        width: 3,
        height: 0,
        format: PixelFormat::Gray8,
        bytes_per_row: 3,
        padded_bytes_per_row: 256,
        buffer_size: 0,
    };
    assert_eq!(empty.needed_len(), 0);
}

#[test]
fn is_readable_tells_what_readback_accepts() {
    assert!(is_readable(&readable(3, 5, TextureFormat::Rgba8Unorm)));
    assert!(is_readable(&readable(0, 5, TextureFormat::R8Unorm)));
    assert!(!is_readable(&readable(3, 5, TextureFormat::Other)));
    let mut three_d = readable(3, 5, TextureFormat::Rgba8Unorm);
    three_d.dimension = TextureDimension::D3;
    assert!(!is_readable(&three_d));
    let mut write_only = readable(3, 5, TextureFormat::Rgba8Unorm);
    write_only.usage = TextureUsages::copy_dst();
    assert!(!is_readable(&write_only));
    // Rows of four bytes a pixel whose stride does not fit in 32 bits.
    assert!(!is_readable(&readable(u32::MAX / 4 + 1, 1, TextureFormat::Rgba8Unorm)));
    assert!(is_readable(&readable(u32::MAX / 4 + 1, 0, TextureFormat::Rgba8Unorm)));
    assert!(is_readable(&readable(u32::MAX / 4 - 63, 1, TextureFormat::Rgba8Unorm)));
}

#[test]
fn readback_keeps_no_padding_and_loses_no_row() {
    // Three pixels of four bytes to a row: twelve bytes at a stride of 256.
    let image = sample(PixelFormat::Rgba8Unorm, 3, 2);
    let descriptor = image.to_texture(TextureUsages::copy_src(), |descriptor, _| descriptor);
    let back = read_texture_into_raw(&descriptor, |layout| {
        assert_eq!(layout.bytes_per_row, 12);
        assert_eq!(layout.padded_bytes_per_row, 256);
        assert_eq!(layout.buffer_size, 512);
        device_copy(&image, &layout)
    });
    assert_eq!(back.len(), 24);
    assert_eq!(back.as_bytes(), image.as_bytes());
    assert_eq!(back.size(), (3, 2));
    assert_eq!(back.format(), PixelFormat::Rgba8Unorm);
}
