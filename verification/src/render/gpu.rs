//! What the engine decides about device textures: how an image is described
//! to the device, how a readback buffer is laid out, and how an image is put
//! together from one. The device itself is reached through the functions
//! that the caller hands in.

use vstd::prelude::*;
use crate::render::image::{byte_len, ImageView, PixelFormat, RawImage};
use crate::util::error::LunarisError;

verus! {

/// Row alignment, in bytes, that the device demands of a buffer into which a
/// texture is copied.
pub const COPY_BYTES_PER_ROW_ALIGNMENT: u32 = 256;

/// Usage bit: the texture may be the source of a copy.
pub const USAGE_COPY_SRC: u32 = 0x01;

/// Usage bit: the texture may be the destination of a copy.
pub const USAGE_COPY_DST: u32 = 0x02;

/// Usage bit: the texture may be bound for sampling.
pub const USAGE_TEXTURE_BINDING: u32 = 0x04;

/// Usage bit: the texture may be bound as storage.
pub const USAGE_STORAGE_BINDING: u32 = 0x08;

/// Usage bit: the texture may be the target of a render pass.
pub const USAGE_RENDER_ATTACHMENT: u32 = 0x10;

/// The ways in which a texture may be used, as a set of usage bits.
#[derive(Debug, Clone, Copy, PartialEq, Eq, Structural)]
pub struct TextureUsages {
    pub bits: u32,
}

impl TextureUsages {
    /// Every bit of `other` is set in `self`.
    pub open spec fn spec_contains(self, other: Self) -> bool {
        self.bits & other.bits == other.bits
    }

    /// The bits of both.
    pub open spec fn spec_union(self, other: Self) -> Self {
        TextureUsages { bits: self.bits | other.bits }
    }

    pub fn from_bits(bits: u32) -> (u: Self)
        ensures
            u.bits == bits,
    {
        TextureUsages { bits }
    }

    pub fn copy_src() -> (u: Self)
        ensures
            u.bits == USAGE_COPY_SRC,
    {
        TextureUsages { bits: USAGE_COPY_SRC }
    }

    pub fn copy_dst() -> (u: Self)
        ensures
            u.bits == USAGE_COPY_DST,
    {
        TextureUsages { bits: USAGE_COPY_DST }
    }

    pub fn texture_binding() -> (u: Self)
        ensures
            u.bits == USAGE_TEXTURE_BINDING,
    {
        TextureUsages { bits: USAGE_TEXTURE_BINDING }
    }

    #[verifier::when_used_as_spec(spec_contains)]
    pub fn contains(self, other: Self) -> (b: bool)
        ensures
            b == self.spec_contains(other),
    {
        self.bits & other.bits == other.bits
    }

    #[verifier::when_used_as_spec(spec_union)]
    pub fn union(self, other: Self) -> (u: Self)
        ensures
            u == self.spec_union(other),
            u.spec_contains(self),
            u.spec_contains(other),
    {
        let a: u32 = self.bits;
        let b: u32 = other.bits;
        assert((a | b) & a == a && (a | b) & b == b) by (bit_vector);
        TextureUsages { bits: a | b }
    }
}

/// Device texture formats, as far as the engine tells them apart.
#[derive(Debug, Clone, Copy, PartialEq, Eq, Structural)]
pub enum TextureFormat {
    R8Unorm,
    Rgba8Unorm,
    Rgba8UnormSrgb,
    /// Any format without a pixel layout of the engine.
    Other,
}

impl PixelFormat {
    pub open spec fn spec_to_wgpu(self) -> TextureFormat {
        match self {
            PixelFormat::Rgba8Unorm => TextureFormat::Rgba8Unorm,
            PixelFormat::Rgba8UnormSrgb => TextureFormat::Rgba8UnormSrgb,
            PixelFormat::Gray8 => TextureFormat::R8Unorm,
        }
    }

    pub open spec fn spec_from_wgpu(format: TextureFormat) -> Option<PixelFormat> {
        match format {
            TextureFormat::Rgba8Unorm => Some(PixelFormat::Rgba8Unorm),
            TextureFormat::Rgba8UnormSrgb => Some(PixelFormat::Rgba8UnormSrgb),
            TextureFormat::R8Unorm => Some(PixelFormat::Gray8),
            TextureFormat::Other => None,
        }
    }

    /// The device format that stores this layout.
    #[verifier::when_used_as_spec(spec_to_wgpu)]
    pub fn to_wgpu(self) -> (format: TextureFormat)
        ensures
            format == self.spec_to_wgpu(),
            PixelFormat::spec_from_wgpu(format) == Some(self),
    {
        match self {
            PixelFormat::Rgba8Unorm => TextureFormat::Rgba8Unorm,
            PixelFormat::Rgba8UnormSrgb => TextureFormat::Rgba8UnormSrgb,
            PixelFormat::Gray8 => TextureFormat::R8Unorm,
        }
    }

    /// The layout that a device format stores, if the engine has one for it.
    #[verifier::when_used_as_spec(spec_from_wgpu)]
    pub fn from_wgpu(format: TextureFormat) -> (layout: Option<PixelFormat>)
        ensures
            layout == PixelFormat::spec_from_wgpu(format),
            layout matches Some(p) ==> p.spec_to_wgpu() == format,
    {
        match format {
            TextureFormat::Rgba8Unorm => Some(PixelFormat::Rgba8Unorm),
            TextureFormat::Rgba8UnormSrgb => Some(PixelFormat::Rgba8UnormSrgb),
            TextureFormat::R8Unorm => Some(PixelFormat::Gray8),
            TextureFormat::Other => None,
        }
    }
}

#[derive(Debug, Clone, Copy, PartialEq, Eq, Structural)]
pub enum TextureDimension {
    D1,
    D2,
    D3,
}

/// Extent of a texture, or of a copy.
#[derive(Debug, Clone, Copy, PartialEq, Eq, Structural)]
pub struct Extent3d {
    pub width: u32,
    pub height: u32,
    pub depth_or_array_layers: u32,
}

/// What a device texture is created with, and what it reports of itself.
#[derive(Debug, Clone, Copy, PartialEq, Eq, Structural)]
pub struct TextureDescriptor {
    pub size: Extent3d,
    pub mip_level_count: u32,
    pub sample_count: u32,
    pub dimension: TextureDimension,
    pub format: TextureFormat,
    pub usage: TextureUsages,
}

/// A texture that lives on the device, as the cache holds it: the key under
/// which the host keeps the device object, and what it was created with.
#[derive(Debug, Clone, Copy, PartialEq, Eq, Structural)]
pub struct TextureHandle {
    pub id: u64,
    pub descriptor: TextureDescriptor,
}

/// The descriptor of the texture that holds `image` under `usage`: one 2-D
/// layer of the image's size and format, always writable by a copy.
pub open spec fn upload_descriptor(image: ImageView, usage: TextureUsages) -> TextureDescriptor {
    TextureDescriptor {
        size: Extent3d { width: image.width, height: image.height, depth_or_array_layers: 1 },
        mip_level_count: 1,
        sample_count: 1,
        dimension: TextureDimension::D2,
        format: image.format.spec_to_wgpu(),
        usage: usage.spec_union(TextureUsages { bits: USAGE_COPY_DST }),
    }
}

impl RawImage {
    /// The image's extent as a texture: one layer deep.
    pub fn extent(&self) -> (e: Extent3d)
        ensures
            e == (Extent3d {
                width: self@.width,
                height: self@.height,
                depth_or_array_layers: 1,
            }),
    {
        Extent3d { width: self.width(), height: self.height(), depth_or_array_layers: 1 }
    }

    /// The descriptor to create this image's texture with. Whatever `usage`
    /// asks for, the texture can be written by a copy, since the upload is one.
    pub fn texture_descriptor(&self, usage: TextureUsages) -> (d: TextureDescriptor)
        ensures
            d == upload_descriptor(self@, usage),
            d.usage.spec_contains(TextureUsages { bits: USAGE_COPY_DST }),
            d.usage.spec_contains(usage),
    {
        TextureDescriptor {
            size: self.extent(),
            mip_level_count: 1,
            sample_count: 1,
            dimension: TextureDimension::D2,
            format: self.format().to_wgpu(),
            usage: usage.union(TextureUsages::copy_dst()),
        }
    }

    /// Upload the image into a device texture with the desired usage flags.
    /// `create` makes the texture on the device from a descriptor and the
    /// bytes that initialise it; it is called once, with this image's.
    pub fn to_texture<T, C: FnOnce(TextureDescriptor, &[u8]) -> T>(
        &self,
        usage: TextureUsages,
        create: C,
    ) -> (texture: T)
        requires
            forall|bytes: &[u8]|
                bytes@ == self@.bytes ==> create.requires((upload_descriptor(self@, usage), bytes)),
        ensures
            exists|bytes: &[u8]|
                bytes@ == self@.bytes && create.ensures(
                    (upload_descriptor(self@, usage), bytes),
                    texture,
                ),
    {
        let desc = self.texture_descriptor(usage);
        create(desc, self.as_bytes())
    }
}

/// Bytes from the start of one row to the start of the next in a buffer that
/// the device copies rows of `bytes_per_row` bytes into: the least multiple
/// of the row alignment that holds a row, and one alignment for an empty row.
pub open spec fn spec_padded_bytes_per_row(bytes_per_row: nat) -> nat {
    if bytes_per_row == 0 {
        256
    } else {
        ((bytes_per_row + 255) / 256) * 256
    }
}

pub fn padded_bytes_per_row(bytes_per_row: u64) -> (padded: u64)
    requires
        bytes_per_row <= 0xffff_ffff_ffff_ff00,
    ensures
        padded == spec_padded_bytes_per_row(bytes_per_row as nat),
        padded % 256 == 0,
        bytes_per_row <= padded <= bytes_per_row + 256,
        bytes_per_row > 0 ==> padded < bytes_per_row + 256,
        padded > 0,
{
    let alignment: u64 = COPY_BYTES_PER_ROW_ALIGNMENT as u64;
    assert(alignment == 256);
    if bytes_per_row == 0 {
        alignment
    } else {
        ((bytes_per_row + (alignment - 1)) / alignment) * alignment
    }
}

/// The rows of an image as they lie in a buffer after the device has copied
/// a texture into it, and the size of that buffer.
#[derive(Debug, Clone, Copy, PartialEq, Eq, Structural)]
pub struct ReadbackLayout {
    pub width: u32,
    pub height: u32,
    pub format: PixelFormat,
    /// Bytes of pixels in one row.
    pub bytes_per_row: u32,
    /// Bytes from one row's start to the next's.
    pub padded_bytes_per_row: u32,
    /// Size of the staging buffer.
    pub buffer_size: u64,
}

impl ReadbackLayout {
    /// The bytes that a buffer must hold for every row to be read from it:
    /// all but the last row at full stride, the last without its padding.
    pub open spec fn needed(self) -> nat {
        if self.height == 0 {
            0
        } else {
            ((self.height - 1) * self.padded_bytes_per_row + self.bytes_per_row) as nat
        }
    }

    /// Computes `needed`.
    pub fn needed_len(&self) -> (n: u64)
        ensures
            n == self.needed(),
    {
        if self.height == 0 {
            0
        } else {
            let rows: u64 = (self.height - 1) as u64;
            let pitch: u64 = self.padded_bytes_per_row as u64;
            assert(rows * pitch <= 0xffff_fffe * 0xffff_ffff) by (nonlinear_arith)
                requires
                    rows <= 0xffff_fffe,
                    pitch <= 0xffff_ffff,
            ;
            rows * pitch + self.bytes_per_row as u64
        }
    }
}

/// A 2-D texture that may be copied from, in a format the engine has a layout
/// for, and, unless it has no area, with rows short enough for their stride
/// to be a `u32`.
pub open spec fn readable(texture: TextureDescriptor) -> bool {
    &&& texture.dimension == TextureDimension::D2
    &&& texture.usage.spec_contains(TextureUsages { bits: USAGE_COPY_SRC })
    &&& PixelFormat::spec_from_wgpu(texture.format) is Some
    &&& texture.size.width != 0 && texture.size.height != 0 ==> has_layout(texture)
}

/// Tells whether a texture can be read back: see `readable`.
pub fn is_readable(texture: &TextureDescriptor) -> (b: bool)
    ensures
        b == readable(*texture),
{
    if texture.dimension != TextureDimension::D2 {
        return false;
    }
    if !texture.usage.contains(TextureUsages::copy_src()) {
        return false;
    }
    let format = match PixelFormat::from_wgpu(texture.format) {
        Some(format) => format,
        None => {
            return false;
        },
    };
    if texture.size.width == 0 || texture.size.height == 0 {
        return true;
    }
    let bpp: u64 = format.bytes_per_pixel() as u64;
    let width: u64 = texture.size.width as u64;
    assert(bpp * width <= 4 * 0xffff_ffff) by (nonlinear_arith)
        requires
            bpp <= 4,
            width <= 0xffff_ffff,
    ;
    padded_bytes_per_row(bpp * width) <= 0xffff_ffff
}

/// The layout that a readback of `texture` uses.
pub open spec fn spec_readback_layout(texture: TextureDescriptor) -> ReadbackLayout {
    let format = PixelFormat::spec_from_wgpu(texture.format).unwrap();
    let bytes_per_row = format.spec_bytes_per_pixel() * texture.size.width;
    let padded = spec_padded_bytes_per_row(bytes_per_row as nat);
    ReadbackLayout {
        width: texture.size.width,
        height: texture.size.height,
        format,
        bytes_per_row: bytes_per_row as u32,
        padded_bytes_per_row: padded as u32,
        buffer_size: (padded * texture.size.height) as u64,
    }
}

/// The texture has a format that the engine has a layout for, and rows
/// short enough for their stride to be a `u32`.
pub open spec fn has_layout(texture: TextureDescriptor) -> bool {
    PixelFormat::spec_from_wgpu(texture.format) matches Some(format) && spec_padded_bytes_per_row(
        (format.spec_bytes_per_pixel() * texture.size.width) as nat,
    ) <= u32::MAX
}

/// Computes the device-mandated layout of the staging buffer for a readback.
pub fn readback_layout(texture: &TextureDescriptor) -> (layout: ReadbackLayout)
    requires
        has_layout(*texture),
    ensures
        layout == spec_readback_layout(*texture),
        layout.bytes_per_row == layout.format.spec_bytes_per_pixel() * layout.width,
        layout.bytes_per_row <= layout.padded_bytes_per_row,
        layout.padded_bytes_per_row % 256 == 0,
        layout.padded_bytes_per_row <= layout.bytes_per_row + 256,
        layout.bytes_per_row > 0 ==> layout.padded_bytes_per_row < layout.bytes_per_row + 256,
        layout.padded_bytes_per_row > 0,
        layout.buffer_size == layout.padded_bytes_per_row * layout.height,
        layout.needed() <= layout.buffer_size,
{
    let format = match PixelFormat::from_wgpu(texture.format) {
        Some(f) => f,
        None => {
            proof {
                assert(false);
            }
            PixelFormat::Gray8
        },
    };
    let bpp: u64 = format.bytes_per_pixel() as u64;
    let bytes_per_row: u64 = bpp * (texture.size.width as u64);
    let padded: u64 = padded_bytes_per_row(bytes_per_row);
    let height: u64 = texture.size.height as u64;
    assert(padded * height <= 0xffff_ffff * 0xffff_ffff) by (nonlinear_arith)
        requires
            padded <= 0xffff_ffff,
            height <= 0xffff_ffff,
    ;
    assert(height >= 1 ==> (height - 1) * padded + bytes_per_row <= padded * height)
        by (nonlinear_arith)
        requires
            bytes_per_row <= padded,
    ;
    ReadbackLayout {
        width: texture.size.width,
        height: texture.size.height,
        format,
        bytes_per_row: bytes_per_row as u32,
        padded_bytes_per_row: padded as u32,
        buffer_size: padded * height,
    }
}

/// The first `row` bytes of each of the first `rows` strides of `pitch`
/// bytes in `mapped`, one after the other: the rows without their padding.
pub open spec fn strip_padding(mapped: Seq<u8>, row: nat, pitch: nat, rows: nat) -> Seq<u8>
    decreases rows,
{
    if rows == 0 {
        Seq::empty()
    } else {
        strip_padding(mapped, row, pitch, (rows - 1) as nat) + mapped.subrange(
            (rows - 1) * pitch,
            (rows - 1) * pitch + row,
        )
    }
}

/// Byte `c` of row `r` in a buffer whose rows start `stride` bytes apart.
pub open spec fn row_byte(buffer: Seq<u8>, stride: nat, r: int, c: int) -> u8 {
    buffer[r * stride + c]
}

/// Stripping keeps `row` bytes of each stride, and byte `c` of row `r` of the
/// result is byte `c` of stride `r` of the buffer.
pub proof fn lemma_strip_padding(mapped: Seq<u8>, row: nat, pitch: nat, rows: nat)
    requires
        row <= pitch,
        rows > 0 ==> (rows - 1) * pitch + row <= mapped.len(),
    ensures
        strip_padding(mapped, row, pitch, rows).len() == row * rows,
        forall|r: int, c: int|
            0 <= r < rows && 0 <= c < row ==> #[trigger] row_byte(
                strip_padding(mapped, row, pitch, rows),
                row,
                r,
                c,
            ) == row_byte(mapped, pitch, r, c),
    decreases rows,
{
    if rows == 0 {
        assert(row * rows == 0) by (nonlinear_arith)
            requires
                rows == 0,
        ;
    } else {
        let prev = (rows - 1) as nat;
        assert(prev > 0 ==> (prev - 1) * pitch + row <= mapped.len()) by (nonlinear_arith)
            requires
                (rows - 1) * pitch + row <= mapped.len(),
                prev == rows - 1,
                row <= pitch,
        ;
        lemma_strip_padding(mapped, row, pitch, prev);
        let head = strip_padding(mapped, row, pitch, prev);
        let tail = mapped.subrange((prev * pitch) as int, (prev * pitch + row) as int);
        assert(strip_padding(mapped, row, pitch, rows) == head + tail);
        assert(row * rows == row * prev + row) by (nonlinear_arith)
            requires
                prev == rows - 1,
        ;
        assert forall|r: int, c: int| 0 <= r < rows && 0 <= c < row implies #[trigger] row_byte(
            strip_padding(mapped, row, pitch, rows),
            row,
            r,
            c,
        ) == row_byte(mapped, pitch, r, c) by {
            assert(0 <= r * row + c < row * rows && r * pitch + c <= (rows - 1) * pitch + c && 0
                <= r * pitch) by (nonlinear_arith)
                requires
                    0 <= r < rows,
                    0 <= c < row,
                    row <= pitch,
            ;
            if r < prev {
                assert(r * row + c < row * prev) by (nonlinear_arith)
                    requires
                        0 <= r < prev,
                        0 <= c < row,
                ;
                assert(row_byte(head, row, r, c) == row_byte(mapped, pitch, r, c));
            } else {
                assert(r * row + c - row * prev == c) by (nonlinear_arith)
                    requires
                        r == prev,
                ;
                assert(tail[c] == mapped[prev * pitch + c]);
            }
        }
    }
}

/// A buffer that holds the rows of an image at strides of `pitch` bytes,
/// whatever lies between them, strips back to the image byte for byte.
pub proof fn lemma_strip_recovers_rows(
    bytes: Seq<u8>,
    mapped: Seq<u8>,
    row: nat,
    pitch: nat,
    rows: nat,
)
    requires
        row <= pitch,
        bytes.len() == row * rows,
        rows > 0 ==> (rows - 1) * pitch + row <= mapped.len(),
        forall|r: int, c: int|
            0 <= r < rows && 0 <= c < row ==> #[trigger] row_byte(mapped, pitch, r, c) == row_byte(
                bytes,
                row,
                r,
                c,
            ),
    ensures
        strip_padding(mapped, row, pitch, rows) == bytes,
{
    lemma_strip_padding(mapped, row, pitch, rows);
    let out = strip_padding(mapped, row, pitch, rows);
    assert forall|i: int| 0 <= i < out.len() implies out[i] == bytes[i] by {
        assert(row > 0) by (nonlinear_arith)
            requires
                0 <= i < row * rows,
        ;
        let r = i / (row as int);
        let c = i % (row as int);
        assert(i == r * row + c && 0 <= c < row && 0 <= r < rows) by (nonlinear_arith)
            requires
                r == i / (row as int),
                c == i % (row as int),
                row > 0,
                0 <= i < row * rows,
        ;
        assert(row_byte(out, row, r, c) == row_byte(mapped, pitch, r, c));
        assert(row_byte(mapped, pitch, r, c) == row_byte(bytes, row, r, c));
    }
    assert(out =~= bytes);
}

/// Reassembles the image of `layout` from a mapped staging buffer by
/// dropping the padding at the end of each row.
pub fn assemble_rows(layout: &ReadbackLayout, mapped: &[u8]) -> (image: RawImage)
    requires
        layout.height > 0 ==> layout.bytes_per_row == layout.format.spec_bytes_per_pixel()
            * layout.width && layout.bytes_per_row <= layout.padded_bytes_per_row,
        layout.needed() <= mapped@.len(),
    ensures
        image@ == (ImageView {
            width: layout.width,
            height: layout.height,
            format: layout.format,
            bytes: strip_padding(
                mapped@,
                layout.bytes_per_row as nat,
                layout.padded_bytes_per_row as nat,
                layout.height as nat,
            ),
        }),
        image@.well_sized(),
{
    let row: usize = layout.bytes_per_row as usize;
    let pitch: usize = layout.padded_bytes_per_row as usize;
    let rows: usize = layout.height as usize;
    let total: usize = mapped.len();
    let mut pixels: Vec<u8> = Vec::new();
    let mut r: usize = 0;
    while r < rows
        invariant
            r <= rows,
            total == mapped@.len(),
            rows > 0 ==> row <= pitch,
            row == layout.bytes_per_row,
            pitch == layout.padded_bytes_per_row,
            rows == layout.height,
            rows > 0 ==> (rows - 1) * pitch + row <= mapped@.len(),
            pixels@ == strip_padding(mapped@, row as nat, pitch as nat, r as nat),
        decreases rows - r,
    {
        assert(r * pitch + row <= (rows - 1) * pitch + row) by (nonlinear_arith)
            requires
                r < rows,
        ;
        let start: usize = r * pitch;
        let chunk = vstd::slice::slice_subrange(mapped, start, start + row);
        pixels.extend_from_slice(chunk);
        r += 1;
    }
    proof {
        if rows > 0 {
            lemma_strip_padding(mapped@, row as nat, pitch as nat, rows as nat);
            assert(row * rows == byte_len(layout.format, layout.width, layout.height))
                by (nonlinear_arith)
                requires
                    row == layout.format.spec_bytes_per_pixel() * layout.width,
                    rows == layout.height,
            ;
        } else {
            assert(byte_len(layout.format, layout.width, layout.height) == 0) by (nonlinear_arith)
                requires
                    layout.height == 0,
                    byte_len(layout.format, layout.width, layout.height) == (layout.width as nat)
                        * (layout.height as nat) * (layout.format.spec_bytes_per_pixel() as nat),
            ;
        }
    }
    match RawImage::from_bytes(layout.format, layout.width, layout.height, pixels) {
        Ok(image) => image,
        Err(_) => {
            proof {
                assert(false);
            }
            RawImage::zeroed(layout.format, 0, 0)
        },
    }
}

/// `mapped` holds the rows of `bytes` at the stride of `layout`: byte `c` of
/// row `r` of `bytes` lies `c` bytes into stride `r` of `mapped`.
pub open spec fn holds_rows(mapped: Seq<u8>, bytes: Seq<u8>, layout: ReadbackLayout) -> bool {
    forall|r: int, c: int|
        0 <= r < layout.height && 0 <= c < layout.bytes_per_row ==> #[trigger] row_byte(
            mapped,
            layout.padded_bytes_per_row as nat,
            r,
            c,
        ) == row_byte(bytes, layout.bytes_per_row as nat, r, c)
}

/// Whatever `copy` returns for `layout` holds the rows of `bytes` at the
/// stride of `layout`: the device has copied a texture of those bytes.
pub open spec fn copies_rows<C: FnOnce(ReadbackLayout) -> Vec<u8>>(
    copy: C,
    layout: ReadbackLayout,
    bytes: Seq<u8>,
) -> bool {
    forall|mapped: Vec<u8>| copy.ensures((layout,), mapped) ==> holds_rows(mapped@, bytes, layout)
}

/// Reads a device texture back into an image. `copy` has the device copy
/// the texture into a staging buffer of the given layout and returns what
/// the buffer holds. A texture without area is answered with an empty image
/// and `copy` is not called. Where the device copies the rows of a buffer
/// that was uploaded, the image holds that buffer byte for byte, whatever
/// the padding of the rows.
pub fn read_texture_into_raw<C: FnOnce(ReadbackLayout) -> Vec<u8>>(
    texture: &TextureDescriptor,
    copy: C,
) -> (image: RawImage)
    requires
        readable(*texture),
        texture.size.width != 0 && texture.size.height != 0 ==> copy.requires(
            (spec_readback_layout(*texture),),
        ),
        texture.size.width != 0 && texture.size.height != 0 ==> forall|mapped: Vec<u8>|
            copy.ensures((spec_readback_layout(*texture),), mapped) ==> spec_readback_layout(
                *texture,
            ).needed() <= mapped@.len(),
    ensures
        image@.width == texture.size.width,
        image@.height == texture.size.height,
        Some(image@.format) == PixelFormat::spec_from_wgpu(texture.format),
        image@.well_sized(),
        texture.size.width != 0 && texture.size.height != 0 ==> exists|mapped: Vec<u8>|
            copy.ensures((spec_readback_layout(*texture),), mapped) && image@.bytes
                == strip_padding(
                mapped@,
                spec_readback_layout(*texture).bytes_per_row as nat,
                spec_readback_layout(*texture).padded_bytes_per_row as nat,
                texture.size.height as nat,
            ),
        forall|bytes: Seq<u8>|
            bytes.len() == byte_len(image@.format, image@.width, image@.height)
                && #[trigger] copies_rows(copy, spec_readback_layout(*texture), bytes)
                ==> image@.bytes == bytes,
{
    let size = texture.size;
    if size.width == 0 || size.height == 0 {
        let format = match PixelFormat::from_wgpu(texture.format) {
            Some(f) => f,
            None => {
                proof {
                    assert(false);
                }
                PixelFormat::Gray8
            },
        };
        assert(byte_len(format, size.width, size.height) == 0) by (nonlinear_arith)
            requires
                size.width == 0 || size.height == 0,
                byte_len(format, size.width, size.height) == (size.width as nat) * (
                size.height as nat) * (format.spec_bytes_per_pixel() as nat),
        ;
        let image = RawImage::zeroed(format, size.width, size.height);
        assert forall|bytes: Seq<u8>|
            bytes.len() == byte_len(image@.format, image@.width, image@.height) implies image@.bytes
            == bytes by {
            assert(image@.bytes =~= bytes);
        }
        return image;
    }
    let layout = readback_layout(texture);
    let mapped = copy(layout);
    let image = assemble_rows(&layout, mapped.as_slice());
    proof {
        let row = layout.bytes_per_row as nat;
        let pitch = layout.padded_bytes_per_row as nat;
        let rows = layout.height as nat;
        assert(row * rows == byte_len(layout.format, layout.width, layout.height))
            by (nonlinear_arith)
            requires
                row == layout.format.spec_bytes_per_pixel() * layout.width,
                rows == layout.height,
                byte_len(layout.format, layout.width, layout.height) == (layout.width as nat) * (
                layout.height as nat) * (layout.format.spec_bytes_per_pixel() as nat),
        ;
        assert forall|bytes: Seq<u8>|
            bytes.len() == byte_len(image@.format, image@.width, image@.height)
                && #[trigger] copies_rows(copy, layout, bytes) implies image@.bytes == bytes by {
            assert(holds_rows(mapped@, bytes, layout));
            lemma_strip_recovers_rows(bytes, mapped@, row, pitch, rows);
        }
    }
    image
}

/// The device and queue handles of the process, set once.
pub struct GpuContext<D, Q> {
    device: Option<D>,
    queue: Option<Q>,
}

impl<D, Q> GpuContext<D, Q> {
    pub closed spec fn spec_device(&self) -> Option<D> {
        self.device
    }

    pub closed spec fn spec_queue(&self) -> Option<Q> {
        self.queue
    }

    /// A context in which nothing is registered yet.
    pub fn new() -> (ctx: Self)
        ensures
            ctx.spec_device() is None,
            ctx.spec_queue() is None,
    {
        GpuContext { device: None, queue: None }
    }

    /// Register the shared GPU handles. Must be called once by the host
    /// during startup before any render helpers are used. A handle that is
    /// registered already stays, and the call fails with `AlreadyExists`:
    /// for the device first, then for the queue.
    pub fn init_gpu(&mut self, device: D, queue: Q) -> (r: Result<(), LunarisError>)
        ensures
            r is Ok <==> old(self).spec_device() is None && old(self).spec_queue() is None,
            r matches Err(e) ==> e is AlreadyExists,
            final(self).spec_device() == (if old(self).spec_device() is None {
                Some(device)
            } else {
                old(self).spec_device()
            }),
            final(self).spec_queue() == (if old(self).spec_device() is None && old(
                self,
            ).spec_queue() is None {
                Some(queue)
            } else {
                old(self).spec_queue()
            }),
    {
        if self.device.is_some() {
            return Err(LunarisError::AlreadyExists { item: "wgpu device".to_string() });
        }
        self.device = Some(device);
        if self.queue.is_some() {
            return Err(LunarisError::AlreadyExists { item: "wgpu queue".to_string() });
        }
        self.queue = Some(queue);
        Ok(())
    }

    /// Both handles are registered.
    pub fn is_initialized(&self) -> (b: bool)
        ensures
            b <==> self.spec_device() is Some && self.spec_queue() is Some,
    {
        self.device.is_some() && self.queue.is_some()
    }

    /// The device handle.
    pub fn device(&self) -> (d: &D)
        requires
            self.spec_device() is Some,
        ensures
            Some(*d) == self.spec_device(),
    {
        self.device.as_ref().unwrap()
    }

    /// The queue handle.
    pub fn queue(&self) -> (q: &Q)
        requires
            self.spec_queue() is Some,
        ensures
            Some(*q) == self.spec_queue(),
    {
        self.queue.as_ref().unwrap()
    }
}

} // verus!
