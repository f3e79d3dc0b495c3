//! Pixel buffers with an explicit format, raw and compressed.

use vstd::prelude::*;
use std::sync::Arc;
use crate::render::codec::{
    decode_bytes, encode_bytes, reads_back, round_trips, spec_decode, spec_encode, Decoded,
    DecodedView, LZ4_PLAIN_MAX,
};
use crate::util::error::LunarisError;

verus! {

/// Pixel layout the engine understands for CPU and GPU interchange.
#[derive(Debug, Clone, Copy, PartialEq, Eq, Hash, Structural)]
pub enum PixelFormat {
    Rgba8Unorm,
    Rgba8UnormSrgb,
    Gray8,
}

impl PixelFormat {
    /// Number of bytes one pixel occupies.
    pub open spec fn spec_bytes_per_pixel(self) -> usize {
        match self {
            PixelFormat::Rgba8Unorm | PixelFormat::Rgba8UnormSrgb => 4,
            PixelFormat::Gray8 => 1,
        }
    }

    #[verifier::when_used_as_spec(spec_bytes_per_pixel)]
    pub fn bytes_per_pixel(self) -> (n: usize)
        ensures
            n == self.spec_bytes_per_pixel(),
    {
        match self {
            PixelFormat::Rgba8Unorm | PixelFormat::Rgba8UnormSrgb => 4,
            PixelFormat::Gray8 => 1,
        }
    }
}

/// Length in bytes of a `width` by `height` buffer of `format` pixels.
pub open spec fn byte_len(format: PixelFormat, width: u32, height: u32) -> nat {
    (width as nat) * (height as nat) * (format.spec_bytes_per_pixel() as nat)
}

/// What an image is: its geometry, its pixel layout and its bytes, row by row.
pub struct ImageView {
    pub width: u32,
    pub height: u32,
    pub format: PixelFormat,
    pub bytes: Seq<u8>,
}

impl ImageView {
    /// The buffer has the length that geometry and format call for.
    pub open spec fn well_sized(self) -> bool {
        self.bytes.len() == byte_len(self.format, self.width, self.height)
    }
}

/// Byte by byte sum of two buffers, each sum held at 255.
pub open spec fn saturating_sum(a: Seq<u8>, b: Seq<u8>) -> Seq<u8> {
    Seq::new(
        a.len(),
        |i: int|
            if a[i] + b[i] > 255 {
                255u8
            } else {
                (a[i] + b[i]) as u8
            },
    )
}

/// Computes `byte_len` without overflow.
pub(crate) fn expected_len(format: PixelFormat, width: u32, height: u32) -> (n: u128)
    ensures
        n == byte_len(format, width, height),
        n <= 0xffff_ffff * 0xffff_ffff * 4,
{
    let w: u128 = width as u128;
    let h: u128 = height as u128;
    let b: u128 = format.bytes_per_pixel() as u128;
    assert(w * h <= 0xffff_ffff * 0xffff_ffff) by (nonlinear_arith)
        requires
            w <= 0xffff_ffff,
            h <= 0xffff_ffff,
    ;
    assert(w * h * b <= 0xffff_ffff * 0xffff_ffff * 4) by (nonlinear_arith)
        requires
            w * h <= 0xffff_ffff * 0xffff_ffff,
            b <= 4,
    ;
    w * h * b
}

/// CPU-side image buffer with explicit format metadata.
///
/// The bytes are shared: a clone refers to the same buffer. Every value of
/// this type holds exactly `width * height * bytes_per_pixel` bytes.
#[derive(Debug)]
pub struct RawImage {
    width: u32,
    height: u32,
    format: PixelFormat,
    data: Arc<Vec<u8>>,
}

impl View for RawImage {
    type V = ImageView;

    closed spec fn view(&self) -> ImageView {
        ImageView { width: self.width, height: self.height, format: self.format, bytes: self.data@ }
    }
}

impl Clone for RawImage {
    fn clone(&self) -> (r: Self)
        ensures
            r == *self,
    {
        proof {
            use_type_invariant(self);
        }
        RawImage {
            width: self.width,
            height: self.height,
            format: self.format,
            data: self.data.clone(),
        }
    }
}

impl RawImage {
    #[verifier::type_invariant]
    spec fn sized(self) -> bool {
        self.data@.len() == byte_len(self.format, self.width, self.height)
    }

    /// Construct a new image from raw bytes, which must be exactly as many as
    /// geometry and format call for.
    pub fn from_bytes(format: PixelFormat, width: u32, height: u32, bytes: Vec<u8>) -> (r: Result<
        Self,
        LunarisError,
    >)
        ensures
            r is Ok <==> bytes@.len() == byte_len(format, width, height),
            r matches Ok(img) ==> img@ == (ImageView { width, height, format, bytes: bytes@ })
                && img@.well_sized(),
            r matches Err(e) ==> e is InvalidArgument,
    {
        let expected: u128 = expected_len(format, width, height);
        if bytes.len() as u128 != expected {
            return Err(
                LunarisError::InvalidArgument {
                    name: "image bytes".to_string(),
                    reason: Some("byte count does not match width, height and format".to_string()),
                },
            );
        }
        Ok(RawImage { width, height, format, data: Arc::new(bytes) })
    }

    /// Convenience constructor for linear RGBA8 images.
    pub fn from_rgba8(width: u32, height: u32, bytes: Vec<u8>) -> (r: Result<Self, LunarisError>)
        ensures
            r is Ok <==> bytes@.len() == byte_len(PixelFormat::Rgba8Unorm, width, height),
            r matches Ok(img) ==> img@ == (ImageView {
                width,
                height,
                format: PixelFormat::Rgba8Unorm,
                bytes: bytes@,
            }),
            r matches Err(e) ==> e is InvalidArgument,
    {
        Self::from_bytes(PixelFormat::Rgba8Unorm, width, height, bytes)
    }

    /// Convenience constructor for sRGB RGBA8 images.
    pub fn from_rgba8_srgb(width: u32, height: u32, bytes: Vec<u8>) -> (r: Result<
        Self,
        LunarisError,
    >)
        ensures
            r is Ok <==> bytes@.len() == byte_len(PixelFormat::Rgba8UnormSrgb, width, height),
            r matches Ok(img) ==> img@ == (ImageView {
                width,
                height,
                format: PixelFormat::Rgba8UnormSrgb,
                bytes: bytes@,
            }),
            r matches Err(e) ==> e is InvalidArgument,
    {
        Self::from_bytes(PixelFormat::Rgba8UnormSrgb, width, height, bytes)
    }

    /// Zero-filled image for the given format.
    pub fn zeroed(format: PixelFormat, width: u32, height: u32) -> (img: Self)
        requires
            byte_len(format, width, height) <= usize::MAX,
        ensures
            img@ == (ImageView {
                width,
                height,
                format,
                bytes: Seq::new(byte_len(format, width, height), |i: int| 0u8),
            }),
            img@.well_sized(),
    {
        let expected: u128 = expected_len(format, width, height);
        let len: usize = expected as usize;
        let data: Vec<u8> = vec![0u8; len];
        assert(data@ =~= Seq::new(byte_len(format, width, height), |i: int| 0u8));
        RawImage { width, height, format, data: Arc::new(data) }
    }

    pub open spec fn spec_width(&self) -> u32 {
        self@.width
    }

    #[verifier::when_used_as_spec(spec_width)]
    pub fn width(&self) -> (w: u32)
        ensures
            w == self@.width,
    {
        self.width
    }

    pub open spec fn spec_height(&self) -> u32 {
        self@.height
    }

    #[verifier::when_used_as_spec(spec_height)]
    pub fn height(&self) -> (h: u32)
        ensures
            h == self@.height,
    {
        self.height
    }

    pub open spec fn spec_format(&self) -> PixelFormat {
        self@.format
    }

    #[verifier::when_used_as_spec(spec_format)]
    pub fn format(&self) -> (f: PixelFormat)
        ensures
            f == self@.format,
    {
        self.format
    }

    /// Width and height, in that order.
    pub fn size(&self) -> (s: (u32, u32))
        ensures
            s == (self@.width, self@.height),
    {
        (self.width, self.height)
    }

    /// Number of bytes in the buffer.
    pub fn len(&self) -> (n: usize)
        ensures
            n == self@.bytes.len(),
            n == byte_len(self@.format, self@.width, self@.height),
    {
        proof {
            use_type_invariant(self);
        }
        self.data.len()
    }

    pub fn is_empty(&self) -> (b: bool)
        ensures
            b <==> self@.bytes.len() == 0,
            b <==> byte_len(self@.format, self@.width, self@.height) == 0,
    {
        proof {
            use_type_invariant(self);
        }
        self.data.len() == 0
    }

    pub fn bytes_per_pixel(&self) -> (n: usize)
        ensures
            n == self@.format.spec_bytes_per_pixel(),
    {
        self.format.bytes_per_pixel()
    }

    /// The bytes, row by row; always as many as geometry and format call for.
    pub fn as_bytes(&self) -> (bytes: &[u8])
        ensures
            bytes@ == self@.bytes,
            bytes@.len() == byte_len(self@.format, self@.width, self@.height),
    {
        proof {
            use_type_invariant(self);
        }
        self.data.as_slice()
    }

    /// Gives up the image for its shared buffer.
    pub fn into_bytes(self) -> (bytes: Arc<Vec<u8>>)
        ensures
            bytes@ == self@.bytes,
            bytes@.len() == byte_len(self@.format, self@.width, self@.height),
    {
        proof {
            use_type_invariant(&self);
        }
        self.data
    }

    /// Tells whether two images can be combined pixel by pixel: a difference
    /// in width or height is reported first, one in format after it.
    pub fn ensure_geometry(&self, other: &Self) -> (r: Result<(), LunarisError>)
        ensures
            r is Ok <==> self@.width == other@.width && self@.height == other@.height
                && self@.format == other@.format,
            r matches Err(e) ==> (if self@.width != other@.width || self@.height != other@.height {
                e matches LunarisError::Dimensionmismatch { a, b }
                    && a == (self@.width as usize, self@.height as usize)
                    && b == (other@.width as usize, other@.height as usize)
            } else {
                e is InvalidArgument
            }),
    {
        if self.width != other.width || self.height != other.height {
            return Err(
                LunarisError::Dimensionmismatch {
                    a: (self.width as usize, self.height as usize),
                    b: (other.width as usize, other.height as usize),
                },
            );
        }
        if self.format != other.format {
            return Err(
                LunarisError::InvalidArgument {
                    name: "image format".to_string(),
                    reason: Some("pixel format mismatch".to_string()),
                },
            );
        }
        Ok(())
    }

    /// Saturating overlay of two images with identical geometry: every byte
    /// of the result is the sum of the two bytes at its place, held at 255.
    pub fn overlay(&self, other: &Self) -> (r: Result<Self, LunarisError>)
        ensures
            r is Ok <==> self@.width == other@.width && self@.height == other@.height
                && self@.format == other@.format,
            r matches Ok(img) ==> img@ == (ImageView {
                width: self@.width,
                height: self@.height,
                format: self@.format,
                bytes: saturating_sum(self@.bytes, other@.bytes),
            }) && img@.well_sized(),
            r matches Err(e) ==> (if self@.width != other@.width || self@.height != other@.height {
                e matches LunarisError::Dimensionmismatch { a, b }
                    && a == (self@.width as usize, self@.height as usize)
                    && b == (other@.width as usize, other@.height as usize)
            } else {
                e is InvalidArgument
            }),
    {
        match self.ensure_geometry(other) {
            Ok(()) => {},
            Err(e) => {
                return Err(e);
            },
        }
        let a = self.as_bytes();
        let b = other.as_bytes();
        let n = a.len();
        let mut data: Vec<u8> = Vec::with_capacity(n);
        let mut i: usize = 0;
        while i < n
            invariant
                i <= n,
                n == a@.len(),
                n == b@.len(),
                data@.len() == i,
                forall|k: int| 0 <= k < i ==> data@[k] == saturating_sum(a@, b@)[k],
            decreases n - i,
        {
            data.push(a[i].saturating_add(b[i]));
            i += 1;
        }
        assert(data@ =~= saturating_sum(a@, b@));
        Self::from_bytes(self.format, self.width, self.height, data)
    }
}

/// How a frame is packed when it is compressed.
#[derive(Debug, Clone, Copy, PartialEq, Eq, Structural)]
pub enum CompressionStrategy {
    /// The bytes as they are.
    Raw,
    /// Zstandard at the given level.
    Zstd(u8),
    /// The QOI image format.
    Qoi,
    /// An LZ4 block behind a length prefix.
    Lz4,
}

/// An image in compressed form: geometry and format as declared when it was
/// packed, the codec, and the codec's payload.
#[derive(Debug)]
pub struct CompressedImage {
    width: u32,
    height: u32,
    format: PixelFormat,
    codec: CompressionStrategy,
    payload: Vec<u8>,
}

pub struct CompressedView {
    pub width: u32,
    pub height: u32,
    pub format: PixelFormat,
    pub codec: CompressionStrategy,
    pub payload: Seq<u8>,
}

impl View for CompressedImage {
    type V = CompressedView;

    closed spec fn view(&self) -> CompressedView {
        CompressedView {
            width: self.width,
            height: self.height,
            format: self.format,
            codec: self.codec,
            payload: self.payload@,
        }
    }
}

impl Clone for CompressedImage {
    fn clone(&self) -> (r: Self)
        ensures
            r@ == self@,
    {
        CompressedImage {
            width: self.width,
            height: self.height,
            format: self.format,
            codec: self.codec,
            payload: vstd::slice::slice_to_vec(self.payload.as_slice()),
        }
    }
}

/// How decompression ends.
pub enum Decompressed {
    /// The payload decodes to an image of the declared geometry and format.
    Image(ImageView),
    /// The codec rejects the payload.
    Corrupt,
    /// The payload's own header disagrees with the declared width, height
    /// or bytes per pixel.
    HeaderMismatch,
    /// The decoded bytes are not as many as geometry and format call for.
    LengthMismatch,
}

/// Holds a decoded payload against the geometry and format that `image`
/// declares: the header first, where there is one, then the length.
pub open spec fn spec_accept(image: CompressedView, decoded: Option<DecodedView>) -> Decompressed {
    match decoded {
        None => Decompressed::Corrupt,
        Some(d) => if d.header matches Some(h) && (h.0 != image.width || h.1 != image.height || h.2
            != image.format.spec_bytes_per_pixel()) {
            Decompressed::HeaderMismatch
        } else if d.bytes.len() != byte_len(image.format, image.width, image.height) {
            Decompressed::LengthMismatch
        } else {
            Decompressed::Image(
                ImageView {
                    width: image.width,
                    height: image.height,
                    format: image.format,
                    bytes: d.bytes,
                },
            )
        },
    }
}

/// What decompressing `image` gives.
pub open spec fn spec_decompress(image: CompressedView) -> Decompressed {
    spec_accept(image, spec_decode(image.codec, image.payload))
}

/// The compressed form of `image` under `strategy` with the given payload.
pub open spec fn packed(image: ImageView, strategy: CompressionStrategy, payload: Seq<u8>) -> CompressedView {
    CompressedView {
        width: image.width,
        height: image.height,
        format: image.format,
        codec: strategy,
        payload,
    }
}

/// Decompression undoes compression: where a strategy encodes an image and
/// its codec gives the encoded bytes back, decompressing the compressed
/// image gives the image, byte for byte and with its geometry and format.
pub proof fn lemma_decompress_inverts_compress(
    image: ImageView,
    strategy: CompressionStrategy,
    payload: Seq<u8>,
)
    requires
        image.well_sized(),
        spec_encode(strategy, image.bytes, image.width, image.height) == Some(payload),
        round_trips(spec_decode(strategy, payload), image.bytes, image.width, image.height),
    ensures
        spec_decompress(packed(image, strategy, payload)) == Decompressed::Image(image),
{
    if strategy is Qoi {
        let n = (image.width as nat) * (image.height as nat);
        let len = image.bytes.len();
        let bpp = image.format.spec_bytes_per_pixel() as nat;
        assert(len / n == bpp) by (nonlinear_arith)
            requires
                len == n * bpp,
                n >= 1,
        ;
    }
}

impl RawImage {
    /// Compresses the image under `strategy`. It fails with `FailedCompress`
    /// exactly where the strategy has no encoding for the image: never under
    /// `Raw`, and under `Lz4` only for an image too large for the size that
    /// the codec reserves. What it returns decompresses to the image again,
    /// byte for byte, where `reads_back` holds of the payload. Under `Lz4`
    /// that asks for an image of up to `u32::MAX` bytes, which is what the
    /// length prefix of that format can hold, and for a block that the
    /// decoder is handed, which every block of an image of up to
    /// `LZ4_PLAIN_MAX` bytes is.
    pub fn compress(self, strategy: CompressionStrategy) -> (r: Result<
        CompressedImage,
        LunarisError,
    >)
        ensures
            r is Ok <==> spec_encode(
                strategy,
                self@.bytes,
                self@.width,
                self@.height,
            ) is Some,
            r matches Ok(c) ==> c@ == packed(
                self@,
                strategy,
                spec_encode(strategy, self@.bytes, self@.width, self@.height).unwrap(),
            ),
            strategy is Raw ==> r is Ok,
            strategy is Lz4 && self@.bytes.len() * 110 <= usize::MAX ==> r is Ok,
            r is Ok && reads_back(strategy, self@.bytes, r->Ok_0@.payload) ==> spec_decompress(
                r->Ok_0@,
            ) == Decompressed::Image(self@),
            strategy is Lz4 && self@.bytes.len() <= LZ4_PLAIN_MAX ==> r is Ok && spec_decompress(
                r->Ok_0@,
            ) == Decompressed::Image(self@),
            r matches Err(e) ==> e is FailedCompress,
    {
        let encoded = encode_bytes(strategy, self.as_bytes(), self.width, self.height);
        proof {
            use_type_invariant(&self);
            if encoded is Ok && reads_back(strategy, self@.bytes, encoded->Ok_0@) {
                lemma_decompress_inverts_compress(self@, strategy, encoded->Ok_0@);
            }
        }
        CompressedImage::from_encoded(self.width, self.height, self.format, strategy, encoded)
    }
}

impl CompressedImage {
    /// Packs the outcome of an encoding with the geometry and format it was
    /// made for: a payload becomes a compressed image, a diagnostic becomes
    /// `FailedCompress`.
    pub fn from_encoded(
        width: u32,
        height: u32,
        format: PixelFormat,
        codec: CompressionStrategy,
        encoded: Result<Vec<u8>, String>,
    ) -> (r: Result<Self, LunarisError>)
        ensures
            r is Ok <==> encoded is Ok,
            r matches Ok(c) ==> c@ == (CompressedView {
                width,
                height,
                format,
                codec,
                payload: encoded->Ok_0@,
            }),
            r matches Err(e) ==> e matches LunarisError::FailedCompress { what } && what
                == encoded->Err_0,
    {
        match encoded {
            Ok(payload) => Ok(CompressedImage { width, height, format, codec, payload }),
            Err(what) => Err(LunarisError::FailedCompress { what }),
        }
    }

    pub fn width(&self) -> (w: u32)
        ensures
            w == self@.width,
    {
        self.width
    }

    pub fn height(&self) -> (h: u32)
        ensures
            h == self@.height,
    {
        self.height
    }

    pub fn format(&self) -> (f: PixelFormat)
        ensures
            f == self@.format,
    {
        self.format
    }

    pub fn codec(&self) -> (c: CompressionStrategy)
        ensures
            c == self@.codec,
    {
        self.codec
    }

    pub fn payload(&self) -> (p: &[u8])
        ensures
            p@ == self@.payload,
    {
        self.payload.as_slice()
    }

    /// Holds a decoded payload against what this image declares and makes the
    /// image of it. A diagnostic becomes `FailedDecompress`; a header that
    /// disagrees, or bytes of another length than declared, `InvalidArgument`.
    pub fn image_from_decoded(&self, decoded: Result<Decoded, String>) -> (r: Result<
        RawImage,
        LunarisError,
    >)
        ensures
            match spec_accept(
                self@,
                match decoded {
                    Ok(d) => Some(d@),
                    Err(_) => None,
                },
            ) {
                Decompressed::Image(view) => r matches Ok(image) && image@ == view,
                Decompressed::Corrupt => r matches Err(LunarisError::FailedDecompress { what })
                    && what == decoded->Err_0,
                Decompressed::HeaderMismatch => r matches Err(e) && e is InvalidArgument,
                Decompressed::LengthMismatch => r matches Err(e) && e is InvalidArgument,
            },
    {
        let decoded = match decoded {
            Ok(d) => d,
            Err(what) => {
                return Err(LunarisError::FailedDecompress { what });
            },
        };
        match decoded.header {
            Some((width, height, channels)) => {
                if width != self.width || height != self.height {
                    return Err(
                        LunarisError::InvalidArgument {
                            name: "qoi header".to_string(),
                            reason: Some("dimension mismatch".to_string()),
                        },
                    );
                }
                if channels as usize != self.format.bytes_per_pixel() {
                    return Err(
                        LunarisError::InvalidArgument {
                            name: "qoi header".to_string(),
                            reason: Some("channel count mismatch".to_string()),
                        },
                    );
                }
            },
            None => {},
        }
        let expected: u128 = expected_len(self.format, self.width, self.height);
        if decoded.bytes.len() as u128 != expected {
            return Err(
                LunarisError::InvalidArgument {
                    name: "decompressed image".to_string(),
                    reason: Some("decoded byte count does not match the declared geometry".to_string()),
                },
            );
        }
        RawImage::from_bytes(self.format, self.width, self.height, decoded.bytes)
    }

    /// Decodes the payload and checks it against the declared geometry and
    /// format.
    pub fn decompress(&self) -> (r: Result<RawImage, LunarisError>)
        ensures
            match spec_decompress(self@) {
                Decompressed::Image(view) => r matches Ok(image) && image@ == view,
                Decompressed::Corrupt => r matches Err(e) && e is FailedDecompress,
                Decompressed::HeaderMismatch => r matches Err(e) && e is InvalidArgument,
                Decompressed::LengthMismatch => r matches Err(e) && e is InvalidArgument,
            },
    {
        let decoded = decode_bytes(self.codec, self.payload.as_slice());
        self.image_from_decoded(decoded)
    }
}

impl From<RawImage> for CompressedImage {
    /// The image as it is, under the `Raw` codec.
    fn from(image: RawImage) -> (c: Self)
        ensures
            c@ == packed(image@, CompressionStrategy::Raw, image@.bytes),
            spec_decompress(c@) == Decompressed::Image(image@),
    {
        proof {
            use_type_invariant(&image);
        }
        CompressedImage {
            width: image.width,
            height: image.height,
            format: image.format,
            codec: CompressionStrategy::Raw,
            payload: vstd::slice::slice_to_vec(image.as_bytes()),
        }
    }
}

impl vstd::std_specs::convert::FromSpecImpl<RawImage> for CompressedImage {
    open spec fn obeys_from_spec() -> bool {
        false
    }

    open spec fn from_spec(image: RawImage) -> Self {
        arbitrary()
    }
}

impl From<&RawImage> for CompressedImage {
    /// The image as it is, under the `Raw` codec.
    fn from(image: &RawImage) -> (c: Self)
        ensures
            c@ == packed(image@, CompressionStrategy::Raw, image@.bytes),
            spec_decompress(c@) == Decompressed::Image(image@),
    {
        proof {
            use_type_invariant(image);
        }
        CompressedImage {
            width: image.width,
            height: image.height,
            format: image.format,
            codec: CompressionStrategy::Raw,
            payload: vstd::slice::slice_to_vec(image.as_bytes()),
        }
    }
}

impl vstd::std_specs::convert::FromSpecImpl<&RawImage> for CompressedImage {
    open spec fn obeys_from_spec() -> bool {
        false
    }

    open spec fn from_spec(image: &RawImage) -> Self {
        arbitrary()
    }
}

} // verus!
