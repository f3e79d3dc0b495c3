//! The codecs behind the compression strategies. QOI, LZ4 and Zstandard are
//! the work of their crates; what each returns is named here, and the names
//! are tied together by what the codecs promise: that decoding undoes
//! encoding.

use vstd::prelude::*;
use crate::render::image::CompressionStrategy;

verus! {

/// `qoi::Error`, what the QOI codec fails with.
#[verifier::external_type_specification]
#[verifier::external_body]
pub struct ExQoiError(qoi::Error);

/// `lz4_flex::block::DecompressError`, what LZ4 decompression fails with.
#[verifier::external_type_specification]
#[verifier::external_body]
pub struct ExLz4DecompressError(lz4_flex::block::DecompressError);

/// `std::io::Error`, what the Zstandard codec fails with.
#[verifier::external_type_specification]
#[verifier::external_body]
pub struct ExIoError(std::io::Error);

/// Most pixels that a QOI stream can describe.
pub const QOI_PIXELS_MAX: u64 = 400_000_000;

/// A decoded QOI stream: what its header declares, and the pixels.
#[derive(Debug)]
pub struct QoiImage {
    pub width: u32,
    pub height: u32,
    pub channels: u8,
    pub pixels: Vec<u8>,
}

pub struct QoiImageView {
    pub width: u32,
    pub height: u32,
    pub channels: u8,
    pub pixels: Seq<u8>,
}

impl View for QoiImage {
    type V = QoiImageView;

    open spec fn view(&self) -> QoiImageView {
        QoiImageView {
            width: self.width,
            height: self.height,
            channels: self.channels,
            pixels: self.pixels@,
        }
    }
}

/// The inputs that QOI encodes: between one pixel and `QOI_PIXELS_MAX`, of
/// three or four bytes each.
pub open spec fn qoi_encodable(len: nat, width: u32, height: u32) -> bool {
    let pixels = (width as nat) * (height as nat);
    1 <= pixels <= QOI_PIXELS_MAX && (len == 3 * pixels || len == 4 * pixels)
}

/// The QOI stream of the given pixels.
pub uninterp spec fn qoi_encoding(data: Seq<u8>, width: u32, height: u32) -> Seq<u8>;

/// What decoding a QOI stream gives; `None` for what is no valid stream.
pub uninterp spec fn qoi_decoding(payload: Seq<u8>) -> Option<QoiImageView>;

/// The LZ4 block of the given bytes, behind their length as four bytes.
pub uninterp spec fn lz4_encoding(data: Seq<u8>) -> Seq<u8>;

/// What decompressing a length-prefixed LZ4 block gives; `None` for what is
/// no valid block.
pub uninterp spec fn lz4_decoding(payload: Seq<u8>) -> Option<Seq<u8>>;

/// The Zstandard frame of the given bytes at the given level; `None` where
/// the compressor reports an error.
pub uninterp spec fn zstd_encoding(data: Seq<u8>, level: i32) -> Option<Seq<u8>>;

/// What decompressing Zstandard frames gives; `None` for what is no valid
/// frame.
pub uninterp spec fn zstd_decoding(payload: Seq<u8>) -> Option<Seq<u8>>;

/// `qoi::encode_to_vec`. It encodes exactly the inputs that `qoi_encodable`
/// describes, infers three or four channels from the length, and what it
/// returns decodes to the same pixels under the same width and height.
#[verifier::external_body]
pub(crate) fn qoi_encode(data: &[u8], width: u32, height: u32) -> (r: Result<Vec<u8>, qoi::Error>)
    ensures
        r is Ok <==> qoi_encodable(data@.len(), width, height),
        r matches Ok(v) ==> v@ == qoi_encoding(data@, width, height),
        r matches Ok(v) ==> qoi_decoding(v@) == Some(
            QoiImageView {
                width,
                height,
                channels: (data@.len() / ((width as nat) * (height as nat))) as u8,
                pixels: data@,
            },
        ),
{
    qoi::encode_to_vec(data, width, height)
}

/// `qoi::decode_to_vec`, with the header's width, height and channel count
/// beside the pixels.
#[verifier::external_body]
pub(crate) fn qoi_decode(payload: &[u8]) -> (r: Result<QoiImage, qoi::Error>)
    ensures
        qoi_decoding(payload@) == (match r {
            Ok(image) => Some(image@),
            Err(_) => None,
        }),
{
    qoi::decode_to_vec(payload).map(
        |(header, pixels)|
            QoiImage {
                width: header.width,
                height: header.height,
                channels: header.channels.as_u8(),
                pixels,
            },
    )
}

/// `lz4_flex::block::compress_prepend_size`. What is returned begins with
/// the input's length as four bytes, lowest first, and is no longer than the
/// size that the function reserves for it: 24 bytes and eleven tenths of the
/// input. The length prefix has 32 bits: what is returned decompresses to
/// the input if the input's length fits in them and the decoder can be
/// handed it. The bound in `requires` keeps the reserved size within `usize`.
#[verifier::external_body]
pub(crate) fn lz4_encode(data: &[u8]) -> (r: Vec<u8>)
    requires
        data@.len() * 110 <= usize::MAX,
    ensures
        r@ == lz4_encoding(data@),
        4 <= r@.len() <= 24 + data@.len() * 110 / 100,
        data@.len() <= u32::MAX ==> lz4_declared_len(r@) == data@.len(),
        data@.len() <= u32::MAX && lz4_readable(r@) ==> lz4_decoding(r@) == Some(data@),
{
    lz4_flex::block::compress_prepend_size(data)
}

/// Number of bytes `0xFF` that end the first `n` bytes of `payload`.
pub open spec fn trailing_ff(payload: Seq<u8>, n: nat) -> nat
    decreases n,
{
    if n == 0 || payload[n - 1] != 0xff {
        0
    } else {
        1 + trailing_ff(payload, (n - 1) as nat)
    }
}

/// Length of the longest run of bytes `0xFF` in the first `n` bytes of
/// `payload`.
pub open spec fn longest_ff(payload: Seq<u8>, n: nat) -> nat
    decreases n,
{
    if n == 0 {
        0
    } else if longest_ff(payload, (n - 1) as nat) >= trailing_ff(payload, n) {
        longest_ff(payload, (n - 1) as nat)
    } else {
        trailing_ff(payload, n)
    }
}

/// The length that a length-prefixed LZ4 block declares for its content:
/// its first four bytes, lowest first.
pub open spec fn lz4_declared_len(payload: Seq<u8>) -> nat {
    (payload[0] + 0x100 * payload[1] + 0x1_0000 * payload[2] + 0x100_0000 * payload[3]) as nat
}

/// The payloads that the LZ4 decoder is handed. The decoder reads a length
/// as the sum of a run of bytes `0xFF` and the byte after it, in 32 bits,
/// and adds it to a position in its output. It is handed only payloads in
/// which no run is long enough for such a sum to pass `u32::MAX`, and whose
/// declared length can be reserved and leaves room for the longest sum
/// within `usize`.
pub open spec fn lz4_readable(payload: Seq<u8>) -> bool {
    let run = longest_ff(payload, payload.len());
    &&& 255 * run + 255 <= u32::MAX
    &&& payload.len() >= 4 ==> lz4_declared_len(payload) <= usize::MAX / 2 && lz4_declared_len(
        payload,
    ) + 255 * run + 274 <= usize::MAX
}

/// A run is no longer than what it lies in.
pub proof fn lemma_longest_ff_bound(payload: Seq<u8>, n: nat)
    ensures
        trailing_ff(payload, n) <= n,
        longest_ff(payload, n) <= n,
    decreases n,
{
    if n > 0 {
        lemma_longest_ff_bound(payload, (n - 1) as nat);
    }
}

/// The length of a buffer up to which every LZ4 block of it is one that the
/// decoder is handed: such a block is too short to hold an overlong run.
pub const LZ4_PLAIN_MAX: usize = 15_000_000;

/// Computes `lz4_readable`.
pub fn lz4_is_readable(payload: &[u8]) -> (b: bool)
    ensures
        b == lz4_readable(payload@),
{
    let n: usize = payload.len();
    let mut run: usize = 0;
    let mut longest: usize = 0;
    let mut i: usize = 0;
    while i < n
        invariant
            i <= n,
            n == payload@.len(),
            run == trailing_ff(payload@, i as nat),
            longest == longest_ff(payload@, i as nat),
            run <= i,
            longest <= i,
        decreases n - i,
    {
        if payload[i] == 0xff {
            run = run + 1;
        } else {
            run = 0;
        }
        if run > longest {
            longest = run;
        }
        i += 1;
    }
    let sum: u128 = 255 * (longest as u128) + 255;
    if sum > u32::MAX as u128 {
        return false;
    }
    if n < 4 {
        return true;
    }
    let declared: u128 = payload[0] as u128 + 0x100 * (payload[1] as u128) + 0x1_0000 * (
    payload[2] as u128) + 0x100_0000 * (payload[3] as u128);
    declared <= (usize::MAX / 2) as u128 && declared + sum + 19 <= usize::MAX as u128
}

/// `lz4_flex::block::decompress_size_prepended`, on the payloads that
/// `lz4_readable` describes: on those the decoder's sums of length bytes stay
/// within `u32` and `usize`, and the buffer that it reserves for the
/// declared length is one that can be reserved.
#[verifier::external_body]
pub(crate) fn lz4_decode(payload: &[u8]) -> (r: Result<Vec<u8>, lz4_flex::block::DecompressError>)
    requires
        lz4_readable(payload@),
    ensures
        lz4_decoding(payload@) == (match r {
            Ok(data) => Some(data@),
            Err(_) => None,
        }),
{
    lz4_flex::block::decompress_size_prepended(payload)
}

/// `zstd::encode_all` on a buffer. What it returns decompresses to the input.
#[verifier::external_body]
pub(crate) fn zstd_encode(data: &[u8], level: i32) -> (r: Result<Vec<u8>, std::io::Error>)
    ensures
        zstd_encoding(data@, level) == (match r {
            Ok(frame) => Some(frame@),
            Err(_) => None,
        }),
        r matches Ok(frame) ==> zstd_decoding(frame@) == Some(data@),
{
    zstd::encode_all(data, level)
}

/// `zstd::decode_all` on a buffer.
#[verifier::external_body]
pub(crate) fn zstd_decode(payload: &[u8]) -> (r: Result<Vec<u8>, std::io::Error>)
    ensures
        zstd_decoding(payload@) == (match r {
            Ok(data) => Some(data@),
            Err(_) => None,
        }),
{
    zstd::decode_all(payload)
}

/// What a strategy makes of a buffer of the given geometry; `None` where it
/// has no encoding for it. `Raw` encodes every buffer, and `Lz4` every buffer
/// for which the size that it reserves is within `usize`.
pub open spec fn spec_encode(
    strategy: CompressionStrategy,
    data: Seq<u8>,
    width: u32,
    height: u32,
) -> Option<Seq<u8>> {
    match strategy {
        CompressionStrategy::Raw => Some(data),
        CompressionStrategy::Qoi => if qoi_encodable(data.len(), width, height) {
            Some(qoi_encoding(data, width, height))
        } else {
            None
        },
        CompressionStrategy::Lz4 => if data.len() * 110 <= usize::MAX {
            Some(lz4_encoding(data))
        } else {
            None
        },
        CompressionStrategy::Zstd(level) => zstd_encoding(data, level as i32),
    }
}

/// A decoded payload: the bytes, and the geometry that the stream itself
/// declares, where its format has a header.
#[derive(Debug)]
pub struct Decoded {
    /// Width, height and bytes per pixel, as the stream's header gives them.
    pub header: Option<(u32, u32, u8)>,
    pub bytes: Vec<u8>,
}

pub struct DecodedView {
    pub header: Option<(u32, u32, u8)>,
    pub bytes: Seq<u8>,
}

impl View for Decoded {
    type V = DecodedView;

    open spec fn view(&self) -> DecodedView {
        DecodedView { header: self.header, bytes: self.bytes@ }
    }
}

/// What a codec reads from a payload; `None` where the payload is corrupt,
/// or, under `Lz4`, not one that the decoder is handed.
pub open spec fn spec_decode(codec: CompressionStrategy, payload: Seq<u8>) -> Option<DecodedView> {
    match codec {
        CompressionStrategy::Raw => Some(DecodedView { header: None, bytes: payload }),
        CompressionStrategy::Qoi => match qoi_decoding(payload) {
            Some(image) => Some(
                DecodedView {
                    header: Some((image.width, image.height, image.channels)),
                    bytes: image.pixels,
                },
            ),
            None => None,
        },
        CompressionStrategy::Lz4 => if lz4_readable(payload) {
            match lz4_decoding(payload) {
                Some(bytes) => Some(DecodedView { header: None, bytes }),
                None => None,
            }
        } else {
            None
        },
        CompressionStrategy::Zstd(_) => match zstd_decoding(payload) {
            Some(bytes) => Some(DecodedView { header: None, bytes }),
            None => None,
        },
    }
}

/// A decoding gives back `data`, and a header, where there is one, gives the
/// width and height and `data`'s bytes per pixel.
pub open spec fn round_trips(decoded: Option<DecodedView>, data: Seq<u8>, width: u32, height: u32) -> bool {
    decoded matches Some(d) && d.bytes == data && (d.header matches Some(h) ==> h == (
        width,
        height,
        (data.len() / ((width as nat) * (height as nat))) as u8,
    ))
}

/// What a payload must be for the decoder to give `data` back. Under `Lz4`
/// the length of `data` must fit in the 32 bits of the prefix, and the block
/// must be one that the decoder is handed; the other strategies ask nothing.
pub open spec fn reads_back(strategy: CompressionStrategy, data: Seq<u8>, payload: Seq<u8>) -> bool {
    strategy is Lz4 ==> data.len() <= u32::MAX && lz4_readable(payload)
}

/// Encodes a buffer under a strategy. An error holds the codec's diagnostic.
/// `Raw` never fails, and `Lz4` only on a buffer too large for the size that
/// it reserves. What is returned decodes to the buffer again where
/// `reads_back` holds, which under `Lz4` it does for every buffer of up to
/// `LZ4_PLAIN_MAX` bytes.
pub fn encode_bytes(strategy: CompressionStrategy, data: &[u8], width: u32, height: u32) -> (r:
    Result<Vec<u8>, String>)
    ensures
        spec_encode(strategy, data@, width, height) == (match r {
            Ok(payload) => Some(payload@),
            Err(_) => None,
        }),
        strategy is Lz4 && data@.len() <= LZ4_PLAIN_MAX ==> r is Ok && lz4_readable(r->Ok_0@),
        r is Ok && reads_back(strategy, data@, r->Ok_0@) ==> round_trips(
            spec_decode(strategy, r->Ok_0@),
            data@,
            width,
            height,
        ),
{
    match strategy {
        CompressionStrategy::Raw => Ok(vstd::slice::slice_to_vec(data)),
        CompressionStrategy::Qoi => match qoi_encode(data, width, height) {
            Ok(payload) => Ok(payload),
            Err(e) => Err(e.to_string()),
        },
        CompressionStrategy::Lz4 => {
            if data.len() > usize::MAX / 110 {
                return Err("buffer too large for an LZ4 block".to_string());
            }
            let payload = lz4_encode(data);
            proof {
                lemma_longest_ff_bound(payload@, payload@.len());
            }
            Ok(payload)
        },
        CompressionStrategy::Zstd(level) => match zstd_encode(data, level as i32) {
            Ok(payload) => Ok(payload),
            Err(e) => Err(e.to_string()),
        },
    }
}

/// Decodes a payload with the codec that made it. An error holds the codec's
/// diagnostic.
pub fn decode_bytes(codec: CompressionStrategy, payload: &[u8]) -> (r: Result<Decoded, String>)
    ensures
        spec_decode(codec, payload@) == (match r {
            Ok(decoded) => Some(decoded@),
            Err(_) => None,
        }),
{
    match codec {
        CompressionStrategy::Raw => Ok(
            Decoded { header: None, bytes: vstd::slice::slice_to_vec(payload) },
        ),
        CompressionStrategy::Qoi => match qoi_decode(payload) {
            Ok(image) => Ok(
                Decoded {
                    header: Some((image.width, image.height, image.channels)),
                    bytes: image.pixels,
                },
            ),
            Err(e) => Err(e.to_string()),
        },
        CompressionStrategy::Lz4 => {
            if !lz4_is_readable(payload) {
                return Err("LZ4 block holds a length that cannot be read".to_string());
            }
            match lz4_decode(payload) {
                Ok(bytes) => Ok(Decoded { header: None, bytes }),
                Err(e) => Err(e.to_string()),
            }
        },
        CompressionStrategy::Zstd(_) => match zstd_decode(payload) {
            Ok(bytes) => Ok(Decoded { header: None, bytes }),
            Err(e) => Err(e.to_string()),
        },
    }
}

} // verus!
