//! Downsampling by a box filter.

use vstd::prelude::*;
use vstd::arithmetic::div_mod::lemma_fundamental_div_mod_converse;
use crate::render::image::{byte_len, ImageView, RawImage};

verus! {

/// Half of `n`, rounded up.
pub open spec fn half(n: u32) -> u32 {
    ((n + 1) / 2) as u32
}

/// The byte of channel `c` of the pixel in column `x` of row `y`.
pub open spec fn pixel_byte(image: ImageView, x: int, y: int, c: int) -> u8 {
    image.bytes[(y * image.width + x) * image.format.spec_bytes_per_pixel() + c]
}

/// What the pixel at `(x, y)` adds to a sum over a neighbourhood: its byte of
/// channel `c`, and nothing where the image has no such pixel.
pub open spec fn sample(image: ImageView, x: int, y: int, c: int) -> int {
    if x < image.width && y < image.height {
        pixel_byte(image, x, y, c) as int
    } else {
        0
    }
}

/// Sum of channel `c` over the source pixels that output pixel `(x, y)`
/// covers: the two by two block at `(2x, 2y)`, as far as it lies inside.
pub open spec fn box_sum(image: ImageView, x: int, y: int, c: int) -> int {
    sample(image, 2 * x, 2 * y, c) + sample(image, 2 * x + 1, 2 * y, c) + sample(
        image,
        2 * x,
        2 * y + 1,
        c,
    ) + sample(image, 2 * x + 1, 2 * y + 1, c)
}

/// Number of source pixels that output pixel `(x, y)` covers.
pub open spec fn box_count(image: ImageView, x: int, y: int) -> int {
    (if 2 * x + 1 < image.width {
        2int
    } else {
        1int
    }) * (if 2 * y + 1 < image.height {
        2int
    } else {
        1int
    })
}

/// Unweighted average of channel `c` over the source pixels that output
/// pixel `(x, y)` covers, rounded down.
pub open spec fn box_average(image: ImageView, x: int, y: int, c: int) -> u8 {
    (box_sum(image, x, y, c) / box_count(image, x, y)) as u8
}

/// Byte `i` of the half-size image, whose rows are `half(width)` pixels long.
pub open spec fn downsampled_byte(image: ImageView, i: int) -> u8 {
    let bpp = image.format.spec_bytes_per_pixel() as int;
    let width = half(image.width) as int;
    box_average(image, (i / bpp) % width, (i / bpp) / width, i % bpp)
}

/// The image at half the width and half the height, both rounded up, each
/// pixel the box average of the source pixels it covers.
pub open spec fn downsampled(image: ImageView) -> ImageView {
    ImageView {
        width: half(image.width),
        height: half(image.height),
        format: image.format,
        bytes: Seq::new(
            byte_len(image.format, half(image.width), half(image.height)),
            |i: int| downsampled_byte(image, i),
        ),
    }
}

/// Row-major indexing: byte `(y * width + x) * bpp + c` is channel `c` of
/// pixel `(x, y)`, and it lies inside a buffer of `height` such rows.
pub proof fn lemma_pixel_index(width: int, height: int, bpp: int, x: int, y: int, c: int)
    requires
        0 <= x < width,
        0 <= y < height,
        0 <= c < bpp,
    ensures
        0 <= (y * width + x) * bpp + c < width * height * bpp,
        ((y * width + x) * bpp + c) % bpp == c,
        (((y * width + x) * bpp + c) / bpp) % width == x,
        (((y * width + x) * bpp + c) / bpp) / width == y,
{
    let p = y * width + x;
    let i = p * bpp + c;
    assert(0 <= p < width * height) by (nonlinear_arith)
        requires
            0 <= x < width,
            0 <= y < height,
            p == y * width + x,
    ;
    assert(0 <= i < width * height * bpp) by (nonlinear_arith)
        requires
            0 <= p < width * height,
            0 <= c < bpp,
            i == p * bpp + c,
    ;
    lemma_fundamental_div_mod_converse(i, bpp, p, c);
    lemma_fundamental_div_mod_converse(p, width, y, x);
}

/// In the half-size image, pixel `(x, y)` is the box average of the source
/// pixels it covers, channel by channel.
pub proof fn lemma_downsampled_pixel(image: ImageView, x: int, y: int, c: int)
    requires
        0 <= x < half(image.width),
        0 <= y < half(image.height),
        0 <= c < image.format.spec_bytes_per_pixel(),
    ensures
        pixel_byte(downsampled(image), x, y, c) == box_average(image, x, y, c),
{
    let width = half(image.width) as int;
    let height = half(image.height) as int;
    let bpp = image.format.spec_bytes_per_pixel() as int;
    lemma_pixel_index(width, height, bpp, x, y, c);
    assert(width * height * bpp == byte_len(image.format, half(image.width), half(image.height)))
        by (nonlinear_arith)
        requires
            width == half(image.width),
            height == half(image.height),
            bpp == image.format.spec_bytes_per_pixel(),
            byte_len(image.format, half(image.width), half(image.height)) == (half(
                image.width,
            ) as nat) * (half(image.height) as nat) * (image.format.spec_bytes_per_pixel() as nat),
    ;
}

/// Reads channel `c` of the pixel at `(x, y)` of a row-major buffer.
fn read_sample(src: &[u8], width: u32, height: u32, bpp: usize, x: u64, y: u64, c: usize) -> (v:
    u32)
    requires
        src@.len() == (width as nat) * (height as nat) * (bpp as nat),
        x < width,
        y < height,
        c < bpp,
    ensures
        v == src@[(y * width + x) * bpp + c],
{
    let total: usize = src.len();
    proof {
        lemma_pixel_index(width as int, height as int, bpp as int, x as int, y as int, c as int);
        assert((width as nat) * (height as nat) * (bpp as nat) == (width as int) * (height as int)
            * (bpp as int)) by (nonlinear_arith);
        assert(0 <= y * width + x <= (y * width + x) * bpp + c) by (nonlinear_arith)
            requires
                0 <= x,
                0 <= y,
                0 <= c,
                bpp >= 1,
                width >= 0,
        ;
    }
    let pixel: usize = (y as usize) * (width as usize) + (x as usize);
    let index: usize = pixel * bpp + c;
    src[index] as u32
}

impl RawImage {
    /// Downsample by two with a box filter. The result is half as wide and
    /// half as high, both rounded up; each of its pixels is the average,
    /// channel by channel and rounded down, of the up to four source pixels
    /// it covers. Where the width or the height is odd, the last column or
    /// row is averaged over the pixels that exist.
    pub fn size_down(&self) -> (image: Self)
        ensures
            image@ == downsampled(self@),
            image@.well_sized(),
    {
        let bpp: usize = self.bytes_per_pixel();
        let width: u32 = self.width();
        let height: u32 = self.height();
        let new_width: u32 = width / 2 + width % 2;
        let new_height: u32 = height / 2 + height % 2;
        let src = self.as_bytes();
        let ghost view = self@;
        let ghost total = byte_len(view.format, new_width, new_height) as int;
        proof {
            assert(total == (new_width as int) * (new_height as int) * (bpp as int))
                by (nonlinear_arith)
                requires
                    total == (new_width as nat) * (new_height as nat) * (bpp as nat),
            ;
        }
        let mut out: Vec<u8> = Vec::new();
        let mut y: u32 = 0;
        while y < new_height
            invariant
                y <= new_height,
                view == self@,
                src@ == view.bytes,
                src@.len() == (width as nat) * (height as nat) * (bpp as nat),
                width == view.width,
                height == view.height,
                bpp == view.format.spec_bytes_per_pixel(),
                new_width == half(width),
                new_height == half(height),
                out@.len() == (y * new_width + 0) * bpp + 0,
                forall|i: int| 0 <= i < out@.len() ==> out@[i] == downsampled_byte(view, i),
            decreases new_height - y,
        {
            let mut x: u32 = 0;
            while x < new_width
                invariant
                    x <= new_width,
                    y < new_height,
                    view == self@,
                    src@ == view.bytes,
                    src@.len() == (width as nat) * (height as nat) * (bpp as nat),
                    width == view.width,
                    height == view.height,
                    bpp == view.format.spec_bytes_per_pixel(),
                    new_width == half(width),
                    new_height == half(height),
                    out@.len() == (y * new_width + x) * bpp + 0,
                    forall|i: int| 0 <= i < out@.len() ==> out@[i] == downsampled_byte(view, i),
                decreases new_width - x,
            {
                let mut c: usize = 0;
                while c < bpp
                    invariant
                        c <= bpp,
                        x < new_width,
                        y < new_height,
                        view == self@,
                        src@ == view.bytes,
                        src@.len() == (width as nat) * (height as nat) * (bpp as nat),
                        width == view.width,
                        height == view.height,
                        bpp == view.format.spec_bytes_per_pixel(),
                        new_width == half(width),
                        new_height == half(height),
                        out@.len() == (y * new_width + x) * bpp + c,
                        forall|i: int| 0 <= i < out@.len() ==> out@[i] == downsampled_byte(view, i),
                    decreases bpp - c,
                {
                    let x0: u64 = 2 * (x as u64);
                    let y0: u64 = 2 * (y as u64);
                    let mut sum: u32 = read_sample(src, width, height, bpp, x0, y0, c);
                    let mut count: u32 = 1;
                    if x0 + 1 < width as u64 {
                        sum = sum + read_sample(src, width, height, bpp, x0 + 1, y0, c);
                        count = count + 1;
                    }
                    if y0 + 1 < height as u64 {
                        sum = sum + read_sample(src, width, height, bpp, x0, y0 + 1, c);
                        count = count + 1;
                        if x0 + 1 < width as u64 {
                            sum = sum + read_sample(src, width, height, bpp, x0 + 1, y0 + 1, c);
                            count = count + 1;
                        }
                    }
                    let value: u32 = sum / count;
                    proof {
                        assert(sum == box_sum(view, x as int, y as int, c as int));
                        assert(count == box_count(view, x as int, y as int)) by (nonlinear_arith)
                            requires
                                count == (if 2 * x + 1 < view.width {
                                    2int
                                } else {
                                    1int
                                }) + (if 2 * y + 1 < view.height {
                                    if 2 * x + 1 < view.width {
                                        2int
                                    } else {
                                        1int
                                    }
                                } else {
                                    0int
                                }),
                                box_count(view, x as int, y as int) == (if 2 * x + 1 < view.width {
                                    2int
                                } else {
                                    1int
                                }) * (if 2 * y + 1 < view.height {
                                    2int
                                } else {
                                    1int
                                }),
                        ;
                        lemma_pixel_index(
                            new_width as int,
                            new_height as int,
                            bpp as int,
                            x as int,
                            y as int,
                            c as int,
                        );
                        assert(value <= 255) by (nonlinear_arith)
                            requires
                                value == sum / count,
                                sum <= 255 * count,
                                count >= 1,
                        ;
                        assert(downsampled_byte(view, out@.len() as int) == value as u8);
                    }
                    out.push(value as u8);
                    c += 1;
                }
                proof {
                    assert((y * new_width + x) * bpp + bpp == (y * new_width + (x + 1)) * bpp + 0)
                        by (nonlinear_arith);
                }
                x += 1;
            }
            proof {
                assert((y * new_width + new_width) * bpp + 0 == ((y + 1) * new_width + 0) * bpp + 0)
                    by (nonlinear_arith);
            }
            y += 1;
        }
        proof {
            assert(out@.len() == total) by (nonlinear_arith)
                requires
                    out@.len() == (new_height * new_width + 0) * bpp + 0,
                    total == (new_width as int) * (new_height as int) * (bpp as int),
            ;
            assert(out@ =~= downsampled(view).bytes);
        }
        match RawImage::from_bytes(self.format(), new_width, new_height, out) {
            Ok(image) => image,
            Err(_) => {
                proof {
                    assert(false);
                }
                RawImage::zeroed(self.format(), 0, 0)
            },
        }
    }
}

} // verus!
