//! Normalization of captured frames: each pixel layout a capture backend may
//! deliver, turned into the canonical raster.
use vstd::prelude::*;

use crate::color::Rgb;
use crate::screen::Screen;

verus! {

/// Byte layouts of a captured frame.
#[derive(Clone, Copy, Debug, PartialEq, Eq, Structural)]
pub enum PixelLayout {
    /// Packed red, green, blue.
    Rgb,
    /// Red, green, blue, then a padding byte.
    Rgbx,
    /// A padding byte, then blue, green, red.
    Xbgr,
    /// Blue, green, red, then a padding byte.
    Bgrx,
    /// Blue, green, red, then a zero byte.
    Bgr0,
    /// Blue, green, red, alpha.
    Bgra,
    /// Planar luma and chroma.
    Yuv,
}

/// Why a frame could not be normalized.
#[derive(Clone, Copy, Debug, PartialEq, Eq, Structural)]
pub enum ConversionError {
    /// The layout has no conversion to RGB.
    UnsupportedLayout,
    /// Negative dimensions, or a byte count other than the dimensions need.
    DimensionMismatch,
}

pub open spec fn bytes_per_pixel(layout: PixelLayout) -> int {
    match layout {
        PixelLayout::Rgb => 3,
        _ => 4,
    }
}

/// The pixel whose bytes start at `o`.
pub open spec fn decode_at(layout: PixelLayout, data: Seq<u8>, o: int) -> Rgb {
    match layout {
        PixelLayout::Rgb | PixelLayout::Rgbx => Rgb { r: data[o], g: data[o + 1], b: data[o + 2] },
        PixelLayout::Xbgr => Rgb { r: data[o + 3], g: data[o + 2], b: data[o + 1] },
        _ => Rgb { r: data[o + 2], g: data[o + 1], b: data[o] },
    }
}

/// The outcome of normalizing a frame of `width` x `height` pixels.
pub open spec fn frame_fits(layout: PixelLayout, width: i32, height: i32, len: int) -> Result<(), ConversionError> {
    if layout == PixelLayout::Yuv {
        Err(ConversionError::UnsupportedLayout)
    } else if width < 0 || height < 0 || len != bytes_per_pixel(layout) * width * height {
        Err(ConversionError::DimensionMismatch)
    } else {
        Ok(())
    }
}

fn decode(layout: PixelLayout, data: &Vec<u8>, o: usize) -> (r: Rgb)
    requires
        layout != PixelLayout::Yuv,
        o + bytes_per_pixel(layout) <= data@.len(),
    ensures
        r == decode_at(layout, data@, o as int),
{
    assert(o + 3 <= data@.len());
    assert(data@.len() == data.len());
    if layout == PixelLayout::Rgb || layout == PixelLayout::Rgbx {
        Rgb { r: data[o], g: data[o + 1], b: data[o + 2] }
    } else if layout == PixelLayout::Xbgr {
        Rgb { r: data[o + 3], g: data[o + 2], b: data[o + 1] }
    } else {
        Rgb { r: data[o + 2], g: data[o + 1], b: data[o] }
    }
}

/// The canonical raster of a frame: pixel `(x, y)` decoded from the bytes of pixel
/// `y * width + x`; the data must hold exactly the bytes of `width * height` pixels.
pub fn to_screen(layout: PixelLayout, width: i32, height: i32, data: &Vec<u8>) -> (r: Result<
    Screen,
    ConversionError,
>)
    ensures
        r is Ok <==> frame_fits(layout, width, height, data@.len() as int) is Ok,
        r matches Err(e) ==> frame_fits(layout, width, height, data@.len() as int) == Err::<(), ConversionError>(e),
        r matches Ok(s) ==> {
            &&& s.spec_width() == width
            &&& s.spec_height() == height
            &&& forall|x: int, y: int|
                0 <= x < width && 0 <= y < height ==> #[trigger] s.pixel(x, y) == Some(
                    decode_at(layout, data@, bytes_per_pixel(layout) * (y * width + x)),
                )
        },
{
    if layout == PixelLayout::Yuv {
        return Err(ConversionError::UnsupportedLayout);
    }
    if width < 0 || height < 0 {
        return Err(ConversionError::DimensionMismatch);
    }
    let bpp: u64 = match layout {
        PixelLayout::Rgb => 3,
        _ => 4,
    };
    let w = width as u64;
    let h = height as u64;
    assert(w * h <= 0x7fff_ffff * 0x7fff_ffff) by (nonlinear_arith)
        requires
            w <= 0x7fff_ffff,
            h <= 0x7fff_ffff,
    ;
    let need: u64 = bpp * (w * h);
    if data.len() as u64 != need {
        assert(bpp * (w * h) == bytes_per_pixel(layout) * width * height) by (nonlinear_arith)
            requires
                bpp == bytes_per_pixel(layout),
                w == width,
                h == height,
        ;
        return Err(ConversionError::DimensionMismatch);
    }
    assert(bpp * (w * h) == bytes_per_pixel(layout) * width * height) by (nonlinear_arith)
        requires
            bpp == bytes_per_pixel(layout),
            w == width,
            h == height,
    ;
    let mut rows: Vec<Vec<Rgb>> = Vec::new();
    let mut offset: usize = 0;
    let mut y: u64 = 0;
    while y < h
        invariant
            y <= h,
            h == height,
            w == width,
            bpp == bytes_per_pixel(layout),
            layout != PixelLayout::Yuv,
            need == bpp * (w * h),
            need <= data@.len(),
            offset == bpp * (y * w),
            rows@.len() == y,
            forall|j: int| 0 <= j < y ==> (#[trigger] rows@[j])@.len() == w,
            forall|i: int, j: int|
                0 <= i < w && 0 <= j < y ==> #[trigger] rows@[j]@[i] == decode_at(
                    layout,
                    data@,
                    bpp * (j * w + i),
                ),
        decreases h - y,
    {
        let mut row: Vec<Rgb> = Vec::new();
        let mut x: u64 = 0;
        while x < w
            invariant
                x <= w,
                y < h,
                h == height,
                w == width,
                bpp == bytes_per_pixel(layout),
                layout != PixelLayout::Yuv,
                need == bpp * (w * h),
                need <= data@.len(),
                offset == bpp * (y * w + x),
                row@.len() == x,
                forall|i: int| 0 <= i < x ==> #[trigger] row@[i] == decode_at(layout, data@, bpp * (y * w + i)),
            decreases w - x,
        {
            assert(bpp * (y * w + x) + bpp <= bpp * (w * h)) by (nonlinear_arith)
                requires
                    x < w,
                    y < h,
                    bpp >= 0,
            ;
            assert(offset + bpp <= data@.len());
            assert(data@.len() == data.len());
            row.push(decode(layout, data, offset));
            offset = offset + bpp as usize;
            assert(offset == bpp * (y * w + (x + 1))) by (nonlinear_arith)
                requires
                    offset == bpp * (y * w + x) + bpp,
            ;
            x = x + 1;
        }
        assert(offset == bpp * ((y + 1) * w)) by (nonlinear_arith)
            requires
                offset == bpp * (y * w + w),
        ;
        rows.push(row);
        y = y + 1;
    }
    match Screen::from_rows(rows, width as u32) {
        Some(s) => Ok(s),
        None => Err(ConversionError::DimensionMismatch),
    }
}

} // verus!
