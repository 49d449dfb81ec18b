//! Images of 8-bit RGBA pixels: decoding them from an encoded file and
//! cutting rectangles out of them.

use vstd::prelude::*;

verus! {

/// An image of 8-bit RGBA pixels, stored row by row from the top left,
/// four bytes (red, green, blue, alpha) per pixel.
pub struct RgbaPixels {
    pub width: u32,
    pub height: u32,
    pub data: Vec<u8>,
}

impl RgbaPixels {
    /// The buffer holds exactly one pixel per position of the image.
    pub open spec fn wf(&self) -> bool {
        self.data@.len() == 4 * (self.width as int) * (self.height as int)
    }

    /// An image of the given size over the given pixel bytes, or `None`
    /// where the bytes are not exactly four per pixel.
    pub fn new(width: u32, height: u32, data: Vec<u8>) -> (r: Option<Self>)
        ensures
            r is Some <==> data@.len() == 4 * (width as int) * (height as int),
            r matches Some(img) ==> img.width == width && img.height == height
                && img.data@ == data@,
    {
        let w: u64 = width as u64;
        let h: u64 = height as u64;
        assert(w * h <= 0xffff_ffff * 0xffff_ffff) by (nonlinear_arith)
            requires
                w <= 0xffff_ffff,
                h <= 0xffff_ffff,
        ;
        let n: u64 = w * h;
        let len: u64 = data.len() as u64;
        assert(4 * (width as int) * (height as int) == 4 * (n as int)) by (nonlinear_arith)
            requires
                n == w * h,
                w == width,
                h == height,
        ;
        if n > u64::MAX / 4 {
            return None;
        }
        if len == 4 * n {
            Some(RgbaPixels { width, height, data })
        } else {
            None
        }
    }
}

/// What `image` makes of an encoded image file: its width, its height and
/// its pixels as 8-bit RGBA bytes, or nothing where it cannot decode it.
pub uninterp spec fn decoded_rgba(encoded: Seq<u8>) -> Option<(u32, u32, Seq<u8>)>;

/// Decodes an image file of any format that the `image` crate recognises
/// and converts it to 8-bit RGBA.
///
/// Trusted: calls `image::load_from_memory` and `DynamicImage::to_rgba8`,
/// whose result depends on the bytes alone; it is named, not stated. The
/// crate's source decodes into a buffer of exactly the image's size and
/// `to_rgba8` copies or converts it pixel for pixel, so the bytes are four
/// per pixel.
#[verifier::external_body]
pub(crate) fn decode_rgba(encoded: &[u8]) -> (r: Option<(u32, u32, Vec<u8>)>)
    ensures
        match r {
            Some((w, h, data)) => {
                &&& decoded_rgba(encoded@) == Some((w, h, data@))
                &&& data@.len() == 4 * (w as int) * (h as int)
            },
            None => decoded_rgba(encoded@) is None,
        },
{
    match image::load_from_memory(encoded) {
        Ok(img) => {
            let rgba = img.to_rgba8();
            let (w, h) = rgba.dimensions();
            Some((w, h, rgba.into_raw()))
        },
        Err(_) => None,
    }
}

/// The rectangle that `image::imageops::crop_imm` keeps of a request for
/// `w` by `h` pixels at (`x`, `y`) on an image of `iw` by `ih` pixels: the
/// corner is moved into the image and the size cut to what remains of it.
pub open spec fn crop_rect(iw: u32, ih: u32, x: u32, y: u32, w: u32, h: u32) -> (u32, u32, u32, u32) {
    let cx: u32 = if x < iw { x } else { iw };
    let cy: u32 = if y < ih { y } else { ih };
    let cw: u32 = if w < iw - cx { w } else { (iw - cx) as u32 };
    let ch: u32 = if h < ih - cy { h } else { (ih - cy) as u32 };
    (cx, cy, cw, ch)
}

/// The pixel bytes of the part of an image `iw` pixels wide with pixel
/// bytes `data` that starts at column `cx`, row `cy` and is `cw` pixels wide
/// and `ch` high.
pub open spec fn region_bytes(iw: u32, data: Seq<u8>, cx: u32, cy: u32, cw: u32, ch: u32) -> Seq<u8> {
    Seq::new(
        (4 * (cw as int) * (ch as int)) as nat,
        |k: int|
            data[4 * ((cy + (k / 4) / (cw as int)) * iw + cx + (k / 4) % (cw as int)) + k % 4],
    )
}

/// Whether `r` is what cropping the image of `iw` by `ih` pixels with
/// pixel bytes `data` to `w` by `h` pixels at (`x`, `y`) gives.
pub open spec fn is_crop(
    r: RgbaPixels,
    iw: u32,
    ih: u32,
    data: Seq<u8>,
    x: u32,
    y: u32,
    w: u32,
    h: u32,
) -> bool {
    let (cx, cy, cw, ch) = crop_rect(iw, ih, x, y, w, h);
    &&& r.width == cw
    &&& r.height == ch
    &&& r.data@ == region_bytes(iw, data, cx, cy, cw, ch)
}

/// A rectangle that lies inside the image is kept as it is.
pub proof fn lemma_crop_inside(iw: u32, ih: u32, x: u32, y: u32, w: u32, h: u32)
    requires
        x + w <= iw,
        y + h <= ih,
    ensures
        crop_rect(iw, ih, x, y, w, h) == (x, y, w, h),
{
}

/// The cropped image holds exactly one pixel per position of its size.
pub proof fn lemma_crop_wf(r: RgbaPixels, iw: u32, ih: u32, data: Seq<u8>, x: u32, y: u32, w: u32, h: u32)
    requires
        is_crop(r, iw, ih, data, x, y, w, h),
    ensures
        r.wf(),
{
    assert(4 * (r.width as int) * (r.height as int) >= 0) by (nonlinear_arith);
}

/// Copies the part of `img` that `image::imageops::crop_imm` keeps of the
/// rectangle `w` by `h` at (`x`, `y`).
///
/// Trusted: calls `ImageBuffer::from_raw`, `crop_imm` and
/// `SubImage::to_image`; the crate's source clamps the rectangle as
/// `crop_rect` says and copies pixel (i, j) of the result from pixel
/// (cx + i, cy + j) of the image.
#[verifier::external_body]
pub(crate) fn crop(img: &RgbaPixels, x: u32, y: u32, w: u32, h: u32) -> (r: RgbaPixels)
    requires
        img.wf(),
    ensures
        is_crop(r, img.width, img.height, img.data@, x, y, w, h),
{
    let buffer = image::RgbaImage::from_raw(img.width, img.height, img.data.clone())
        .expect("four bytes per pixel");
    let part = image::imageops::crop_imm(&buffer, x, y, w, h).to_image();
    let (width, height) = part.dimensions();
    RgbaPixels { width, height, data: part.into_raw() }
}

/// Decodes an image file into RGBA pixels, or `None` where `image` cannot
/// decode it.
pub fn decode(encoded: &[u8]) -> (r: Option<RgbaPixels>)
    ensures
        r is Some <==> decoded_rgba(encoded@) is Some,
        r matches Some(img) ==> img.wf() && decoded_rgba(encoded@) == Some(
            (img.width, img.height, img.data@),
        ),
{
    match decode_rgba(encoded) {
        Some((w, h, data)) => RgbaPixels::new(w, h, data),
        None => None,
    }
}

} // verus!
