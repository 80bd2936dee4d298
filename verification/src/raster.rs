use vstd::prelude::*;

use crate::model::{swap_red_blue, swapped_channels, PagePreview};

verus! {

/// A decoded page raster in RGBA order, held as the image crate's buffer,
/// which the window takes out of `image` to draw. Verus refuses to declare the
/// image crate's buffer type (its `Pixel` bound), so the raster is opaque to
/// verified code; what it holds is named by `raster_bytes`.
#[verifier::external_body]
pub struct RgbaRaster {
    pub image: image::RgbaImage,
}

/// Whether a `width` by `height` image of four-byte pixels fits in `len`
/// bytes.
pub open spec fn rgba_fits(width: u32, height: u32, len: int) -> bool {
    width as int * height as int * 4 <= len
}

/// The bytes that a raster's image buffer holds, in the order `from_raw` was
/// handed them.
pub uninterp spec fn raster_bytes(raster: RgbaRaster) -> Seq<u8>;

/// image's `ImageBuffer::from_raw` for RGBA pixels. As its source shows, it
/// gives an image exactly when the buffer holds four bytes for each of the
/// `width * height` pixels (a byte count beyond `usize` being more than any
/// buffer holds); the image then holds the buffer as it was handed over.
#[verifier::external_body]
fn rgba_raster(width: u32, height: u32, pixels: Vec<u8>) -> (raster: Option<RgbaRaster>)
    ensures
        raster is Some <==> rgba_fits(width, height, pixels@.len() as int),
        raster matches Some(r) ==> raster_bytes(r) == pixels@,
{
    match image::RgbaImage::from_raw(width, height, pixels) {
        Some(image) => Some(RgbaRaster { image }),
        None => None,
    }
}

/// The RGBA raster of a page the worker delivered in BGRA order: the blue
/// and red byte of each pixel are swapped, and the bytes become an image when
/// they cover the stated size.
pub fn page_raster(preview: PagePreview) -> (raster: Option<RgbaRaster>)
    ensures
        raster is Some <==> rgba_fits(preview.width, preview.height, preview.rgba@.len() as int),
        raster matches Some(r) ==> raster_bytes(r) == swapped_channels(preview.rgba@),
{
    let PagePreview { width, height, rgba } = preview;
    let mut pixels = rgba;
    swap_red_blue(&mut pixels);
    rgba_raster(width, height, pixels)
}

} // verus!
