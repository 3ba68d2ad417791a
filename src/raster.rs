//! Grayscale rasters.
use vstd::prelude::*;

verus! {

/// What a grayscale raster holds: its size and its samples, row-major.
pub struct GrayView {
    pub width: int,
    pub height: int,
    pub pixels: Seq<u8>,
}

impl GrayView {
    /// The samples are exactly one per pixel.
    pub open spec fn wf(&self) -> bool {
        &&& 0 <= self.width
        &&& 0 <= self.height
        &&& self.pixels.len() == self.width * self.height
    }

    /// The sample at column `x`, row `y`.
    pub open spec fn sample(&self, x: int, y: int) -> int {
        self.pixels[y * self.width + x] as int
    }
}

/// An 8-bit single-channel raster, row-major, origin at the top left.
#[derive(Debug)]
pub struct GrayImage {
    pub width: u32,
    pub height: u32,
    pub pixels: Vec<u8>,
}

impl View for GrayImage {
    type V = GrayView;

    open spec fn view(&self) -> GrayView {
        GrayView { width: self.width as int, height: self.height as int, pixels: self.pixels@ }
    }
}

impl GrayImage {
    /// The pixel buffer holds exactly one sample per pixel.
    pub open spec fn wf(&self) -> bool {
        self@.wf()
    }
}

/// A decoded colour image: 8-bit RGBA samples, row-major.
#[derive(Debug)]
pub struct SourceImage {
    pub width: u32,
    pub height: u32,
    pub rgba: Vec<u8>,
}

impl SourceImage {
    /// Four samples per pixel, and at least one pixel.
    pub open spec fn wf(&self) -> bool {
        &&& self.width > 0
        &&& self.height > 0
        &&& self.rgba@.len() == 4 * (self.width as int) * (self.height as int)
    }
}

/// The luma of a colour: Rec. 709 weights in ten-thousandths, rounded down.
pub open spec fn luma(r: int, g: int, b: int) -> int {
    (2126 * r + 7152 * g + 722 * b) / 10000
}

/// The luma of each of the first `n` pixels of RGBA samples; alpha is ignored.
pub open spec fn luma_samples(rgba: Seq<u8>, n: int) -> Seq<u8> {
    Seq::new(
        n as nat,
        |i: int| luma(rgba[4 * i] as int, rgba[4 * i + 1] as int, rgba[4 * i + 2] as int) as u8,
    )
}

/// Relies on `image::imageops::resize` with `FilterType::Lanczos3`: it returns
/// an RGBA buffer of the new size, and a copy of the source when the size is
/// unchanged. Other samples come from floating-point filtering with the
/// platform's `sin`, so nothing more is stated of them.
/// It panics on an empty source, and when its working buffers (16 bytes per
/// pixel of source width by new height) cannot be allocated.
#[verifier::external_body]
fn resize_rgba(rgba: &Vec<u8>, width: u32, height: u32, new_width: u32, new_height: u32) -> (r: Vec<u8>)
    requires
        width > 0,
        height > 0,
        new_width > 0,
        new_height > 0,
        rgba@.len() == 4 * (width as int) * (height as int),
        16 * (width as int) * (new_height as int) <= isize::MAX,
        16 * (new_width as int) * (new_height as int) <= isize::MAX,
    ensures
        r@.len() == 4 * (new_width as int) * (new_height as int),
        new_width == width && new_height == height ==> r@ == rgba@,
{
    let src = image::RgbaImage::from_raw(width, height, rgba.clone()).unwrap();
    image::imageops::resize(&src, new_width, new_height, image::imageops::FilterType::Lanczos3).into_raw()
}

/// Relies on `image::imageops::grayscale`: one luma sample per pixel, in the
/// same order, computed in `u32` as `(2126 r + 7152 g + 722 b) / 10000`.
/// Its pixel walk panics on an image with no columns but several rows.
#[verifier::external_body]
fn grayscale_rgba(rgba: &Vec<u8>, width: u32, height: u32) -> (r: Vec<u8>)
    requires
        width > 0,
        height > 0,
        rgba@.len() == 4 * (width as int) * (height as int),
    ensures
        r@.len() == (width as int) * (height as int),
        r@ == luma_samples(rgba@, (width as int) * (height as int)),
{
    let src = image::RgbaImage::from_raw(width, height, rgba.clone()).unwrap();
    image::imageops::grayscale(&src).into_raw()
}

/// A raster of the given size holding the luma of some RGBA samples.
pub open spec fn is_gray_of_resampled(g: GrayView, width: u32, height: u32) -> bool {
    let n = (width as int) * (height as int);
    &&& g.width == width
    &&& g.height == height
    &&& exists|rgba: Seq<u8>| rgba.len() == 4 * n && g.pixels == #[trigger] luma_samples(rgba, n)
}

/// The source image resampled to `width` by `height` pixels and turned to
/// grayscale.
pub fn resample_gray(src: &SourceImage, width: u32, height: u32) -> (r: GrayImage)
    requires
        src.wf(),
        width > 0,
        height > 0,
        16 * (src.width as int) * (height as int) <= isize::MAX,
        16 * (width as int) * (height as int) <= isize::MAX,
    ensures
        r.wf(),
        is_gray_of_resampled(r@, width, height),
        width == src.width && height == src.height ==> r@.pixels == luma_samples(
            src.rgba@,
            (width as int) * (height as int),
        ),
{
    let resized = resize_rgba(&src.rgba, src.width, src.height, width, height);
    let pixels = grayscale_rgba(&resized, width, height);
    let r = GrayImage { width, height, pixels };
    assert(4 * (width as int) * (height as int) == 4 * ((width as int) * (height as int)))
        by (nonlinear_arith);
    assert(r@.pixels == luma_samples(resized@, (width as int) * (height as int)));
    r
}

} // verus!
