//! Settling the output size from what the user gave and the source image.
use vstd::prelude::*;
use crate::halftone::MAX_LENGTH;

verus! {

/// Why an output size cannot be settled.
#[derive(Copy, Clone, Debug, PartialEq, Eq, Structural)]
pub enum ConfigError {
    /// The source image has no pixels.
    EmptyImage,
    /// A negative width or height was given.
    NegativeDimension,
    /// Neither a width nor a height was given.
    MissingDimension,
    /// The settled size is zero or larger than `MAX_LENGTH` in some direction.
    UnusableDimension,
}

/// The output size before its range is checked: a missing dimension (zero)
/// follows from the other and the image's aspect ratio, rounded down.
pub open spec fn derived_size(width: int, height: int, image_width: int, image_height: int) -> (int, int) {
    if height == 0 {
        (width, width * image_height / image_width)
    } else if width == 0 {
        (height * image_width / image_height, height)
    } else {
        (width, height)
    }
}

/// The settled output size, in micrometres, or why there is none.
pub open spec fn output_size_spec(width: int, height: int, image_width: int, image_height: int) -> Result<(u64, u64), ConfigError> {
    if image_width == 0 || image_height == 0 {
        Err(ConfigError::EmptyImage)
    } else if width < 0 || height < 0 {
        Err(ConfigError::NegativeDimension)
    } else if width == 0 && height == 0 {
        Err(ConfigError::MissingDimension)
    } else {
        let (w, h) = derived_size(width, height, image_width, image_height);
        if 0 < w <= MAX_LENGTH && 0 < h <= MAX_LENGTH {
            Ok((w as u64, h as u64))
        } else {
            Err(ConfigError::UnusableDimension)
        }
    }
}

/// Settles the output size (micrometres) from the width and height given,
/// zero standing for "not given", and the source image's pixel size.
pub fn resolve_output_size(width: i64, height: i64, image_width: u32, image_height: u32) -> (r: Result<(u64, u64), ConfigError>)
    ensures
        r == output_size_spec(width as int, height as int, image_width as int, image_height as int),
{
    if image_width == 0 || image_height == 0 {
        return Err(ConfigError::EmptyImage);
    }
    if width < 0 || height < 0 {
        return Err(ConfigError::NegativeDimension);
    }
    if width == 0 && height == 0 {
        return Err(ConfigError::MissingDimension);
    }
    let w: u128 = width as u128;
    let h: u128 = height as u128;
    let iw: u128 = image_width as u128;
    let ih: u128 = image_height as u128;
    assert(w * ih < 0x1_0000_0000_0000_0000 * 0x1_0000_0000 && h * iw < 0x1_0000_0000_0000_0000 * 0x1_0000_0000)
        by (nonlinear_arith)
        requires
            w < 0x1_0000_0000_0000_0000,
            h < 0x1_0000_0000_0000_0000,
            iw < 0x1_0000_0000,
            ih < 0x1_0000_0000,
    ;
    let (dw, dh): (u128, u128) = if height == 0 {
        (w, w * ih / iw)
    } else if width == 0 {
        (h * iw / ih, h)
    } else {
        (w, h)
    };
    if 0 < dw && dw <= MAX_LENGTH as u128 && 0 < dh && dh <= MAX_LENGTH as u128 {
        Ok((dw as u64, dh as u64))
    } else {
        Err(ConfigError::UnusableDimension)
    }
}

} // verus!
