use vstd::prelude::*;

verus! {

/// The number of bytes of one RGBA pixel.
pub const PIXEL_SIZE: usize = 4;

/// Why a buffer of RGBA bytes cannot be an icon.
#[derive(Debug, Clone, Copy, PartialEq, Eq, Structural)]
pub enum BadIcon {
    /// The byte count is not a whole number of pixels.
    ByteCountNotDivisibleBy4 { byte_count: usize },
    /// The number of pixels is not `width * height`.
    DimensionsVsPixelCount { width: u32, height: u32, width_x_height: usize, pixel_count: usize },
}

/// What checking `byte_count` bytes of RGBA against `width` by `height` gives.
pub open spec fn rgba_check(byte_count: usize, width: u32, height: u32) -> Result<(), BadIcon> {
    if byte_count % 4 != 0 {
        Err(BadIcon::ByteCountNotDivisibleBy4 { byte_count })
    } else if byte_count / 4 != width * height {
        Err(
            BadIcon::DimensionsVsPixelCount {
                width,
                height,
                width_x_height: (width * height) as usize,
                pixel_count: byte_count / 4,
            },
        )
    } else {
        Ok(())
    }
}

/// A buffer is accepted exactly when it holds four bytes for each of the
/// `width * height` pixels; a byte count that is not a whole number of
/// pixels is reported as such before the dimensions are compared.
pub proof fn lemma_rgba_check(byte_count: usize, width: u32, height: u32)
    ensures
        rgba_check(byte_count, width, height) is Ok <==> byte_count == 4 * (width * height),
        byte_count % 4 != 0 ==> rgba_check(byte_count, width, height) == Err::<(), BadIcon>(
            BadIcon::ByteCountNotDivisibleBy4 { byte_count },
        ),
        (byte_count % 4 == 0 && byte_count != 4 * (width * height)) ==> rgba_check(
            byte_count,
            width,
            height,
        ) is Err && rgba_check(byte_count, width, height)->Err_0 is DimensionsVsPixelCount,
{
}

/// Checks that `byte_count` bytes of RGBA make exactly `width` by `height`
/// pixels.
pub fn check_rgba(byte_count: usize, width: u32, height: u32) -> (r: Result<(), BadIcon>)
    requires
        width * height <= u32::MAX,
    ensures
        r == rgba_check(byte_count, width, height),
{
    if byte_count % PIXEL_SIZE != 0 {
        return Err(BadIcon::ByteCountNotDivisibleBy4 { byte_count });
    }
    let pixel_count: usize = byte_count / PIXEL_SIZE;
    let width_x_height: u32 = width * height;
    if pixel_count != width_x_height as usize {
        return Err(
            BadIcon::DimensionsVsPixelCount {
                width,
                height,
                width_x_height: width_x_height as usize,
                pixel_count,
            },
        );
    }
    Ok(())
}

} // verus!
