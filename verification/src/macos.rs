use vstd::prelude::*;

use crate::event::MouseButton;
use crate::icon::BadIcon;

verus! {

#[verifier::external_type_specification]
#[verifier::external_body]
pub struct ExPngEncodingError(png::EncodingError);

/// The bytes of the PNG file that the `png` crate writes for a `width` by
/// `height` image of 8-bit RGBA pixels with its default settings.
pub uninterp spec fn png_rgba8(rgba: Seq<u8>, width: u32, height: u32) -> Seq<u8>;

/// Encodes 8-bit RGBA pixels as a PNG file with `png::Encoder` (`new`,
/// `set_color(Rgba)`, `set_depth(Eight)`, `write_header`,
/// `write_image_data`), writing into memory.
///
/// Trusted: the `png` crate's `Writer::init` refuses exactly a zero width or
/// height (8-bit RGBA is a valid colour combination), and `write_image_data`
/// refuses exactly a buffer whose length is not `width * height * 4`; every
/// other step only writes into the in-memory buffer, which cannot fail. So
/// the encoding succeeds exactly on the other inputs, and what it writes
/// then is named by [`png_rgba8`].
#[verifier::external_body]
fn encode_png_rgba8(rgba: &[u8], width: u32, height: u32) -> (r: Result<Vec<u8>, png::EncodingError>)
    requires
        width * height * 4 <= usize::MAX,
    ensures
        r is Ok <==> (width > 0 && height > 0 && rgba@.len() == width * height * 4),
        r matches Ok(bytes) ==> bytes@ == png_rgba8(rgba@, width, height),
{
    let mut png_data = Vec::new();
    {
        let mut encoder = png::Encoder::new(std::io::Cursor::new(&mut png_data), width, height);
        encoder.set_color(png::ColorType::Rgba);
        encoder.set_depth(png::BitDepth::Eight);
        let mut writer = encoder.write_header()?;
        writer.write_image_data(rgba)?;
    }
    Ok(png_data)
}

/// Why an icon could not be turned into an image file.
#[derive(Debug)]
pub enum EncodeError {
    /// The PNG encoder refused the pixels, with its own error.
    Png(png::EncodingError),
}

/// An RGBA icon for the macOS status bar.
pub struct PlatformIcon {
    rgba: Vec<u8>,
    width: u32,
    height: u32,
}

/// What a macOS icon is: its bytes and its dimensions.
pub struct MacIconModel {
    pub rgba: Seq<u8>,
    pub width: u32,
    pub height: u32,
}

impl View for PlatformIcon {
    type V = MacIconModel;

    closed spec fn view(&self) -> MacIconModel {
        MacIconModel { rgba: self.rgba@, width: self.width, height: self.height }
    }
}

impl Clone for PlatformIcon {
    fn clone(&self) -> (r: Self)
        ensures
            r@ == self@,
    {
        PlatformIcon { rgba: self.rgba.clone(), width: self.width, height: self.height }
    }
}

impl PlatformIcon {
    /// Keeps the buffer and the dimensions; they are checked when the icon
    /// is encoded.
    pub fn from_rgba(rgba: Vec<u8>, width: u32, height: u32) -> (r: Result<Self, BadIcon>)
        ensures
            r matches Ok(icon) && icon@ == (MacIconModel { rgba: rgba@, width, height }),
    {
        Ok(PlatformIcon { rgba, width, height })
    }

    /// The icon's width and height in pixels.
    pub fn get_size(&self) -> (r: (u32, u32))
        ensures
            r == (self@.width, self@.height),
    {
        (self.width, self.height)
    }

    /// The icon as a PNG file.
    pub fn to_png(&self) -> (r: Result<Vec<u8>, EncodeError>)
        requires
            self@.width * self@.height * 4 <= usize::MAX,
        ensures
            r is Ok <==> (self@.width > 0 && self@.height > 0 && self@.rgba.len() == self@.width
                * self@.height * 4),
            r matches Ok(bytes) ==> bytes@ == png_rgba8(self@.rgba, self@.width, self@.height),
    {
        match encode_png_rgba8(self.rgba.as_slice(), self.width, self.height) {
            Ok(bytes) => Ok(bytes),
            Err(e) => Err(EncodeError::Png(e)),
        }
    }
}

/// The button of an "other mouse" event: button number 2 is the middle
/// button; the status bar ignores the rest.
pub fn other_mouse_button(button_number: isize) -> (r: Option<MouseButton>)
    ensures
        r == (if button_number == 2 {
            Some(MouseButton::Middle)
        } else {
            None
        }),
{
    if button_number == 2 {
        Some(MouseButton::Middle)
    } else {
        None
    }
}

/// Whether pressing `button` on the status item highlights it: the left
/// and right buttons do.
pub fn highlights(button: MouseButton) -> (r: bool)
    ensures
        r == (button == MouseButton::Left || button == MouseButton::Right),
{
    match button {
        MouseButton::Left => true,
        MouseButton::Right => true,
        MouseButton::Middle => false,
    }
}

} // verus!
