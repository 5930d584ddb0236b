//! The tray icon's picture: an encoded image (PNG) decoded into 8-bit RGBA
//! pixels.
use vstd::prelude::*;

verus! {

#[verifier::external_type_specification]
#[verifier::external_body]
pub struct ExDynamicImage(image::DynamicImage);

#[verifier::external_type_specification]
#[verifier::external_body]
pub struct ExImageError(image::ImageError);

/// An 8-bit RGBA pixel buffer of the `image` crate.
#[verifier::external_body]
pub struct RgbaBuffer {
    inner: image::RgbaImage,
}

/// Calls `image::load_from_memory`, which guesses the format from the first
/// bytes and decodes the image.  Nothing is claimed of the outcome: which
/// formats are recognised depends on decoding hooks that the process may
/// have registered.
#[verifier::external_body]
fn load_image(bytes: &[u8]) -> (res: Result<image::DynamicImage, image::ImageError>) {
    image::load_from_memory(bytes)
}

/// Calls `image::DynamicImage::into_rgba8`, which converts the image to
/// 8-bit RGBA.  Nothing is claimed of the pixels.
#[verifier::external_body]
fn into_rgba8(img: image::DynamicImage) -> (res: RgbaBuffer) {
    RgbaBuffer { inner: img.into_rgba8() }
}

/// The samples an RGBA buffer holds, in row order.
pub uninterp spec fn rgba_samples(b: RgbaBuffer) -> Seq<u8>;

/// The width and height an RGBA buffer was made with.
pub uninterp spec fn rgba_size(b: RgbaBuffer) -> (u32, u32);

/// Calls `image::ImageBuffer::dimensions`: the width and height the buffer
/// was made with.
#[verifier::external_body]
fn rgba_dimensions(img: &RgbaBuffer) -> (res: (u32, u32))
    ensures
        res == rgba_size(*img),
{
    img.inner.dimensions()
}

/// Calls `image::ImageBuffer::into_raw`: the buffer's samples, four bytes
/// per pixel in row order.  Every constructor of an `ImageBuffer` makes or
/// checks a container of at least four samples (channels) for each of its
/// width times height pixels, and a `Vec` container's length cannot change
/// through the buffer afterwards, so the samples are at least that many.
#[verifier::external_body]
fn rgba_into_raw(img: RgbaBuffer) -> (res: Vec<u8>)
    ensures
        res@ == rgba_samples(img),
        res.len() >= 4 * rgba_size(img).0 * rgba_size(img).1,
{
    img.inner.into_raw()
}

/// A decoded picture: its RGBA samples and its size in pixels.
pub struct IconImage {
    pub rgba: Vec<u8>,
    pub width: u32,
    pub height: u32,
}

/// Why a picture could not be decoded.
#[derive(Clone, Copy, Debug, PartialEq, Eq)]
pub enum IconError {
    /// The bytes are not an image of a format that can be decoded.
    Decode,
}

/// The picture that the image decoder returned, as RGBA samples and size:
/// every image the decoder reads is used, and only a decoder failure gives an
/// error.  The samples and the size are those of one and the same RGBA
/// buffer, with at least four samples per pixel.
pub fn icon_from_loaded(loaded: Result<image::DynamicImage, image::ImageError>) -> (res: Result<
    IconImage,
    IconError,
>)
    ensures
        res is Ok <==> loaded is Ok,
        res matches Err(e) ==> e == IconError::Decode,
        res matches Ok(icon) ==> icon.rgba.len() >= 4 * icon.width * icon.height,
        res matches Ok(icon) ==> exists|b: RgbaBuffer|
            #![trigger rgba_samples(b)]
            icon.rgba@ == rgba_samples(b) && (icon.width, icon.height) == rgba_size(b),
{
    match loaded {
        Ok(img) => {
            let rgba = into_rgba8(img);
            let ghost b = rgba;
            let (width, height) = rgba_dimensions(&rgba);
            let samples = rgba_into_raw(rgba);
            proof {
                assert(samples@ == rgba_samples(b) && (width, height) == rgba_size(b));
            }
            Ok(IconImage { rgba: samples, width, height })
        },
        Err(_) => Err(IconError::Decode),
    }
}

/// Decodes an encoded picture into its RGBA samples and size: the samples
/// and the size are those of one and the same decoded RGBA buffer, with at
/// least four samples per pixel.  It fails only where the image decoder
/// fails on the bytes (see `icon_from_loaded`).
pub fn decode_icon(bytes: &[u8]) -> (res: Result<IconImage, IconError>)
    ensures
        res matches Err(e) ==> e == IconError::Decode,
        res matches Ok(icon) ==> icon.rgba.len() >= 4 * icon.width * icon.height,
        res matches Ok(icon) ==> exists|b: RgbaBuffer|
            #![trigger rgba_samples(b)]
            icon.rgba@ == rgba_samples(b) && (icon.width, icon.height) == rgba_size(b),
{
    icon_from_loaded(load_image(bytes))
}

} // verus!
