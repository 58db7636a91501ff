//! Decoding of the static texture assets.
use vstd::prelude::*;

verus! {

#[verifier::external_type_specification]
#[verifier::external_body]
pub struct ExImageError(image::ImageError);

/// Width, height and 8-bit RGBA pixels (row by row from the top) of the
/// image that the file bytes `bytes` encode, where they encode one in a
/// format that the decoder reads.
pub uninterp spec fn rgba8_of(bytes: Seq<u8>) -> Option<(u32, u32, Seq<u8>)>;

/// Relies on image::load_from_memory, which guesses the format from the
/// bytes and decodes them, and on DynamicImage::to_rgba8, whose buffer holds
/// at least 4 bytes per pixel (`ImageBuffer` holds no fewer than
/// `width * height * channels` subpixels).
#[verifier::external_body]
fn decode_rgba8(bytes: &[u8]) -> (r: Result<(u32, u32, Vec<u8>), image::ImageError>)
    ensures
        r is Ok <==> rgba8_of(bytes@) is Some,
        r matches Ok((w, h, px)) ==> rgba8_of(bytes@) == Some((w, h, px@)) && px.len() >= 4 * w
            * h,
{
    let rgba = image::load_from_memory(bytes)?.to_rgba8();
    let (w, h) = rgba.dimensions();
    Ok((w, h, rgba.into_raw()))
}

/// An image decoded to 8-bit RGBA, row by row from the top.
pub struct DecodedImage {
    pub width: u32,
    pub height: u32,
    pub pixels: Vec<u8>,
}

/// Why a static texture asset could not be had.
pub enum AssetError {
    /// The file could not be read; the text says which and why.
    NotFound(String),
    /// The bytes are no image in a format the decoder reads; the text is the
    /// decoder's message.
    Decode(String),
}

/// Decodes an image file's bytes to 8-bit RGBA.
pub fn decode_image(bytes: &[u8]) -> (r: Result<DecodedImage, AssetError>)
    ensures
        r is Ok <==> rgba8_of(bytes@) is Some,
        r matches Ok(img) ==> rgba8_of(bytes@) == Some((img.width, img.height, img.pixels@))
            && img.pixels.len() >= 4 * img.width * img.height,
        r matches Err(e) ==> e is Decode,
{
    match decode_rgba8(bytes) {
        Ok((width, height, pixels)) => Ok(DecodedImage { width, height, pixels }),
        Err(e) => Err(AssetError::Decode(e.to_string())),
    }
}

/// File name of face `i` of a cube map, in the order of the cube map's
/// targets: +X, -X, +Y, -Y, +Z, -Z.
pub open spec fn cubemap_face(i: int) -> Seq<char> {
    if i == 0 {
        "right.png"@
    } else if i == 1 {
        "left.png"@
    } else if i == 2 {
        "top.png"@
    } else if i == 3 {
        "bottom.png"@
    } else if i == 4 {
        "front.png"@
    } else {
        "back.png"@
    }
}

/// Number of faces of a cube map.
pub const CUBEMAP_FACES: usize = 6;

/// File name of face `i` of a cube map; face `i` goes to the `i`-th cube
/// map target from +X.
pub fn cubemap_face_file(i: usize) -> (r: &'static str)
    requires
        i < CUBEMAP_FACES,
    ensures
        r@ == cubemap_face(i as int),
{
    if i == 0 {
        "right.png"
    } else if i == 1 {
        "left.png"
    } else if i == 2 {
        "top.png"
    } else if i == 3 {
        "bottom.png"
    } else if i == 4 {
        "front.png"
    } else {
        "back.png"
    }
}

} // verus!
