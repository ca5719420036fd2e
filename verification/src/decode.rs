//! Decoding of image files.

use crate::pixels::Image;
use vstd::prelude::*;

verus! {

/// What `image::load_from_memory` and `DynamicImage::to_rgba8` make of a file's
/// bytes: the width, the height and the pixels, or nothing where the bytes are
/// no image that can be read.
pub uninterp spec fn decoded_image(bytes: Seq<u8>) -> Option<(int, int, Seq<u8>)>;

/// Whether `image` is what decoding some bytes gave.
pub open spec fn is_decoded(bytes: Seq<u8>, image: Option<Image>) -> bool {
    match image {
        Some(i) => decoded_image(bytes) == Some((i.width as int, i.height as int, i.rgba@)),
        None => decoded_image(bytes) is None,
    }
}

/// Calls `image::load_from_memory` on `bytes`, then `DynamicImage::to_rgba8`.
/// The outcome depends on the bytes alone, and an image that comes out holds
/// four bytes for each of its pixels.
#[verifier::external_body]
fn load_rgba8(bytes: &Vec<u8>) -> (image: Option<Image>)
    ensures
        match image {
            Some(i) => decoded_image(bytes@) == Some((i.width as int, i.height as int, i.rgba@)),
            None => decoded_image(bytes@) is None,
        },
        image matches Some(i) ==> i.wf(),
{
    let rgba = image::load_from_memory(bytes.as_slice()).ok()?.to_rgba8();
    Some(Image { width: rgba.width(), height: rgba.height(), rgba: rgba.into_raw() })
}

/// Decodes an image file.
pub fn decode_image(bytes: &Vec<u8>) -> (image: Option<Image>)
    ensures
        is_decoded(bytes@, image),
        image matches Some(i) ==> i.wf(),
{
    load_rgba8(bytes)
}

} // verus!
