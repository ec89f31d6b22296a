//! Best-effort conversion of image uploads.
//!
//! Decoding and encoding images is the work of a codec. This module holds
//! the policy around it: which uploads are offered to the codec, and that an
//! upload the codec could not convert is stored as it came.

use vstd::prelude::*;
use crate::utils::text::chars_of;

verus! {

/// The prefix that content types of images share.
pub open spec fn image_prefix() -> Seq<char> {
    seq!['i', 'm', 'a', 'g', 'e', '/']
}

/// Whether `content_type` declares an image: whether it begins with
/// `image/`.
pub open spec fn is_image_type(content_type: Seq<char>) -> bool {
    content_type.len() >= 6 && content_type.subrange(0, 6) == image_prefix()
}

/// The bytes to store for an upload, given what the codec made of it:
/// the converted bytes for an image that the codec could convert, the
/// original bytes in every other case.
pub open spec fn bytes_to_store(
    original: Seq<u8>,
    content_type: Seq<char>,
    converted: Option<Seq<u8>>,
) -> Seq<u8> {
    match converted {
        Some(bytes) => if is_image_type(content_type) {
            bytes
        } else {
            original
        },
        None => original,
    }
}

/// Whether an upload of this content type is to be offered to the codec.
pub fn is_image(content_type: &str) -> (image: bool)
    ensures
        image == is_image_type(content_type@),
{
    let chars = chars_of(content_type);
    if chars.len() < 6 {
        return false;
    }
    let matches = chars[0] == 'i' && chars[1] == 'm' && chars[2] == 'a' && chars[3] == 'g'
        && chars[4] == 'e' && chars[5] == '/';
    proof {
        let front = content_type@.subrange(0, 6);
        if matches {
            assert(front =~= image_prefix());
        } else {
            assert(front[0] == chars[0] && front[1] == chars[1] && front[2] == chars[2]
                && front[3] == chars[3] && front[4] == chars[4] && front[5] == chars[5]);
        }
    }
    matches
}

/// Chooses the bytes to store for an upload. `converted` is what the codec
/// returned for `bytes`, `None` if it failed or was not asked.
///
/// A failed conversion is no error: the upload is stored unchanged. What
/// the codec returns for an upload that is no image is ignored.
pub fn transcode(bytes: Vec<u8>, content_type: &str, converted: Option<Vec<u8>>) -> (stored: Vec<u8>)
    ensures
        stored@ == bytes_to_store(bytes@, content_type@, converted.deep_view()),
        converted is None ==> stored@ == bytes@,
        !is_image_type(content_type@) ==> stored@ == bytes@,
{
    match converted {
        Some(image) => {
            if is_image(content_type) {
                image
            } else {
                bytes
            }
        },
        None => bytes,
    }
}

} // verus!
