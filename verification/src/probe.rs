//! The image probe: the one place where the library touches the filesystem.
use vstd::prelude::*;

verus! {

/// Relies on `image::open` of the image crate: opens the file at `path` (a
/// UTF-8 byte path), decodes it, and reports its pixel width and height.
/// Returns `None` when the path is not valid UTF-8 or the file is missing,
/// unreadable or not a decodable raster image. What comes back depends on
/// what is on disk, so nothing is promised of the outcome.
#[verifier::external_body]
pub(crate) fn probe_image(path: &Vec<u8>) -> Option<(u32, u32)> {
    match core::str::from_utf8(path.as_slice()) {
        Ok(p) => match image::open(p) {
            Ok(img) => Some((img.width(), img.height())),
            Err(_) => None,
        },
        Err(_) => None,
    }
}

} // verus!
