//! Raw file content delivery.
//!
//! A blob under a recognized image extension is delivered as a
//! base64-encoded data url; any other blob is delivered as lossily
//! decoded text; a path that is no blob yields an explicit empty
//! result.  An encoding tag names which of the three happened.

use vstd::prelude::*;

use crate::strutil::{lossy_of, str_eq, string_of, chars_of, utf8_lossy};

verus! {

/// A file-content request: a path and the revision to read it at.
pub struct GetFileContentParams {
    pub path: String,
    pub rev: String,
}

/// Delivered file content with its encoding tag.
pub struct GetFileContentResult {
    pub content: String,
    pub encoding: String,
}

/// The recognized image formats.
pub enum ImageType {
    PNG,
    JPEG,
    GIF,
    WEBP,
    BMP,
    ICO,
}

/// The image format for a file extension, where one is recognized.
pub open spec fn spec_image_type(ext: Seq<char>) -> Option<ImageType> {
    if ext == "png"@ {
        Some(ImageType::PNG)
    } else if ext == "jpg"@ {
        Some(ImageType::JPEG)
    } else if ext == "jpeg"@ {
        Some(ImageType::JPEG)
    } else if ext == "gif"@ {
        Some(ImageType::GIF)
    } else if ext == "webp"@ {
        Some(ImageType::WEBP)
    } else if ext == "bmp"@ {
        Some(ImageType::BMP)
    } else if ext == "ico"@ {
        Some(ImageType::ICO)
    } else {
        None
    }
}

/// The image format for a file extension.
pub fn get_image_type(extension: &str) -> (r: Option<ImageType>)
    ensures
        r == spec_image_type(extension@),
{
    if str_eq(extension, "png") {
        Some(ImageType::PNG)
    } else if str_eq(extension, "jpg") {
        Some(ImageType::JPEG)
    } else if str_eq(extension, "jpeg") {
        Some(ImageType::JPEG)
    } else if str_eq(extension, "gif") {
        Some(ImageType::GIF)
    } else if str_eq(extension, "webp") {
        Some(ImageType::WEBP)
    } else if str_eq(extension, "bmp") {
        Some(ImageType::BMP)
    } else if str_eq(extension, "ico") {
        Some(ImageType::ICO)
    } else {
        None
    }
}

/// The mime type of an image format.
pub open spec fn spec_mime(t: ImageType) -> Seq<char> {
    match t {
        ImageType::PNG => "image/png"@,
        ImageType::JPEG => "image/jpeg"@,
        ImageType::GIF => "image/gif"@,
        ImageType::WEBP => "image/webp"@,
        ImageType::BMP => "image/bmp"@,
        ImageType::ICO => "image/x-icon"@,
    }
}

/// The mime type of an image format.
pub fn get_image_mime_type(t: &ImageType) -> (r: &'static str)
    ensures
        r@ == spec_mime(*t),
{
    match t {
        ImageType::PNG => "image/png",
        ImageType::JPEG => "image/jpeg",
        ImageType::GIF => "image/gif",
        ImageType::WEBP => "image/webp",
        ImageType::BMP => "image/bmp",
        ImageType::ICO => "image/x-icon",
    }
}

/// The position of the last occurrence of `c` in `s`.
pub open spec fn spec_last_index_of(s: Seq<char>, c: char) -> Option<int>
    decreases s.len(),
{
    if s.len() == 0 {
        None
    } else if s.last() == c {
        Some(s.len() - 1)
    } else {
        spec_last_index_of(s.drop_last(), c)
    }
}

/// The extension of the file a path names: the characters after the
/// last dot of the final path segment, absent where that segment holds
/// no dot or starts with its only dot.
pub open spec fn spec_extension(s: Seq<char>) -> Option<Seq<char>> {
    let start = match spec_last_index_of(s, '/') {
        Some(k) => k + 1,
        None => 0,
    };
    match spec_last_index_of(s, '.') {
        Some(d) => if d > start {
            Some(s.skip(d + 1))
        } else {
            None
        },
        None => None,
    }
}

pub(crate) fn last_index_of(v: &Vec<char>, c: char) -> (r: Option<usize>)
    ensures
        match r {
            Some(i) => spec_last_index_of(v@, c) == Some(i as int) && i < v@.len(),
            None => spec_last_index_of(v@, c) is None,
        },
{
    let mut i: usize = v.len();
    proof {
        assert(v@.take(v@.len() as int) =~= v@);
    }
    while i > 0
        invariant
            i <= v@.len(),
            spec_last_index_of(v@, c) == spec_last_index_of(v@.take(i as int), c),
        decreases i,
    {
        proof {
            assert(v@.take(i as int).drop_last() =~= v@.take(i - 1 as int));
            assert(v@.take(i as int).last() == v@[i - 1]);
        }
        if v[i - 1] == c {
            return Some(i - 1);
        }
        i = i - 1;
    }
    proof {
        assert(v@.take(0) =~= Seq::<char>::empty());
    }
    None
}

/// The extension of the file a path names, where it has one.
pub fn path_extension(path: &str) -> (r: Option<String>)
    ensures
        match r {
            Some(e) => spec_extension(path@) matches Some(x) && e@ == x,
            None => spec_extension(path@) is None,
        },
{
    let chars = chars_of(path);
    let n = chars.len();
    let start: usize = match last_index_of(&chars, '/') {
        Some(k) => {
            assert(k < n);
            k + 1
        },
        None => 0,
    };
    match last_index_of(&chars, '.') {
        Some(d) => {
            assert(d < n);
            if d > start {
                let mut ext: Vec<char> = Vec::new();
                let mut i: usize = d + 1;
                while i < chars.len()
                    invariant
                        d + 1 <= i <= chars@.len(),
                        ext@ == chars@.subrange(d + 1 as int, i as int),
                    decreases chars@.len() - i,
                {
                    ext.push(chars[i]);
                    assert(chars@.subrange(d + 1 as int, i as int).push(chars@[i as int]) =~= chars@
                        .subrange(d + 1 as int, i + 1 as int));
                    i = i + 1;
                }
                proof {
                    assert(chars@.subrange(d + 1 as int, chars@.len() as int) =~= chars@.skip(
                        d + 1 as int,
                    ));
                }
                Some(string_of(&ext))
            } else {
                None
            }
        },
        None => None,
    }
}

/// The image format a path's extension names, where it names one.
pub fn get_image_type_from_path(path: &str) -> (r: Option<ImageType>)
    ensures
        r == spec_image_of_path(path@),
{
    match path_extension(path) {
        Some(ext) => get_image_type(ext.as_str()),
        None => None,
    }
}

/// The image format a path's extension names, where it names one.
pub open spec fn spec_image_of_path(s: Seq<char>) -> Option<ImageType> {
    match spec_extension(s) {
        Some(e) => spec_image_type(e),
        None => None,
    }
}

/// What base64's standard engine encodes a byte sequence to.  The
/// encoding is a function of the bytes alone.
pub uninterp spec fn base64_of(bytes: Seq<u8>) -> Seq<char>;

/// Relies on base64's standard engine: four output characters for
/// every started group of three input bytes, padded; the encoding
/// depends on the bytes alone.
#[verifier::external_body]
fn base64_encode(bytes: &Vec<u8>) -> (r: String)
    ensures
        r@ == base64_of(bytes@),
        r@.len() == 4 * ((bytes@.len() + 2) / 3),
{
    base64::Engine::encode(&base64::engine::general_purpose::STANDARD, bytes.as_slice())
}

/// Encodes delivered blob bytes: an image becomes a base64 data url,
/// anything else lossily decoded text, with the matching encoding tag.
pub fn encode_content(bytes: &Vec<u8>, path: &str) -> (res: GetFileContentResult)
    ensures
        match spec_image_of_path(path@) {
            Some(t) => res.encoding@ == "base64-url"@ && res.content@ == "data:"@ + spec_mime(t)
                + ";base64,"@ + base64_of(bytes@),
            None => res.encoding@ == "utf-8"@ && res.content@ == lossy_of(bytes@),
        },
{
    match get_image_type_from_path(path) {
        Some(t) => {
            let mime = get_image_mime_type(&t);
            let b64 = base64_encode(bytes);
            let url = String::from_str("data:");
            let url = url.concat(mime);
            let url = url.concat(";base64,");
            let url = url.concat(b64.as_str());
            GetFileContentResult { content: url, encoding: String::from_str("base64-url") }
        },
        None => {
            GetFileContentResult {
                content: utf8_lossy(bytes),
                encoding: String::from_str("utf-8"),
            }
        },
    }
}

} // verus!
