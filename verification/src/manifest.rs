//! The image manifest of one chapter: base URL, content hash and ordered
//! page filenames, with the validation the reader applies to it and the URL
//! arithmetic for one page.

use vstd::prelude::*;
use vstd::string::StrSliceExecFns;
use vstd::string::StringExecFns;
use crate::error::YomuError;

verus! {

/// Ceiling on the bytes accepted for a single page download, enforced both
/// from a declared content length and from the bytes actually received.
pub const MAX_IMAGE_BYTES: u64 = 50 * 1024 * 1024;

/// Image filenames and content hash for a chapter.
#[derive(Clone, Debug)]
pub struct ImageAttributes {
    /// The content hash used in the image URL path.
    pub hash: String,
    /// Filenames for high-quality images, in page order.
    pub data: Vec<String>,
    /// Filenames for compressed (data saver) images, in page order.
    pub data_saver: Vec<String>,
}

/// The manifest for a chapter's images, replaced wholesale when a new
/// chapter is opened.
#[derive(Clone, Debug)]
pub struct ImageDataResponse {
    /// Result of the request (e.g., "ok").
    pub result: String,
    /// The base URL for fetching the images.
    pub base_url: String,
    /// Image data and hash for the chapter.
    pub chapter: ImageAttributes,
}

/// True when `s` begins with the secure-transport scheme `https://`.
pub open spec fn is_secure_url(s: Seq<char>) -> bool {
    s.len() >= 8 && s.subrange(0, 8) == "https://"@
}

/// Decides [`is_secure_url`] for a base URL handed back by the remote API.
pub fn starts_with_https(url: &String) -> (r: bool)
    ensures
        r == is_secure_url(url@),
{
    proof {
        reveal_strlit("https://");
    }
    let lit = "https://";
    let s = url.as_str();
    let n = s.unicode_len();
    if n < 8 {
        return false;
    }
    let mut i: usize = 0;
    while i < 8
        invariant
            0 <= i <= 8,
            s@ == url@,
            url@.len() >= 8,
            lit@ == "https://"@,
            lit@.len() == 8,
            forall|j: int| 0 <= j < i ==> url@[j] == lit@[j],
        decreases 8 - i,
    {
        if s.get_char(i) != lit.get_char(i) {
            proof {
                assert(url@.subrange(0, 8)[i as int] == url@[i as int]);
            }
            return false;
        }
        i = i + 1;
    }
    proof {
        assert(url@.subrange(0, 8) =~= "https://"@);
    }
    true
}

/// Accepts a manifest only when its base URL uses secure transport; an
/// insecure URL is a hard validation error, never silently accepted.
pub fn validate_manifest(m: &ImageDataResponse) -> (r: Result<(), YomuError>)
    ensures
        r is Ok <==> is_secure_url(m.base_url@),
        r matches Err(e) ==> e == YomuError::Validation,
{
    if starts_with_https(&m.base_url) {
        Ok(())
    } else {
        Err(YomuError::Validation)
    }
}

/// The URL of one page: `baseUrl/data/contentHash/filenames[index]`.
pub open spec fn spec_page_url(m: ImageDataResponse, idx: int) -> Seq<char> {
    m.base_url@ + "/data/"@ + m.chapter.hash@ + "/"@ + m.chapter.data@[idx]@
}

/// Builds the download URL for the page at `idx`.
pub fn build_url(m: &ImageDataResponse, idx: usize) -> (r: String)
    requires
        idx < m.chapter.data@.len(),
    ensures
        r@ == spec_page_url(*m, idx as int),
{
    let mut url = m.base_url.clone();
    url.append("/data/");
    url.append(m.chapter.hash.as_str());
    url.append("/");
    url.append(m.chapter.data[idx].as_str());
    url
}

/// Rejects a download before it starts when the server declares a content
/// length beyond [`MAX_IMAGE_BYTES`]; an unknown length passes this check
/// and is caught by [`validate_body_length`] instead.
pub fn validate_declared_length(content_length: Option<u64>) -> (r: Result<(), YomuError>)
    ensures
        r is Ok <==> match content_length {
            Some(l) => l <= MAX_IMAGE_BYTES,
            None => true,
        },
        r matches Err(e) ==> e == YomuError::Validation,
{
    match content_length {
        Some(l) => {
            if l > MAX_IMAGE_BYTES {
                Err(YomuError::Validation)
            } else {
                Ok(())
            }
        },
        None => Ok(()),
    }
}

/// Rejects a download whose received bytes exceed [`MAX_IMAGE_BYTES`],
/// bounding memory against a misbehaving or malicious server.
pub fn validate_body_length(len: usize) -> (r: Result<(), YomuError>)
    ensures
        r is Ok <==> len <= MAX_IMAGE_BYTES,
        r matches Err(e) ==> e == YomuError::Validation,
{
    if len as u64 > MAX_IMAGE_BYTES {
        Err(YomuError::Validation)
    } else {
        Ok(())
    }
}

} // verus!
