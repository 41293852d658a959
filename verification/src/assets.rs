//! Static assets: the path under which a request names an asset, and the
//! response for an asset that was or was not found.

use vstd::prelude::*;
use vstd::string::*;
use crate::text::chars_of;

verus! {

/// The status of a response that carries an asset.
pub const STATUS_FOUND: u16 = 200;

/// The status of a response for an asset that does not exist.
pub const STATUS_NOT_FOUND: u16 = 404;

/// The media type that `mime_guess` gives for a path: the first one that
/// its table lists for the extension of the path, or
/// `application/octet-stream` where the path has no extension or the table
/// does not know it.
pub uninterp spec fn guessed_mime(path: Seq<char>) -> Seq<char>;

/// Calls `mime_guess::from_path` and takes the first guess, or
/// `application/octet-stream` if there is none, as text. The guess is
/// looked up in a table by the extension of the path; no file is read. The
/// contract gives the result the name `guessed_mime`.
#[verifier::external_body]
fn guess_mime(path: &str) -> (mime: String)
    ensures
        mime@ == guessed_mime(path@),
{
    let mime = mime_guess::from_path(path).first_or_octet_stream();
    let text: &str = mime.as_ref();
    text.to_string()
}

/// The path of an asset, as a request names it.
pub struct StaticFile<T>(pub T);

/// The response to a request for an asset.
#[derive(Clone, Debug, PartialEq, Eq)]
pub struct AssetResponse {
    pub status: u16,
    pub content_type: Option<String>,
    pub body: Vec<u8>,
}

/// The mathematical content of a response to a request for an asset.
pub struct AssetResponseView {
    pub status: int,
    pub content_type: Option<Seq<char>>,
    pub body: Seq<u8>,
}

impl View for AssetResponse {
    type V = AssetResponseView;

    open spec fn view(&self) -> AssetResponseView {
        AssetResponseView {
            status: self.status as int,
            content_type: match self.content_type {
                Some(mime) => Some(mime@),
                None => None,
            },
            body: self.body@,
        }
    }
}

/// The body of the response for an asset that does not exist: the text
/// `404` in ASCII.
pub open spec fn not_found_body() -> Seq<u8> {
    seq![0x34u8, 0x30u8, 0x34u8]
}

/// The response for an asset: its content under the given media type if it
/// was found, else the status 404 with the body `404` and no media type.
pub open spec fn asset_response_of(content: Option<Seq<u8>>, mime: Seq<char>) -> AssetResponseView {
    match content {
        Some(data) => AssetResponseView {
            status: STATUS_FOUND as int,
            content_type: Some(mime),
            body: data,
        },
        None => AssetResponseView {
            status: STATUS_NOT_FOUND as int,
            content_type: None,
            body: not_found_body(),
        },
    }
}

/// The content of an asset that was looked up.
pub open spec fn content_view(content: Option<Vec<u8>>) -> Option<Seq<u8>> {
    match content {
        Some(data) => Some(data@),
        None => None,
    }
}

fn not_found() -> (response: AssetResponse)
    ensures
        response@ == asset_response_of(None, Seq::empty()),
{
    let mut body: Vec<u8> = Vec::new();
    body.push(0x34u8);
    body.push(0x30u8);
    body.push(0x34u8);
    assert(body@ =~= not_found_body());
    AssetResponse { status: STATUS_NOT_FOUND, content_type: None, body }
}

/// Builds the response for an asset that was looked up, under a media type
/// that was guessed for its path.
pub fn asset_response(content: Option<Vec<u8>>, mime: String) -> (response: AssetResponse)
    ensures
        response@ == asset_response_of(content_view(content), mime@),
{
    match content {
        Some(data) => AssetResponse { status: STATUS_FOUND, content_type: Some(mime), body: data },
        None => not_found(),
    }
}

impl StaticFile<String> {
    /// Builds the response for this path, given the content of the asset
    /// that the path names, if there is one. An asset that was found goes
    /// out under the media type that is guessed from the path.
    pub fn into_response(self, content: Option<Vec<u8>>) -> (response: AssetResponse)
        ensures
            response@ == asset_response_of(content_view(content), guessed_mime(self.0@)),
    {
        match content {
            Some(data) => {
                let mime = guess_mime(self.0.as_str());
                asset_response(Some(data), mime)
            },
            None => not_found(),
        }
    }
}

/// A path without the slashes that it begins with.
pub open spec fn without_leading_slashes(path: Seq<char>) -> Seq<char>
    decreases path.len(),
{
    if path.len() > 0 && path[0] == '/' {
        without_leading_slashes(path.drop_first())
    } else {
        path
    }
}

proof fn lemma_skip_slashes(path: Seq<char>, count: int)
    requires
        0 <= count <= path.len(),
        forall|j: int| 0 <= j < count ==> path[j] == '/',
        count == path.len() || path[count] != '/',
    ensures
        without_leading_slashes(path) == path.skip(count),
    decreases count,
{
    if count == 0 {
        assert(path.skip(0) =~= path);
    } else {
        let rest = path.drop_first();
        lemma_skip_slashes(rest, count - 1);
        assert(rest.skip(count - 1) =~= path.skip(count));
    }
}

/// The path of the asset that a request path names: the request path
/// without its leading slashes.
pub fn asset_path(request_path: &str) -> (path: String)
    ensures
        path@ == without_leading_slashes(request_path@),
{
    let chars = chars_of(request_path);
    let mut count: usize = 0;
    while count < chars.len() && chars[count] == '/'
        invariant
            count <= chars.len(),
            forall|j: int| 0 <= j < count ==> chars@[j] == '/',
        decreases chars.len() - count,
    {
        count += 1;
    }
    proof {
        lemma_skip_slashes(request_path@, count as int);
    }
    let rest = request_path.substring_char(count, chars.len());
    String::from_str(rest)
}

} // verus!
