//! Static assets: which file a request path names, and the answer once the
//! file was looked up.

use vstd::prelude::*;
use vstd::string::StrSliceExecFns;

verus! {

/// Status of an answer that carries the file.
pub const STATUS_OK: u16 = 200;

/// Status of an answer for a file that does not exist.
pub const STATUS_NOT_FOUND: u16 = 404;

/// The file that is served where the request names none.
pub const INDEX_FILE: &'static str = "index.html";

/// The answer to a request for a static asset.
#[derive(Clone, Debug, PartialEq, Eq)]
pub struct AssetReply {
    pub status: u16,
    pub content_type: Option<String>,
    pub body: Vec<u8>,
}

/// The name under which a request path's file is kept: the path without
/// the slashes it begins with.
pub open spec fn asset_key_of(path: Seq<char>) -> Seq<char>
    decreases path.len(),
{
    if path.len() > 0 && path[0] == '/' {
        asset_key_of(path.skip(1))
    } else {
        path
    }
}

/// The name under which a request path's file is kept.
pub fn asset_key(path: &str) -> (key: String)
    ensures
        key@ == asset_key_of(path@),
{
    let len = path.unicode_len();
    let mut start: usize = 0;
    assert(path@.skip(0) =~= path@);
    while start < len && path.get_char(start) == '/'
        invariant
            len == path@.len(),
            start <= len,
            asset_key_of(path@) == asset_key_of(path@.skip(start as int)),
        decreases len - start,
    {
        proof {
            assert(path@.skip(start as int)[0] == path@[start as int]);
            assert(path@.skip(start as int).skip(1) =~= path@.skip(start + 1));
        }
        start += 1;
    }
    proof {
        if start < len {
            assert(path@.skip(start as int)[0] == path@[start as int]);
        }
        assert(path@.subrange(start as int, len as int) =~= path@.skip(start as int));
    }
    path.substring_char(start, len).to_owned()
}

/// Guesses the media type of a file from its name, with
/// `mime_guess::from_path` and `MimeGuess::first_or_text_plain`.
///
/// Nothing is claimed of the guess: it goes by the name's extension, as the
/// platform's path rules find it, and by the crate's table.
#[verifier::external_body]
fn guess_media_type(key: &str) -> (media_type: String) {
    mime_guess::from_path(key).first_or_text_plain().as_ref().to_string()
}

/// The answer for a file that was looked up: the file with its media type
/// where it exists, an empty 404 where it does not.
pub fn asset_reply(media_type: String, contents: Option<Vec<u8>>) -> (reply: AssetReply)
    ensures
        match contents {
            Some(bytes) => reply.status == STATUS_OK && reply.content_type == Some(media_type)
                && reply.body == bytes,
            None => reply.status == STATUS_NOT_FOUND && reply.content_type is None
                && reply.body@.len() == 0,
        },
{
    match contents {
        Some(bytes) => AssetReply {
            status: STATUS_OK,
            content_type: Some(media_type),
            body: bytes,
        },
        None => AssetReply { status: STATUS_NOT_FOUND, content_type: None, body: Vec::new() },
    }
}

/// What to look up for a request path, and the media type to serve it with.
#[derive(Clone, Debug, PartialEq, Eq)]
pub struct AssetRequest {
    pub key: String,
    pub media_type: String,
}

/// Prepares the lookup of a static asset: the file's name is the path
/// without its leading slashes, the media type a guess from that name.
pub fn static_path(path: &str) -> (request: AssetRequest)
    ensures
        request.key@ == asset_key_of(path@),
{
    let key = asset_key(path);
    let media_type = guess_media_type(key.as_str());
    AssetRequest { key, media_type }
}

/// Prepares the lookup of the index file, which is served at the root.
pub fn root() -> (request: AssetRequest)
    ensures
        request.key@ == INDEX_FILE@,
{
    proof {
        reveal_strlit("index.html");
        lemma_plain_name("index.html"@);
    }
    static_path(INDEX_FILE)
}

/// A path that does not begin with a slash is its own asset key.
pub proof fn lemma_plain_name(path: Seq<char>)
    requires
        path.len() == 0 || path[0] != '/',
    ensures
        asset_key_of(path) == path,
{
}

/// An asset key does not begin with a slash, and the path is the key behind
/// a run of slashes.
pub proof fn lemma_asset_key(path: Seq<char>)
    ensures
        asset_key_of(path).len() == 0 || asset_key_of(path)[0] != '/',
        asset_key_of(path).len() <= path.len(),
        asset_key_of(path) == path.skip(path.len() - asset_key_of(path).len()),
        forall|i: int|
            0 <= i < path.len() - asset_key_of(path).len() ==> #[trigger] path[i] == '/',
    decreases path.len(),
{
    if path.len() > 0 && path[0] == '/' {
        let rest = path.skip(1);
        lemma_asset_key(rest);
        let key = asset_key_of(rest);
        assert(rest.skip(rest.len() - key.len()) =~= path.skip(path.len() - key.len()));
        assert forall|i: int| 0 <= i < path.len() - key.len() implies #[trigger] path[i]
            == '/' by {
            if i > 0 {
                assert(path[i] == rest[i - 1]);
            }
        }
    } else {
        assert(path.skip(0) =~= path);
    }
}

} // verus!
