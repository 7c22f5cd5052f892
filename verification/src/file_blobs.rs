//! Where the bytes of a file are looked for, and how a lookup is settled.

use vstd::prelude::*;
use vstd::string::*;
use vstd::utf8::decode_utf8;
use vstd::utf8::valid_utf8;

use crate::public_blob::is_internal_endpoint;
use crate::public_blob::is_local_internal_blob_endpoint;
use crate::sorted::texts;

verus! {

/// The key of a file's content in the native bucket.
pub open spec fn native_key(content_hash: Seq<char>) -> Seq<char> {
    "temper-fs/"@ + content_hash
}

/// The key of a file's content in the native bucket.
pub fn native_file_blob_key(content_hash: &str) -> (r: String)
    ensures
        r@ == native_key(content_hash@),
{
    let mut key = "temper-fs/".to_owned();
    key.append(content_hash);
    key
}

/// The keys under which content may stand, the preferred one first. Content at
/// an external endpoint may also stand under its bare hash.
pub open spec fn read_keys(endpoint: Option<Seq<char>>, content_hash: Seq<char>) -> Seq<Seq<char>> {
    match endpoint {
        Some(e) if !is_internal_endpoint(e) => seq![native_key(content_hash), content_hash],
        _ => seq![native_key(content_hash)],
    }
}

/// The view of an optional text.
pub open spec fn text_option(s: Option<&str>) -> Option<Seq<char>> {
    match s {
        Some(t) => Some(t@),
        None => None,
    }
}

/// The keys under which a file's content is looked for, in order.
pub fn file_blob_read_keys(blob_endpoint: Option<&str>, content_hash: &str) -> (r: Vec<String>)
    ensures
        texts(r@) == read_keys(text_option(blob_endpoint), content_hash@),
{
    let mut keys: Vec<String> = Vec::new();
    keys.push(native_file_blob_key(content_hash));
    match blob_endpoint {
        Some(endpoint) => {
            if !is_local_internal_blob_endpoint(endpoint) {
                keys.push(content_hash.to_owned());
            }
        },
        None => {},
    }
    assert(texts(keys@) =~= read_keys(text_option(blob_endpoint), content_hash@));
    keys
}

/// No key is looked under twice.
pub proof fn law_read_keys_differ(endpoint: Option<Seq<char>>, content_hash: Seq<char>)
    ensures
        read_keys(endpoint, content_hash).no_duplicates(),
        read_keys(endpoint, content_hash)[0] == native_key(content_hash),
{
    reveal_strlit("temper-fs/");
    assert(native_key(content_hash).len() == content_hash.len() + 10);
}

/// What one lookup under one key means for the whole read.
pub enum BlobReadStep {
    /// The content is found.
    Found(Vec<u8>),
    /// Nothing under this key: go on with the next.
    TryNext,
    /// The store failed: the read fails with this text.
    Failed(String),
}

/// Settles one lookup under one key.
pub fn blob_read_step(content_hash: &str, outcome: Result<Option<Vec<u8>>, String>) -> (r:
    BlobReadStep)
    ensures
        match outcome {
            Ok(Some(bytes)) => r == BlobReadStep::Found(bytes),
            Ok(None) => r is TryNext,
            Err(e) => r is Failed && r->Failed_0@ == "failed to read blob '"@ + content_hash@
                + "': "@ + e@,
        },
{
    match outcome {
        Ok(Some(bytes)) => BlobReadStep::Found(bytes),
        Ok(None) => BlobReadStep::TryNext,
        Err(e) => {
            let mut text = "failed to read blob '".to_owned();
            text.append(content_hash);
            text.append("': ");
            text.append(e.as_str());
            BlobReadStep::Failed(text)
        },
    }
}

/// The text of some bytes, with what is not UTF-8 replaced.
pub uninterp spec fn lossy_utf8(bytes: Seq<u8>) -> Seq<char>;

/// `String::from_utf8_lossy`: the text of the bytes; valid UTF-8 is decoded as it
/// stands. What replaces bytes that are not UTF-8 is left to the name.
#[verifier::external_body]
fn decode_lossy(bytes: &[u8]) -> (r: String)
    ensures
        r@ == lossy_utf8(bytes@),
        valid_utf8(bytes@) ==> r@ == decode_utf8(bytes@),
{
    String::from_utf8_lossy(bytes).to_string()
}

/// The text of a blob, if there is a blob.
pub fn blob_text(bytes: Option<Vec<u8>>) -> (r: Option<String>)
    ensures
        r is Some == bytes is Some,
        r matches Some(t) ==> t@ == lossy_utf8(bytes->0@),
        r matches Some(t) ==> (valid_utf8(bytes->0@) ==> t@ == decode_utf8(bytes->0@)),
{
    match bytes {
        Some(b) => Some(decode_lossy(b.as_slice())),
        None => None,
    }
}

/// Content stands in the native bucket under its hash, behind the name of the bucket's
/// folder; so different contents stand apart.
pub proof fn law_native_keys_end_in_the_hash(a: Seq<char>, b: Seq<char>)
    ensures
        native_key(a).skip(10) == a,
        native_key(a).take(10) == "temper-fs/"@,
        native_key(a) == native_key(b) ==> a == b,
{
    reveal_strlit("temper-fs/");
    assert(native_key(a).skip(10) =~= a);
    assert(native_key(b).skip(10) =~= b);
    assert(native_key(a).take(10) =~= "temper-fs/"@);
}

/// Only at an external endpoint is content also looked for under its bare hash, and then
/// last; without an endpoint, and at the own one, under its native key alone.
pub proof fn law_bare_hashes_are_read_at_external_endpoints(
    endpoint: Seq<char>,
    content_hash: Seq<char>,
)
    ensures
        read_keys(None, content_hash).len() == 1,
        is_internal_endpoint(endpoint) ==> read_keys(Some(endpoint), content_hash).len() == 1,
        !is_internal_endpoint(endpoint) ==> read_keys(Some(endpoint), content_hash).len() == 2
            && read_keys(Some(endpoint), content_hash)[1] == content_hash,
{
}

} // verus!
