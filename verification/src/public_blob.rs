//! Public blob objects: their names, addresses, content types and signatures.

use vstd::prelude::*;
use vstd::string::*;
use vstd::utf8::encode_utf8;

use crate::digest::encoded_path;
use crate::digest::hex_encode;
use crate::digest::hex_of;
use crate::digest::hmac_sha256;
use crate::digest::hmac_sha256_of;
use crate::digest::law_encoded_paths_are_read_back;
use crate::digest::law_hex_text_is_hexadecimal;
use crate::digest::lemma_uri_form_has_no_line_break;
use crate::digest::sha256_hex;
use crate::digest::sha256_of;
use crate::digest::sha256_text;
use crate::digest::text_digest;
use crate::digest::uri_encode_path;
use crate::text::before_first;
use crate::text::blank;
use crate::text::decimal;
use crate::text::find;
use crate::text::find_char;
use crate::text::find_text;
use crate::text::has_prefix;
use crate::text::is_blank;
use crate::text::is_white_space;
use crate::text::lemma_before_first;
use crate::text::lemma_find_from;
use crate::text::lemma_first_piece;
use crate::text::occurs_at;
use crate::text::pieces;
use crate::text::same_text;
use crate::text::starts_with_text;
use crate::text::text_before;
use crate::text::trim;
use crate::text::trim_back;
use crate::text::trim_both;
use crate::text::trim_end_of;
use crate::text::trim_front;
use crate::text::trim_start_of;
use crate::text::trimmed;
use crate::text::Trim;

verus! {

// ---------------------------------------------------------------------------
// Content types
// ---------------------------------------------------------------------------

/// The media type without its parameters.
pub open spec fn mime_essence(mime: Seq<char>) -> Seq<char> {
    trimmed(before_first(mime, ';'))
}

/// The file name extension for a media type without parameters.
pub open spec fn extension_of(essence: Seq<char>) -> Seq<char> {
    if essence == "text/html"@ {
        "html"@
    } else if essence == "text/css"@ {
        "css"@
    } else if essence == "text/javascript"@ || essence == "application/javascript"@ {
        "js"@
    } else if essence == "image/jpeg"@ {
        "jpg"@
    } else if essence == "image/png"@ {
        "png"@
    } else if essence == "image/gif"@ {
        "gif"@
    } else if essence == "image/webp"@ {
        "webp"@
    } else if essence == "image/svg+xml"@ {
        "svg"@
    } else if essence == "application/json"@ {
        "json"@
    } else if essence == "text/markdown"@ {
        "md"@
    } else {
        "bin"@
    }
}

/// The file name extension under which content of this media type is stored.
pub fn extension_for_mime(mime_type: &str) -> (r: &'static str)
    ensures
        r@ == extension_of(mime_essence(mime_type@)),
{
    let head = text_before(mime_type, ';');
    let owned = trim(head.as_str());
    let essence = owned.as_str();
    if same_text(essence, "text/html") {
        "html"
    } else if same_text(essence, "text/css") {
        "css"
    } else if same_text(essence, "text/javascript") || same_text(essence, "application/javascript") {
        "js"
    } else if same_text(essence, "image/jpeg") {
        "jpg"
    } else if same_text(essence, "image/png") {
        "png"
    } else if same_text(essence, "image/gif") {
        "gif"
    } else if same_text(essence, "image/webp") {
        "webp"
    } else if same_text(essence, "image/svg+xml") {
        "svg"
    } else if same_text(essence, "application/json") {
        "json"
    } else if same_text(essence, "text/markdown") {
        "md"
    } else {
        "bin"
    }
}

/// The content type under which a stream is sent: its own, or the generic one.
pub open spec fn content_type_of(mime: Seq<char>) -> Seq<char> {
    if is_blank(mime) {
        "application/octet-stream"@
    } else {
        mime
    }
}

/// The content type under which a stream is sent.
pub fn stream_content_type(mime_type: &str) -> (r: String)
    ensures
        r@ == content_type_of(mime_type@),
{
    if blank(mime_type) {
        "application/octet-stream".to_owned()
    } else {
        mime_type.to_owned()
    }
}

// ---------------------------------------------------------------------------
// Addresses
// ---------------------------------------------------------------------------

/// What follows the scheme of a URL.
pub open spec fn after_scheme(url: Seq<char>) -> Seq<char> {
    match find(url, "://"@) {
        Some(i) => url.skip(i + 3),
        None => url,
    }
}

/// The host part of a URL, port included.
pub open spec fn url_host(url: Seq<char>) -> Seq<char> {
    before_first(after_scheme(url), '/')
}

/// The path part of a URL, `/` where it has none.
pub open spec fn url_path(url: Seq<char>) -> Seq<char> {
    if after_scheme(url).contains('/') {
        after_scheme(url).skip(url_host(url).len() as int)
    } else {
        "/"@
    }
}

/// Splits a URL into its host part and its path.
pub fn parse_url_host_path<'a>(url: &'a str) -> (r: (&'a str, &'a str))
    ensures
        r.0@ == url_host(url@),
        r.1@ == url_path(url@),
{
    let n: usize = url.unicode_len();
    let start: usize = match find_text(url, "://") {
        Some(pos) => {
            proof {
                lemma_find_from(url@, "://"@, 0);
                reveal_strlit("://");
            }
            pos + 3
        },
        None => 0,
    };
    let rest = url.substring_char(start, n);
    assert(rest@ =~= after_scheme(url@));
    let m: usize = rest.unicode_len();
    match find_char(rest, '/') {
        Some(slash) => {
            let host = rest.substring_char(0, slash);
            let path = rest.substring_char(slash, m);
            proof {
                assert(host@ =~= rest@.take(slash as int));
                assert(path@ =~= rest@.skip(slash as int));
            }
            (host, path)
        },
        None => (rest, "/"),
    }
}

/// An endpoint with a loopback host and the path of the internal blobs.
pub open spec fn is_internal_endpoint(endpoint: Seq<char>) -> bool {
    let name = before_first(url_host(trimmed(endpoint)), ':');
    &&& name == "127.0.0.1"@ || name == "localhost"@
    &&& has_prefix(url_path(trimmed(endpoint)), "/_internal/blobs"@)
}

/// Whether an endpoint is the blob store that this process serves itself. Which
/// endpoints the process serves is its own matter; this knows them by a loopback
/// host and by the path of the internal blobs, on whatever port.
pub fn is_local_internal_blob_endpoint(endpoint: &str) -> (r: bool)
    ensures
        r == is_internal_endpoint(endpoint@),
{
    let owned = trim(endpoint);
    let parts = parse_url_host_path(owned.as_str());
    let name = text_before(parts.0, ':');
    (same_text(name.as_str(), "127.0.0.1") || same_text(name.as_str(), "localhost"))
        && starts_with_text(parts.1, "/_internal/blobs")
}

/// Where an object is written.
#[derive(Debug)]
pub enum PutTarget {
    /// Through the tenant's own blob store, under this key.
    Local { object_key: String },
    /// By an HTTP PUT to this address.
    Remote { url: String },
}

/// The key of an object inside the tenant's own blob store.
pub open spec fn local_object_key(bucket: Seq<char>, storage_key: Seq<char>) -> Seq<char> {
    trim_back(trim_front(bucket, Trim::Only('/')), Trim::Only('/')) + "/"@ + trim_front(
        storage_key,
        Trim::Only('/'),
    )
}

/// The address of an object at a remote endpoint.
pub open spec fn remote_object_url(
    endpoint: Seq<char>,
    bucket: Seq<char>,
    storage_key: Seq<char>,
) -> Seq<char> {
    trim_back(endpoint, Trim::Only('/')) + "/"@ + local_object_key(bucket, storage_key)
}

fn object_key_text(bucket: &str, storage_key: &str) -> (r: String)
    ensures
        r@ == local_object_key(bucket@, storage_key@),
{
    let mut key = trim_both(bucket, Trim::Only('/'));
    key.append("/");
    key.append(trim_start_of(storage_key, Trim::Only('/')).as_str());
    key
}

/// The address to which an object is PUT at a remote endpoint.
pub fn public_blob_url(endpoint: &str, bucket: &str, storage_key: &str) -> (r: String)
    ensures
        r@ == remote_object_url(endpoint@, bucket@, storage_key@),
{
    let mut url = trim_end_of(endpoint, Trim::Only('/'));
    url.append("/");
    url.append(object_key_text(bucket, storage_key).as_str());
    assert(url@ =~= remote_object_url(endpoint@, bucket@, storage_key@));
    url
}

/// Decides where an object is written.
pub fn plan_public_blob_put(endpoint: &str, bucket: &str, storage_key: &str) -> (r: PutTarget)
    ensures
        r is Local == is_internal_endpoint(endpoint@),
        r matches PutTarget::Local { object_key } ==> object_key@ == local_object_key(
            bucket@,
            storage_key@,
        ),
        r matches PutTarget::Remote { url } ==> url@ == remote_object_url(
            endpoint@,
            bucket@,
            storage_key@,
        ),
{
    if is_local_internal_blob_endpoint(endpoint) {
        PutTarget::Local { object_key: object_key_text(bucket, storage_key) }
    } else {
        PutTarget::Remote { url: public_blob_url(endpoint, bucket, storage_key) }
    }
}

/// The address under which a stored object is read by the public.
pub open spec fn public_address(base_url: Seq<char>, storage_key: Seq<char>) -> Seq<char> {
    trim_back(base_url, Trim::Only('/')) + "/"@ + trim_front(storage_key, Trim::Only('/'))
}

/// The address under which a stored object is read by the public.
pub fn public_url(base_url: &str, storage_key: &str) -> (r: String)
    ensures
        r@ == public_address(base_url@, storage_key@),
{
    let mut url = trim_end_of(base_url, Trim::Only('/'));
    url.append("/");
    url.append(trim_start_of(storage_key, Trim::Only('/')).as_str());
    url
}

/// A credential: the one kept for public objects, or else the tenant's own.
pub fn blob_credential(published: Option<String>, own: Option<String>) -> (r: Option<String>)
    ensures
        r == if published is Some {
            published
        } else {
            own
        },
{
    match published {
        Some(p) => Some(p),
        None => own,
    }
}

// ---------------------------------------------------------------------------
// Replies
// ---------------------------------------------------------------------------

/// What is reported of an object that the tenant's own blob store did not take.
pub fn local_put_failure(bucket: &str, storage_key: &str, error: &str) -> (r: String)
    ensures
        r@ == "direct tenant-scoped public blob write failed for bucket '"@ + bucket@ + "' key '"@
            + storage_key@ + "': "@ + error@,
{
    let mut text = "direct tenant-scoped public blob write failed for bucket '".to_owned();
    text.append(bucket);
    text.append("' key '");
    text.append(storage_key);
    text.append("': ");
    text.append(error);
    text
}

/// An HTTP status as it is shown: its number and the reason for it.
pub uninterp spec fn http_status_text(code: u16) -> Seq<char>;

/// `reqwest::StatusCode`, made by `from_u16` and shown by its `Display`: the
/// number, a space and the reason. Which reason stands there is left open.
#[verifier::external_body]
pub(crate) fn status_text(code: u16) -> (r: String)
    requires
        100 <= code <= 999,
    ensures
        r@ == http_status_text(code),
        has_prefix(r@, decimal(code as nat) + " "@),
{
    reqwest::StatusCode::from_u16(code).expect("a three digit status").to_string()
}

pub open spec fn put_failure_text(
    bucket: Seq<char>,
    endpoint: Seq<char>,
    storage_key: Seq<char>,
    status: Seq<char>,
) -> Seq<char> {
    "public blob PUT failed for bucket '"@ + bucket + "' key '"@ + storage_key
        + "' via endpoint host '"@ + url_host(endpoint) + "' with HTTP "@ + status
}

/// What is reported of a PUT that the endpoint answered with `status`.
pub fn put_failure(bucket: &str, endpoint: &str, storage_key: &str, status: &str) -> (r: String)
    ensures
        r@ == put_failure_text(bucket@, endpoint@, storage_key@, status@),
{
    let mut text = "public blob PUT failed for bucket '".to_owned();
    text.append(bucket);
    text.append("' key '");
    text.append(storage_key);
    text.append("' via endpoint host '");
    text.append(parse_url_host_path(endpoint).0);
    text.append("' with HTTP ");
    text.append(status);
    text
}

/// What is reported of a PUT that the endpoint refused.
pub fn public_blob_put_status_error(
    bucket: &str,
    endpoint: &str,
    storage_key: &str,
    status: u16,
) -> (r: String)
    requires
        100 <= status <= 999,
    ensures
        r@ == put_failure_text(bucket@, endpoint@, storage_key@, http_status_text(status)),
{
    let shown = status_text(status);
    put_failure(bucket, endpoint, storage_key, shown.as_str())
}

/// What is reported of a PUT that never got an answer.
pub fn public_blob_put_request_error(
    endpoint: &str,
    bucket: &str,
    storage_key: &str,
    error: &str,
) -> (r: String)
    ensures
        r@ == "public blob PUT request failed for bucket '"@ + bucket@ + "' key '"@ + storage_key@
            + "' via endpoint host '"@ + url_host(endpoint@) + "': "@ + error@,
{
    let mut text = "public blob PUT request failed for bucket '".to_owned();
    text.append(bucket);
    text.append("' key '");
    text.append(storage_key);
    text.append("' via endpoint host '");
    text.append(parse_url_host_path(endpoint).0);
    text.append("': ");
    text.append(error);
    text
}

/// Settles a PUT by the status of its answer: any 2xx is a success.
pub fn settle_public_blob_put(
    bucket: &str,
    endpoint: &str,
    storage_key: &str,
    status: u16,
) -> (r: Result<(), String>)
    requires
        100 <= status <= 999,
    ensures
        r is Ok == (200 <= status < 300),
        r matches Err(e) ==> e@ == put_failure_text(
            bucket@,
            endpoint@,
            storage_key@,
            http_status_text(status),
        ),
{
    if 200 <= status && status < 300 {
        Ok(())
    } else {
        Err(public_blob_put_status_error(bucket, endpoint, storage_key, status))
    }
}

// ---------------------------------------------------------------------------
// Signatures
// ---------------------------------------------------------------------------

/// Bytes that a header value may hold.
pub open spec fn is_header_text(text: Seq<char>) -> bool {
    forall|i: int|
        #![trigger encode_utf8(text)[i]]
        0 <= i < encode_utf8(text).len() ==> {
            let b = encode_utf8(text)[i];
            (b >= 32 && b != 127) || b == 9
        }
}

/// `reqwest::header::HeaderValue::from_str`: accepts a text exactly when none of
/// its bytes is a control byte other than a tab; its error shows one fixed text.
#[verifier::external_body]
fn check_header_value(text: &str) -> (r: Result<(), String>)
    ensures
        r is Ok == is_header_text(text@),
        r matches Err(e) ==> e@ == "failed to parse header value"@,
{
    match reqwest::header::HeaderValue::from_str(text) {
        Ok(_) => Ok(()),
        Err(error) => Err(error.to_string()),
    }
}

/// One header of a request.
#[derive(Debug)]
pub struct Header {
    pub name: String,
    pub value: String,
}

pub open spec fn signing_scope(date: Seq<char>) -> Seq<char> {
    date + "/auto/s3/aws4_request"@
}

/// The request in the canonical form that is signed.
pub open spec fn canonical_put(
    url: Seq<char>,
    content_type: Seq<char>,
    payload_hash: Seq<char>,
    datetime: Seq<char>,
) -> Seq<char> {
    "PUT\n"@ + encoded_path(encode_utf8(url_path(url))) + "\n\ncontent-type:"@ + content_type
        + "\nhost:"@ + url_host(url) + "\nx-amz-content-sha256:"@ + payload_hash
        + "\nx-amz-date:"@ + datetime
        + "\n\ncontent-type;host;x-amz-content-sha256;x-amz-date\n"@ + payload_hash
}

pub open spec fn string_to_sign(
    canonical: Seq<char>,
    datetime: Seq<char>,
) -> Seq<char> {
    "AWS4-HMAC-SHA256\n"@ + datetime + "\n"@ + signing_scope(datetime.take(8)) + "\n"@
        + text_digest(canonical)
}

/// The key chain: secret, date, region, service and purpose, each keyed by the last.
pub open spec fn signing_key(
    secret: Seq<char>,
    date: Seq<char>,
    region: Seq<char>,
    service: Seq<char>,
) -> Seq<u8> {
    let k_date = hmac_sha256_of(encode_utf8("AWS4"@ + secret), encode_utf8(date));
    let k_region = hmac_sha256_of(k_date, encode_utf8(region));
    let k_service = hmac_sha256_of(k_region, encode_utf8(service));
    hmac_sha256_of(k_service, encode_utf8("aws4_request"@))
}

/// Derives the key with which requests of one day are signed.
pub fn derive_signing_key(secret_key: &str, date: &str, region: &str, service: &str) -> (r: Vec<u8>)
    ensures
        r@ == signing_key(secret_key@, date@, region@, service@),
        r@.len() == 32,
{
    let mut k_secret = "AWS4".to_owned();
    k_secret.append(secret_key);
    let k_date = hmac_sha256(k_secret.as_str().as_bytes(), date.as_bytes());
    let k_region = hmac_sha256(k_date.as_slice(), region.as_bytes());
    let k_service = hmac_sha256(k_region.as_slice(), service.as_bytes());
    hmac_sha256(k_service.as_slice(), "aws4_request".as_bytes())
}

/// The authorization that the signature of a PUT amounts to.
pub open spec fn put_authorization(
    access_key: Seq<char>,
    secret_key: Seq<char>,
    url: Seq<char>,
    content_type: Seq<char>,
    payload_hash: Seq<char>,
    datetime: Seq<char>,
) -> Seq<char> {
    let date = datetime.take(8);
    let signed = string_to_sign(canonical_put(url, content_type, payload_hash, datetime), datetime);
    let key = signing_key(secret_key, date, "auto"@, "s3"@);
    "AWS4-HMAC-SHA256 Credential="@ + access_key + "/"@ + signing_scope(date)
        + ",SignedHeaders=content-type;host;x-amz-content-sha256;x-amz-date,Signature="@ + hex_of(
        hmac_sha256_of(key, encode_utf8(signed)),
    )
}

fn canonical_put_text(
    url: &str,
    content_type: &str,
    payload_hash: &str,
    datetime: &str,
) -> (r: String)
    ensures
        r@ == canonical_put(url@, content_type@, payload_hash@, datetime@),
        pieces(r@, '\n').len() >= 3,
        pieces(r@, '\n')[0] == seq!['P', 'U', 'T'],
        pieces(r@, '\n')[1] == encoded_path(encode_utf8(url_path(url@))),
        pieces(r@, '\n')[2].len() == 0,
{
    let parts = parse_url_host_path(url);
    let mut text = "PUT\n".to_owned();
    text.append(uri_encode_path(parts.1).as_str());
    text.append("\n\ncontent-type:");
    text.append(content_type);
    text.append("\nhost:");
    text.append(parts.0);
    text.append("\nx-amz-content-sha256:");
    text.append(payload_hash);
    text.append("\nx-amz-date:");
    text.append(datetime);
    text.append("\n\ncontent-type;host;x-amz-content-sha256;x-amz-date\n");
    text.append(payload_hash);
    proof {
        law_signed_requests_are_puts(url@, content_type@, payload_hash@, datetime@);
    }
    text
}

fn scope_text(date: &str) -> (r: String)
    ensures
        r@ == signing_scope(date@),
{
    let mut scope = date.to_owned();
    scope.append("/auto/s3/aws4_request");
    scope
}

fn authorization_text(
    access_key: &str,
    secret_key: &str,
    url: &str,
    content_type: &str,
    payload_hash: &str,
    datetime: &str,
) -> (r: String)
    requires
        datetime@.len() >= 8,
    ensures
        r@ == put_authorization(
            access_key@,
            secret_key@,
            url@,
            content_type@,
            payload_hash@,
            datetime@,
        ),
{
    let date = datetime.substring_char(0, 8);
    assert(date@ =~= datetime@.take(8));
    let scope = scope_text(date);
    let canonical = canonical_put_text(url, content_type, payload_hash, datetime);
    let mut signed = "AWS4-HMAC-SHA256\n".to_owned();
    signed.append(datetime);
    signed.append("\n");
    signed.append(scope.as_str());
    signed.append("\n");
    signed.append(sha256_text(canonical.as_str()).as_str());
    let key = derive_signing_key(secret_key, date, "auto", "s3");
    let signature = hex_encode(
        hmac_sha256(key.as_slice(), signed.as_str().as_bytes()).as_slice(),
    );
    let mut text = "AWS4-HMAC-SHA256 Credential=".to_owned();
    text.append(access_key);
    text.append("/");
    text.append(scope.as_str());
    text.append(",SignedHeaders=content-type;host;x-amz-content-sha256;x-amz-date,Signature=");
    text.append(signature.as_str());
    text
}

/// The headers with which a PUT is signed, in the order in which they are set.
pub open spec fn signed_put_headers(
    access_key: Seq<char>,
    secret_key: Seq<char>,
    url: Seq<char>,
    mime_type: Seq<char>,
    bytes: Seq<u8>,
    datetime: Seq<char>,
) -> Seq<(Seq<char>, Seq<char>)> {
    let payload_hash = hex_of(sha256_of(bytes));
    seq![
        (
            "authorization"@,
            put_authorization(
                access_key,
                secret_key,
                url,
                content_type_of(mime_type),
                payload_hash,
                datetime,
            ),
        ),
        ("x-amz-date"@, datetime),
        ("x-amz-content-sha256"@, payload_hash),
        ("host"@, url_host(url)),
    ]
}

pub open spec fn header_views(headers: Seq<Header>) -> Seq<(Seq<char>, Seq<char>)> {
    headers.map_values(|h: Header| (h.name@, h.value@))
}

/// What is reported when the header at place `i` cannot be sent.
pub open spec fn bad_header_text(i: int) -> Seq<char> {
    (if i == 0 {
        "invalid public blob authorization header: "@
    } else if i == 1 {
        "invalid x-amz-date header: "@
    } else if i == 2 {
        "invalid x-amz-content-sha256 header: "@
    } else {
        "invalid public blob host header: "@
    }) + "failed to parse header value"@
}

/// No header before place `i` is refused.
pub open spec fn sendable_until(headers: Seq<(Seq<char>, Seq<char>)>, i: int) -> bool {
    forall|j: int| 0 <= j < i ==> is_header_text((#[trigger] headers[j]).1)
}

fn add_header(headers: &mut Vec<Header>, name: &str, value: &str, context: &str) -> (r: Result<
    (),
    String,
>)
    ensures
        r is Ok == is_header_text(value@),
        r is Ok ==> header_views(final(headers)@) == header_views(old(headers)@).push(
            (name@, value@),
        ),
        r matches Err(e) ==> e@ == context@ + "failed to parse header value"@,
{
    match check_header_value(value) {
        Ok(_) => {
            headers.push(Header { name: name.to_owned(), value: value.to_owned() });
            assert(header_views(headers@) =~= header_views(old(headers)@).push((name@, value@)));
            Ok(())
        },
        Err(error) => {
            let mut text = context.to_owned();
            text.append(error.as_str());
            Err(text)
        },
    }
}

/// Builds the signed headers of a public blob PUT.
///
/// Without both keys the request goes out unsigned. `datetime` is the time of
/// the request in the basic form `20250101T000000Z`.
pub fn build_public_blob_put_headers(
    access_key: Option<&str>,
    secret_key: Option<&str>,
    url: &str,
    mime_type: &str,
    bytes: &[u8],
    datetime: &str,
) -> (r: Result<Vec<Header>, String>)
    requires
        datetime.is_ascii(),
        datetime@.len() >= 8,
    ensures
        access_key is None || secret_key is None ==> r is Ok && r->Ok_0@.len() == 0,
        access_key is Some && secret_key is Some ==> {
            let want = signed_put_headers(
                access_key->0@,
                secret_key->0@,
                url@,
                mime_type@,
                bytes@,
                datetime@,
            );
            &&& r is Ok == sendable_until(want, 4)
            &&& r matches Ok(headers) ==> header_views(headers@) == want
            &&& r matches Err(e) ==> exists|i: int|
                0 <= i < 4 && #[trigger] sendable_until(want, i) && !is_header_text(want[i].1)
                    && e@ == bad_header_text(i)
        },
{
    let mut headers: Vec<Header> = Vec::new();
    let (access, secret) = match (access_key, secret_key) {
        (Some(a), Some(s)) => (a, s),
        _ => {
            return Ok(headers);
        },
    };
    let payload_hash = sha256_hex(bytes);
    let content_type = stream_content_type(mime_type);
    let authorization = authorization_text(
        access,
        secret,
        url,
        content_type.as_str(),
        payload_hash.as_str(),
        datetime,
    );
    let host = parse_url_host_path(url).0;
    let ghost want = signed_put_headers(
        access@,
        secret@,
        url@,
        mime_type@,
        bytes@,
        datetime@,
    );
    assert(header_views(headers@) =~= want.take(0));
    match add_header(
        &mut headers,
        "authorization",
        authorization.as_str(),
        "invalid public blob authorization header: ",
    ) {
        Ok(_) => {},
        Err(e) => {
            proof {
                assert(!is_header_text(want[0].1));
                assert(sendable_until(want, 0));
            }
            return Err(e);
        },
    }
    assert(header_views(headers@) =~= want.take(1));
    assert(is_header_text(want[0].1));
    match add_header(&mut headers, "x-amz-date", datetime, "invalid x-amz-date header: ") {
        Ok(_) => {},
        Err(e) => {
            proof {
                assert(!is_header_text(want[1].1));
                assert(sendable_until(want, 1));
            }
            return Err(e);
        },
    }
    assert(header_views(headers@) =~= want.take(2));
    assert(is_header_text(want[1].1));
    match add_header(
        &mut headers,
        "x-amz-content-sha256",
        payload_hash.as_str(),
        "invalid x-amz-content-sha256 header: ",
    ) {
        Ok(_) => {},
        Err(e) => {
            proof {
                assert(!is_header_text(want[2].1));
                assert(sendable_until(want, 2));
            }
            return Err(e);
        },
    }
    assert(header_views(headers@) =~= want.take(3));
    assert(is_header_text(want[2].1));
    match add_header(&mut headers, "host", host, "invalid public blob host header: ") {
        Ok(_) => {},
        Err(e) => {
            proof {
                assert(!is_header_text(want[3].1));
                assert(sendable_until(want, 3));
            }
            return Err(e);
        },
    }
    assert(header_views(headers@) =~= want);
    assert(is_header_text(want[3].1));
    Ok(headers)
}

// ---------------------------------------------------------------------------
// What holds of addresses and signatures
// ---------------------------------------------------------------------------

/// An extension tells the media type: each but that of scripts belongs to one
/// type, scripts have two, and every other type is stored as `bin`.
pub proof fn law_extensions_tell_the_type(essence: Seq<char>)
    ensures
        extension_of(essence) == "html"@ <==> essence == "text/html"@,
        extension_of(essence) == "css"@ <==> essence == "text/css"@,
        extension_of(essence) == "js"@ <==> (essence == "text/javascript"@ || essence
            == "application/javascript"@),
        extension_of(essence) == "jpg"@ <==> essence == "image/jpeg"@,
        extension_of(essence) == "png"@ <==> essence == "image/png"@,
        extension_of(essence) == "gif"@ <==> essence == "image/gif"@,
        extension_of(essence) == "webp"@ <==> essence == "image/webp"@,
        extension_of(essence) == "svg"@ <==> essence == "image/svg+xml"@,
        extension_of(essence) == "json"@ <==> essence == "application/json"@,
        extension_of(essence) == "md"@ <==> essence == "text/markdown"@,
{
    reveal_strlit("html");
    reveal_strlit("css");
    reveal_strlit("js");
    reveal_strlit("jpg");
    reveal_strlit("png");
    reveal_strlit("gif");
    reveal_strlit("webp");
    reveal_strlit("svg");
    reveal_strlit("json");
    reveal_strlit("md");
    reveal_strlit("bin");
    assert("html"@.len() == 4 && "html"@[0] == 'h');
    assert("css"@.len() == 3 && "css"@[0] == 'c');
    assert("js"@.len() == 2 && "js"@[0] == 'j');
    assert("jpg"@.len() == 3 && "jpg"@[0] == 'j');
    assert("png"@.len() == 3 && "png"@[0] == 'p');
    assert("gif"@.len() == 3 && "gif"@[0] == 'g');
    assert("webp"@.len() == 4 && "webp"@[0] == 'w');
    assert("svg"@.len() == 3 && "svg"@[0] == 's');
    assert("json"@.len() == 4 && "json"@[0] == 'j');
    assert("md"@.len() == 2 && "md"@[0] == 'm');
    assert("bin"@.len() == 3 && "bin"@[0] == 'b');
    reveal_strlit("text/html");
    reveal_strlit("text/css");
    reveal_strlit("text/javascript");
    reveal_strlit("application/javascript");
    reveal_strlit("image/jpeg");
    reveal_strlit("image/png");
    reveal_strlit("image/gif");
    reveal_strlit("image/webp");
    reveal_strlit("image/svg+xml");
    reveal_strlit("application/json");
    reveal_strlit("text/markdown");
    assert("text/html"@.len() == 9);
    assert("text/css"@.len() == 8);
    assert("text/javascript"@.len() == 15);
    assert("application/javascript"@.len() == 22);
    assert("image/jpeg"@.len() == 10 && "image/jpeg"@[6] == 'j');
    assert("image/png"@.len() == 9 && "image/png"@[6] == 'p' && "image/png"@[0] == 'i');
    assert("image/gif"@.len() == 9 && "image/gif"@[6] == 'g' && "image/gif"@[0] == 'i');
    assert("text/html"@[0] == 't');
    assert("image/webp"@.len() == 10 && "image/webp"@[6] == 'w');
    assert("image/svg+xml"@.len() == 13 && "image/svg+xml"@[0] == 'i');
    assert("application/json"@.len() == 16);
    assert("text/markdown"@.len() == 13 && "text/markdown"@[0] == 't');
}

/// Parameters do not change the extension that a media type is stored under, and the
/// usual types have their usual extensions.
pub proof fn law_parameters_do_not_change_the_extension(mime: Seq<char>, params: Seq<char>)
    requires
        !mime.contains(';'),
    ensures
        extension_of(mime_essence(mime + seq![';'] + params)) == extension_of(mime_essence(mime)),
        mime == "text/html"@ ==> extension_of(mime_essence(mime + seq![';'] + params)) == "html"@,
        mime == "text/css"@ ==> extension_of(mime_essence(mime)) == "css"@,
        mime == "text/javascript"@ ==> extension_of(mime_essence(mime)) == "js"@,
        mime == "image/jpeg"@ ==> extension_of(mime_essence(mime)) == "jpg"@,
        mime == "image/png"@ ==> extension_of(mime_essence(mime)) == "png"@,
        mime == "image/gif"@ ==> extension_of(mime_essence(mime)) == "gif"@,
        mime == "image/webp"@ ==> extension_of(mime_essence(mime)) == "webp"@,
        mime == "image/svg+xml"@ ==> extension_of(mime_essence(mime)) == "svg"@,
        mime == "application/json"@ ==> extension_of(mime_essence(mime)) == "json"@,
        mime == "text/markdown"@ ==> extension_of(mime_essence(mime)) == "md"@,
        mime.len() == 0 ==> extension_of(mime_essence(mime)) == "bin"@,
{
    let long = mime + seq![';'] + params;
    assert forall|j: int| 0 <= j < mime.len() implies #[trigger] long[j] != ';' by {
        assert(mime.contains(mime[j]));
    }
    assert forall|j: int| 0 <= j < mime.len() implies #[trigger] mime[j] != ';' by {
        assert(mime.contains(mime[j]));
    }
    lemma_before_first(long, ';', mime.len() as int);
    lemma_before_first(mime, ';', mime.len() as int);
    assert(long.take(mime.len() as int) =~= mime);
    assert(mime.take(mime.len() as int) =~= mime);
    reveal_strlit("text/html");
    reveal_strlit("text/css");
    reveal_strlit("text/javascript");
    reveal_strlit("application/javascript");
    reveal_strlit("image/jpeg");
    reveal_strlit("image/png");
    reveal_strlit("image/gif");
    reveal_strlit("image/webp");
    reveal_strlit("image/svg+xml");
    reveal_strlit("application/json");
    reveal_strlit("text/markdown");
    if mime.len() > 0 && !is_white_space(mime[0]) && !is_white_space(mime.last()) {
        assert(trimmed(mime) == mime);
    }
    if mime == "text/css"@ {
        assert(mime[5] == 'c');
    }
    if mime == "text/markdown"@ {
        assert(mime[5] == 'm');
    }
    if mime == "image/png"@ {
        assert(mime[6] == 'p');
    }
    if mime == "image/gif"@ {
        assert(mime[6] == 'g');
    }
    if mime == "image/jpeg"@ {
        assert(mime[6] == 'j');
    }
    if mime == "image/webp"@ {
        assert(mime[6] == 'w');
    }
    if mime == "text/javascript"@ {
        assert(mime[5] == 'j');
    }
    if mime == "application/json"@ {
        assert(mime[12] == 'j');
    }
    if mime == "image/svg+xml"@ {
        assert(mime[6] == 's');
    }
    if mime == "text/html"@ {
        assert(mime[5] == 'h');
    }
}

/// A stream is always sent under some type: its own where it has one.
pub proof fn law_streams_have_a_content_type(mime: Seq<char>)
    ensures
        !is_blank(content_type_of(mime)),
        !is_blank(mime) ==> content_type_of(mime) == mime,
        is_blank(mime) ==> content_type_of(mime) == "application/octet-stream"@,
{
    reveal_strlit("application/octet-stream");
    assert("application/octet-stream"@[0] == 'a');
    if is_blank("application/octet-stream"@) {
        assert(is_white_space("application/octet-stream"@[0]));
    }
}

/// A URL is taken apart into what it was put together from: the host before the first
/// slash behind the scheme, and the path from there on.
pub proof fn law_urls_are_taken_apart(scheme: Seq<char>, host: Seq<char>, path: Seq<char>)
    requires
        !scheme.contains(':'),
        !host.contains('/'),
        path.len() > 0 ==> path[0] == '/',
    ensures
        url_host(scheme + "://"@ + host + path) == host,
        url_path(scheme + "://"@ + host + path) == if path.len() > 0 {
            path
        } else {
            "/"@
        },
{
    let url = scheme + "://"@ + host + path;
    let n = scheme.len() as int;
    reveal_strlit("://");
    assert(occurs_at(url, "://"@, n)) by {
        assert(url.subrange(n, n + 3) =~= "://"@);
    }
    lemma_find_from(url, "://"@, 0);
    assert(find(url, "://"@) == Some(n)) by {
        match find(url, "://"@) {
            Some(i) => {
                if i < n {
                    assert(url.subrange(i, i + 3)[0] == ':');
                    assert(url[i] == scheme[i]);
                    assert(scheme.contains(scheme[i]));
                }
            },
            None => {},
        }
    }
    let rest = url.skip(n + 3);
    assert(rest =~= host + path);
    assert forall|j: int| 0 <= j < host.len() implies #[trigger] rest[j] != '/' by {
        assert(host.contains(host[j]));
    }
    lemma_before_first(rest, '/', host.len() as int);
    assert(rest.take(host.len() as int) =~= host);
    if path.len() > 0 {
        assert(rest[host.len() as int] == '/');
        assert(rest.skip(host.len() as int) =~= path);
    } else {
        assert(rest =~= host);
    }
}

/// The parts of an object's address are joined by single slashes; slashes that a part
/// brings at its ends make no difference.
pub proof fn law_address_parts_are_joined_by_one_slash(
    endpoint: Seq<char>,
    bucket: Seq<char>,
    key: Seq<char>,
)
    requires
        endpoint.len() > 0 ==> endpoint.last() != '/',
        bucket.len() > 0 ==> bucket[0] != '/' && bucket.last() != '/',
        key.len() > 0 ==> key[0] != '/',
    ensures
        local_object_key(bucket, key) == bucket + "/"@ + key,
        local_object_key(seq!['/'] + bucket, seq!['/'] + key) == bucket + "/"@ + key,
        remote_object_url(endpoint, bucket, key) == endpoint + "/"@ + (bucket + "/"@ + key),
        remote_object_url(endpoint.push('/'), bucket, key) == remote_object_url(
            endpoint,
            bucket,
            key,
        ),
        public_address(endpoint, key) == endpoint + "/"@ + key,
        public_address(endpoint.push('/'), seq!['/'] + key) == endpoint + "/"@ + key,
{
    reveal_with_fuel(trim_front, 2);
    reveal_with_fuel(trim_back, 2);
    assert((seq!['/'] + bucket).drop_first() =~= bucket);
    assert((seq!['/'] + key).drop_first() =~= key);
    assert(endpoint.push('/').drop_last() =~= endpoint);
}

/// What is signed of a PUT, line by line: the method that is sent, the path of the
/// address in URI form, no query, the headers that are sent with it, their names, and
/// the digest of what is sent.
pub proof fn law_puts_are_signed_as_they_are_sent(
    url: Seq<char>,
    content_type: Seq<char>,
    payload_hash: Seq<char>,
    datetime: Seq<char>,
)
    requires
        !content_type.contains('\n'),
        !url_host(url).contains('\n'),
        !payload_hash.contains('\n'),
        !datetime.contains('\n'),
    ensures
        ({
            let lines = pieces(canonical_put(url, content_type, payload_hash, datetime), '\n');
            &&& lines.len() == 10
            &&& lines[0] == seq!['P', 'U', 'T']
            &&& lines[1] == encoded_path(encode_utf8(url_path(url)))
            &&& lines[2].len() == 0
            &&& lines[3] == "content-type:"@ + content_type
            &&& lines[4] == "host:"@ + url_host(url)
            &&& lines[5] == "x-amz-content-sha256:"@ + payload_hash
            &&& lines[6] == "x-amz-date:"@ + datetime
            &&& lines[7].len() == 0
            &&& lines[8] == "content-type;host;x-amz-content-sha256;x-amz-date"@
            &&& lines[9] == payload_hash
        }),
{
    lemma_canonical_first_lines(url, content_type, payload_hash, datetime);
    reveal_strlit("content-type:");
    reveal_strlit("host:");
    reveal_strlit("x-amz-content-sha256:");
    reveal_strlit("x-amz-date:");
    reveal_strlit("content-type;host;x-amz-content-sha256;x-amz-date");
    let n = seq!['\n'];
    let none = Seq::<char>::empty();
    let l3 = "content-type:"@ + content_type;
    let l4 = "host:"@ + url_host(url);
    let l5 = "x-amz-content-sha256:"@ + payload_hash;
    let l6 = "x-amz-date:"@ + datetime;
    let l8 = "content-type;host;x-amz-content-sha256;x-amz-date"@;
    lemma_no_break_in_joined("content-type:"@, content_type);
    lemma_no_break_in_joined("host:"@, url_host(url));
    lemma_no_break_in_joined("x-amz-content-sha256:"@, payload_hash);
    lemma_no_break_in_joined("x-amz-date:"@, datetime);
    let t8 = l8 + n + payload_hash;
    let t7 = none + n + t8;
    let t6 = l6 + n + t7;
    let t5 = l5 + n + t6;
    let t4 = l4 + n + t5;
    let t3 = l3 + n + t4;
    lemma_first_piece(payload_hash, none, '\n');
    lemma_first_piece(l8, payload_hash, '\n');
    lemma_first_piece(none, t8, '\n');
    lemma_first_piece(l6, t7, '\n');
    lemma_first_piece(l5, t6, '\n');
    lemma_first_piece(l4, t5, '\n');
    lemma_first_piece(l3, t4, '\n');
    assert(rest_of_canonical(url, content_type, payload_hash, datetime) =~= t3) by {
        reveal_strlit("\nhost:");
        reveal_strlit("\nx-amz-content-sha256:");
        reveal_strlit("\nx-amz-date:");
        reveal_strlit("\n\ncontent-type;host;x-amz-content-sha256;x-amz-date\n");
        assert("\nhost:"@ =~= n + "host:"@);
        assert("\nx-amz-content-sha256:"@ =~= n + "x-amz-content-sha256:"@);
        assert("\nx-amz-date:"@ =~= n + "x-amz-date:"@);
        assert("\n\ncontent-type;host;x-amz-content-sha256;x-amz-date\n"@ =~= n + n + l8 + n);
    }
}

/// What follows the path in the canonical form.
spec fn rest_of_canonical(
    url: Seq<char>,
    content_type: Seq<char>,
    payload_hash: Seq<char>,
    datetime: Seq<char>,
) -> Seq<char> {
    "content-type:"@ + content_type + "\nhost:"@ + url_host(url) + "\nx-amz-content-sha256:"@
        + payload_hash + "\nx-amz-date:"@ + datetime
        + "\n\ncontent-type;host;x-amz-content-sha256;x-amz-date\n"@ + payload_hash
}

proof fn lemma_no_break_in_joined(a: Seq<char>, b: Seq<char>)
    requires
        !a.contains('\n'),
        !b.contains('\n'),
    ensures
        !(a + b).contains('\n'),
{
    if (a + b).contains('\n') {
        let i = choose|i: int| 0 <= i < (a + b).len() && (a + b)[i] == '\n';
        if i < a.len() {
            assert(a[i] == '\n');
        } else {
            assert(b[i - a.len()] == '\n');
        }
    }
}

proof fn lemma_canonical_first_lines(
    url: Seq<char>,
    content_type: Seq<char>,
    payload_hash: Seq<char>,
    datetime: Seq<char>,
)
    ensures
        pieces(canonical_put(url, content_type, payload_hash, datetime), '\n') == seq![
            seq!['P', 'U', 'T'],
            encoded_path(encode_utf8(url_path(url))),
            Seq::<char>::empty(),
        ] + pieces(rest_of_canonical(url, content_type, payload_hash, datetime), '\n'),
{
    let n = seq!['\n'];
    let none = Seq::<char>::empty();
    let put = seq!['P', 'U', 'T'];
    let path = encoded_path(encode_utf8(url_path(url)));
    let rest = rest_of_canonical(url, content_type, payload_hash, datetime);
    reveal_strlit("PUT\n");
    reveal_strlit("content-type:");
    reveal_strlit("\n\ncontent-type:");
    assert("PUT\n"@ =~= put + n);
    assert("\n\ncontent-type:"@ =~= n + n + "content-type:"@);
    law_encoded_paths_are_read_back(encode_utf8(url_path(url)));
    lemma_uri_form_has_no_line_break(path);
    let t2 = none + n + rest;
    let t1 = path + n + t2;
    assert(canonical_put(url, content_type, payload_hash, datetime) =~= put + n + t1);
    lemma_first_piece(put, t1, '\n');
    lemma_first_piece(path, t2, '\n');
    lemma_first_piece(none, rest, '\n');
    assert(seq![put] + (seq![path] + (seq![none] + pieces(rest, '\n'))) =~= seq![put, path, none]
        + pieces(rest, '\n'));
}

/// Whatever the headers are, the first line of what is signed is the method of the
/// request that carries the signature, and the second is the path of its address.
pub proof fn law_signed_requests_are_puts(
    url: Seq<char>,
    content_type: Seq<char>,
    payload_hash: Seq<char>,
    datetime: Seq<char>,
)
    ensures
        ({
            let lines = pieces(canonical_put(url, content_type, payload_hash, datetime), '\n');
            &&& lines.len() >= 3
            &&& lines[0] == seq!['P', 'U', 'T']
            &&& lines[1] == encoded_path(encode_utf8(url_path(url)))
            &&& lines[2].len() == 0
        }),
{
    lemma_canonical_first_lines(url, content_type, payload_hash, datetime);
}

/// The text that is signed has four lines: the algorithm, the time, the scope of that
/// day, and the digest of the canonical request.
pub proof fn law_the_signed_text_has_four_lines(canonical: Seq<char>, datetime: Seq<char>)
    requires
        !datetime.contains('\n'),
        datetime.len() >= 8,
    ensures
        ({
            let lines = pieces(string_to_sign(canonical, datetime), '\n');
            &&& lines.len() == 4
            &&& lines[0] == "AWS4-HMAC-SHA256"@
            &&& lines[1] == datetime
            &&& lines[2] == datetime.take(8) + "/auto/s3/aws4_request"@
            &&& lines[3] == text_digest(canonical)
        }),
{
    let n = seq!['\n'];
    let none = Seq::<char>::empty();
    let date = datetime.take(8);
    let scope = date + "/auto/s3/aws4_request"@;
    let digest = text_digest(canonical);
    reveal_strlit("AWS4-HMAC-SHA256");
    reveal_strlit("AWS4-HMAC-SHA256\n");
    reveal_strlit("\n");
    reveal_strlit("/auto/s3/aws4_request");
    assert("AWS4-HMAC-SHA256\n"@ =~= "AWS4-HMAC-SHA256"@ + n);
    assert("\n"@ =~= n);
    assert(!date.contains('\n')) by {
        if date.contains('\n') {
            let i = choose|i: int| 0 <= i < date.len() && date[i] == '\n';
            assert(datetime[i] == '\n');
        }
    }
    lemma_no_break_in_joined(date, "/auto/s3/aws4_request"@);
    assert(!digest.contains('\n')) by {
        if digest.contains('\n') {
            let i = choose|i: int| 0 <= i < digest.len() && digest[i] == '\n';
            law_hex_text_is_hexadecimal(sha256_of(encode_utf8(canonical)), i);
        }
    }
    let t2 = scope + n + digest;
    let t1 = datetime + n + t2;
    assert(string_to_sign(canonical, datetime) =~= "AWS4-HMAC-SHA256"@ + n + t1);
    lemma_first_piece("AWS4-HMAC-SHA256"@, t1, '\n');
    lemma_first_piece(datetime, t2, '\n');
    lemma_first_piece(scope, digest, '\n');
    lemma_first_piece(digest, none, '\n');
}

/// The headers that are sent are the ones that are signed: the host, the digest of the
/// bytes and the time stand in the canonical request as they are sent, and the
/// authorization ends in the signature of that request under the key of that day.
pub proof fn law_sent_headers_are_the_signed_ones(
    access_key: Seq<char>,
    secret_key: Seq<char>,
    url: Seq<char>,
    mime_type: Seq<char>,
    bytes: Seq<u8>,
    datetime: Seq<char>,
)
    requires
        datetime.len() >= 8,
        !mime_type.contains('\n'),
        !url_host(url).contains('\n'),
        !datetime.contains('\n'),
    ensures
        ({
            let headers = signed_put_headers(
                access_key,
                secret_key,
                url,
                mime_type,
                bytes,
                datetime,
            );
            let hash = hex_of(sha256_of(bytes));
            let canonical = canonical_put(url, content_type_of(mime_type), hash, datetime);
            let lines = pieces(canonical, '\n');
            let key = signing_key(secret_key, datetime.take(8), "auto"@, "s3"@);
            let signature = hex_of(
                hmac_sha256_of(key, encode_utf8(string_to_sign(canonical, datetime))),
            );
            &&& headers.len() == 4
            &&& headers[0].0 == "authorization"@
            &&& has_prefix(
                headers[0].1,
                "AWS4-HMAC-SHA256 Credential="@ + access_key + "/"@ + datetime.take(8)
                    + "/auto/s3/aws4_request"@,
            )
            &&& headers[0].1.skip(headers[0].1.len() - signature.len()) == signature
            &&& headers[0].1 == "AWS4-HMAC-SHA256 Credential="@ + access_key + "/"@ + datetime.take(8)
                + "/auto/s3/aws4_request"@ + ",SignedHeaders="@ + lines[8] + ",Signature="@ + signature
            &&& headers[1].0 == "x-amz-date"@
            &&& lines[6] == "x-amz-date:"@ + headers[1].1
            &&& headers[2].0 == "x-amz-content-sha256"@
            &&& lines[5] == "x-amz-content-sha256:"@ + headers[2].1
            &&& headers[2].1 == hash
            &&& headers[3].0 == "host"@
            &&& lines[4] == "host:"@ + headers[3].1
            &&& lines[3] == "content-type:"@ + content_type_of(mime_type)
        }),
{
    let hash = hex_of(sha256_of(bytes));
    assert(!hash.contains('\n')) by {
        if hash.contains('\n') {
            let i = choose|i: int| 0 <= i < hash.len() && hash[i] == '\n';
            law_hex_text_is_hexadecimal(sha256_of(bytes), i);
        }
    }
    reveal_strlit("application/octet-stream");
    law_puts_are_signed_as_they_are_sent(url, content_type_of(mime_type), hash, datetime);
    let canonical = canonical_put(url, content_type_of(mime_type), hash, datetime);
    let key = signing_key(secret_key, datetime.take(8), "auto"@, "s3"@);
    let signature = hex_of(hmac_sha256_of(key, encode_utf8(string_to_sign(canonical, datetime))));
    let headers = signed_put_headers(access_key, secret_key, url, mime_type, bytes, datetime);
    let front = "AWS4-HMAC-SHA256 Credential="@ + access_key + "/"@ + datetime.take(8)
        + "/auto/s3/aws4_request"@;
    let middle = ",SignedHeaders=content-type;host;x-amz-content-sha256;x-amz-date,Signature="@;
    let text = headers[0].1;
    assert(text =~= front + middle + signature);
    let names = "content-type;host;x-amz-content-sha256;x-amz-date"@;
    reveal_strlit(",SignedHeaders=content-type;host;x-amz-content-sha256;x-amz-date,Signature=");
    reveal_strlit("content-type;host;x-amz-content-sha256;x-amz-date");
    reveal_strlit(",SignedHeaders=");
    reveal_strlit(",Signature=");
    assert(middle =~= ",SignedHeaders="@ + names + ",Signature="@);
    assert(text =~= front + ",SignedHeaders="@ + names + ",Signature="@ + signature);
    assert(text.take(front.len() as int) =~= front);
    assert(text.skip(text.len() - signature.len()) =~= signature);
}

/// An endpoint is the own one where its host is a loopback name, on whatever port, and its
/// path is that of the internal blobs; any other host or path is remote.
pub proof fn law_only_loopback_endpoints_are_internal(endpoint: Seq<char>)
    ensures
        is_internal_endpoint(endpoint) ==> has_prefix(
            url_path(trimmed(endpoint)),
            "/_internal/blobs"@,
        ),
        is_internal_endpoint(endpoint) ==> has_prefix(url_host(trimmed(endpoint)), "127.0.0.1"@)
            || has_prefix(url_host(trimmed(endpoint)), "localhost"@),
        url_host(trimmed(endpoint)) == "localhost"@ && has_prefix(
            url_path(trimmed(endpoint)),
            "/_internal/blobs"@,
        ) ==> is_internal_endpoint(endpoint),
        url_host(trimmed(endpoint)) == "127.0.0.1"@ && has_prefix(
            url_path(trimmed(endpoint)),
            "/_internal/blobs"@,
        ) ==> is_internal_endpoint(endpoint),
{
    let host = url_host(trimmed(endpoint));
    reveal_strlit("localhost");
    reveal_strlit("127.0.0.1");
    lemma_head_is_prefix(host, ':');
    if host == "localhost"@ {
        lemma_before_first(host, ':', 9);
        assert(host.take(9) =~= host);
    }
    if host == "127.0.0.1"@ {
        lemma_before_first(host, ':', 9);
        assert(host.take(9) =~= host);
    }
}

proof fn lemma_head_is_prefix(s: Seq<char>, c: char)
    ensures
        has_prefix(s, before_first(s, c)),
    decreases s.len(),
{
    let head = before_first(s, c);
    if s.len() > 0 && s[0] != c {
        let rest = s.drop_first();
        lemma_head_is_prefix(rest, c);
        let tail = before_first(rest, c);
        assert(rest.take(tail.len() as int) == tail);
        assert forall|j: int| 0 <= j < head.len() implies s[j] == #[trigger] head[j] by {
            if j > 0 {
                assert(tail[j - 1] == rest.take(tail.len() as int)[j - 1]);
            }
        }
        assert(s.take(head.len() as int) =~= head);
    } else {
        assert(s.take(0) =~= head);
    }
}

/// A failed PUT is told with its bucket, its key, the host of its endpoint and the status,
/// in this order.
pub proof fn law_failed_puts_are_told_in_full(
    bucket: Seq<char>,
    endpoint: Seq<char>,
    storage_key: Seq<char>,
    status: Seq<char>,
)
    ensures
        ({
            let text = put_failure_text(bucket, endpoint, storage_key, status);
            let head = "public blob PUT failed for bucket '"@ + bucket + "' key '"@ + storage_key;
            &&& has_prefix(text, head)
            &&& text.skip(text.len() - status.len()) == status
            &&& has_prefix(
                text.skip(head.len() as int),
                "' via endpoint host '"@ + url_host(endpoint),
            )
        }),
{
    let text = put_failure_text(bucket, endpoint, storage_key, status);
    let head = "public blob PUT failed for bucket '"@ + bucket + "' key '"@ + storage_key;
    let via = "' via endpoint host '"@ + url_host(endpoint);
    assert(text.take(head.len() as int) =~= head);
    assert(text.skip(text.len() - status.len()) =~= status);
    assert(text.skip(head.len() as int).take(via.len() as int) =~= via);
}

/// A header that cannot be sent is named: each of the four by its own name.
pub proof fn law_bad_headers_are_named(i: int)
    requires
        0 <= i < 4,
    ensures
        i == 0 ==> has_prefix(
            bad_header_text(i),
            "invalid public blob authorization header: "@,
        ),
        i == 1 ==> has_prefix(bad_header_text(i), "invalid x-amz-date header: "@),
        i == 2 ==> has_prefix(bad_header_text(i), "invalid x-amz-content-sha256 header: "@),
        i == 3 ==> has_prefix(bad_header_text(i), "invalid public blob host header: "@),
{
    let text = bad_header_text(i);
    let a = "invalid public blob authorization header: "@;
    let b = "invalid x-amz-date header: "@;
    let c = "invalid x-amz-content-sha256 header: "@;
    let d = "invalid public blob host header: "@;
    if i == 0 {
        assert(text.take(a.len() as int) =~= a);
    } else if i == 1 {
        assert(text.take(b.len() as int) =~= b);
    } else if i == 2 {
        assert(text.take(c.len() as int) =~= c);
    } else {
        assert(text.take(d.len() as int) =~= d);
    }
}

/// The signing key is made in four steps, each keyed by the one before: from the secret
/// the day's, from that the region's, from that the service's, and from that the one that
/// signs. Another day, region or service enters at its own step.
pub proof fn law_signing_keys_are_made_in_four_steps(
    secret: Seq<char>,
    date: Seq<char>,
    region: Seq<char>,
    service: Seq<char>,
    k_date: Seq<u8>,
    k_region: Seq<u8>,
    k_service: Seq<u8>,
)
    requires
        k_date == hmac_sha256_of(
            encode_utf8(seq!['A', 'W', 'S', '4'] + secret),
            encode_utf8(date),
        ),
        k_region == hmac_sha256_of(k_date, encode_utf8(region)),
        k_service == hmac_sha256_of(k_region, encode_utf8(service)),
    ensures
        signing_key(secret, date, region, service) == hmac_sha256_of(
            k_service,
            encode_utf8("aws4_request"@),
        ),
{
    reveal_strlit("AWS4");
    assert("AWS4"@ =~= seq!['A', 'W', 'S', '4']);
}

} // verus!
