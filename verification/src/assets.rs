//! Publication of file content as a public asset.

use vstd::prelude::*;
use vstd::string::*;
use vstd::utf8::encode_utf8;

use crate::digest::hex_of;
use crate::digest::sha256_of;
use crate::digest::sha256_text;
use crate::digest::text_digest;
use crate::file_reads::IndexedFileStreamRead;
use crate::file_reads::StreamModel;
use crate::public_blob::extension_for_mime;
use crate::public_blob::extension_of;
use crate::public_blob::http_status_text;
use crate::public_blob::mime_essence;
use crate::public_blob::public_address;
use crate::public_blob::public_url;
use crate::public_blob::status_text;
use crate::text::ascii_alnum;
use crate::text::blank;
use crate::text::chars_of;
use crate::text::has_prefix;
use crate::text::is_ascii_alnum;
use crate::text::is_blank;
use crate::text::lemma_first_piece;
use crate::text::pieces;
use crate::text::strip_prefixes;
use crate::text::trim_back;
use crate::text::trim_both;
use crate::text::trim_front;
use crate::text::without_prefixes;
use crate::text::Trim;

verus! {

/// What a caller asks to be published.
#[derive(Clone, Debug)]
pub struct PublishFileAssetRequest {
    pub file_id: String,
    pub kind: String,
    pub owner_entity_type: String,
    pub owner_entity_id: String,
    pub source_file_version_id: String,
    pub public_key_prefix: Option<String>,
}

// ---------------------------------------------------------------------------
// Names
// ---------------------------------------------------------------------------

/// A character that a path segment keeps.
pub open spec fn kept_in_path(c: char) -> bool {
    is_ascii_alnum(c) || c == '-' || c == '_' || c == '/' || c == '.'
}

/// Every other character becomes a hyphen.
pub open spec fn hyphenated(s: Seq<char>) -> Seq<char> {
    s.map_values(
        |c: char|
            if kept_in_path(c) {
                c
            } else {
                '-'
            },
    )
}

/// A text made fit for a path: hyphens for foreign characters, none at the ends.
pub open spec fn sanitized(s: Seq<char>) -> Seq<char> {
    trim_back(trim_front(hyphenated(s), Trim::Only('-')), Trim::Only('-'))
}

/// Makes a text fit for a path.
pub fn sanitize_path_segment(value: &str) -> (r: String)
    ensures
        r@ == sanitized(value@),
{
    let x: Vec<char> = chars_of(value);
    let mut out = String::new();
    let mut i: usize = 0;
    while i < x.len()
        invariant
            x@ == value@,
            i <= x@.len(),
            out@ == hyphenated(value@.take(i as int)),
        decreases x@.len() - i,
    {
        let c = x[i];
        if ascii_alnum(c) || c == '-' || c == '_' || c == '/' || c == '.' {
            out.push(c);
        } else {
            out.push('-');
        }
        assert(out@ =~= hyphenated(value@.take(i + 1)));
        i += 1;
    }
    assert(value@.take(x@.len() as int) =~= value@);
    trim_both(out.as_str(), Trim::Only('-'))
}

/// The hash without the name of its algorithm.
pub open spec fn bare_hash(content_hash: Seq<char>) -> Seq<char> {
    without_prefixes(content_hash, "sha256:"@)
}

/// The key under which an asset is stored.
pub open spec fn storage_key_of(
    prefix: Seq<char>,
    owner_type: Seq<char>,
    owner_id: Seq<char>,
    kind: Seq<char>,
    content_hash: Seq<char>,
    mime_type: Seq<char>,
) -> Seq<char> {
    trim_back(trim_front(sanitized(prefix), Trim::Only('/')), Trim::Only('/')) + "/"@ + sanitized(
        owner_type,
    ) + "/"@ + sanitized(owner_id) + "/"@ + sanitized(kind) + "-"@ + bare_hash(content_hash)
        + "."@ + extension_of(mime_essence(mime_type))
}

/// The key under which an asset is stored.
pub fn public_storage_key(
    prefix: &str,
    owner_entity_type: &str,
    owner_entity_id: &str,
    kind: &str,
    content_hash: &str,
    mime_type: &str,
) -> (r: String)
    ensures
        r@ == storage_key_of(
            prefix@,
            owner_entity_type@,
            owner_entity_id@,
            kind@,
            content_hash@,
            mime_type@,
        ),
{
    let mut key = trim_both(sanitize_path_segment(prefix).as_str(), Trim::Only('/'));
    key.append("/");
    key.append(sanitize_path_segment(owner_entity_type).as_str());
    key.append("/");
    key.append(sanitize_path_segment(owner_entity_id).as_str());
    key.append("/");
    key.append(sanitize_path_segment(kind).as_str());
    key.append("-");
    key.append(strip_prefixes(content_hash, "sha256:").as_str());
    key.append(".");
    key.append(extension_for_mime(mime_type));
    key
}

/// The text from which a publication takes its identity.
pub open spec fn identity_seed(
    tenant: Seq<char>,
    owner_type: Seq<char>,
    owner_id: Seq<char>,
    label: Seq<char>,
    content_hash: Seq<char>,
) -> Seq<char> {
    tenant + "\n"@ + owner_type + "\n"@ + owner_id + "\n"@ + label + "\n"@ + content_hash
}

/// The first 32 digits of the digest of a publication's seed.
pub fn identity_digest(
    tenant: &str,
    owner_type: &str,
    owner_id: &str,
    label: &str,
    content_hash: &str,
) -> (r: String)
    ensures
        r@ == text_digest(
            identity_seed(tenant@, owner_type@, owner_id@, label@, content_hash@),
        ).take(32),
        r@.len() == 32,
{
    let mut seed = tenant.to_owned();
    seed.append("\n");
    seed.append(owner_type);
    seed.append("\n");
    seed.append(owner_id);
    seed.append("\n");
    seed.append(label);
    seed.append("\n");
    seed.append(content_hash);
    let digest = sha256_text(seed.as_str());
    assert(digest@.subrange(0, 32) =~= digest@.take(32));
    digest.as_str().substring_char(0, 32).to_owned()
}

/// The identity of an asset.
pub open spec fn asset_identity(
    tenant: Seq<char>,
    owner_type: Seq<char>,
    owner_id: Seq<char>,
    kind: Seq<char>,
    content_hash: Seq<char>,
) -> Seq<char> {
    "pa-"@ + text_digest(
        identity_seed(tenant, owner_type, owner_id, kind, content_hash),
    ).take(32)
}

/// The identity of an asset.
pub fn published_asset_id(
    tenant: &str,
    owner_entity_type: &str,
    owner_entity_id: &str,
    kind: &str,
    content_hash: &str,
) -> (r: String)
    ensures
        r@ == asset_identity(
            tenant@,
            owner_entity_type@,
            owner_entity_id@,
            kind@,
            content_hash@,
        ),
        r@.len() == 35,
{
    let digest = identity_digest(tenant, owner_entity_type, owner_entity_id, kind, content_hash);
    let mut id = "pa-".to_owned();
    id.append(digest.as_str());
    proof {
        reveal_strlit("pa-");
    }
    id
}

// ---------------------------------------------------------------------------
// The content that is published
// ---------------------------------------------------------------------------

/// Content ready for publication.
pub struct PublishableContent {
    pub content_hash: String,
    pub mime_type: String,
    pub bytes: Vec<u8>,
}

/// What is said when a read brought no content to publish.
pub open spec fn unpublishable_text(source: Seq<char>, read: StreamModel) -> Seq<char> {
    match read {
        StreamModel::NoContent { .. } => source + " has no content to publish"@,
        StreamModel::StaleIndex { content_hash, .. } => source + " has stale indexed content '"@
            + content_hash + "'; rebuild projections before publishing"@,
        _ => source
            + " is missing from the file read index; rebuild projections before publishing"@,
    }
}

/// Takes the content out of a read, or says why there is none to publish.
pub fn publishable_content(source: &str, read: IndexedFileStreamRead) -> (r: Result<
    PublishableContent,
    String,
>)
    ensures
        r is Ok == read@ is Content,
        r matches Ok(c) ==> read@ == (StreamModel::Content {
            content_hash: c.content_hash@,
            mime_type: c.mime_type@,
            bytes: c.bytes@,
        }),
        r matches Err(e) ==> e@ == unpublishable_text(source@, read@),
{
    match read {
        IndexedFileStreamRead::Content { content_hash, mime_type, bytes } => Ok(
            PublishableContent { content_hash, mime_type, bytes },
        ),
        IndexedFileStreamRead::NoContent { .. } => {
            let mut text = source.to_owned();
            text.append(" has no content to publish");
            Err(text)
        },
        IndexedFileStreamRead::MissingIndex => {
            let mut text = source.to_owned();
            text.append(
                " is missing from the file read index; rebuild projections before publishing",
            );
            Err(text)
        },
        IndexedFileStreamRead::StaleIndex { content_hash, .. } => {
            let mut text = source.to_owned();
            text.append(" has stale indexed content '");
            text.append(content_hash.as_str());
            text.append("'; rebuild projections before publishing");
            Err(text)
        },
    }
}

/// A source as it is named in messages.
pub open spec fn source_name(kind: Seq<char>, id: Seq<char>) -> Seq<char> {
    kind + "('"@ + id + "')"@
}

/// A source as it is named in messages.
pub fn source_text(kind: &str, id: &str) -> (r: String)
    ensures
        r@ == source_name(kind@, id@),
{
    let mut text = kind.to_owned();
    text.append("('");
    text.append(id);
    text.append("')");
    text
}

// ---------------------------------------------------------------------------
// The publication
// ---------------------------------------------------------------------------

/// The tenant's settings for public objects.
pub struct PublishSettings {
    pub public_base_url: Option<String>,
    pub endpoint: Option<String>,
    pub bucket: Option<String>,
}

/// What is missing from the settings, the base address before the endpoint.
pub open spec fn missing_setting(settings: PublishSettings) -> Option<Seq<char>> {
    if settings.public_base_url is None {
        Some("missing published_blob_public_base_url secret"@)
    } else if settings.endpoint is None {
        Some("missing published_blob_endpoint secret"@)
    } else {
        None
    }
}

/// The text, where it is there and not blank, and the default otherwise.
pub open spec fn chosen(value: Option<String>, default: Seq<char>) -> Seq<char> {
    match value {
        Some(v) if !is_blank(v@) => v@,
        _ => default,
    }
}

/// The text, where it is there and not blank, and the default otherwise.
pub fn choose_text(value: &Option<String>, default: &str) -> (r: String)
    ensures
        r@ == chosen(*value, default@),
{
    match value {
        Some(v) => {
            if blank(v.as_str()) {
                default.to_owned()
            } else {
                v.clone()
            }
        },
        None => default.to_owned(),
    }
}

/// The row that records a published asset.
#[derive(Debug)]
pub struct PublishedAssetUpsert {
    pub id: String,
    pub tenant: String,
    pub source_file_id: String,
    pub source_file_version_id: String,
    pub content_hash: String,
    pub kind: String,
    pub mime_type: String,
    pub byte_length: i64,
    pub public_storage_key: String,
    pub public_url: String,
    pub owner_entity_type: String,
    pub owner_entity_id: String,
    pub status: String,
}

/// Everything that is decided before the object is written.
pub struct AssetPlan {
    pub endpoint: String,
    pub bucket: String,
    pub row: PublishedAssetUpsert,
}

/// The plan is that of the request and its content.
pub open spec fn is_asset_plan(
    plan: AssetPlan,
    tenant: Seq<char>,
    request: PublishFileAssetRequest,
    content: PublishableContent,
    settings: PublishSettings,
) -> bool {
    let prefix = chosen(request.public_key_prefix, "published-assets"@);
    let key = storage_key_of(
        prefix,
        request.owner_entity_type@,
        request.owner_entity_id@,
        request.kind@,
        content.content_hash@,
        content.mime_type@,
    );
    &&& plan.endpoint@ == settings.endpoint->0@
    &&& plan.bucket@ == (match settings.bucket {
        Some(b) => b@,
        None => "published-assets"@,
    })
    &&& plan.row.id@ == asset_identity(
        tenant,
        request.owner_entity_type@,
        request.owner_entity_id@,
        request.kind@,
        content.content_hash@,
    )
    &&& plan.row.tenant@ == tenant
    &&& plan.row.source_file_id@ == request.file_id@
    &&& plan.row.source_file_version_id@ == request.source_file_version_id@
    &&& plan.row.content_hash@ == content.content_hash@
    &&& plan.row.kind@ == request.kind@
    &&& plan.row.mime_type@ == content.mime_type@
    &&& plan.row.byte_length == content.bytes@.len()
    &&& plan.row.public_storage_key@ == key
    &&& plan.row.public_url@ == public_address(settings.public_base_url->0@, key)
    &&& plan.row.owner_entity_type@ == request.owner_entity_type@
    &&& plan.row.owner_entity_id@ == request.owner_entity_id@
    &&& plan.row.status@ == "published"@
}

/// Plans the publication of a file's content as an asset: where the object is
/// written and what is recorded once it is there.
pub fn plan_asset(
    tenant: &str,
    request: PublishFileAssetRequest,
    content: &PublishableContent,
    settings: PublishSettings,
) -> (r: Result<AssetPlan, String>)
    requires
        content.bytes@.len() <= i64::MAX,
    ensures
        r is Ok == missing_setting(settings) is None,
        r matches Err(e) ==> missing_setting(settings) == Some(e@),
        r matches Ok(plan) ==> is_asset_plan(plan, tenant@, request, *content, settings),
{
    let base_url = match settings.public_base_url {
        Some(u) => u,
        None => {
            return Err("missing published_blob_public_base_url secret".to_owned());
        },
    };
    let endpoint = match settings.endpoint {
        Some(e) => e,
        None => {
            return Err("missing published_blob_endpoint secret".to_owned());
        },
    };
    let bucket = match settings.bucket {
        Some(b) => b,
        None => "published-assets".to_owned(),
    };
    let prefix = choose_text(&request.public_key_prefix, "published-assets");
    let key = public_storage_key(
        prefix.as_str(),
        request.owner_entity_type.as_str(),
        request.owner_entity_id.as_str(),
        request.kind.as_str(),
        content.content_hash.as_str(),
        content.mime_type.as_str(),
    );
    let address = public_url(base_url.as_str(), key.as_str());
    let id = published_asset_id(
        tenant,
        request.owner_entity_type.as_str(),
        request.owner_entity_id.as_str(),
        request.kind.as_str(),
        content.content_hash.as_str(),
    );
    Ok(
        AssetPlan {
            endpoint,
            bucket,
            row: PublishedAssetUpsert {
                id,
                tenant: tenant.to_owned(),
                source_file_id: request.file_id,
                source_file_version_id: request.source_file_version_id,
                content_hash: content.content_hash.clone(),
                kind: request.kind,
                mime_type: content.mime_type.clone(),
                byte_length: content.bytes.len() as i64,
                public_storage_key: key,
                public_url: address,
                owner_entity_type: request.owner_entity_type,
                owner_entity_id: request.owner_entity_id,
                status: "published".to_owned(),
            },
        },
    )
}

/// The content of a read.
pub open spec fn is_content(content: PublishableContent, read: StreamModel) -> bool {
    read == (StreamModel::Content {
        content_hash: content.content_hash@,
        mime_type: content.mime_type@,
        bytes: content.bytes@,
    })
}

/// A content that a record can count.
pub open spec fn is_countable(read: StreamModel) -> bool {
    read matches StreamModel::Content { bytes, .. } ==> bytes.len() <= i64::MAX
}

/// Decides a publication as an asset by what was read of the file: where its
/// content is written and what is recorded, or why nothing is published.
pub fn publish_file_asset(
    tenant: &str,
    request: PublishFileAssetRequest,
    read: IndexedFileStreamRead,
    settings: PublishSettings,
) -> (r: Result<(AssetPlan, PublishableContent), String>)
    requires
        is_countable(read@),
    ensures
        r is Ok == (read@ is Content && missing_setting(settings) is None),
        r matches Err(e) ==> if read@ is Content {
            missing_setting(settings) == Some(e@)
        } else {
            e@ == unpublishable_text(source_name("File"@, request.file_id@), read@)
        },
        r matches Ok(planned) ==> is_content(planned.1, read@) && is_asset_plan(
            planned.0,
            tenant@,
            request,
            planned.1,
            settings,
        ),
{
    let source = source_text("File", request.file_id.as_str());
    let content = match publishable_content(source.as_str(), read) {
        Ok(content) => content,
        Err(e) => {
            return Err(e);
        },
    };
    match plan_asset(tenant, request, &content, settings) {
        Ok(plan) => Ok((plan, content)),
        Err(e) => Err(e),
    }
}

/// What is reported of a PUT of an asset that never got an answer.
pub fn asset_put_request_error(storage_key: &str, error: &str) -> (r: String)
    ensures
        r@ == "public blob PUT request failed for '"@ + storage_key@ + "': "@ + error@,
{
    let mut text = "public blob PUT request failed for '".to_owned();
    text.append(storage_key);
    text.append("': ");
    text.append(error);
    text
}

/// Settles a PUT of an asset by the status of its answer: any 2xx is a success.
pub fn settle_asset_put(storage_key: &str, status: u16) -> (r: Result<(), String>)
    requires
        100 <= status <= 999,
    ensures
        r is Ok == (200 <= status < 300),
        r matches Err(e) ==> e@ == "public blob PUT failed for '"@ + storage_key@
            + "' with HTTP "@ + http_status_text(status),
{
    if 200 <= status && status < 300 {
        return Ok(());
    }
    let mut text = "public blob PUT failed for '".to_owned();
    text.append(storage_key);
    text.append("' with HTTP ");
    text.append(status_text(status).as_str());
    Err(text)
}

/// Settles the record of an asset: there must be a store, and it must take it.
pub fn settle_asset_record<T>(recorded: Option<Result<T, String>>) -> (r: Result<T, String>)
    ensures
        match recorded {
            Some(Ok(row)) => r == Ok::<T, String>(row),
            Some(Err(error)) => r matches Err(e) && e@ == "failed to persist published asset: "@
                + error@,
            None => r matches Err(e) && e@ == "published assets require a Turso tenant store"@,
        },
{
    match recorded {
        Some(Ok(row)) => Ok(row),
        Some(Err(error)) => {
            let mut text = "failed to persist published asset: ".to_owned();
            text.append(error.as_str());
            Err(text)
        },
        None => Err("published assets require a Turso tenant store".to_owned()),
    }
}

/// A sanitized text holds only characters that a path keeps.
pub proof fn law_sanitized_text_fits_a_path(s: Seq<char>, i: int)
    requires
        0 <= i < sanitized(s).len(),
    ensures
        kept_in_path(sanitized(s)[i]),
{
    let h = hyphenated(s);
    let f = trim_front(h, Trim::Only('-'));
    crate::text::lemma_trim_front_first(h, Trim::Only('-'));
    crate::text::lemma_trim_back_last(f, Trim::Only('-'));
    assert(sanitized(s)[i] == f[i]);
    assert(f[i] == h[h.len() - f.len() + i]);
}

/// A path keeps letters, digits and a few marks; everything else becomes a hyphen, one
/// for each character, and what is kept stands where it stood.
pub proof fn law_foreign_characters_become_hyphens(s: Seq<char>, i: int)
    requires
        0 <= i < s.len(),
    ensures
        hyphenated(s).len() == s.len(),
        'a' <= s[i] <= 'z' || 'A' <= s[i] <= 'Z' || '0' <= s[i] <= '9' || s[i] == '_' || s[i] == '/'
            || s[i] == '.' || s[i] == '-' ==> hyphenated(s)[i] == s[i],
        s[i] == ' ' || s[i] == ':' || s[i] == '?' || s[i] == '#' || s[i] == '%' || s[i] == '~'
            || s[i] as u32 > 127 ==> hyphenated(s)[i] == '-',
{
}

/// A text that is fit for a path and has no hyphen at its ends stays as it is.
pub proof fn law_clean_text_is_kept(s: Seq<char>)
    requires
        forall|i: int| 0 <= i < s.len() ==> kept_in_path(#[trigger] s[i]),
        s.len() > 0 ==> s[0] != '-' && s.last() != '-',
    ensures
        sanitized(s) == s,
{
    assert(hyphenated(s) =~= s);
}

/// The name of the algorithm before a hash makes no difference; a hash without it is its
/// own bare form, and the bare form never has it.
pub proof fn law_algorithm_names_are_dropped(hash: Seq<char>)
    ensures
        bare_hash("sha256:"@ + hash) == bare_hash(hash),
        !has_prefix(hash, "sha256:"@) ==> bare_hash(hash) == hash,
        !has_prefix(bare_hash(hash), "sha256:"@),
    decreases hash.len(),
{
    reveal_strlit("sha256:");
    let pat = "sha256:"@;
    let long = pat + hash;
    assert(long.take(pat.len() as int) =~= pat);
    assert(long.skip(pat.len() as int) =~= hash);
    if has_prefix(hash, pat) {
        law_algorithm_names_are_dropped(hash.skip(pat.len() as int));
    }
}

/// A publication takes its identity from its tenant, its owner, its label and its content,
/// each on a line of its own: change one of them and the seed is another.
pub proof fn law_identities_come_from_five_lines(
    tenant: Seq<char>,
    owner_type: Seq<char>,
    owner_id: Seq<char>,
    label: Seq<char>,
    content_hash: Seq<char>,
)
    requires
        !tenant.contains('\n'),
        !owner_type.contains('\n'),
        !owner_id.contains('\n'),
        !label.contains('\n'),
        !content_hash.contains('\n'),
    ensures
        pieces(identity_seed(tenant, owner_type, owner_id, label, content_hash), '\n') == seq![
            tenant,
            owner_type,
            owner_id,
            label,
            content_hash,
        ],
{
    reveal_strlit("\n");
    let n = seq!['\n'];
    assert("\n"@ =~= n);
    let t3 = label + n + content_hash;
    let t2 = owner_id + n + t3;
    let t1 = owner_type + n + t2;
    assert(identity_seed(tenant, owner_type, owner_id, label, content_hash) =~= tenant + n + t1);
    lemma_first_piece(content_hash, Seq::empty(), '\n');
    lemma_first_piece(label, content_hash, '\n');
    lemma_first_piece(owner_id, t3, '\n');
    lemma_first_piece(owner_type, t2, '\n');
    lemma_first_piece(tenant, t1, '\n');
    assert(pieces(tenant + n + t1, '\n') =~= seq![
        tenant,
        owner_type,
        owner_id,
        label,
        content_hash,
    ]);
}

/// The identity of an asset is marked as one, and holds half of the digest of its seed.
pub proof fn law_asset_identities_are_marked(
    tenant: Seq<char>,
    owner_type: Seq<char>,
    owner_id: Seq<char>,
    kind: Seq<char>,
    content_hash: Seq<char>,
)
    ensures
        ({
            let id = asset_identity(tenant, owner_type, owner_id, kind, content_hash);
            let digest = hex_of(
                sha256_of(
                    encode_utf8(identity_seed(tenant, owner_type, owner_id, kind, content_hash)),
                ),
            );
            &&& id.take(3) == seq!['p', 'a', '-']
            &&& id.skip(3) == digest.take(32)
        }),
{
    reveal_strlit("pa-");
    let id = asset_identity(tenant, owner_type, owner_id, kind, content_hash);
    assert(id.take(3) =~= seq!['p', 'a', '-']);
    assert(id.skip(3) =~= text_digest(
        identity_seed(tenant, owner_type, owner_id, kind, content_hash),
    ).take(32));
}

/// The key of an asset whose names are clean holds them in order: the prefix, the owner
/// and the kind with the hash, ending in the extension of its type.
pub proof fn law_asset_keys_name_prefix_owner_and_content(
    prefix: Seq<char>,
    owner_type: Seq<char>,
    owner_id: Seq<char>,
    kind: Seq<char>,
    content_hash: Seq<char>,
    mime_type: Seq<char>,
)
    requires
        is_clean_name(prefix),
        is_clean_name(owner_type),
        is_clean_name(owner_id),
        is_clean_name(kind),
        !has_prefix(content_hash, "sha256:"@),
    ensures
        storage_key_of(prefix, owner_type, owner_id, kind, content_hash, mime_type) == prefix
            + "/"@ + owner_type + "/"@ + owner_id + "/"@ + kind + "-"@ + content_hash + "."@
            + extension_of(mime_essence(mime_type)),
        storage_key_of(
            seq!['/'] + prefix,
            owner_type,
            owner_id,
            kind,
            "sha256:"@ + content_hash,
            mime_type,
        ) == storage_key_of(prefix, owner_type, owner_id, kind, content_hash, mime_type),
{
    law_clean_text_is_kept(prefix);
    law_clean_text_is_kept(owner_type);
    law_clean_text_is_kept(owner_id);
    law_clean_text_is_kept(kind);
    law_algorithm_names_are_dropped(content_hash);
    let slashed = seq!['/'] + prefix;
    assert forall|i: int| 0 <= i < slashed.len() implies kept_in_path(#[trigger] slashed[i]) by {
        if i > 0 {
            assert(slashed[i] == prefix[i - 1]);
        }
    }
    law_clean_text_is_kept(slashed);
    reveal_with_fuel(trim_front, 2);
    assert(slashed.drop_first() =~= prefix);
}

/// A name that a path takes as it stands.
pub open spec fn is_clean_name(s: Seq<char>) -> bool {
    &&& s.len() > 0
    &&& s[0] != '-' && s[0] != '/'
    &&& s.last() != '-' && s.last() != '/'
    &&& forall|i: int| 0 <= i < s.len() ==> kept_in_path(#[trigger] s[i])
}

/// A publication needs a base address and an endpoint, and asks for the base address
/// first; a text is taken where it says something, and the default otherwise.
pub proof fn law_settings_are_asked_for_in_order(
    settings: PublishSettings,
    value: Option<String>,
    default: Seq<char>,
)
    ensures
        missing_setting(settings) is None <==> settings.public_base_url is Some
            && settings.endpoint is Some,
        settings.public_base_url is None ==> missing_setting(settings)
            == Some("missing published_blob_public_base_url secret"@),
        settings.public_base_url is Some && settings.endpoint is None ==> missing_setting(settings)
            == Some("missing published_blob_endpoint secret"@),
        value is None ==> chosen(value, default) == default,
        value matches Some(v) ==> is_blank(v@) ==> chosen(value, default) == default,
        value matches Some(v) ==> !is_blank(v@) ==> chosen(value, default) == v@,
{
}

/// What cannot be published is named, and the reason is told apart: a source without
/// content, one whose content is stale, and one that the index does not know.
pub proof fn law_unpublishable_sources_are_named(source: Seq<char>, read: StreamModel)
    requires
        !(read is Content),
    ensures
        has_prefix(unpublishable_text(source, read), source),
        read is NoContent ==> unpublishable_text(source, read).skip(source.len() as int)
            == " has no content to publish"@,
        read matches StreamModel::StaleIndex { content_hash, .. } ==> unpublishable_text(
            source,
            read,
        ) == source + " has stale indexed content '"@ + content_hash
            + "'; rebuild projections before publishing"@,
        !(read is NoContent) && !(read is StaleIndex) ==> unpublishable_text(source, read).skip(
            source.len() as int,
        ) == " is missing from the file read index; rebuild projections before publishing"@,
{
    let text = unpublishable_text(source, read);
    assert(text.take(source.len() as int) =~= source);
    match read {
        StreamModel::NoContent { .. } => {
            assert(text.skip(source.len() as int) =~= " has no content to publish"@);
        },
        StreamModel::StaleIndex { .. } => {},
        _ => {
            assert(text.skip(source.len() as int)
                =~= " is missing from the file read index; rebuild projections before publishing"@);
        },
    }
}

/// What is recorded of an asset is what was asked for and what was read, and the public
/// address leads to the key under which the object is written.
pub proof fn law_assets_are_recorded_as_published(
    plan: AssetPlan,
    tenant: Seq<char>,
    request: PublishFileAssetRequest,
    content: PublishableContent,
    settings: PublishSettings,
)
    requires
        is_asset_plan(plan, tenant, request, content, settings),
        settings.endpoint is Some,
        settings.public_base_url is Some,
    ensures
        plan.endpoint@ == settings.endpoint->0@,
        settings.bucket matches Some(b) ==> plan.bucket@ == b@,
        settings.bucket is None ==> plan.bucket@ == "published-assets"@,
        plan.row.tenant@ == tenant,
        plan.row.source_file_id@ == request.file_id@,
        plan.row.source_file_version_id@ == request.source_file_version_id@,
        plan.row.owner_entity_type@ == request.owner_entity_type@,
        plan.row.owner_entity_id@ == request.owner_entity_id@,
        plan.row.kind@ == request.kind@,
        plan.row.content_hash@ == content.content_hash@,
        plan.row.mime_type@ == content.mime_type@,
        plan.row.byte_length == content.bytes@.len(),
        plan.row.status@ == "published"@,
        plan.row.public_url@ == public_address(
            settings.public_base_url->0@,
            plan.row.public_storage_key@,
        ),
        plan.row.id@ == asset_identity(
            plan.row.tenant@,
            plan.row.owner_entity_type@,
            plan.row.owner_entity_id@,
            plan.row.kind@,
            plan.row.content_hash@,
        ),
        request.public_key_prefix is None ==> plan.row.public_storage_key@ == storage_key_of(
            "published-assets"@,
            plan.row.owner_entity_type@,
            plan.row.owner_entity_id@,
            plan.row.kind@,
            plan.row.content_hash@,
            plan.row.mime_type@,
        ),
{
}

} // verus!
