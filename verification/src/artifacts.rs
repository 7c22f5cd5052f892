//! Publication of file content as a generic public artifact.

use vstd::prelude::*;
use vstd::string::*;

use crate::assets::bare_hash;
use crate::assets::choose_text;
use crate::assets::chosen;
use crate::assets::identity_digest;
use crate::assets::identity_seed;
use crate::assets::is_content;
use crate::assets::is_countable;
use crate::assets::missing_setting;
use crate::assets::publishable_content;
use crate::assets::source_name;
use crate::assets::source_text;
use crate::assets::unpublishable_text;
use crate::assets::PublishSettings;
use crate::assets::PublishableContent;
use crate::digest::text_digest;
use crate::file_reads::IndexedFileStreamRead;
use crate::file_reads::StreamModel;
use crate::json::json_equal;
use crate::json::law_json_equality_is_reflexive;
use crate::json::same_json;
use crate::json::JsonValue;
use crate::public_blob::extension_for_mime;
use crate::public_blob::extension_of;
use crate::public_blob::mime_essence;
use crate::public_blob::parse_url_host_path;
use crate::public_blob::public_address;
use crate::public_blob::public_url;
use crate::public_blob::url_host;
use crate::sorted::SortedMap;
use crate::text::ascii_alnum;
use crate::text::blank;
use crate::text::chars_of;
use crate::text::has_prefix;
use crate::text::is_ascii_alnum;
use crate::text::is_blank;
use crate::text::lemma_before_first;
use crate::text::pieces;
use crate::text::same_text;
use crate::text::strip_prefixes;

verus! {

/// What a caller asks to be published.
#[derive(Clone, Debug)]
pub struct PublishFileArtifactRequest {
    pub file_id: String,
    pub label: String,
    pub owner_ref_type: String,
    pub owner_ref_id: String,
    pub source_file_version_id: String,
    pub namespace: Option<String>,
}

// ---------------------------------------------------------------------------
// Path segments
// ---------------------------------------------------------------------------

/// A character of a path segment.
pub open spec fn is_segment_char(c: char) -> bool {
    is_ascii_alnum(c) || c == '-' || c == '_' || c == '.' || c == '~'
}

pub open spec fn is_relative(value: Seq<char>) -> bool {
    value == "."@ || value == ".."@
}

/// One path segment that names something and stays where it is put.
pub open spec fn is_segment(value: Seq<char>) -> bool {
    &&& value.len() > 0
    &&& !is_relative(value)
    &&& forall|i: int| 0 <= i < value.len() ==> is_segment_char(#[trigger] value[i])
}

/// What is said of a value that is no segment.
pub open spec fn bad_segment_text(field: Seq<char>, value: Seq<char>) -> Seq<char> {
    if value.len() == 0 {
        field + " must not be empty"@
    } else if is_relative(value) {
        field + " must not be a relative path segment"@
    } else {
        field
            + " must be one URI-safe path segment using only letters, digits, '-', '_', '.' or '~'"@
    }
}

/// Checks that `value` is one path segment.
pub fn validate_path_segment(field: &str, value: &str) -> (r: Result<(), String>)
    ensures
        r is Ok == is_segment(value@),
        r matches Err(e) ==> e@ == bad_segment_text(field@, value@),
{
    if value.is_empty() {
        let mut text = field.to_owned();
        text.append(" must not be empty");
        return Err(text);
    }
    if same_text(value, ".") || same_text(value, "..") {
        let mut text = field.to_owned();
        text.append(" must not be a relative path segment");
        return Err(text);
    }
    let x: Vec<char> = chars_of(value);
    let mut i: usize = 0;
    while i < x.len()
        invariant
            x@ == value@,
            value@.len() > 0,
            !is_relative(value@),
            i <= x@.len(),
            forall|j: int| 0 <= j < i ==> is_segment_char(#[trigger] value@[j]),
        decreases x@.len() - i,
    {
        let c = x[i];
        if !(ascii_alnum(c) || c == '-' || c == '_' || c == '.' || c == '~') {
            let mut text = field.to_owned();
            text.append(
                " must be one URI-safe path segment using only letters, digits, '-', '_', '.' or '~'",
            );
            return Err(text);
        }
        i += 1;
    }
    Ok(())
}

/// The fields that a request brings into a storage key, in the order of the check.
pub open spec fn request_segments(request: PublishFileArtifactRequest) -> Seq<
    (Seq<char>, Seq<char>),
> {
    let fixed = seq![
        ("label"@, request.label@),
        ("owner_ref_type"@, request.owner_ref_type@),
        ("owner_ref_id"@, request.owner_ref_id@),
    ];
    match request.namespace {
        Some(n) => fixed.push(("namespace"@, n@)),
        None => fixed,
    }
}

/// All values before place `i` are segments.
pub open spec fn segments_until(fields: Seq<(Seq<char>, Seq<char>)>, i: int) -> bool {
    forall|j: int| 0 <= j < i ==> is_segment((#[trigger] fields[j]).1)
}

/// The first value that is no segment decides what is said.
pub open spec fn first_bad_segment(fields: Seq<(Seq<char>, Seq<char>)>, text: Seq<char>) -> bool {
    exists|i: int|
        0 <= i < fields.len() && #[trigger] segments_until(fields, i) && !is_segment(fields[i].1)
            && text == bad_segment_text(fields[i].0, fields[i].1)
}

impl PublishFileArtifactRequest {
    /// Validates every part of the object key that the caller controls.
    pub fn validate(&self) -> (r: Result<(), String>)
        ensures
            r is Ok == segments_until(
                request_segments(*self),
                request_segments(*self).len() as int,
            ),
            r matches Err(e) ==> first_bad_segment(request_segments(*self), e@),
    {
        let ghost fields = request_segments(*self);
        match validate_path_segment("label", self.label.as_str()) {
            Ok(_) => {},
            Err(e) => {
                proof {
                    assert(!is_segment(fields[0].1));
                    assert(segments_until(fields, 0));
                }
                return Err(e);
            },
        }
        assert(is_segment(fields[0].1));
        match validate_path_segment("owner_ref_type", self.owner_ref_type.as_str()) {
            Ok(_) => {},
            Err(e) => {
                proof {
                    assert(!is_segment(fields[1].1));
                    assert(segments_until(fields, 1));
                }
                return Err(e);
            },
        }
        assert(is_segment(fields[1].1));
        match validate_path_segment("owner_ref_id", self.owner_ref_id.as_str()) {
            Ok(_) => {},
            Err(e) => {
                proof {
                    assert(!is_segment(fields[2].1));
                    assert(segments_until(fields, 2));
                }
                return Err(e);
            },
        }
        assert(is_segment(fields[2].1));
        match &self.namespace {
            Some(namespace) => {
                match validate_path_segment("namespace", namespace.as_str()) {
                    Ok(_) => {},
                    Err(e) => {
                        proof {
                            assert(!is_segment(fields[3].1));
                            assert(segments_until(fields, 3));
                        }
                        return Err(e);
                    },
                }
                assert(is_segment(fields[3].1));
            },
            None => {},
        }
        Ok(())
    }
}

// ---------------------------------------------------------------------------
// Names
// ---------------------------------------------------------------------------

/// The last part of a storage key.
pub open spec fn object_name(label: Seq<char>, hash: Seq<char>, mime_type: Seq<char>) -> Seq<char> {
    label + "-"@ + hash + "."@ + extension_of(mime_essence(mime_type))
}

/// The key under which an artifact is stored.
pub open spec fn artifact_key(
    namespace: Seq<char>,
    owner_type: Seq<char>,
    owner_id: Seq<char>,
    label: Seq<char>,
    content_hash: Seq<char>,
    mime_type: Seq<char>,
) -> Seq<char> {
    namespace + "/"@ + owner_type + "/"@ + owner_id + "/"@ + object_name(
        label,
        bare_hash(content_hash),
        mime_type,
    )
}

/// The parts of a storage key, in the order of the check.
pub open spec fn key_segments(
    namespace: Seq<char>,
    owner_type: Seq<char>,
    owner_id: Seq<char>,
    label: Seq<char>,
    content_hash: Seq<char>,
) -> Seq<(Seq<char>, Seq<char>)> {
    seq![
        ("namespace"@, namespace),
        ("owner_ref_type"@, owner_type),
        ("owner_ref_id"@, owner_id),
        ("label"@, label),
        ("content_hash"@, bare_hash(content_hash)),
    ]
}

/// The key under which an artifact is stored, where all its parts are segments.
pub fn public_storage_key(
    namespace: &str,
    owner_ref_type: &str,
    owner_ref_id: &str,
    label: &str,
    content_hash: &str,
    mime_type: &str,
) -> (r: Result<String, String>)
    ensures
        ({
            let fields = key_segments(
                namespace@,
                owner_ref_type@,
                owner_ref_id@,
                label@,
                content_hash@,
            );
            &&& r is Ok == segments_until(fields, 5)
            &&& r matches Ok(key) ==> key@ == artifact_key(
                namespace@,
                owner_ref_type@,
                owner_ref_id@,
                label@,
                content_hash@,
                mime_type@,
            )
            &&& r matches Err(e) ==> first_bad_segment(fields, e@)
        }),
{
    let ghost fields = key_segments(
        namespace@,
        owner_ref_type@,
        owner_ref_id@,
        label@,
        content_hash@,
    );
    let hash = strip_prefixes(content_hash, "sha256:");
    match validate_path_segment("namespace", namespace) {
        Ok(_) => {},
        Err(e) => {
            proof {
                assert(!is_segment(fields[0].1));
                assert(segments_until(fields, 0));
            }
            return Err(e);
        },
    }
    assert(is_segment(fields[0].1));
    match validate_path_segment("owner_ref_type", owner_ref_type) {
        Ok(_) => {},
        Err(e) => {
            proof {
                assert(!is_segment(fields[1].1));
                assert(segments_until(fields, 1));
            }
            return Err(e);
        },
    }
    assert(is_segment(fields[1].1));
    match validate_path_segment("owner_ref_id", owner_ref_id) {
        Ok(_) => {},
        Err(e) => {
            proof {
                assert(!is_segment(fields[2].1));
                assert(segments_until(fields, 2));
            }
            return Err(e);
        },
    }
    assert(is_segment(fields[2].1));
    match validate_path_segment("label", label) {
        Ok(_) => {},
        Err(e) => {
            proof {
                assert(!is_segment(fields[3].1));
                assert(segments_until(fields, 3));
            }
            return Err(e);
        },
    }
    assert(is_segment(fields[3].1));
    match validate_path_segment("content_hash", hash.as_str()) {
        Ok(_) => {},
        Err(e) => {
            proof {
                assert(!is_segment(fields[4].1));
                assert(segments_until(fields, 4));
            }
            return Err(e);
        },
    }
    assert(is_segment(fields[4].1));
    let mut name = label.to_owned();
    name.append("-");
    name.append(hash.as_str());
    name.append(".");
    name.append(extension_for_mime(mime_type));
    let mut key = namespace.to_owned();
    key.append("/");
    key.append(owner_ref_type);
    key.append("/");
    key.append(owner_ref_id);
    key.append("/");
    key.append(name.as_str());
    Ok(key)
}

/// The identity of an artifact.
pub open spec fn artifact_identity(
    tenant: Seq<char>,
    owner_type: Seq<char>,
    owner_id: Seq<char>,
    label: Seq<char>,
    content_hash: Seq<char>,
) -> Seq<char> {
    "part-"@ + text_digest(
        identity_seed(tenant, owner_type, owner_id, label, content_hash),
    ).take(32)
}

/// The identity of an artifact.
pub fn published_artifact_id(
    tenant: &str,
    owner_ref_type: &str,
    owner_ref_id: &str,
    label: &str,
    content_hash: &str,
) -> (r: String)
    ensures
        r@ == artifact_identity(tenant@, owner_ref_type@, owner_ref_id@, label@, content_hash@),
        r@.len() == 37,
{
    let digest = identity_digest(tenant, owner_ref_type, owner_ref_id, label, content_hash);
    let mut id = "part-".to_owned();
    id.append(digest.as_str());
    proof {
        reveal_strlit("part-");
    }
    id
}

// ---------------------------------------------------------------------------
// The source and its authorization
// ---------------------------------------------------------------------------

/// Which stream a request publishes.
pub enum PublishSource {
    File(String),
    Version(String),
}

impl PublishSource {
    /// The source as it is named in messages.
    pub open spec fn name(self) -> Seq<char> {
        match self {
            PublishSource::File(id) => source_name("File"@, id@),
            PublishSource::Version(id) => source_name("FileVersion"@, id@),
        }
    }

    /// The source as it is named in messages.
    pub fn display(&self) -> (r: String)
        ensures
            r@ == self.name(),
    {
        match self {
            PublishSource::File(id) => source_text("File", id.as_str()),
            PublishSource::Version(id) => source_text("FileVersion", id.as_str()),
        }
    }
}

/// The stream that a request publishes: the named version, or else the file.
pub fn publish_source(request: &PublishFileArtifactRequest) -> (r: PublishSource)
    ensures
        is_blank(request.source_file_version_id@) ==> r == PublishSource::File(request.file_id),
        !is_blank(request.source_file_version_id@) ==> r == PublishSource::Version(
            request.source_file_version_id,
        ),
{
    if blank(request.source_file_version_id.as_str()) {
        PublishSource::File(request.file_id.clone())
    } else {
        PublishSource::Version(request.source_file_version_id.clone())
    }
}

/// What is said when a version's file could not be looked up.
pub open spec fn relationship_failure(file_version_id: Seq<char>, error: Seq<char>) -> Seq<char> {
    "failed to load FileVersion '"@ + file_version_id + "' relationship: "@ + error
}

fn relationship_failure_text(file_version_id: &str, error: &str) -> (r: String)
    ensures
        r@ == relationship_failure(file_version_id@, error@),
{
    let mut text = "failed to load FileVersion '".to_owned();
    text.append(file_version_id);
    text.append("' relationship: ");
    text.append(error);
    text
}

/// A file that is named at all.
pub open spec fn is_named(id: Option<String>) -> bool {
    id matches Some(text) && text@.len() > 0
}

/// The file that a version belongs to as the projection has it, where there is
/// a projection and it names one.
pub fn projected_source_file_id(
    file_version_id: &str,
    projected: Option<Result<Option<String>, String>>,
) -> (r: Result<Option<String>, String>)
    ensures
        match projected {
            Some(Err(error)) => r matches Err(e) && e@ == relationship_failure(
                file_version_id@,
                error@,
            ),
            Some(Ok(id)) => r == Ok::<Option<String>, String>(
                if is_named(id) {
                    id
                } else {
                    None
                },
            ),
            None => r == Ok::<Option<String>, String>(None),
        },
{
    match projected {
        Some(Err(error)) => Err(relationship_failure_text(file_version_id, error.as_str())),
        Some(Ok(Some(id))) => {
            if id.as_str().is_empty() {
                Ok(None)
            } else {
                Ok(Some(id))
            }
        },
        _ => Ok(None),
    }
}

/// The file that a version belongs to: what the projection says, or else what
/// the authoritative state says.
pub fn file_version_source_file_id(
    file_version_id: &str,
    projected: Option<Result<Option<String>, String>>,
    state: Result<Option<String>, String>,
) -> (r: Result<String, String>)
    ensures
        match projected {
            Some(Err(error)) => r matches Err(e) && e@ == relationship_failure(
                file_version_id@,
                error@,
            ),
            _ => if projected is Some && is_named(projected->0->Ok_0) {
                r == Ok::<String, String>(projected->0->Ok_0->0)
            } else {
                match state {
                    Err(error) => r matches Err(e) && e@ == relationship_failure(
                        file_version_id@,
                        error@,
                    ),
                    Ok(id) => if is_named(id) {
                        r == Ok::<String, String>(id->0)
                    } else {
                        r matches Err(e) && e@ == "FileVersion '"@ + file_version_id@
                            + "' has no immutable file_id relationship"@
                    },
                }
            },
        },
{
    match projected_source_file_id(file_version_id, projected) {
        Err(e) => {
            return Err(e);
        },
        Ok(Some(id)) => {
            return Ok(id);
        },
        Ok(None) => {},
    }
    match state {
        Err(error) => Err(relationship_failure_text(file_version_id, error.as_str())),
        Ok(id) => {
            match id {
                Some(id) => {
                    if !id.as_str().is_empty() {
                        return Ok(id);
                    }
                },
                None => {},
            }
            let mut text = "FileVersion '".to_owned();
            text.append(file_version_id);
            text.append("' has no immutable file_id relationship");
            Err(text)
        },
    }
}

/// The state of a source as a decision sees it.
pub struct SourceView {
    pub state_precondition: String,
    pub resource_attrs: SortedMap<String, JsonValue>,
}

impl SourceView {
    pub open spec fn wf(&self) -> bool {
        self.resource_attrs.wf()
    }
}

/// The exact view of a source on which a publication was allowed.
pub struct PublishArtifactAuthorization {
    pub source_entity_type: String,
    pub source_entity_id: String,
    pub view: SourceView,
}

/// Two attribute maps hold equal values under the same names.
pub open spec fn same_attrs(
    a: Map<Seq<char>, JsonValue>,
    b: Map<Seq<char>, JsonValue>,
) -> bool {
    &&& a.dom() == b.dom()
    &&& forall|k: Seq<char>| a.dom().contains(k) ==> same_json(#[trigger] a[k], b[k])
}

/// Whether two attribute maps are equal.
pub fn attrs_equal(a: &SortedMap<String, JsonValue>, b: &SortedMap<String, JsonValue>) -> (r: bool)
    requires
        a.wf(),
        b.wf(),
    ensures
        r == same_attrs(a@, b@),
{
    proof {
        a.lemma_domain();
        b.lemma_domain();
    }
    if a.len() != b.len() {
        return false;
    }
    let n: usize = a.len();
    let mut i: usize = 0;
    while i < n
        invariant
            a.wf(),
            b.wf(),
            i <= n == a.order().len(),
            n == b.order().len(),
            forall|j: int|
                0 <= j < i ==> b@.dom().contains(#[trigger] a.order()[j]) && same_json(
                    a@[a.order()[j]],
                    b@[a.order()[j]],
                ),
        decreases n - i,
    {
        let key = a.key_at(i);
        match b.get(key) {
            None => {
                return false;
            },
            Some(other) => {
                if !json_equal(a.value_at(i), other) {
                    return false;
                }
            },
        }
        i += 1;
    }
    proof {
        a.lemma_domain();
        b.lemma_domain();
        assert forall|k: Seq<char>| a@.dom().contains(k) implies b@.dom().contains(k) && same_json(
            #[trigger] a@[k],
            b@[k],
        ) by {
            let j = choose|j: int| 0 <= j < a.order().len() && a.order()[j] == k;
            assert(a.order()[j] == k);
        }
        vstd::set_lib::lemma_subset_equality(a@.dom(), b@.dom());
    }
    true
}

/// The source still is what the authorization was given on.
pub open spec fn still_authorized(current: SourceView, granted: SourceView) -> bool {
    &&& current.state_precondition@ == granted.state_precondition@
    &&& same_attrs(current.resource_attrs@, granted.resource_attrs@)
}

/// What is said of an authorization that no longer holds.
pub open spec fn stale_text() -> Seq<char> {
    "publish source authorization became stale; retry against current state"@
}

/// Checks an authorization against the source as it is now, if it can be read.
pub fn check_authorization(
    current: Option<&SourceView>,
    authorization: &PublishArtifactAuthorization,
) -> (r: Result<(), String>)
    requires
        current matches Some(c) ==> c.wf(),
        authorization.view.wf(),
    ensures
        r is Ok == (current is Some && still_authorized(*current->0, authorization.view)),
        r matches Err(e) ==> e@ == stale_text(),
{
    match current {
        Some(view) => {
            if same_text(
                view.state_precondition.as_str(),
                authorization.view.state_precondition.as_str(),
            ) && attrs_equal(&view.resource_attrs, &authorization.view.resource_attrs) {
                return Ok(());
            }
        },
        None => {},
    }
    Err("publish source authorization became stale; retry against current state".to_owned())
}

/// The authorization holds of its source as it is now.
pub open spec fn is_granted(
    authorization: PublishArtifactAuthorization,
    current: Option<SourceView>,
) -> bool {
    current matches Some(view) && still_authorized(view, authorization.view)
}

/// Every authorization holds.
pub open spec fn all_authorized(
    authorizations: Seq<PublishArtifactAuthorization>,
    current: Seq<Option<SourceView>>,
) -> bool {
    forall|i: int|
        0 <= i < authorizations.len() ==> is_granted(#[trigger] authorizations[i], current[i])
}

/// The views are maps in order.
pub open spec fn views_wf(
    authorizations: Seq<PublishArtifactAuthorization>,
    current: Seq<Option<SourceView>>,
) -> bool {
    &&& forall|i: int| 0 <= i < authorizations.len() ==> (#[trigger] authorizations[i]).view.wf()
    &&& forall|i: int|
        0 <= i < current.len() ==> (#[trigger] current[i] matches Some(view) ==> view.wf())
}

/// Checks every authorization against its source as it is now.
pub fn check_authorizations(
    authorizations: &Vec<PublishArtifactAuthorization>,
    current: &Vec<Option<SourceView>>,
) -> (r: Result<(), String>)
    requires
        authorizations@.len() == current@.len(),
        views_wf(authorizations@, current@),
    ensures
        r is Ok == all_authorized(authorizations@, current@),
        r matches Err(e) ==> e@ == stale_text(),
{
    let mut i: usize = 0;
    while i < authorizations.len()
        invariant
            i <= authorizations@.len() == current@.len(),
            views_wf(authorizations@, current@),
            forall|j: int|
                0 <= j < i ==> is_granted(#[trigger] authorizations@[j], current@[j]),
        decreases authorizations@.len() - i,
    {
        let view: Option<&SourceView> = match &current[i] {
            Some(v) => Some(v),
            None => None,
        };
        assert(current@[i as int] matches Some(v) ==> v.wf());
        match check_authorization(view, &authorizations[i]) {
            Ok(_) => {},
            Err(e) => {
                assert(!is_granted(authorizations@[i as int], current@[i as int]));
                return Err(e);
            },
        }
        i += 1;
    }
    Ok(())
}

// ---------------------------------------------------------------------------
// The publication
// ---------------------------------------------------------------------------

/// The row that records a published artifact.
#[derive(Debug)]
pub struct PublishedArtifactStoreRow {
    pub id: String,
    pub tenant: String,
    pub source_file_id: String,
    pub source_file_version_id: String,
    pub content_hash: String,
    pub label: String,
    pub mime_type: String,
    pub byte_length: i64,
    pub public_storage_key: String,
    pub public_url: String,
    pub owner_ref_type: String,
    pub owner_ref_id: String,
    pub status: String,
}

/// Everything that is decided before the object is written.
pub struct ArtifactPlan {
    pub namespace: String,
    pub endpoint: String,
    pub endpoint_host: String,
    pub bucket: String,
    pub row: PublishedArtifactStoreRow,
}

/// The namespace that a request ends up in.
pub open spec fn namespace_of(request: PublishFileArtifactRequest) -> Seq<char> {
    chosen(request.namespace, "published-artifacts"@)
}

/// The parts of the storage key of a request.
pub open spec fn request_key_segments(
    request: PublishFileArtifactRequest,
    content_hash: Seq<char>,
) -> Seq<(Seq<char>, Seq<char>)> {
    key_segments(
        namespace_of(request),
        request.owner_ref_type@,
        request.owner_ref_id@,
        request.label@,
        content_hash,
    )
}

/// The plan is that of the request and its content.
pub open spec fn is_artifact_plan(
    plan: ArtifactPlan,
    tenant: Seq<char>,
    request: PublishFileArtifactRequest,
    content: PublishableContent,
    settings: PublishSettings,
) -> bool {
    let key = artifact_key(
        namespace_of(request),
        request.owner_ref_type@,
        request.owner_ref_id@,
        request.label@,
        content.content_hash@,
        content.mime_type@,
    );
    &&& plan.namespace@ == namespace_of(request)
    &&& plan.endpoint@ == settings.endpoint->0@
    &&& plan.endpoint_host@ == url_host(settings.endpoint->0@)
    &&& plan.bucket@ == (match settings.bucket {
        Some(b) => b@,
        None => "published-artifacts"@,
    })
    &&& plan.row.id@ == artifact_identity(
        tenant,
        request.owner_ref_type@,
        request.owner_ref_id@,
        request.label@,
        content.content_hash@,
    )
    &&& plan.row.tenant@ == tenant
    &&& plan.row.source_file_id@ == request.file_id@
    &&& plan.row.source_file_version_id@ == request.source_file_version_id@
    &&& plan.row.content_hash@ == content.content_hash@
    &&& plan.row.label@ == request.label@
    &&& plan.row.mime_type@ == content.mime_type@
    &&& plan.row.byte_length == content.bytes@.len()
    &&& plan.row.public_storage_key@ == key
    &&& plan.row.public_url@ == public_address(settings.public_base_url->0@, key)
    &&& plan.row.owner_ref_type@ == request.owner_ref_type@
    &&& plan.row.owner_ref_id@ == request.owner_ref_id@
    &&& plan.row.status@ == "published"@
}

/// The settings and the content hash make an artifact of the request.
pub open spec fn can_be_planned(
    request: PublishFileArtifactRequest,
    content_hash: Seq<char>,
    settings: PublishSettings,
) -> bool {
    missing_setting(settings) is None && segments_until(
        request_key_segments(request, content_hash),
        5,
    )
}

/// What is said when they do not.
pub open spec fn is_planning_error(
    request: PublishFileArtifactRequest,
    content_hash: Seq<char>,
    settings: PublishSettings,
    text: Seq<char>,
) -> bool {
    if missing_setting(settings) is Some {
        missing_setting(settings) == Some(text)
    } else {
        first_bad_segment(request_key_segments(request, content_hash), text)
    }
}

/// Plans the publication of content as an artifact: where the object is written
/// and what is recorded once it is there.
pub fn plan_artifact(
    tenant: &str,
    request: PublishFileArtifactRequest,
    content: &PublishableContent,
    settings: PublishSettings,
) -> (r: Result<ArtifactPlan, String>)
    requires
        content.bytes@.len() <= i64::MAX,
    ensures
        r is Ok == can_be_planned(request, content.content_hash@, settings),
        r matches Err(e) ==> is_planning_error(request, content.content_hash@, settings, e@),
        r matches Ok(plan) ==> is_artifact_plan(plan, tenant@, request, *content, settings),
{
    let base_url = match settings.public_base_url {
        Some(u) => u,
        None => {
            return Err("missing published_blob_public_base_url secret".to_owned());
        },
    };
    let endpoint = match settings.endpoint {
        Some(e) => e,
        None => {
            return Err("missing published_blob_endpoint secret".to_owned());
        },
    };
    let bucket = match settings.bucket {
        Some(b) => b,
        None => "published-artifacts".to_owned(),
    };
    let namespace = choose_text(&request.namespace, "published-artifacts");
    let endpoint_host = parse_url_host_path(endpoint.as_str()).0.to_owned();
    let key = match public_storage_key(
        namespace.as_str(),
        request.owner_ref_type.as_str(),
        request.owner_ref_id.as_str(),
        request.label.as_str(),
        content.content_hash.as_str(),
        content.mime_type.as_str(),
    ) {
        Ok(k) => k,
        Err(e) => {
            return Err(e);
        },
    };
    let address = public_url(base_url.as_str(), key.as_str());
    let id = published_artifact_id(
        tenant,
        request.owner_ref_type.as_str(),
        request.owner_ref_id.as_str(),
        request.label.as_str(),
        content.content_hash.as_str(),
    );
    Ok(
        ArtifactPlan {
            namespace,
            endpoint,
            endpoint_host,
            bucket,
            row: PublishedArtifactStoreRow {
                id,
                tenant: tenant.to_owned(),
                source_file_id: request.file_id,
                source_file_version_id: request.source_file_version_id,
                content_hash: content.content_hash.clone(),
                label: request.label,
                mime_type: content.mime_type.clone(),
                byte_length: content.bytes.len() as i64,
                public_storage_key: key,
                public_url: address,
                owner_ref_type: request.owner_ref_type,
                owner_ref_id: request.owner_ref_id,
                status: "published".to_owned(),
            },
        },
    )
}

/// The source that a request publishes, as it is named in messages.
pub open spec fn request_source(request: PublishFileArtifactRequest) -> Seq<char> {
    if is_blank(request.source_file_version_id@) {
        source_name("File"@, request.file_id@)
    } else {
        source_name("FileVersion"@, request.source_file_version_id@)
    }
}

/// The request names only segments.
pub open spec fn is_valid(request: PublishFileArtifactRequest) -> bool {
    segments_until(request_segments(request), request_segments(request).len() as int)
}

/// What is said when nothing is published: the request itself comes first, then
/// the content, the authorizations, the settings and at last the storage key.
pub open spec fn is_publication_error(
    request: PublishFileArtifactRequest,
    read: StreamModel,
    authorizations: Seq<PublishArtifactAuthorization>,
    current: Seq<Option<SourceView>>,
    settings: PublishSettings,
    text: Seq<char>,
) -> bool {
    if !is_valid(request) {
        first_bad_segment(request_segments(request), text)
    } else {
        match read {
            StreamModel::Content { content_hash, .. } => if !all_authorized(
                authorizations,
                current,
            ) {
                text == stale_text()
            } else {
                is_planning_error(request, content_hash, settings, text)
            },
            _ => text == unpublishable_text(request_source(request), read),
        }
    }
}

/// Decides a publication as an artifact by what was read: the stream of its
/// source, and for each authorization its source as it is now, where it could
/// be read.
pub fn publish_file_artifact_authorized(
    tenant: &str,
    request: PublishFileArtifactRequest,
    read: IndexedFileStreamRead,
    authorizations: &Vec<PublishArtifactAuthorization>,
    current: &Vec<Option<SourceView>>,
    settings: PublishSettings,
) -> (r: Result<(ArtifactPlan, PublishableContent), String>)
    requires
        is_countable(read@),
        authorizations@.len() == current@.len(),
        views_wf(authorizations@, current@),
    ensures
        r is Ok == (is_valid(request) && all_authorized(authorizations@, current@)
            && (read@ matches StreamModel::Content { content_hash, .. } && can_be_planned(
            request,
            content_hash,
            settings,
        ))),
        r matches Err(e) ==> is_publication_error(
            request,
            read@,
            authorizations@,
            current@,
            settings,
            e@,
        ),
        r matches Ok(planned) ==> is_content(planned.1, read@) && is_artifact_plan(
            planned.0,
            tenant@,
            request,
            planned.1,
            settings,
        ),
{
    match request.validate() {
        Ok(_) => {},
        Err(e) => {
            return Err(e);
        },
    }
    let source = publish_source(&request).display();
    let content = match publishable_content(source.as_str(), read) {
        Ok(content) => content,
        Err(e) => {
            return Err(e);
        },
    };
    match check_authorizations(authorizations, current) {
        Ok(_) => {},
        Err(e) => {
            return Err(e);
        },
    }
    match plan_artifact(tenant, request, &content, settings) {
        Ok(plan) => Ok((plan, content)),
        Err(e) => Err(e),
    }
}

/// Settles the record of an artifact: there must be a store, and it must take
/// it.
pub fn settle_artifact_record<T>(recorded: Option<Result<T, String>>) -> (r: Result<T, String>)
    ensures
        match recorded {
            Some(Ok(row)) => r == Ok::<T, String>(row),
            Some(Err(error)) => r matches Err(e) && e@ == "failed to persist published artifact: "@
                + error@,
            None => r matches Err(e) && e@ == "published artifact metadata store unavailable"@,
        },
{
    match recorded {
        Some(Ok(row)) => Ok(row),
        Some(Err(error)) => {
            let mut text = "failed to persist published artifact: ".to_owned();
            text.append(error.as_str());
            Err(text)
        },
        None => Err("published artifact metadata store unavailable".to_owned()),
    }
}

/// Nothing is published on a stale authorization: where a source changed since
/// it was allowed, or cannot be read, the publication is refused.
pub proof fn law_stale_authorizations_publish_nothing(
    authorizations: Seq<PublishArtifactAuthorization>,
    current: Seq<Option<SourceView>>,
    i: int,
)
    requires
        0 <= i < authorizations.len(),
        current[i] is None || !still_authorized(current[i]->0, authorizations[i].view),
    ensures
        !all_authorized(authorizations, current),
{
    assert(!is_granted(authorizations[i], current[i]));
}

/// A request that passed its own check can fail on the content hash alone.
pub proof fn law_validated_requests_fail_only_on_the_hash(
    request: PublishFileArtifactRequest,
    content_hash: Seq<char>,
)
    requires
        segments_until(request_segments(request), request_segments(request).len() as int),
    ensures
        segments_until(request_key_segments(request, content_hash), 4),
        segments_until(request_key_segments(request, content_hash), 5) == is_segment(
            bare_hash(content_hash),
        ),
{
    let given = request_segments(request);
    assert(is_segment(given[0].1));
    assert(is_segment(given[1].1));
    assert(is_segment(given[2].1));
    reveal_strlit("published-artifacts");
    reveal_strlit(".");
    reveal_strlit("..");
    let d = "published-artifacts"@;
    assert forall|i: int| 0 <= i < d.len() implies is_segment_char(#[trigger] d[i]) by {
        if i == 0 {
            assert(d[0] == 'p');
        } else if i == 1 {
            assert(d[1] == 'u');
        } else if i == 2 {
            assert(d[2] == 'b');
        } else if i == 3 {
            assert(d[3] == 'l');
        } else if i == 4 {
            assert(d[4] == 'i');
        } else if i == 5 {
            assert(d[5] == 's');
        } else if i == 6 {
            assert(d[6] == 'h');
        } else if i == 7 {
            assert(d[7] == 'e');
        } else if i == 8 {
            assert(d[8] == 'd');
        } else if i == 9 {
            assert(d[9] == '-');
        } else if i == 10 {
            assert(d[10] == 'a');
        } else if i == 11 {
            assert(d[11] == 'r');
        } else if i == 12 {
            assert(d[12] == 't');
        } else if i == 13 {
            assert(d[13] == 'i');
        } else if i == 14 {
            assert(d[14] == 'f');
        } else if i == 15 {
            assert(d[15] == 'a');
        } else if i == 16 {
            assert(d[16] == 'c');
        } else if i == 17 {
            assert(d[17] == 't');
        } else if i == 18 {
            assert(d[18] == 's');
        }
    }
    assert(is_segment(d));
    if request.namespace is Some {
        assert(is_segment(given[3].1));
    }
    let fields = request_key_segments(request, content_hash);
    assert(fields[4].1 == bare_hash(content_hash));
    assert(is_segment(fields[0].1));
}

proof fn lemma_segment_has_no_slash(s: Seq<char>)
    requires
        is_segment(s),
    ensures
        forall|i: int| 0 <= i < s.len() ==> #[trigger] s[i] != '/',
{
    assert forall|i: int| 0 <= i < s.len() implies #[trigger] s[i] != '/' by {
        assert(is_segment_char(s[i]));
    }
}

proof fn lemma_pieces_step(head: Seq<char>, rest: Seq<char>, c: char)
    requires
        forall|i: int| 0 <= i < head.len() ==> #[trigger] head[i] != c,
    ensures
        pieces(head + seq![c] + rest, c) == seq![head] + pieces(rest, c),
{
    let s = head + seq![c] + rest;
    assert forall|j: int| 0 <= j < head.len() implies #[trigger] s[j] != c by {
        assert(s[j] == head[j]);
    }
    lemma_before_first(s, c, head.len() as int);
    assert(s.take(head.len() as int) =~= head);
    assert(s.skip(head.len() as int + 1) =~= rest);
}

proof fn lemma_pieces_last(s: Seq<char>, c: char)
    requires
        forall|i: int| 0 <= i < s.len() ==> #[trigger] s[i] != c,
    ensures
        pieces(s, c) == seq![s],
{
    lemma_before_first(s, c, s.len() as int);
    assert(s.take(s.len() as int) =~= s);
}

proof fn lemma_extension_has_no_slash(essence: Seq<char>)
    ensures
        forall|i: int| 0 <= i < extension_of(essence).len() ==> #[trigger] extension_of(essence)[i] != '/',
{
    reveal_strlit("html");
    reveal_strlit("css");
    reveal_strlit("js");
    reveal_strlit("jpg");
    reveal_strlit("png");
    reveal_strlit("gif");
    reveal_strlit("webp");
    reveal_strlit("svg");
    reveal_strlit("json");
    reveal_strlit("md");
    reveal_strlit("bin");
}

/// A storage key has exactly four path parts: the three names as they were
/// given, and the object's own name. No part can lead out of its place.
pub proof fn law_storage_keys_do_not_break_out(
    namespace: Seq<char>,
    owner_type: Seq<char>,
    owner_id: Seq<char>,
    label: Seq<char>,
    content_hash: Seq<char>,
    mime_type: Seq<char>,
)
    requires
        segments_until(key_segments(namespace, owner_type, owner_id, label, content_hash), 5),
    ensures
        pieces(
            artifact_key(namespace, owner_type, owner_id, label, content_hash, mime_type),
            '/',
        ) == seq![
            namespace,
            owner_type,
            owner_id,
            object_name(label, bare_hash(content_hash), mime_type),
        ],
        !is_relative(namespace),
        !is_relative(owner_type),
        !is_relative(owner_id),
        !is_relative(object_name(label, bare_hash(content_hash), mime_type)),
{
    let fields = key_segments(namespace, owner_type, owner_id, label, content_hash);
    let hash = bare_hash(content_hash);
    assert(is_segment(fields[0].1));
    assert(is_segment(fields[1].1));
    assert(is_segment(fields[2].1));
    assert(is_segment(fields[3].1));
    assert(is_segment(fields[4].1));
    lemma_segment_has_no_slash(namespace);
    lemma_segment_has_no_slash(owner_type);
    lemma_segment_has_no_slash(owner_id);
    lemma_segment_has_no_slash(label);
    lemma_segment_has_no_slash(hash);
    lemma_extension_has_no_slash(mime_essence(mime_type));
    reveal_strlit("/");
    reveal_strlit("-");
    reveal_strlit(".");
    reveal_strlit("..");
    let ext = extension_of(mime_essence(mime_type));
    let name = object_name(label, hash, mime_type);
    assert("/"@ =~= seq!['/']);
    assert(name.len() == label.len() + hash.len() + ext.len() + 2);
    assert(name.len() > 2);
    assert forall|i: int| 0 <= i < name.len() implies #[trigger] name[i] != '/' by {
        if i < label.len() {
            assert(name[i] == label[i]);
        } else if i == label.len() {
            assert(name[i] == '-');
        } else if i < label.len() + 1 + hash.len() {
            assert(name[i] == hash[i - label.len() - 1]);
        } else if i == label.len() + 1 + hash.len() {
            assert(name[i] == '.');
        } else {
            assert(name[i] == ext[i - label.len() - hash.len() - 2]);
        }
    }
    let slash = seq!['/'];
    let three = owner_id + slash + name;
    let two = owner_type + slash + three;
    let key = artifact_key(namespace, owner_type, owner_id, label, content_hash, mime_type);
    assert(key =~= namespace + slash + two);
    lemma_pieces_last(name, '/');
    lemma_pieces_step(owner_id, name, '/');
    lemma_pieces_step(owner_type, three, '/');
    lemma_pieces_step(namespace, two, '/');
    assert(pieces(key, '/') =~= seq![namespace, owner_type, owner_id, name]);
}

/// Two artifacts that share a storage key share every name in it.
pub proof fn law_storage_keys_keep_owners_apart(
    a: (Seq<char>, Seq<char>, Seq<char>, Seq<char>, Seq<char>, Seq<char>),
    b: (Seq<char>, Seq<char>, Seq<char>, Seq<char>, Seq<char>, Seq<char>),
)
    requires
        segments_until(key_segments(a.0, a.1, a.2, a.3, a.4), 5),
        segments_until(key_segments(b.0, b.1, b.2, b.3, b.4), 5),
        artifact_key(a.0, a.1, a.2, a.3, a.4, a.5) == artifact_key(b.0, b.1, b.2, b.3, b.4, b.5),
    ensures
        a.0 == b.0,
        a.1 == b.1,
        a.2 == b.2,
        object_name(a.3, bare_hash(a.4), a.5) == object_name(b.3, bare_hash(b.4), b.5),
{
    law_storage_keys_do_not_break_out(a.0, a.1, a.2, a.3, a.4, a.5);
    law_storage_keys_do_not_break_out(b.0, b.1, b.2, b.3, b.4, b.5);
    let x = pieces(artifact_key(a.0, a.1, a.2, a.3, a.4, a.5), '/');
    assert(x[0] == a.0 && x[1] == a.1 && x[2] == a.2);
    assert(x[3] == object_name(a.3, bare_hash(a.4), a.5));
}

/// A segment is made of letters, digits and four marks; a slash, a space or a percent sign
/// never stands in one, and neither a dot nor two alone make one.
pub proof fn law_segments_are_plain(value: Seq<char>, i: int)
    requires
        0 <= i < value.len(),
    ensures
        is_segment(value) ==> ('a' <= value[i] <= 'z' || 'A' <= value[i] <= 'Z' || '0' <= value[i]
            <= '9' || value[i] == '-' || value[i] == '_' || value[i] == '.' || value[i] == '~'),
        value[i] == '/' || value[i] == '%' || value[i] == ' ' || value[i] == '?' ==> !is_segment(
            value,
        ),
        value == seq!['.'] || value == seq!['.', '.'] ==> !is_segment(value),
        !is_segment(Seq::empty()),
        value.len() > 2 && (forall|j: int|
            0 <= j < value.len() ==> ('a' <= #[trigger] value[j] <= 'z' || '0' <= value[j] <= '9'
                || value[j] == '-' || value[j] == '_' || value[j] == '.' || value[j] == '~' || 'A'
                <= value[j] <= 'Z')) ==> is_segment(value),
{
    reveal_strlit(".");
    reveal_strlit("..");
    assert("."@ =~= seq!['.']);
    assert(".."@ =~= seq!['.', '.']);
    if is_segment(value) {
        assert(is_segment_char(value[i]));
    }
}

/// What is wrong with a value is told apart, and its field is named first.
pub proof fn law_bad_segments_are_named(field: Seq<char>, value: Seq<char>)
    ensures
        has_prefix(bad_segment_text(field, value), field),
        value.len() == 0 ==> bad_segment_text(field, value) == field + " must not be empty"@,
        value == seq!['.'] || value == seq!['.', '.'] ==> bad_segment_text(field, value) == field
            + " must not be a relative path segment"@,
{
    reveal_strlit(".");
    reveal_strlit("..");
    assert("."@ =~= seq!['.']);
    assert(".."@ =~= seq!['.', '.']);
    assert(bad_segment_text(field, value).take(field.len() as int) =~= field);
}

/// Everything that a request brings into a storage key is checked: its label, its owner's
/// type and id, and its namespace where it has one.
pub proof fn law_requests_are_checked_in_full(request: PublishFileArtifactRequest)
    ensures
        is_valid(request) <==> {
            &&& is_segment(request.label@)
            &&& is_segment(request.owner_ref_type@)
            &&& is_segment(request.owner_ref_id@)
            &&& request.namespace matches Some(n) ==> is_segment(n@)
        },
{
    let fields = request_segments(request);
    assert(fields[0].1 == request.label@);
    assert(fields[1].1 == request.owner_ref_type@);
    assert(fields[2].1 == request.owner_ref_id@);
    if request.namespace is Some {
        assert(fields[3].1 == request.namespace->0@);
    }
}

/// The identity of an artifact is marked as one, and so is never that of an asset; behind
/// the mark stands half of the digest of its seed.
pub proof fn law_artifact_identities_are_marked(
    tenant: Seq<char>,
    owner_type: Seq<char>,
    owner_id: Seq<char>,
    label: Seq<char>,
    content_hash: Seq<char>,
)
    ensures
        ({
            let id = artifact_identity(tenant, owner_type, owner_id, label, content_hash);
            &&& id.take(5) == seq!['p', 'a', 'r', 't', '-']
            &&& id.skip(5) == text_digest(
                identity_seed(tenant, owner_type, owner_id, label, content_hash),
            ).take(32)
        }),
{
    reveal_strlit("part-");
    let id = artifact_identity(tenant, owner_type, owner_id, label, content_hash);
    assert(id.take(5) =~= seq!['p', 'a', 'r', 't', '-']);
    assert(id.skip(5) =~= text_digest(
        identity_seed(tenant, owner_type, owner_id, label, content_hash),
    ).take(32));
}

/// An authorization holds while nothing moved: a source in another state, with an
/// attribute more or less, or with one of another value is no longer the one that was
/// allowed.
pub proof fn law_changed_sources_are_not_authorized(
    current: SourceView,
    granted: SourceView,
    name: Seq<char>,
)
    requires
        still_authorized(current, granted),
    ensures
        current.state_precondition@ == granted.state_precondition@,
        current.resource_attrs@.dom().contains(name) == granted.resource_attrs@.dom().contains(
            name,
        ),
        current.resource_attrs@.dom().contains(name) ==> same_json(
            current.resource_attrs@[name],
            granted.resource_attrs@[name],
        ),
{
}

/// An unchanged source stays authorized.
pub proof fn law_unchanged_sources_stay_authorized(view: SourceView)
    ensures
        still_authorized(view, view),
{
    assert forall|k: Seq<char>| view.resource_attrs@.dom().contains(k) implies same_json(
        #[trigger] view.resource_attrs@[k],
        view.resource_attrs@[k],
    ) by {
        law_json_equality_is_reflexive(view.resource_attrs@[k]);
    }
}

/// What is recorded of an artifact is what was asked for and what was read, and the public
/// address leads to the key under which the object is written.
pub proof fn law_artifacts_are_recorded_as_published(
    plan: ArtifactPlan,
    tenant: Seq<char>,
    request: PublishFileArtifactRequest,
    content: PublishableContent,
    settings: PublishSettings,
)
    requires
        is_artifact_plan(plan, tenant, request, content, settings),
        settings.endpoint is Some,
        settings.public_base_url is Some,
    ensures
        request.namespace is None ==> plan.namespace@ == "published-artifacts"@,
        request.namespace matches Some(n) ==> !is_blank(n@) ==> plan.namespace@ == n@,
        plan.endpoint@ == settings.endpoint->0@,
        plan.endpoint_host@ == url_host(plan.endpoint@),
        settings.bucket matches Some(b) ==> plan.bucket@ == b@,
        settings.bucket is None ==> plan.bucket@ == "published-artifacts"@,
        plan.row.tenant@ == tenant,
        plan.row.source_file_id@ == request.file_id@,
        plan.row.source_file_version_id@ == request.source_file_version_id@,
        plan.row.owner_ref_type@ == request.owner_ref_type@,
        plan.row.owner_ref_id@ == request.owner_ref_id@,
        plan.row.label@ == request.label@,
        plan.row.content_hash@ == content.content_hash@,
        plan.row.mime_type@ == content.mime_type@,
        plan.row.byte_length == content.bytes@.len(),
        plan.row.status@ == "published"@,
        plan.row.public_url@ == public_address(
            settings.public_base_url->0@,
            plan.row.public_storage_key@,
        ),
        plan.row.public_storage_key@ == artifact_key(
            plan.namespace@,
            plan.row.owner_ref_type@,
            plan.row.owner_ref_id@,
            plan.row.label@,
            plan.row.content_hash@,
            plan.row.mime_type@,
        ),
        plan.row.id@ == artifact_identity(
            plan.row.tenant@,
            plan.row.owner_ref_type@,
            plan.row.owner_ref_id@,
            plan.row.label@,
            plan.row.content_hash@,
        ),
{
}

/// A refused publication tells the first thing that is wrong: the request before the
/// content, the content before the authorizations, and these before the settings.
pub proof fn law_publications_are_refused_in_order(
    request: PublishFileArtifactRequest,
    read: StreamModel,
    authorizations: Seq<PublishArtifactAuthorization>,
    current: Seq<Option<SourceView>>,
    settings: PublishSettings,
    text: Seq<char>,
)
    requires
        is_publication_error(request, read, authorizations, current, settings, text),
    ensures
        !is_valid(request) ==> exists|i: int|
            0 <= i < request_segments(request).len() && !is_segment(
                (#[trigger] request_segments(request)[i]).1,
            ) && text == bad_segment_text(
                request_segments(request)[i].0,
                request_segments(request)[i].1,
            ) && forall|j: int|
                0 <= j < i ==> is_segment((#[trigger] request_segments(request)[j]).1),
        is_valid(request) && !(read is Content) && is_blank(request.source_file_version_id@)
            ==> text == unpublishable_text("File('"@ + request.file_id@ + "')"@, read),
        is_valid(request) && !(read is Content) && !is_blank(request.source_file_version_id@)
            ==> text == unpublishable_text(
            "FileVersion('"@ + request.source_file_version_id@ + "')"@,
            read,
        ),
        is_valid(request) && read is Content && !all_authorized(authorizations, current) ==> text
            == "publish source authorization became stale; retry against current state"@,
        is_valid(request) && read is Content && all_authorized(authorizations, current)
            && settings.public_base_url is None ==> text
            == "missing published_blob_public_base_url secret"@,
{
    reveal_strlit("File");
    reveal_strlit("FileVersion");
    reveal_strlit("('");
    reveal_strlit("File('");
    reveal_strlit("FileVersion('");
    assert("File"@ + "('"@ =~= "File('"@);
    assert("FileVersion"@ + "('"@ =~= "FileVersion('"@);
    if !is_valid(request) {
        let fields = request_segments(request);
        let i = choose|i: int|
            0 <= i < fields.len() && #[trigger] segments_until(fields, i) && !is_segment(
                fields[i].1,
            ) && text == bad_segment_text(fields[i].0, fields[i].1);
        assert(!is_segment(fields[i].1));
    }
}

/// An artifact without a namespace of its own is published among the artifacts, and
/// the content that a request takes is named by the version it gives or else by its
/// file.
pub proof fn law_requests_name_their_source(request: PublishFileArtifactRequest)
    ensures
        !is_blank(request.source_file_version_id@) ==> request_source(request) == "FileVersion('"@
            + request.source_file_version_id@ + "')"@,
        is_blank(request.source_file_version_id@) ==> request_source(request) == "File('"@
            + request.file_id@ + "')"@,
        request.namespace is None ==> namespace_of(request) == "published-artifacts"@,
        request.namespace matches Some(n) ==> !is_blank(n@) ==> namespace_of(request) == n@,
{
    reveal_strlit("File");
    reveal_strlit("FileVersion");
    reveal_strlit("('");
    reveal_strlit("File('");
    reveal_strlit("FileVersion('");
    assert("File"@ + "('"@ =~= "File('"@);
    assert("FileVersion"@ + "('"@ =~= "FileVersion('"@);
}

/// Where a part of a storage key is no segment, the refusal names the first such part, in
/// the order of namespace, owner type, owner id, label and content.
pub proof fn law_the_first_bad_part_is_named(
    namespace: Seq<char>,
    owner_type: Seq<char>,
    owner_id: Seq<char>,
    label: Seq<char>,
    content_hash: Seq<char>,
    text: Seq<char>,
)
    requires
        first_bad_segment(key_segments(namespace, owner_type, owner_id, label, content_hash), text),
    ensures
        text == (if !is_segment(namespace) {
            bad_segment_text("namespace"@, namespace)
        } else if !is_segment(owner_type) {
            bad_segment_text("owner_ref_type"@, owner_type)
        } else if !is_segment(owner_id) {
            bad_segment_text("owner_ref_id"@, owner_id)
        } else if !is_segment(label) {
            bad_segment_text("label"@, label)
        } else {
            bad_segment_text("content_hash"@, bare_hash(content_hash))
        }),
{
    let fields = key_segments(namespace, owner_type, owner_id, label, content_hash);
    let i = choose|i: int|
        0 <= i < fields.len() && #[trigger] segments_until(fields, i) && !is_segment(fields[i].1)
            && text == bad_segment_text(fields[i].0, fields[i].1);
    assert(0 < i ==> is_segment(fields[0].1));
    assert(1 < i ==> is_segment(fields[1].1));
    assert(2 < i ==> is_segment(fields[2].1));
    assert(3 < i ==> is_segment(fields[3].1));
}

} // verus!
