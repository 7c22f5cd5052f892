//! Reads of file content through the query projection, reconciled with the
//! authoritative entity state.

use vstd::prelude::*;
use vstd::string::*;

use crate::json::bool_field;
use crate::json::get_bool;
use crate::json::get_text;
use crate::json::json_wf;
use crate::json::text_field;
use crate::json::JsonValue;
use crate::sorted::texts;
use crate::sorted::SortedMap;
use crate::text::lowercase;
use crate::text::same_ignoring_case;
use crate::text::same_text;

verus! {

// ---------------------------------------------------------------------------
// What the projection says of a file
// ---------------------------------------------------------------------------

/// One row of projected fields.
pub struct QueryProjectionFieldsRow {
    pub entity_id: String,
    pub fields: SortedMap<String, Option<String>>,
}

/// What is known of a file's content without reading it.
#[derive(Debug)]
pub struct FileProjectionMeta {
    pub content_hash: String,
    pub mime_type: String,
    pub has_content: bool,
}

/// The model of what is known of a file's content.
#[verifier::ext_equal]
pub struct MetaModel {
    pub content_hash: Seq<char>,
    pub mime_type: Seq<char>,
    pub has_content: bool,
}

impl View for FileProjectionMeta {
    type V = MetaModel;

    open spec fn view(&self) -> MetaModel {
        MetaModel {
            content_hash: self.content_hash@,
            mime_type: self.mime_type@,
            has_content: self.has_content,
        }
    }
}

impl FileProjectionMeta {
    /// A copy with the same content.
    pub fn copy(&self) -> (r: FileProjectionMeta)
        ensures
            r@ == self@,
    {
        FileProjectionMeta {
            content_hash: self.content_hash.clone(),
            mime_type: self.mime_type.clone(),
            has_content: self.has_content,
        }
    }
}

/// The text under `name` in projected fields, empty where there is none.
pub open spec fn row_text(fields: Map<Seq<char>, Option<String>>, name: Seq<char>) -> Seq<char> {
    if fields.dom().contains(name) && fields[name] is Some {
        fields[name]->0@
    } else {
        Seq::empty()
    }
}

fn get_row_text(fields: &SortedMap<String, Option<String>>, name: &str) -> (r: String)
    requires
        fields.wf(),
    ensures
        r@ == row_text(fields@, name@),
{
    match fields.get(&name.to_owned()) {
        Some(Some(t)) => t.clone(),
        _ => String::new(),
    }
}

/// What a projected row says of a file: its content flag is the text `true`, in
/// any case of letters.
pub open spec fn file_row_meta(fields: Map<Seq<char>, Option<String>>) -> MetaModel {
    MetaModel {
        content_hash: row_text(fields, "content_hash"@),
        mime_type: row_text(fields, "mime_type"@),
        has_content: lowercase(row_text(fields, "has_content"@)) == lowercase("true"@),
    }
}

/// What a projected row says of a file version: it has content when it has a hash.
pub open spec fn version_row_meta(fields: Map<Seq<char>, Option<String>>) -> MetaModel {
    MetaModel {
        content_hash: row_text(fields, "content_hash"@),
        mime_type: row_text(fields, "mime_type"@),
        has_content: row_text(fields, "content_hash"@).len() > 0,
    }
}

/// What a projected row says of a file.
pub fn file_projection_from_row(row: QueryProjectionFieldsRow) -> (r: FileProjectionMeta)
    requires
        row.fields.wf(),
    ensures
        r@ == file_row_meta(row.fields@),
        row.fields@.dom().contains("content_hash"@) && row.fields@["content_hash"@] is Some
            ==> r.content_hash@ == row.fields@["content_hash"@]->0@,
        row.fields@.dom().contains("mime_type"@) && row.fields@["mime_type"@] is Some
            ==> r.mime_type@ == row.fields@["mime_type"@]->0@,
        row.fields@.dom().contains("has_content"@) && row.fields@["has_content"@] is Some
            && row.fields@["has_content"@]->0@ == "true"@ ==> r.has_content,
        r.has_content ==> row.fields@.dom().contains("has_content"@)
            && row.fields@["has_content"@] is Some,
{
    proof {
        law_flagged_rows_have_content(row.fields@);
    }
    let flag = get_row_text(&row.fields, "has_content");
    FileProjectionMeta {
        content_hash: get_row_text(&row.fields, "content_hash"),
        mime_type: get_row_text(&row.fields, "mime_type"),
        has_content: same_ignoring_case(flag.as_str(), "true"),
    }
}

/// What a projected row says of a file version.
pub fn file_version_projection_from_row(row: QueryProjectionFieldsRow) -> (r: FileProjectionMeta)
    requires
        row.fields.wf(),
    ensures
        r@ == version_row_meta(row.fields@),
        row.fields@.dom().contains("content_hash"@) && row.fields@["content_hash"@] is Some
            && row.fields@["content_hash"@]->0@.len() > 0 ==> r.has_content && r.content_hash@
            == row.fields@["content_hash"@]->0@,
        r.has_content ==> row.fields@.dom().contains("content_hash"@)
            && row.fields@["content_hash"@] is Some && row.fields@["content_hash"@]->0@.len() > 0,
        row.fields@.dom().contains("mime_type"@) && row.fields@["mime_type"@] is Some
            ==> r.mime_type@ == row.fields@["mime_type"@]->0@,
{
    let content_hash = get_row_text(&row.fields, "content_hash");
    let has_content = !content_hash.as_str().is_empty();
    FileProjectionMeta {
        content_hash,
        mime_type: get_row_text(&row.fields, "mime_type"),
        has_content,
    }
}

/// The text under `name` in entity fields, empty where there is none.
pub open spec fn state_text(fields: JsonValue, name: Seq<char>) -> Seq<char> {
    match text_field(fields, name) {
        Some(t) => t,
        None => Seq::empty(),
    }
}

fn get_state_text(fields: &JsonValue, name: &str) -> (r: String)
    requires
        json_wf(*fields),
    ensures
        r@ == state_text(*fields, name@),
{
    match get_text(fields, name) {
        Some(t) => t,
        None => String::new(),
    }
}

/// What an entity's fields say of a file: its content flag is a truth value.
pub open spec fn file_state_meta(fields: JsonValue) -> MetaModel {
    MetaModel {
        content_hash: state_text(fields, "content_hash"@),
        mime_type: state_text(fields, "mime_type"@),
        has_content: bool_field(fields, "has_content"@) == Some(true),
    }
}

/// What an entity's fields say of a file version: it has content when it has a hash.
pub open spec fn version_state_meta(fields: JsonValue) -> MetaModel {
    MetaModel {
        content_hash: state_text(fields, "content_hash"@),
        mime_type: state_text(fields, "mime_type"@),
        has_content: state_text(fields, "content_hash"@).len() > 0,
    }
}

/// What an entity's fields say of a file.
pub fn file_projection_from_state(fields: &JsonValue) -> (r: FileProjectionMeta)
    requires
        json_wf(*fields),
    ensures
        r@ == (MetaModel {
            content_hash: state_text(*fields, "content_hash"@),
            mime_type: state_text(*fields, "mime_type"@),
            has_content: bool_field(*fields, "has_content"@) == Some(true),
        }),
        r@ == file_state_meta(*fields),
{
    let has_content = match get_bool(fields, "has_content") {
        Some(b) => b,
        None => false,
    };
    FileProjectionMeta {
        content_hash: get_state_text(fields, "content_hash"),
        mime_type: get_state_text(fields, "mime_type"),
        has_content,
    }
}

/// What an entity's fields say of a file version.
pub fn file_version_projection_from_state(fields: &JsonValue) -> (r: FileProjectionMeta)
    requires
        json_wf(*fields),
    ensures
        r@ == (MetaModel {
            content_hash: state_text(*fields, "content_hash"@),
            mime_type: state_text(*fields, "mime_type"@),
            has_content: state_text(*fields, "content_hash"@).len() > 0,
        }),
        r@ == version_state_meta(*fields),
{
    let content_hash = get_state_text(fields, "content_hash");
    let has_content = !content_hash.as_str().is_empty();
    FileProjectionMeta {
        content_hash,
        mime_type: get_state_text(fields, "mime_type"),
        has_content,
    }
}

/// A projected row whose flag is the text `true` has content, in whatever case of
/// letters it stands, and one without a flag has none.
pub proof fn law_flagged_rows_have_content(fields: Map<Seq<char>, Option<String>>)
    ensures
        row_text(fields, "has_content"@) == "true"@ ==> file_row_meta(fields).has_content,
        row_text(fields, "has_content"@) == "TRUE"@ ==> file_row_meta(fields).has_content,
        row_text(fields, "has_content"@) == "false"@ ==> !file_row_meta(fields).has_content,
        file_row_meta(fields).has_content ==> row_text(fields, "has_content"@).len() == 4,
{
    reveal_strlit("true");
    reveal_strlit("TRUE");
    reveal_strlit("false");
    assert(lowercase("TRUE"@) =~= lowercase("true"@));
    assert(lowercase("false"@).len() == 5);
    assert(lowercase("true"@).len() == 4);
    assert(lowercase(row_text(fields, "has_content"@)).len() == row_text(
        fields,
        "has_content"@,
    ).len());
}

/// A row of a file version with a hash wants its content, whatever other fields the
/// row has; and once its bytes are fetched, they are what is read.
pub proof fn law_version_rows_with_a_hash_are_read(
    fields: Map<Seq<char>, Option<String>>,
    bytes: Seq<u8>,
)
    requires
        fields.dom().contains("content_hash"@),
        fields["content_hash"@] is Some,
        fields["content_hash"@]->0@.len() > 0,
    ensures
        ({
            let meta = version_row_meta(fields);
            let hash = fields["content_hash"@]->0@;
            &&& content_is_readable(meta)
            &&& read_of(meta, Some(bytes)) matches StreamModel::Content {
                content_hash,
                bytes: read,
                ..
            }
            &&& content_hash == hash
            &&& read == bytes
            &&& read_of(meta, None) matches StreamModel::StaleIndex { content_hash: named, .. }
            &&& named == hash
        }),
{
}

/// A row and an entity's state that name the same hash and the same type say the same
/// of a file version.
pub proof fn law_rows_and_states_agree_on_versions(
    row: Map<Seq<char>, Option<String>>,
    state: JsonValue,
)
    requires
        row_text(row, "content_hash"@) == state_text(state, "content_hash"@),
        row_text(row, "mime_type"@) == state_text(state, "mime_type"@),
    ensures
        version_row_meta(row) == version_state_meta(state),
{
}

/// A row and an entity's state that name the same hash and the same type, and whose
/// flags are both up or both down, say the same of a file.
pub proof fn law_rows_and_states_agree_on_files(
    row: Map<Seq<char>, Option<String>>,
    state: JsonValue,
    flag: bool,
)
    requires
        row_text(row, "content_hash"@) == state_text(state, "content_hash"@),
        row_text(row, "mime_type"@) == state_text(state, "mime_type"@),
        row_text(row, "has_content"@) == if flag {
            "true"@
        } else {
            "false"@
        },
        bool_field(state, "has_content"@) == Some(flag),
    ensures
        file_row_meta(row) == file_state_meta(state),
        file_row_meta(row).has_content == flag,
        file_row_meta(row).content_hash == row_text(row, "content_hash"@),
        file_row_meta(row).mime_type == row_text(row, "mime_type"@),
{
    law_flagged_rows_have_content(row);
}

/// A text of a row is read under its own name.
pub proof fn law_row_texts_are_read_by_name(
    fields: Map<Seq<char>, Option<String>>,
    name: Seq<char>,
    text: String,
)
    ensures
        row_text(fields.insert(name, Some(text)), name) == text@,
        row_text(fields.insert(name, None), name).len() == 0,
        row_text(fields.remove(name), name).len() == 0,
{
}

/// Whether the rows of a batch are files or file versions.
#[derive(Clone, Copy)]
pub enum StreamKind {
    File,
    Version,
}

/// What a row of the given kind says.
pub open spec fn row_meta(kind: StreamKind, row: QueryProjectionFieldsRow) -> MetaModel {
    match kind {
        StreamKind::File => file_row_meta(row.fields@),
        StreamKind::Version => version_row_meta(row.fields@),
    }
}

/// Rows by entity id, a later row in place of an earlier one.
pub open spec fn rows_by_id(kind: StreamKind, rows: Seq<QueryProjectionFieldsRow>) -> Map<
    Seq<char>,
    MetaModel,
>
    decreases rows.len(),
{
    if rows.len() == 0 {
        Map::empty()
    } else {
        rows_by_id(kind, rows.drop_last()).insert(
            rows.last().entity_id@,
            row_meta(kind, rows.last()),
        )
    }
}

/// The models of the metadata in a map.
pub open spec fn meta_models(m: Map<Seq<char>, FileProjectionMeta>) -> Map<Seq<char>, MetaModel> {
    m.map_values(|v: FileProjectionMeta| v@)
}

/// Collects what the projected rows say, by entity id.
pub fn projection_metadata_from_rows(kind: StreamKind, rows: Vec<QueryProjectionFieldsRow>) -> (r:
    SortedMap<String, FileProjectionMeta>)
    requires
        forall|i: int| 0 <= i < rows@.len() ==> (#[trigger] rows@[i]).fields.wf(),
    ensures
        r.wf(),
        meta_models(r@) == rows_by_id(kind, rows@),
{
    let mut by_id: SortedMap<String, FileProjectionMeta> = SortedMap::new();
    let ghost all = rows@;
    assert(meta_models(by_id@) =~= rows_by_id(kind, all.take(0)));
    for row in it: rows
        invariant
            it.seq() == all,
            forall|i: int| 0 <= i < all.len() ==> (#[trigger] all[i]).fields.wf(),
            by_id.wf(),
            meta_models(by_id@) == rows_by_id(kind, all.take(it.index() as int)),
    {
        let ghost i = it.index() as int;
        let ghost prior = by_id@;
        assert(row == all[i]);
        assert(all.take(i + 1).drop_last() =~= all.take(i));
        let id = row.entity_id.clone();
        let meta = match kind {
            StreamKind::File => file_projection_from_row(row),
            StreamKind::Version => file_version_projection_from_row(row),
        };
        let _ = by_id.insert(id, meta);
        assert(meta_models(by_id@) =~= meta_models(prior).insert(id@, meta@));
    }
    assert(all.take(all.len() as int) =~= all);
    by_id
}

/// What a batch knows of an id is what its last row says, and no row is lost.
pub proof fn law_latest_rows_answer(
    kind: StreamKind,
    rows: Seq<QueryProjectionFieldsRow>,
    i: int,
)
    requires
        0 <= i < rows.len(),
        forall|j: int| i < j < rows.len() ==> (#[trigger] rows[j]).entity_id@ != rows[i].entity_id@,
    ensures
        rows_by_id(kind, rows).dom().contains(rows[i].entity_id@),
        rows_by_id(kind, rows)[rows[i].entity_id@].content_hash == row_text(
            rows[i].fields@,
            "content_hash"@,
        ),
        rows_by_id(kind, rows)[rows[i].entity_id@].mime_type == row_text(
            rows[i].fields@,
            "mime_type"@,
        ),
        kind is Version ==> rows_by_id(kind, rows)[rows[i].entity_id@].has_content == (row_text(
            rows[i].fields@,
            "content_hash"@,
        ).len() > 0),
    decreases rows.len(),
{
    if i < rows.len() - 1 {
        let rest = rows.drop_last();
        assert(rest[i] == rows[i]);
        assert forall|j: int| i < j < rest.len() implies (#[trigger] rest[j]).entity_id@
            != rest[i].entity_id@ by {
            assert(rest[j] == rows[j]);
        }
        law_latest_rows_answer(kind, rest, i);
        assert(rows[rows.len() - 1].entity_id@ != rows[i].entity_id@);
    }
}

/// The requested ids that no row answered, in the order of the request.
pub open spec fn unanswered(ids: Seq<Seq<char>>, known: Set<Seq<char>>) -> Seq<Seq<char>> {
    ids.filter(|id: Seq<char>| !known.contains(id))
}

/// The requested ids that no row answered, in the order of the request.
pub fn missing_projection_ids(
    ids: &Vec<String>,
    by_id: &SortedMap<String, FileProjectionMeta>,
) -> (r: Vec<String>)
    requires
        by_id.wf(),
    ensures
        texts(r@) == unanswered(texts(ids@), by_id@.dom()),
{
    let mut out: Vec<String> = Vec::new();
    let mut i: usize = 0;
    let ghost all = texts(ids@);
    let ghost keep = |id: Seq<char>| !by_id@.dom().contains(id);
    proof {
        reveal(Seq::filter);
        assert(texts(out@) =~= all.take(0).filter(keep));
    }
    while i < ids.len()
        invariant
            by_id.wf(),
            all == texts(ids@),
            keep == (|id: Seq<char>| !by_id@.dom().contains(id)),
            i <= ids@.len(),
            texts(out@) == all.take(i as int).filter(keep),
        decreases ids@.len() - i,
    {
        let ghost prior = texts(out@);
        if !by_id.contains_key(&ids[i]) {
            out.push(ids[i].clone());
            assert(texts(out@) =~= prior.push(all[i as int]));
        }
        proof {
            reveal(Seq::filter);
            assert(all.take(i + 1).drop_last() =~= all.take(i as int));
            assert(all.take(i + 1).last() == all[i as int]);
        }
        i += 1;
    }
    assert(all.take(ids@.len() as int) =~= all);
    out
}

/// Every requested id is answered by a row or is among the missing ones, and nothing
/// is missing that was not asked for.
pub proof fn law_requested_ids_are_known_or_missing(
    ids: Seq<Seq<char>>,
    known: Set<Seq<char>>,
    id: Seq<char>,
)
    ensures
        unanswered(ids, known).contains(id) == (ids.contains(id) && !known.contains(id)),
{
    let keep = |x: Seq<char>| !known.contains(x);
    if unanswered(ids, known).contains(id) {
        ids.lemma_filter_contains_rev(keep, id);
        let i = choose|i: int| 0 <= i < ids.filter(keep).len() && ids.filter(keep)[i] == id;
        ids.lemma_filter_pred(keep, i);
    } else if ids.contains(id) && !known.contains(id) {
        let i = choose|i: int| 0 <= i < ids.len() && ids[i] == id;
        assert(keep(ids[i]));
        ids.lemma_filter_contains(keep, i);
    }
}

// ---------------------------------------------------------------------------
// Stream reads
// ---------------------------------------------------------------------------

/// The outcome of reading a stream through the index.
#[derive(Debug)]
pub enum IndexedFileStreamRead {
    /// Neither the index nor the entity state knows the file.
    MissingIndex,
    /// The index names content that the blob store does not hold.
    StaleIndex { content_hash: String, mime_type: String },
    /// The file is known and has no content.
    NoContent { content_hash: String, mime_type: String },
    /// The content.
    Content { content_hash: String, mime_type: String, bytes: Vec<u8> },
}

/// The model of the outcome of a stream read.
pub enum StreamModel {
    MissingIndex,
    StaleIndex { content_hash: Seq<char>, mime_type: Seq<char> },
    NoContent { content_hash: Seq<char>, mime_type: Seq<char> },
    Content { content_hash: Seq<char>, mime_type: Seq<char>, bytes: Seq<u8> },
}

impl View for IndexedFileStreamRead {
    type V = StreamModel;

    open spec fn view(&self) -> StreamModel {
        match self {
            IndexedFileStreamRead::MissingIndex => StreamModel::MissingIndex,
            IndexedFileStreamRead::StaleIndex { content_hash, mime_type } =>
                StreamModel::StaleIndex { content_hash: content_hash@, mime_type: mime_type@ },
            IndexedFileStreamRead::NoContent { content_hash, mime_type } => StreamModel::NoContent {
                content_hash: content_hash@,
                mime_type: mime_type@,
            },
            IndexedFileStreamRead::Content { content_hash, mime_type, bytes } =>
                StreamModel::Content {
                content_hash: content_hash@,
                mime_type: mime_type@,
                bytes: bytes@,
            },
        }
    }
}

/// The content hash that a read names.
pub open spec fn read_hash(read: StreamModel) -> Option<Seq<char>> {
    match read {
        StreamModel::MissingIndex => None,
        StreamModel::StaleIndex { content_hash, .. } => Some(content_hash),
        StreamModel::NoContent { content_hash, .. } => Some(content_hash),
        StreamModel::Content { content_hash, .. } => Some(content_hash),
    }
}

/// The content hash that a read names, if it names one.
pub fn stream_read_content_hash(read: &IndexedFileStreamRead) -> (r: Option<&str>)
    ensures
        r is Some == read_hash(read@) is Some,
        r matches Some(h) ==> read_hash(read@) == Some(h@),
{
    match read {
        IndexedFileStreamRead::Content { content_hash, .. } => Some(content_hash.as_str()),
        IndexedFileStreamRead::NoContent { content_hash, .. } => Some(content_hash.as_str()),
        IndexedFileStreamRead::StaleIndex { content_hash, .. } => Some(content_hash.as_str()),
        IndexedFileStreamRead::MissingIndex => None,
    }
}

/// Content is read only where there is some and its hash is known.
pub open spec fn content_is_readable(meta: MetaModel) -> bool {
    meta.has_content && meta.content_hash.len() > 0
}

/// Whether the bytes behind the metadata are to be fetched.
pub fn wants_content(meta: &FileProjectionMeta) -> (r: bool)
    ensures
        r == content_is_readable(meta@),
{
    meta.has_content && !meta.content_hash.as_str().is_empty()
}

/// The read that metadata and the fetched bytes amount to.
pub open spec fn read_of(meta: MetaModel, bytes: Option<Seq<u8>>) -> StreamModel {
    if !content_is_readable(meta) {
        StreamModel::NoContent { content_hash: meta.content_hash, mime_type: meta.mime_type }
    } else {
        match bytes {
            None => StreamModel::StaleIndex {
                content_hash: meta.content_hash,
                mime_type: meta.mime_type,
            },
            Some(b) => StreamModel::Content {
                content_hash: meta.content_hash,
                mime_type: meta.mime_type,
                bytes: b,
            },
        }
    }
}

/// The bytes inside an option, as a sequence.
pub open spec fn bytes_option(bytes: Option<Vec<u8>>) -> Option<Seq<u8>> {
    match bytes {
        Some(b) => Some(b@),
        None => None,
    }
}

/// The read that metadata and the fetched bytes amount to. Bytes are fetched
/// only where `wants_content` says so.
pub fn read_indexed_stream_from_meta(meta: FileProjectionMeta, bytes: Option<Vec<u8>>) -> (r:
    IndexedFileStreamRead)
    ensures
        r@ == read_of(meta@, bytes_option(bytes)),
{
    if !wants_content(&meta) {
        return IndexedFileStreamRead::NoContent {
            content_hash: meta.content_hash,
            mime_type: meta.mime_type,
        };
    }
    match bytes {
        None => IndexedFileStreamRead::StaleIndex {
            content_hash: meta.content_hash,
            mime_type: meta.mime_type,
        },
        Some(bytes) => IndexedFileStreamRead::Content {
            content_hash: meta.content_hash,
            mime_type: meta.mime_type,
            bytes,
        },
    }
}

/// A read invents nothing: its hash and its type are those of the metadata, its bytes
/// are those that were fetched, and content without a hash or a flag is never read.
pub proof fn law_reads_are_what_was_fetched(meta: MetaModel, bytes: Option<Seq<u8>>)
    ensures
        ({
            let read = read_of(meta, bytes);
            &&& read !is MissingIndex
            &&& read_hash(read) == Some(meta.content_hash)
            &&& read is Content == (meta.has_content && meta.content_hash.len() > 0 && bytes is Some)
            &&& read is NoContent == (!meta.has_content || meta.content_hash.len() == 0)
            &&& read matches StreamModel::Content { mime_type, bytes: b, .. } ==> mime_type
                == meta.mime_type && bytes == Some(b)
            &&& read matches StreamModel::NoContent { mime_type, .. } ==> mime_type
                == meta.mime_type
            &&& read matches StreamModel::StaleIndex { mime_type, .. } ==> mime_type
                == meta.mime_type
        }),
{
}

/// A read that may have raced ahead of the projection of a committed write.
pub open spec fn may_lag(read: StreamModel) -> bool {
    read is StaleIndex || read is NoContent
}

/// The read that the caller gets. A read that may lag gives way to a state that has
/// content, and a stale one also to a state that names other content.
pub open spec fn reconciled(read: StreamModel, fallback: StreamModel) -> StreamModel {
    match read {
        StreamModel::StaleIndex { content_hash, .. } => if fallback is Content || (read_hash(
            fallback,
        ) is Some && read_hash(fallback)->0 != content_hash) {
            fallback
        } else {
            read
        },
        StreamModel::NoContent { .. } => if fallback is Content {
            fallback
        } else {
            read
        },
        _ => read,
    }
}

/// Reconciles an indexed read with the read from the authoritative state.
pub fn reconcile_indexed_stream_read(
    read: IndexedFileStreamRead,
    fallback: IndexedFileStreamRead,
) -> (r: IndexedFileStreamRead)
    ensures
        r@ == reconciled(read@, fallback@),
        r == read || r == fallback,
{
    let lags: bool = match &read {
        IndexedFileStreamRead::StaleIndex { content_hash, .. } => {
            match stream_read_content_hash(&fallback) {
                Some(hash) => {
                    if !same_text(hash, content_hash.as_str()) {
                        return fallback;
                    }
                },
                None => {},
            }
            true
        },
        IndexedFileStreamRead::NoContent { .. } => true,
        _ => false,
    };
    if lags {
        match &fallback {
            IndexedFileStreamRead::Content { .. } => {
                return fallback;
            },
            _ => {},
        }
    }
    read
}

/// What was found of a file: its metadata and the bytes that were fetched for it.
pub struct FoundStream {
    pub meta: FileProjectionMeta,
    pub bytes: Option<Vec<u8>>,
}

/// The read that was found in the index or in the entity's state.
pub open spec fn found_read(found: FoundStream) -> StreamModel {
    read_of(found.meta@, bytes_option(found.bytes))
}

/// The read from the entity's state; without one the file is not known.
pub open spec fn state_read(state: Option<FoundStream>) -> StreamModel {
    match state {
        Some(found) => found_read(found),
        None => StreamModel::MissingIndex,
    }
}

/// The read that index and state amount to.
pub open spec fn stream_read(
    indexed: Option<FoundStream>,
    state: Option<FoundStream>,
) -> StreamModel {
    match indexed {
        Some(found) => reconciled(found_read(found), state_read(state)),
        None => state_read(state),
    }
}

/// Whether the entity's state has to be asked as well: where the index does not
/// have the file, or may lag behind it.
pub fn wants_state(indexed: &Option<FoundStream>) -> (r: bool)
    ensures
        r == (*indexed matches Some(found) ==> may_lag(found_read(found))),
{
    match indexed {
        Some(found) => !wants_content(&found.meta) || found.bytes.is_none(),
        None => true,
    }
}

/// Reads a file or a version of one, by what its index and its state say. The
/// state counts only where `wants_state` says that it is asked.
pub fn read_file_stream_indexed(indexed: Option<FoundStream>, state: Option<FoundStream>) -> (r:
    IndexedFileStreamRead)
    ensures
        r@ == stream_read(indexed, state),
{
    let fallback = match state {
        Some(found) => read_indexed_stream_from_meta(found.meta, found.bytes),
        None => IndexedFileStreamRead::MissingIndex,
    };
    match indexed {
        Some(found) => {
            let read = read_indexed_stream_from_meta(found.meta, found.bytes);
            reconcile_indexed_stream_read(read, fallback)
        },
        None => fallback,
    }
}

/// A write is read as soon as the entity's state has it, whatever the index knows
/// of the file, unless the index has content itself.
pub proof fn law_reads_follow_writes(indexed: Option<FoundStream>, state: Option<FoundStream>)
    requires
        state_read(state) is Content,
        indexed matches Some(found) ==> found_read(found) !is Content,
    ensures
        stream_read(indexed, state) == state_read(state),
{
}

/// Where the index is not asked to give way, the state makes no difference.
pub proof fn law_settled_reads_ignore_the_state(
    indexed: FoundStream,
    one: Option<FoundStream>,
    other: Option<FoundStream>,
)
    requires
        !may_lag(found_read(indexed)),
    ensures
        stream_read(Some(indexed), one) == stream_read(Some(indexed), other),
{
}

/// Content that the index already holds is never replaced, and content that
/// only the authoritative state holds is never lost.
pub proof fn law_committed_content_is_read(read: StreamModel, fallback: StreamModel)
    ensures
        read is Content ==> reconciled(read, fallback) == read,
        may_lag(read) && fallback is Content ==> reconciled(read, fallback) == fallback,
        fallback is MissingIndex ==> reconciled(read, fallback) == read,
{
}

/// A stale read gives way to a state that names other content, even one without
/// bytes; it stands where the state names the same content and has no bytes.
pub proof fn law_stale_reads_give_way_to_other_content(
    stale_hash: Seq<char>,
    mime: Seq<char>,
    fallback: StreamModel,
)
    ensures
        read_hash(fallback) matches Some(hash) ==> hash != stale_hash ==> reconciled(
            StreamModel::StaleIndex { content_hash: stale_hash, mime_type: mime },
            fallback,
        ) == fallback,
        read_hash(fallback) == Some(stale_hash) && fallback !is Content ==> reconciled(
            StreamModel::StaleIndex { content_hash: stale_hash, mime_type: mime },
            fallback,
        ) is StaleIndex,
        reconciled(StreamModel::MissingIndex, fallback) is MissingIndex,
{
}

/// Reconciling a second time with the same state changes nothing.
pub proof fn law_reconciling_settles(read: StreamModel, fallback: StreamModel)
    ensures
        reconciled(reconciled(read, fallback), fallback) == reconciled(read, fallback),
{
}

} // verus!
