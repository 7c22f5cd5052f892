//! Bounded batch reads of file text.

use vstd::prelude::*;
use vstd::string::*;
use vstd::utf8::encode_utf8;

use crate::file_reads::content_is_readable;
use crate::file_reads::wants_content;
use crate::file_reads::FileProjectionMeta;
use crate::sorted::lemma_to_set_step;
use crate::sorted::texts;
use crate::sorted::SortedSet;
use crate::text::blank;
use crate::text::decimal;
use crate::text::decimal_text;
use crate::text::has_prefix;
use crate::text::is_blank;

verus! {

/// How many items one batch may name.
pub const MAX_BATCH_ITEMS: usize = 100;

/// How many bytes one identifier may have.
pub const MAX_BATCH_ID_BYTES: usize = 512;

/// How many bytes of text one item may bring.
pub const MAX_BATCH_ITEM_BYTES: usize = 2_097_152;

/// How many bytes of text a whole answer may bring.
pub const MAX_BATCH_RESPONSE_BYTES: usize = 16_777_216;

/// The text of one file.
#[derive(Debug)]
pub struct TextFileReadResult {
    pub file_id: String,
    pub found: bool,
    pub content_hash: String,
    pub mime_type: String,
    pub text: String,
}

/// The text of one file version.
#[derive(Debug)]
pub struct TextFileVersionReadResult {
    pub file_version_id: String,
    pub found: bool,
    pub content_hash: String,
    pub mime_type: String,
    pub text: String,
}

/// Why a bounded text batch was not read.
#[derive(Debug)]
pub enum BatchTextReadError {
    /// The identifier list is not valid.
    InvalidRequest(String),
    /// The list names too many items.
    TooManyItems { items: usize },
    /// One item is too large for a buffered answer.
    ItemTooLarge { id: String, bytes: usize },
    /// The whole answer would be too large.
    ResponseTooLarge { bytes: usize },
    /// A projection or a blob could not be read.
    Storage(String),
}

/// A text between quotation marks, with what cannot be shown escaped.
pub uninterp spec fn quoted_text(s: Seq<char>) -> Seq<char>;

/// The `Debug` form of a `str`: quotation marks around the text, with escapes.
/// Which escapes are used is left to the name.
#[verifier::external_body]
fn quoted(s: &str) -> (r: String)
    ensures
        r@ == quoted_text(s@),
{
    format!("{s:?}")
}

impl BatchTextReadError {
    /// The text of the error.
    pub open spec fn text(self) -> Seq<char> {
        match self {
            BatchTextReadError::InvalidRequest(message) => message@,
            BatchTextReadError::Storage(message) => message@,
            BatchTextReadError::TooManyItems { items } => "batch contains "@ + decimal(
                items as nat,
            ) + " items; maximum is "@ + decimal(MAX_BATCH_ITEMS as nat),
            BatchTextReadError::ItemTooLarge { id, bytes } => "item "@ + quoted_text(id@) + " is "@
                + decimal(bytes as nat) + " bytes; buffered batch items are limited to "@ + decimal(
                MAX_BATCH_ITEM_BYTES as nat,
            ) + " bytes"@,
            BatchTextReadError::ResponseTooLarge { bytes } => "batch text is "@ + decimal(
                bytes as nat,
            ) + " bytes; buffered batch responses are limited to "@ + decimal(
                MAX_BATCH_RESPONSE_BYTES as nat,
            ) + " bytes"@,
        }
    }

    /// The text of the error.
    pub fn message(&self) -> (r: String)
        ensures
            r@ == self.text(),
    {
        match self {
            BatchTextReadError::InvalidRequest(message) => message.clone(),
            BatchTextReadError::Storage(message) => message.clone(),
            BatchTextReadError::TooManyItems { items } => {
                let mut out = "batch contains ".to_owned();
                out.append(decimal_text(*items as u64).as_str());
                out.append(" items; maximum is ");
                out.append(decimal_text(MAX_BATCH_ITEMS as u64).as_str());
                out
            },
            BatchTextReadError::ItemTooLarge { id, bytes } => {
                let mut out = "item ".to_owned();
                out.append(quoted(id.as_str()).as_str());
                out.append(" is ");
                out.append(decimal_text(*bytes as u64).as_str());
                out.append(" bytes; buffered batch items are limited to ");
                out.append(decimal_text(MAX_BATCH_ITEM_BYTES as u64).as_str());
                out.append(" bytes");
                out
            },
            BatchTextReadError::ResponseTooLarge { bytes } => {
                let mut out = "batch text is ".to_owned();
                out.append(decimal_text(*bytes as u64).as_str());
                out.append(" bytes; buffered batch responses are limited to ");
                out.append(decimal_text(MAX_BATCH_RESPONSE_BYTES as u64).as_str());
                out.append(" bytes");
                out
            },
        }
    }
}

// ---------------------------------------------------------------------------
// The request
// ---------------------------------------------------------------------------

/// How many bytes a text has.
pub open spec fn byte_len(s: Seq<char>) -> nat {
    encode_utf8(s).len()
}

/// The identifier stands earlier in the list.
pub open spec fn repeats(ids: Seq<Seq<char>>, i: int) -> bool {
    ids.take(i).contains(ids[i])
}

/// The identifier at place `i` makes the list invalid.
pub open spec fn bad_id(ids: Seq<Seq<char>>, i: int) -> bool {
    is_blank(ids[i]) || byte_len(ids[i]) > MAX_BATCH_ID_BYTES || repeats(ids, i)
}

/// What is said of the identifier at place `i`.
pub open spec fn bad_id_text(ids: Seq<Seq<char>>, i: int) -> Seq<char> {
    if is_blank(ids[i]) {
        "batch identifiers must not be empty"@
    } else if byte_len(ids[i]) > MAX_BATCH_ID_BYTES {
        "batch identifier is "@ + decimal(byte_len(ids[i])) + " bytes; maximum is "@ + decimal(
            MAX_BATCH_ID_BYTES as nat,
        )
    } else {
        "duplicate batch identifier "@ + quoted_text(ids[i])
    }
}

/// No identifier before place `i` makes the list invalid.
pub open spec fn good_until(ids: Seq<Seq<char>>, i: int) -> bool {
    forall|j: int| 0 <= j < i ==> !#[trigger] bad_id(ids, j)
}

/// Validates a positional batch without changing its shape.
pub fn validate_batch_text_ids(ids: &[String]) -> (r: Result<(), BatchTextReadError>)
    ensures
        ids@.len() > MAX_BATCH_ITEMS ==> r == Err::<(), _>(
            BatchTextReadError::TooManyItems { items: ids@.len() as usize },
        ),
        ids@.len() <= MAX_BATCH_ITEMS ==> {
            &&& r is Ok == good_until(texts(ids@), ids@.len() as int)
            &&& r matches Err(e) ==> e is InvalidRequest && exists|i: int|
                0 <= i < ids@.len() && #[trigger] good_until(texts(ids@), i) && bad_id(
                    texts(ids@),
                    i,
                ) && e.text() == bad_id_text(texts(ids@), i)
        },
{
    if ids.len() > MAX_BATCH_ITEMS {
        return Err(BatchTextReadError::TooManyItems { items: ids.len() });
    }
    let ghost all = texts(ids@);
    let mut seen: SortedSet<String> = SortedSet::new();
    let mut i: usize = 0;
    assert(all.take(0).to_set() =~= Set::<Seq<char>>::empty());
    while i < ids.len()
        invariant
            i <= ids@.len() <= MAX_BATCH_ITEMS,
            all == texts(ids@),
            seen.wf(),
            seen@ == all.take(i as int).to_set(),
            good_until(all, i as int),
        decreases ids@.len() - i,
    {
        let id: &String = &ids[i];
        assert(all[i as int] == id@);
        if blank(id.as_str()) {
            assert(bad_id(all, i as int));
            return Err(
                BatchTextReadError::InvalidRequest(
                    "batch identifiers must not be empty".to_owned(),
                ),
            );
        }
        let bytes: usize = id.as_str().as_bytes().len();
        if bytes > MAX_BATCH_ID_BYTES {
            assert(bad_id(all, i as int));
            let mut text = "batch identifier is ".to_owned();
            text.append(decimal_text(bytes as u64).as_str());
            text.append(" bytes; maximum is ");
            text.append(decimal_text(MAX_BATCH_ID_BYTES as u64).as_str());
            return Err(BatchTextReadError::InvalidRequest(text));
        }
        if !seen.insert(id.clone()) {
            assert(bad_id(all, i as int));
            let mut text = "duplicate batch identifier ".to_owned();
            text.append(quoted(id.as_str()).as_str());
            return Err(BatchTextReadError::InvalidRequest(text));
        }
        proof {
            lemma_to_set_step(all, i as int);
            assert(!bad_id(all, i as int));
        }
        i += 1;
    }
    Ok(())
}

/// The identifiers of a valid batch are all different and few.
pub proof fn law_valid_batches_name_each_item_once(ids: Seq<Seq<char>>)
    requires
        good_until(ids, ids.len() as int),
    ensures
        ids.no_duplicates(),
        forall|i: int|
            0 <= i < ids.len() ==> !is_blank(#[trigger] ids[i]) && byte_len(ids[i]) <= 512,
{
    assert forall|i: int| 0 <= i < ids.len() implies !is_blank(#[trigger] ids[i]) && byte_len(
        ids[i],
    ) <= 512 by {
        assert(!bad_id(ids, i));
    }
    assert forall|i: int, j: int|
        0 <= i < ids.len() && 0 <= j < ids.len() && i != j implies ids[i] != ids[j] by {
        let lo = if i < j { i } else { j };
        let hi = if i < j { j } else { i };
        assert(!bad_id(ids, hi));
        assert(ids.take(hi)[lo] == ids[lo]);
    }
}

// ---------------------------------------------------------------------------
// The answer
// ---------------------------------------------------------------------------

/// The aggregate after one more item, held at the largest machine number.
pub open spec fn grown(used: usize, item: usize) -> usize {
    if used + item > usize::MAX {
        usize::MAX
    } else {
        (used + item) as usize
    }
}

/// Counts one item against the size of the answer.
pub fn consume_response_budget(id: &str, item_bytes: usize, response_bytes: &mut usize) -> (r:
    Result<(), BatchTextReadError>)
    ensures
        item_bytes > MAX_BATCH_ITEM_BYTES ==> {
            &&& *final(response_bytes) == *old(response_bytes)
            &&& r matches Err(BatchTextReadError::ItemTooLarge { id: named, bytes })
            &&& named@ == id@
            &&& bytes == item_bytes
        },
        item_bytes <= MAX_BATCH_ITEM_BYTES ==> {
            &&& *final(response_bytes) == grown(*old(response_bytes), item_bytes)
            &&& r is Ok == (*final(response_bytes) <= MAX_BATCH_RESPONSE_BYTES)
            &&& r is Err ==> r == Err::<(), _>(
                BatchTextReadError::ResponseTooLarge { bytes: *final(response_bytes) },
            )
        },
{
    if item_bytes > MAX_BATCH_ITEM_BYTES {
        return Err(BatchTextReadError::ItemTooLarge { id: id.to_owned(), bytes: item_bytes });
    }
    *response_bytes = response_bytes.saturating_add(item_bytes);
    if *response_bytes > MAX_BATCH_RESPONSE_BYTES {
        return Err(BatchTextReadError::ResponseTooLarge { bytes: *response_bytes });
    }
    Ok(())
}

/// What has to be done for one item of a batch.
pub enum TextReadPlan {
    /// The answer stands: nothing is fetched.
    Settled { found: bool, content_hash: String, mime_type: String },
    /// The text under this hash is fetched first.
    Fetch { content_hash: String, mime_type: String },
}

/// Decides what has to be done for one item.
pub fn plan_text_read(meta: Option<FileProjectionMeta>) -> (r: TextReadPlan)
    ensures
        match meta {
            None => r matches TextReadPlan::Settled { found, content_hash, mime_type } && !found
                && content_hash@.len() == 0 && mime_type@.len() == 0,
            Some(m) => if content_is_readable(m@) {
                r matches TextReadPlan::Fetch { content_hash, mime_type } && content_hash@
                    == m@.content_hash && mime_type@ == m@.mime_type
            } else {
                r matches TextReadPlan::Settled { found, content_hash, mime_type } && found
                    && content_hash@ == m@.content_hash && mime_type@ == m@.mime_type
            },
        },
{
    match meta {
        None => TextReadPlan::Settled {
            found: false,
            content_hash: String::new(),
            mime_type: String::new(),
        },
        Some(m) => {
            if wants_content(&m) {
                TextReadPlan::Fetch { content_hash: m.content_hash, mime_type: m.mime_type }
            } else {
                TextReadPlan::Settled {
                    found: true,
                    content_hash: m.content_hash,
                    mime_type: m.mime_type,
                }
            }
        },
    }
}

/// What an item says, in the terms of its metadata and of the fetched text.
pub open spec fn item_says(
    meta: Option<FileProjectionMeta>,
    fetched: Option<String>,
    found: bool,
    content_hash: Seq<char>,
    mime_type: Seq<char>,
    text: Seq<char>,
) -> bool {
    match meta {
        None => !found && content_hash.len() == 0 && mime_type.len() == 0 && text.len() == 0,
        Some(m) => {
            &&& found
            &&& content_hash == m@.content_hash
            &&& mime_type == m@.mime_type
            &&& text == if content_is_readable(m@) && fetched is Some {
                fetched->0@
            } else {
                Seq::empty()
            }
        },
    }
}

fn settle_text(plan: TextReadPlan, fetched: Option<String>) -> (r: (bool, String, String, String))
    ensures
        match plan {
            TextReadPlan::Settled { found, content_hash, mime_type } => r.0 == found && r.1
                == content_hash && r.2 == mime_type && r.3@.len() == 0,
            TextReadPlan::Fetch { content_hash, mime_type } => r.0 && r.1 == content_hash && r.2
                == mime_type && r.3@ == (match fetched {
                Some(t) => t@,
                None => Seq::empty(),
            }),
        },
{
    match plan {
        TextReadPlan::Settled { found, content_hash, mime_type } => (
            found,
            content_hash,
            mime_type,
            String::new(),
        ),
        TextReadPlan::Fetch { content_hash, mime_type } => {
            let text = match fetched {
                Some(t) => t,
                None => String::new(),
            };
            (true, content_hash, mime_type, text)
        },
    }
}

/// An item is found exactly where something is known of it, and what is said of it is
/// what is known; its text is the one that was fetched for its hash, and there is none
/// where it has no content.
pub proof fn law_items_say_what_is_known(
    meta: Option<FileProjectionMeta>,
    fetched: Option<String>,
    found: bool,
    content_hash: Seq<char>,
    mime_type: Seq<char>,
    text: Seq<char>,
)
    requires
        item_says(meta, fetched, found, content_hash, mime_type, text),
    ensures
        found == meta is Some,
        meta matches Some(m) ==> content_hash == m.content_hash@ && mime_type == m.mime_type@,
        meta matches Some(m) ==> (m.has_content && m.content_hash@.len() > 0 && fetched is Some
            ==> text == fetched->0@),
        meta matches Some(m) ==> (!m.has_content || m.content_hash@.len() == 0 ==> text.len() == 0),
        meta is None || fetched is None ==> text.len() == 0,
{
}

/// The answer for one file, from what is known of it and the text that was
/// fetched where `plan_text_read` asked for it.
pub fn read_single_file_text(
    file_id: String,
    meta: Option<FileProjectionMeta>,
    fetched: Option<String>,
) -> (r: TextFileReadResult)
    ensures
        r.file_id == file_id,
        item_says(meta, fetched, r.found, r.content_hash@, r.mime_type@, r.text@),
{
    let (found, content_hash, mime_type, text) = settle_text(plan_text_read(meta), fetched);
    assert(text@.len() == 0 ==> text@ =~= Seq::<char>::empty());
    TextFileReadResult { file_id, found, content_hash, mime_type, text }
}

/// The answer for one file version.
pub fn read_single_file_version_text(
    file_version_id: String,
    meta: Option<FileProjectionMeta>,
    fetched: Option<String>,
) -> (r: TextFileVersionReadResult)
    ensures
        r.file_version_id == file_version_id,
        item_says(meta, fetched, r.found, r.content_hash@, r.mime_type@, r.text@),
{
    let (found, content_hash, mime_type, text) = settle_text(plan_text_read(meta), fetched);
    assert(text@.len() == 0 ==> text@ =~= Seq::<char>::empty());
    TextFileVersionReadResult { file_version_id, found, content_hash, mime_type, text }
}

/// The answer for one item of a batch.
pub trait TextAnswer: Sized {
    /// The identifier of the item.
    spec fn named(&self) -> Seq<char>;

    /// The text of the item.
    spec fn brought(&self) -> Seq<char>;

    fn item_id(&self) -> (r: &str)
        ensures
            r@ == self.named(),
    ;

    fn item_text(&self) -> (r: &str)
        ensures
            r@ == self.brought(),
    ;
}

impl TextAnswer for TextFileReadResult {
    open spec fn named(&self) -> Seq<char> {
        self.file_id@
    }

    open spec fn brought(&self) -> Seq<char> {
        self.text@
    }

    fn item_id(&self) -> (r: &str) {
        self.file_id.as_str()
    }

    fn item_text(&self) -> (r: &str) {
        self.text.as_str()
    }
}

impl TextAnswer for TextFileVersionReadResult {
    open spec fn named(&self) -> Seq<char> {
        self.file_version_id@
    }

    open spec fn brought(&self) -> Seq<char> {
        self.text@
    }

    fn item_id(&self) -> (r: &str) {
        self.file_version_id.as_str()
    }

    fn item_text(&self) -> (r: &str) {
        self.text.as_str()
    }
}

/// How many bytes of text the items bring together.
pub open spec fn text_bytes<T: TextAnswer>(files: Seq<T>) -> nat
    decreases files.len(),
{
    if files.len() == 0 {
        0
    } else {
        text_bytes(files.drop_last()) + byte_len(files.last().brought())
    }
}

/// A text batch under way: the answers so far and the bytes they bring.
pub struct TextBatch<T> {
    files: Vec<T>,
    response_bytes: usize,
}

impl<T: TextAnswer> TextBatch<T> {
    pub closed spec fn answers(&self) -> Seq<T> {
        self.files@
    }

    /// The answers stay inside both limits.
    pub closed spec fn wf(&self) -> bool {
        &&& self.response_bytes == text_bytes(self.files@)
        &&& self.response_bytes <= MAX_BATCH_RESPONSE_BYTES
        &&& forall|i: int|
            0 <= i < self.files@.len() ==> byte_len((#[trigger] self.files@[i]).brought())
                <= MAX_BATCH_ITEM_BYTES
    }

    /// A batch without answers.
    pub fn new() -> (r: TextBatch<T>)
        ensures
            r.wf(),
            r.answers() == Seq::<T>::empty(),
    {
        TextBatch { files: Vec::new(), response_bytes: 0 }
    }

    /// Adds the answer for the next item, or says why the batch fails.
    pub fn add(&mut self, result: T) -> (r: Result<(), BatchTextReadError>)
        requires
            old(self).wf(),
        ensures
            final(self).wf(),
            ({
                let bytes = byte_len(result.brought());
                let total = text_bytes(old(self).answers()) + bytes;
                &&& r is Ok == (bytes <= MAX_BATCH_ITEM_BYTES && total <= MAX_BATCH_RESPONSE_BYTES)
                &&& r is Ok ==> final(self).answers() == old(self).answers().push(result)
                &&& r is Err ==> final(self).answers() == old(self).answers()
                &&& r is Err && bytes > MAX_BATCH_ITEM_BYTES ==> r->Err_0 is ItemTooLarge
                    && r->Err_0->id@ == result.named() && r->Err_0->ItemTooLarge_bytes == bytes
                &&& r is Err && bytes <= MAX_BATCH_ITEM_BYTES ==> r->Err_0 is ResponseTooLarge
                    && r->Err_0->ResponseTooLarge_bytes == total
            }),
    {
        let bytes: usize = result.item_text().as_bytes().len();
        let mut used: usize = self.response_bytes;
        let settled = consume_response_budget(result.item_id(), bytes, &mut used);
        if settled.is_ok() {
            self.response_bytes = used;
            self.files.push(result);
            assert(self.files@.drop_last() =~= old(self).files@);
        }
        settled
    }

    /// The answers of the finished batch, in the order of the request.
    pub fn finish(self) -> (r: Vec<T>)
        ensures
            r@ == self.answers(),
    {
        self.files
    }
}

/// The answers of a batch never exceed the size of an answer, nor any of them
/// the size of an item.
pub proof fn law_batches_are_bounded<T: TextAnswer>(batch: TextBatch<T>)
    requires
        batch.wf(),
    ensures
        text_bytes(batch.answers()) <= MAX_BATCH_RESPONSE_BYTES,
        MAX_BATCH_RESPONSE_BYTES == 16 * 1024 * 1024,
        MAX_BATCH_ITEM_BYTES == 2 * 1024 * 1024,
        MAX_BATCH_ITEMS == 100,
        forall|i: int|
            0 <= i < batch.answers().len() ==> byte_len((#[trigger] batch.answers()[i]).brought())
                <= MAX_BATCH_ITEM_BYTES,
{
}

/// The text of an error says what was counted and what is allowed, in digits.
pub proof fn law_errors_tell_the_limit(items: usize, bytes: usize)
    ensures
        (BatchTextReadError::TooManyItems { items }).text() == "batch contains "@ + decimal(
            items as nat,
        ) + " items; maximum is "@ + decimal(100),
        (BatchTextReadError::ResponseTooLarge { bytes }).text() == "batch text is "@ + decimal(
            bytes as nat,
        ) + " bytes; buffered batch responses are limited to "@ + decimal(16_777_216)
            + " bytes"@,
        has_prefix(
            (BatchTextReadError::ResponseTooLarge { bytes }).text(),
            "batch text is "@ + decimal(bytes as nat),
        ),
{
    let text = (BatchTextReadError::ResponseTooLarge { bytes }).text();
    let head = "batch text is "@ + decimal(bytes as nat);
    assert(text.take(head.len() as int) =~= head);
}

/// An identifier is refused exactly where it says nothing, is longer than 512 bytes or
/// stands earlier in the list, and the first of these reasons is told.
pub proof fn law_identifiers_are_refused_for_a_reason(ids: Seq<Seq<char>>, i: int)
    requires
        0 <= i < ids.len(),
    ensures
        bad_id(ids, i) <==> is_blank(ids[i]) || byte_len(ids[i]) >= 513 || exists|j: int|
            0 <= j < i && #[trigger] ids[j] == ids[i],
        is_blank(ids[i]) ==> bad_id_text(ids, i) == "batch identifiers must not be empty"@,
        !is_blank(ids[i]) && byte_len(ids[i]) >= 513 ==> has_prefix(
            bad_id_text(ids, i),
            "batch identifier is "@ + decimal(byte_len(ids[i])),
        ),
        !is_blank(ids[i]) && byte_len(ids[i]) <= 512 ==> has_prefix(
            bad_id_text(ids, i),
            "duplicate batch identifier "@,
        ),
{
    let front = ids.take(i);
    if front.contains(ids[i]) {
        let j = choose|j: int| 0 <= j < front.len() && front[j] == ids[i];
        assert(ids[j] == ids[i]);
    }
    if exists|j: int| 0 <= j < i && #[trigger] ids[j] == ids[i] {
        let j = choose|j: int| 0 <= j < i && #[trigger] ids[j] == ids[i];
        assert(front[j] == ids[i]);
    }
    let text = bad_id_text(ids, i);
    let long = "batch identifier is "@ + decimal(byte_len(ids[i]));
    let twice = "duplicate batch identifier "@;
    if !is_blank(ids[i]) && byte_len(ids[i]) >= 513 {
        assert(text.take(long.len() as int) =~= long);
    } else if !is_blank(ids[i]) {
        assert(text.take(twice.len() as int) =~= twice);
    }
}

/// The size of an answer is the sum of what its items bring, and stands still only at the
/// largest machine number.
pub proof fn law_answers_grow_by_their_items<T: TextAnswer>(
    files: Seq<T>,
    more: T,
    used: usize,
    item: usize,
)
    ensures
        text_bytes(files.push(more)) == text_bytes(files) + byte_len(more.brought()),
        text_bytes(Seq::<T>::empty()) == 0,
        used + item <= usize::MAX ==> grown(used, item) == used + item,
        used + item > usize::MAX ==> grown(used, item) == usize::MAX,
        used <= grown(used, item),
{
    assert(files.push(more).drop_last() =~= files);
}

} // verus!
