use temper_state::batch_text::consume_response_budget;
use temper_state::batch_text::plan_text_read;
use temper_state::batch_text::read_single_file_text;
use temper_state::batch_text::read_single_file_version_text;
use temper_state::batch_text::validate_batch_text_ids;
use temper_state::batch_text::BatchTextReadError;
use temper_state::batch_text::TextBatch;
use temper_state::batch_text::TextReadPlan;
use temper_state::batch_text::MAX_BATCH_ID_BYTES;
use temper_state::batch_text::MAX_BATCH_ITEMS;
use temper_state::batch_text::MAX_BATCH_ITEM_BYTES;
use temper_state::batch_text::MAX_BATCH_RESPONSE_BYTES;
use temper_state::config::actor_idle_timeout_secs;
use temper_state::config::env_bool;
use temper_state::config::env_local_tdata_hosts;
use temper_state::config::env_timeout;
use temper_state::config::env_usize;
use temper_state::config::normalize_local_tdata_host;
use temper_state::config::state_cache_budget;
use temper_state::file_blobs::blob_read_step;
use temper_state::file_blobs::blob_text;
use temper_state::file_blobs::file_blob_read_keys;
use temper_state::file_blobs::BlobReadStep;
use temper_state::file_reads::file_projection_from_row;
use temper_state::file_reads::file_version_projection_from_row;
use temper_state::file_reads::missing_projection_ids;
use temper_state::file_reads::projection_metadata_from_rows;
use temper_state::file_reads::read_file_stream_indexed;
use temper_state::file_reads::read_indexed_stream_from_meta;
use temper_state::file_reads::reconcile_indexed_stream_read;
use temper_state::file_reads::stream_read_content_hash;
use temper_state::file_reads::wants_state;
use temper_state::file_reads::FileProjectionMeta;
use temper_state::file_reads::FoundStream;
use temper_state::file_reads::IndexedFileStreamRead;
use temper_state::file_reads::QueryProjectionFieldsRow;
use temper_state::file_reads::StreamKind;
use temper_state::sorted::SortedMap;
use temper_state::text::decimal_text;
use temper_state::text::parse_signed;
use temper_state::text::parse_unsigned;
use temper_state::text::split_text;
use temper_state::text::text_less;
use temper_state::text::trim;
use temper_state::text::white_space;

#[test]
fn file_blob_read_keys_prefer_native_key_for_external_endpoint() {
    assert_eq!(
        file_blob_read_keys(
            Some("https://example.r2.cloudflarestorage.com"),
            "sha256:abc"
        ),
        vec!["temper-fs/sha256:abc".to_string(), "sha256:abc".to_string()]
    );
}

#[test]
fn file_blob_read_keys_keep_single_native_key_for_internal_store() {
    assert_eq!(
        file_blob_read_keys(Some("http://127.0.0.1:4491/_internal/blobs"), "sha256:abc"),
        vec!["temper-fs/sha256:abc".to_string()]
    );
    assert_eq!(
        file_blob_read_keys(None, "sha256:abc"),
        vec!["temper-fs/sha256:abc".to_string()]
    );
}

#[test]
fn blob_reads_go_on_until_found() {
    assert!(matches!(blob_read_step("h", Ok(Some(vec![1]))), BlobReadStep::Found(b) if b == vec![1]));
    assert!(matches!(blob_read_step("h", Ok(None)), BlobReadStep::TryNext));
    assert!(matches!(
        blob_read_step("h", Err("down".to_string())),
        BlobReadStep::Failed(e) if e == "failed to read blob 'h': down"
    ));
}

#[test]
fn blob_bytes_become_text() {
    assert_eq!(blob_text(None), None);
    assert_eq!(blob_text(Some("h\u{e9}llo".as_bytes().to_vec())), Some("h\u{e9}llo".to_string()));
    assert_eq!(blob_text(Some(vec![b'a', 0xff, b'b'])), Some("a\u{fffd}b".to_string()));
}

#[test]
fn rejects_duplicate_and_oversized_identifier_sets() {
    assert!(matches!(
        validate_batch_text_ids(&["same".to_string(), "same".to_string()]),
        Err(BatchTextReadError::InvalidRequest(_))
    ));
    assert!(matches!(
        validate_batch_text_ids(&vec!["id".to_string(); MAX_BATCH_ITEMS + 1]),
        Err(BatchTextReadError::TooManyItems { .. })
    ));
}

#[test]
fn response_budget_rejects_large_items_and_aggregate_overflow() {
    let mut used = 0;
    assert!(matches!(
        consume_response_budget("large", MAX_BATCH_ITEM_BYTES + 1, &mut used),
        Err(BatchTextReadError::ItemTooLarge { .. })
    ));
    used = MAX_BATCH_RESPONSE_BYTES;
    assert!(matches!(
        consume_response_budget("next", 1, &mut used),
        Err(BatchTextReadError::ResponseTooLarge { .. })
    ));
}

#[test]
fn identifiers_are_checked_one_by_one() {
    assert!(validate_batch_text_ids(&["a".to_string(), "b".to_string()]).is_ok());
    assert!(matches!(
        validate_batch_text_ids(&[" ".to_string()]),
        Err(BatchTextReadError::InvalidRequest(_))
    ));
    assert!(matches!(
        validate_batch_text_ids(&["x".repeat(MAX_BATCH_ID_BYTES + 1)]),
        Err(BatchTextReadError::InvalidRequest(_))
    ));
    assert!(validate_batch_text_ids(&["x".repeat(MAX_BATCH_ID_BYTES)]).is_ok());
    let e = validate_batch_text_ids(&["a\"b".to_string(), "a\"b".to_string()]).unwrap_err();
    assert!(e.message().contains("\"a\\\"b\""), "{}", e.message());
}

#[test]
fn batch_errors_say_what_is_wrong() {
    for (e, part) in [
        (BatchTextReadError::TooManyItems { items: 101 }, "101"),
        (BatchTextReadError::ItemTooLarge { id: "big".to_string(), bytes: 9 }, "big"),
        (BatchTextReadError::ResponseTooLarge { bytes: 77 }, "77"),
        (BatchTextReadError::InvalidRequest("why".to_string()), "why"),
        (BatchTextReadError::Storage("down".to_string()), "down"),
    ] {
        assert!(e.message().contains(part), "{}", e.message());
    }
}

fn meta(hash: &str, has_content: bool) -> FileProjectionMeta {
    FileProjectionMeta {
        content_hash: hash.to_string(),
        mime_type: "text/plain".to_string(),
        has_content,
    }
}

#[test]
fn text_reads_are_planned_and_finished() {
    assert!(matches!(plan_text_read(None), TextReadPlan::Settled { found: false, .. }));
    assert!(matches!(plan_text_read(Some(meta("", false))), TextReadPlan::Settled { .. }));
    assert!(matches!(plan_text_read(Some(meta("h", true))), TextReadPlan::Fetch { .. }));
    let r = read_single_file_text("f".to_string(), Some(meta("h", true)), Some("body".to_string()));
    assert!(r.found);
    assert_eq!((r.text.as_str(), r.content_hash.as_str()), ("body", "h"));
    let r = read_single_file_version_text("v".to_string(), None, None);
    assert!(!r.found);
    assert_eq!(r.file_version_id, "v");
}

#[test]
fn batches_stop_at_their_budget() {
    let mut batch = TextBatch::new();
    let item = |id: &str, n: usize| {
        read_single_file_text(id.to_string(), Some(meta("h", true)), Some("x".repeat(n)))
    };
    for i in 0..8 {
        assert!(batch.add(item(&format!("f{i}"), MAX_BATCH_ITEM_BYTES)).is_ok());
    }
    assert!(matches!(
        batch.add(item("last", 1)),
        Err(BatchTextReadError::ResponseTooLarge { .. })
    ));
    let mut one = TextBatch::new();
    assert!(matches!(
        one.add(item("big", MAX_BATCH_ITEM_BYTES + 1)),
        Err(BatchTextReadError::ItemTooLarge { .. })
    ));
    assert!(one.add(item("small", 2)).is_ok());
    assert_eq!(one.finish().len(), 1);
}

#[test]
fn version_batches_stop_at_their_budget() {
    let mut batch = TextBatch::new();
    let item = |id: &str, n: usize| {
        read_single_file_version_text(id.to_string(), Some(meta("h", true)), Some("x".repeat(n)))
    };
    assert!(matches!(
        batch.add(item("big", MAX_BATCH_ITEM_BYTES + 1)),
        Err(BatchTextReadError::ItemTooLarge { id, .. }) if id == "big"
    ));
    for i in 0..8 {
        assert!(batch.add(item(&format!("v{i}"), MAX_BATCH_ITEM_BYTES)).is_ok());
    }
    assert!(matches!(
        batch.add(item("last", 1)),
        Err(BatchTextReadError::ResponseTooLarge { .. })
    ));
    let answers = batch.finish();
    assert_eq!((answers.len(), answers[7].file_version_id.as_str()), (8, "v7"));
}

fn row(id: &str, fields: &[(&str, &str)]) -> QueryProjectionFieldsRow {
    let mut map: SortedMap<String, Option<String>> = SortedMap::new();
    for (k, v) in fields {
        map.insert(k.to_string(), Some(v.to_string()));
    }
    QueryProjectionFieldsRow { entity_id: id.to_string(), fields: map }
}

#[test]
fn projections_are_read_from_rows() {
    let m = file_projection_from_row(row(
        "f",
        &[("content_hash", "h"), ("mime_type", "m"), ("has_content", "true")],
    ));
    assert_eq!((m.content_hash.as_str(), m.mime_type.as_str(), m.has_content), ("h", "m", true));
    let v = file_version_projection_from_row(row("v", &[("content_hash", "h")]));
    assert_eq!(v.content_hash, "h");
    let by_id = projection_metadata_from_rows(
        StreamKind::File,
        vec![row("a", &[("content_hash", "h")]), row("b", &[])],
    );
    assert_eq!(by_id.len(), 2);
    assert_eq!(
        missing_projection_ids(&vec!["b".to_string(), "c".to_string()], &by_id),
        vec!["c".to_string()]
    );
}

#[test]
fn streams_are_reconciled_with_the_committed_state() {
    let content = |hash: &str| IndexedFileStreamRead::Content {
        content_hash: hash.to_string(),
        mime_type: "m".to_string(),
        bytes: vec![1],
    };
    let read = read_indexed_stream_from_meta(meta("h", true), Some(vec![1]));
    assert_eq!(stream_read_content_hash(&read), Some("h"));
    assert!(matches!(
        read_indexed_stream_from_meta(meta("h", true), None),
        IndexedFileStreamRead::StaleIndex { .. }
    ));
    assert!(matches!(
        read_indexed_stream_from_meta(meta("", false), None),
        IndexedFileStreamRead::NoContent { .. }
    ));
    let stale = || IndexedFileStreamRead::StaleIndex {
        content_hash: "old".to_string(),
        mime_type: "m".to_string(),
    };
    let settled = reconcile_indexed_stream_read(stale(), content("new"));
    assert_eq!(stream_read_content_hash(&settled), Some("new"));
    assert!(matches!(settled, IndexedFileStreamRead::Content { .. }));
    let settled = reconcile_indexed_stream_read(stale(), content("old"));
    assert!(matches!(settled, IndexedFileStreamRead::Content { .. }));
    let settled = reconcile_indexed_stream_read(stale(), stale());
    assert!(matches!(settled, IndexedFileStreamRead::StaleIndex { .. }));
    let settled = reconcile_indexed_stream_read(IndexedFileStreamRead::MissingIndex, content("new"));
    assert!(matches!(settled, IndexedFileStreamRead::MissingIndex));
}

#[test]
fn reads_follow_writes() {
    let found = |hash: &str, bytes: Option<&[u8]>| {
        Some(FoundStream {
            meta: FileProjectionMeta {
                content_hash: hash.to_string(),
                mime_type: "m".to_string(),
                has_content: !hash.is_empty(),
            },
            bytes: bytes.map(|b| b.to_vec()),
        })
    };
    let bytes_of = |read| match read {
        IndexedFileStreamRead::Content { bytes, .. } => Some(bytes),
        _ => None,
    };
    let written = || found("new", Some(b"text"));
    assert!(wants_state(&None) && wants_state(&found("", None)) && wants_state(&found("old", None)));
    assert!(!wants_state(&found("old", Some(b"x"))));
    for lagging in [None, found("", None), found("old", None), found("new", None)] {
        assert_eq!(bytes_of(read_file_stream_indexed(lagging, written())), Some(b"text".to_vec()));
    }
    let indexed = read_file_stream_indexed(found("old", Some(b"x")), written());
    assert_eq!(bytes_of(indexed), Some(b"x".to_vec()));
    let lost = read_file_stream_indexed(found("new", None), found("new", None));
    assert!(matches!(lost, IndexedFileStreamRead::StaleIndex { .. }));
    assert!(matches!(read_file_stream_indexed(None, None), IndexedFileStreamRead::MissingIndex));
}

#[test]
fn normalize_local_tdata_host_accepts_urls_domains_and_ports() {
    assert_eq!(
        normalize_local_tdata_host("https://Temper.Example/tdata"),
        Some("temper.example".to_string())
    );
    assert_eq!(
        normalize_local_tdata_host("openpaw-production.up.railway.app"),
        Some("openpaw-production.up.railway.app".to_string())
    );
    assert_eq!(
        normalize_local_tdata_host("http://127.0.0.1:8080"),
        Some("127.0.0.1".to_string())
    );
}

#[test]
fn normal_hosts_are_kept() {
    for raw in ["https://Temper.Example./tdata", " a.B:80 ", "[Host]:9"] {
        let host = normalize_local_tdata_host(raw).unwrap();
        assert_eq!(normalize_local_tdata_host(&host), Some(host));
    }
    // Only brackets can carry these.
    assert_eq!(normalize_local_tdata_host("[::1]:80").as_deref(), Some("::1"));
    assert_eq!(normalize_local_tdata_host("::1"), None);
    assert_eq!(normalize_local_tdata_host("[[x]").as_deref(), Some("[x"));
    assert_eq!(normalize_local_tdata_host("[x").as_deref(), Some("x"));
}

#[test]
fn normalize_local_tdata_host_rejects_empty_or_whitespace_hosts() {
    assert_eq!(normalize_local_tdata_host(""), None);
    assert_eq!(normalize_local_tdata_host("https:///tdata"), None);
    assert_eq!(normalize_local_tdata_host("bad host.example"), None);
}

#[test]
fn settings_have_defaults() {
    assert!(env_bool(None, true));
    assert!(!env_bool(Some("off"), true));
    assert!(env_bool(Some(" TRUE "), false));
    assert_eq!(env_usize(Some("12"), 5), 12);
    assert_eq!(env_usize(Some("x"), 5), 5);
    assert_eq!(env_usize(None, 5), 5);
    assert_eq!(actor_idle_timeout_secs(None), 300);
    assert_eq!(actor_idle_timeout_secs(Some(" 60 ")), 60);
    assert_eq!(actor_idle_timeout_secs(Some("-1")), 300);
    assert_eq!(actor_idle_timeout_secs(Some("0")), 300);
    assert!(state_cache_budget(None) > 0);
    assert!(env_timeout(None) > 0);
}

#[test]
fn local_hosts_are_collected() {
    let hosts = env_local_tdata_hosts(
        Some("A.example, http://b.example:1/x,,"),
        &vec!["https://c.example".to_string(), "bad host".to_string()],
    );
    for host in ["a.example", "b.example", "c.example"] {
        assert!(hosts.contains(&host.to_string()), "{host}");
    }
}

#[test]
fn white_space_is_that_of_the_standard_library() {
    for n in 0..=0x10ffffu32 {
        if let Some(c) = char::from_u32(n) {
            assert_eq!(white_space(c), c.is_whitespace(), "{n:x}");
        }
    }
}

#[test]
fn numbers_are_those_of_the_standard_library() {
    for n in [0u64, 1, 9, 10, 12345, u64::MAX] {
        assert_eq!(decimal_text(n), n.to_string());
    }
    for t in ["0", "+7", "-7", "18446744073709551615", "18446744073709551616", "", "+", "1a", "007"] {
        assert_eq!(parse_unsigned(t), t.parse::<u64>().ok(), "{t}");
        assert_eq!(parse_signed(t), t.parse::<i64>().ok(), "{t}");
    }
    for t in ["-9223372036854775808", "-9223372036854775809", "-", "-0"] {
        assert_eq!(parse_signed(t), t.parse::<i64>().ok(), "{t}");
    }
}

#[test]
fn texts_are_ordered_and_split_as_in_the_standard_library() {
    let words = ["", "a", "aa", "ab", "b", "B", "\u{e9}", "z\u{10ffff}"];
    for a in words {
        for b in words {
            assert_eq!(text_less(a, b), a < b, "{a} {b}");
        }
    }
    for t in ["", ",", "a,b", "a,,b,", "abc"] {
        let expected: Vec<String> = t.split(',').map(str::to_string).collect();
        assert_eq!(split_text(t, ','), expected, "{t}");
    }
    for t in ["", "  ", " a b\t", "\u{a0}x\u{2003}"] {
        assert_eq!(trim(t), t.trim(), "{t}");
    }
}
