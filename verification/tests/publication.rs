use temper_state::artifacts::check_authorization;
use temper_state::artifacts::file_version_source_file_id;
use temper_state::artifacts::plan_artifact;
use temper_state::artifacts::public_storage_key;
use temper_state::artifacts::publish_file_artifact_authorized;
use temper_state::artifacts::publish_source;
use temper_state::artifacts::published_artifact_id;
use temper_state::artifacts::settle_artifact_record;
use temper_state::artifacts::validate_path_segment;
use temper_state::artifacts::PublishArtifactAuthorization;
use temper_state::artifacts::PublishFileArtifactRequest;
use temper_state::artifacts::PublishSource;
use temper_state::artifacts::PublishedArtifactStoreRow;
use temper_state::artifacts::SourceView;
use temper_state::assets::asset_put_request_error;
use temper_state::assets::publish_file_asset;
use temper_state::assets::settle_asset_put;
use temper_state::assets::settle_asset_record;
use temper_state::assets::plan_asset;
use temper_state::assets::publishable_content;
use temper_state::assets::published_asset_id;
use temper_state::assets::sanitize_path_segment;
use temper_state::assets::PublishFileAssetRequest;
use temper_state::assets::PublishSettings;
use temper_state::assets::PublishableContent;
use temper_state::digest::hex_encode;
use temper_state::digest::hmac_sha256;
use temper_state::digest::sha256_hex;
use temper_state::digest::sha256_text;
use temper_state::digest::uri_encode_path;
use temper_state::file_reads::IndexedFileStreamRead;
use temper_state::json::JsonValue;
use temper_state::public_blob::blob_credential;
use temper_state::public_blob::local_put_failure;
use temper_state::public_blob::build_public_blob_put_headers;
use temper_state::public_blob::derive_signing_key;
use temper_state::public_blob::extension_for_mime;
use temper_state::public_blob::is_local_internal_blob_endpoint;
use temper_state::public_blob::parse_url_host_path;
use temper_state::public_blob::plan_public_blob_put;
use temper_state::public_blob::public_blob_put_request_error;
use temper_state::public_blob::public_blob_put_status_error;
use temper_state::public_blob::public_url;
use temper_state::public_blob::settle_public_blob_put;
use temper_state::public_blob::stream_content_type;
use temper_state::public_blob::PutTarget;
use temper_state::sorted::SortedMap;
use temper_state::telemetry::emit_published_artifact_persisted_log;
use temper_state::telemetry::LogValue;
use temper_state::telemetry::PublishedArtifactTelemetry;

#[test]
fn public_storage_key_is_generic_and_content_addressed() {
    let key = public_storage_key(
        "public-demo-artifacts",
        "Report",
        "quarterly-2026",
        "preview-image",
        "sha256:abc123",
        "image/png",
    )
    .expect("valid path segments");

    assert_eq!(
        key,
        "public-demo-artifacts/Report/quarterly-2026/preview-image-abc123.png"
    );
}

#[test]
fn artifact_path_segments_reject_breakout_and_ambiguous_values() {
    for value in ["", ".", "..", "a/b", r"a\b", "line\nbreak", "has space"] {
        assert!(
            validate_path_segment("label", value).is_err(),
            "segment should be rejected: {value:?}"
        );
    }
    for value in ["artifact", "artifact_1", "Artifact-2026", "v1.2"] {
        assert!(
            validate_path_segment("label", value).is_ok(),
            "segment should be accepted: {value:?}"
        );
    }
}

fn valid_request() -> PublishFileArtifactRequest {
    PublishFileArtifactRequest {
        file_id: "file-a".to_string(),
        label: "latest".to_string(),
        owner_ref_type: "Document".to_string(),
        owner_ref_id: "doc-a".to_string(),
        source_file_version_id: String::new(),
        namespace: Some("published-artifacts".to_string()),
    }
}

#[test]
fn publish_request_rejects_invalid_namespace_owner_and_label() {
    let valid = valid_request();
    assert!(valid.validate().is_ok());

    for invalid in [
        PublishFileArtifactRequest {
            namespace: Some("../escape".to_string()),
            ..valid.clone()
        },
        PublishFileArtifactRequest {
            owner_ref_id: "owner/escape".to_string(),
            ..valid.clone()
        },
        PublishFileArtifactRequest {
            label: "..".to_string(),
            ..valid.clone()
        },
    ] {
        assert!(invalid.validate().is_err());
    }
}

#[test]
fn published_artifact_id_uses_generic_owner_ref_label_and_hash() {
    let first = published_artifact_id(
        "tenant-a",
        "Report",
        "quarterly-2026",
        "preview",
        "sha256:abc123",
    );
    let second = published_artifact_id(
        "tenant-a",
        "Report",
        "quarterly-2026",
        "download",
        "sha256:abc123",
    );

    assert!(first.starts_with("part-"));
    assert_eq!(first.len(), "part-".len() + 32);
    assert_ne!(first, second);
}

#[test]
fn public_blob_put_status_error_names_bucket_key_and_endpoint_host() {
    let error = public_blob_put_status_error(
        "katagami-published-assets",
        "https://075a5c0a617de3bdc08a44f9794b6f2f.r2.cloudflarestorage.com",
        "published-artifacts/CodexProof/demo/report.md",
        reqwest::StatusCode::FORBIDDEN.as_u16(),
    );

    assert_eq!(
        error,
        "public blob PUT failed for bucket 'katagami-published-assets' key \
         'published-artifacts/CodexProof/demo/report.md' via endpoint host \
         '075a5c0a617de3bdc08a44f9794b6f2f.r2.cloudflarestorage.com' with HTTP 403 Forbidden"
    );
}

#[test]
fn published_artifact_success_log_carries_publication_observability_fields() {
    let row = PublishedArtifactStoreRow {
        id: "part-abc".to_string(),
        tenant: "default".to_string(),
        source_file_id: "file-abc".to_string(),
        source_file_version_id: String::new(),
        content_hash: "sha256:abc123".to_string(),
        label: "Datadog proof".to_string(),
        mime_type: "text/markdown".to_string(),
        byte_length: 18568,
        public_storage_key: "codex-live-proof/CodexProof/deploy/proof-abc123.md".to_string(),
        public_url:
            "https://temperpaw-assets.example/codex-live-proof/CodexProof/deploy/proof-abc123.md"
                .to_string(),
        owner_ref_type: "CodexProof".to_string(),
        owner_ref_id: "deploy".to_string(),
        status: "published".to_string(),
    };
    let telemetry = PublishedArtifactTelemetry::from_row(
        &row,
        "postgres",
        "codex-live-proof",
        "published-bucket",
        "r2.example.test",
    );
    let (message, fields) = emit_published_artifact_persisted_log(&telemetry);
    assert!(message.contains("published artifact metadata persisted"));
    let get = |name: &str| -> Option<String> {
        fields.iter().find(|f| f.name == name).map(|f| match &f.value {
            LogValue::Text(t) => t.to_string(),
            LogValue::Number(n) => n.to_string(),
        })
    };
    for (name, value) in [
        ("tenant", "default"),
        ("artifact_id", "part-abc"),
        ("source_file_id", "file-abc"),
        ("source_file_version_id", ""),
        ("content_hash", "sha256:abc123"),
        ("artifact_label", "Datadog proof"),
        ("mime_type", "text/markdown"),
        ("byte_length", "18568"),
        ("public_storage_key", "codex-live-proof/CodexProof/deploy/proof-abc123.md"),
        (
            "public_url",
            "https://temperpaw-assets.example/codex-live-proof/CodexProof/deploy/proof-abc123.md",
        ),
        ("owner_ref_type", "CodexProof"),
        ("owner_ref_id", "deploy"),
        ("artifact_status", "published"),
        ("metadata_backend", "postgres"),
        ("artifact_namespace", "codex-live-proof"),
        ("public_blob_bucket", "published-bucket"),
        ("public_blob_endpoint_host", "r2.example.test"),
    ] {
        assert_eq!(get(name).as_deref(), Some(value), "{name}");
    }
}

#[test]
fn digests_have_their_published_values() {
    assert_eq!(
        sha256_hex(b"abc"),
        "ba7816bf8f01cfea414140de5dae2223b00361a396177a9cb410ff61f20015ad"
    );
    assert_eq!(
        sha256_text(""),
        "e3b0c44298fc1c149afbf4c8996fb92427ae41e4649b934ca495991b7852b855"
    );
    assert_eq!(
        hex_encode(&hmac_sha256(b"Jefe", b"what do ya want for nothing?")),
        "5bdcc146bf60754e6a042426089575c75a003f089d2739839dec58b964ec3843"
    );
    assert_eq!(hex_encode(&[0, 15, 255]), "000fff");
    assert_ne!(hex_encode(&[1, 2]), hex_encode(&[1, 3]));
}

#[test]
fn signing_keys_are_chained() {
    let mut expected = hmac_sha256(b"AWS4secret", b"20260102");
    expected = hmac_sha256(&expected, b"auto");
    expected = hmac_sha256(&expected, b"s3");
    expected = hmac_sha256(&expected, b"aws4_request");
    assert_eq!(derive_signing_key("secret", "20260102", "auto", "s3"), expected);
}

#[test]
fn paths_are_encoded() {
    assert_eq!(uri_encode_path("/a b/c~d_e-f.g"), "/a%20b/c~d_e-f.g");
    assert_eq!(uri_encode_path("\u{e9}"), "%C3%A9");
    let plain = "/AZaz09/-_.~";
    assert_eq!(uri_encode_path(plain), plain);
    let parts = ["a b", "\u{e9}/", "%2F"];
    let whole: String = parts.concat();
    let each: Vec<String> = parts.iter().map(|part| uri_encode_path(part)).collect();
    assert_eq!(uri_encode_path(&whole), each.concat());
    assert_eq!(uri_encode_path(&whole), "a%20b%C3%A9/%252F");
}

#[test]
fn urls_are_taken_apart() {
    assert_eq!(parse_url_host_path("https://host.example/a/b"), ("host.example", "/a/b"));
    assert_eq!(parse_url_host_path("host.example"), ("host.example", "/"));
    assert!(is_local_internal_blob_endpoint("http://127.0.0.1:4491/_internal/blobs"));
    assert!(!is_local_internal_blob_endpoint("https://r2.example/_internal/blobs"));
    assert!(matches!(
        plan_public_blob_put("http://127.0.0.1:4491/_internal/blobs", "b", "k"),
        PutTarget::Local { .. }
    ));
    match plan_public_blob_put("https://r2.example/", "b", "k/x.png") {
        PutTarget::Remote { url } => assert_eq!(url, "https://r2.example/b/k/x.png"),
        PutTarget::Local { .. } => panic!("a remote endpoint"),
    }
    assert_eq!(public_url("https://cdn.example/", "k/x.png"), "https://cdn.example/k/x.png");
}

#[test]
fn put_outcomes_are_told() {
    assert!(settle_public_blob_put("b", "https://h", "k", 200).is_ok());
    assert!(settle_public_blob_put("b", "https://h", "k", 204).is_ok());
    assert_eq!(
        settle_public_blob_put("b", "https://h", "k", 503).unwrap_err(),
        "public blob PUT failed for bucket 'b' key 'k' via endpoint host 'h' with HTTP 503 \
         Service Unavailable"
    );
    assert!(public_blob_put_request_error("https://h", "b", "k", "reset").ends_with(": reset"));
}

#[test]
fn mime_types_choose_extensions() {
    assert_eq!(extension_for_mime("image/png"), "png");
    assert_eq!(extension_for_mime("application/x-unheard-of"), "bin");
    assert!(!stream_content_type("text/plain").is_empty());
}

#[test]
fn put_headers_are_signed_only_with_both_keys() {
    let none =
        build_public_blob_put_headers(None, Some("s"), "https://h/b/k", "text/plain", b"x", "20260102T030405Z");
    assert_eq!(none.unwrap().len(), 0);
    let signed = build_public_blob_put_headers(
        Some("AK"),
        Some("s"),
        "https://h/b/k",
        "text/plain",
        b"x",
        "20260102T030405Z",
    )
    .unwrap();
    let get = |name: &str| {
        signed.iter().find(|h| h.name.eq_ignore_ascii_case(name)).map(|h| h.value.clone())
    };
    assert_eq!(get("x-amz-content-sha256"), Some(sha256_hex(b"x")));
    assert_eq!(get("x-amz-date"), Some("20260102T030405Z".to_string()));
    assert!(get("authorization").unwrap().starts_with("AWS4-HMAC-SHA256 Credential=AK/20260102/"));
    assert!(build_public_blob_put_headers(
        Some("A\nK"),
        Some("s"),
        "https://h/b/k",
        "text/plain",
        b"x",
        "20260102T030405Z",
    )
    .is_err());
}

fn content() -> PublishableContent {
    PublishableContent {
        content_hash: "sha256:abc123".to_string(),
        mime_type: "image/png".to_string(),
        bytes: vec![1, 2, 3],
    }
}

fn settings() -> PublishSettings {
    PublishSettings {
        public_base_url: Some("https://cdn.example".to_string()),
        endpoint: Some("https://r2.example".to_string()),
        bucket: Some("bucket".to_string()),
    }
}

#[test]
fn artifacts_are_planned() {
    let plan = plan_artifact("t", valid_request(), &content(), settings()).ok().unwrap();
    assert_eq!(plan.row.byte_length, 3);
    assert_eq!(
        plan.row.public_storage_key,
        "published-artifacts/Document/doc-a/latest-abc123.png"
    );
    assert_eq!(
        plan.row.public_url,
        "https://cdn.example/published-artifacts/Document/doc-a/latest-abc123.png"
    );
    assert_eq!(plan.row.status, "published");
    assert_eq!(plan.bucket, "bucket");
    assert_eq!(plan.endpoint_host, "r2.example");
    let missing = PublishSettings { endpoint: None, ..settings() };
    assert!(plan_artifact("t", valid_request(), &content(), missing).is_err());
}

#[test]
fn assets_are_planned() {
    let request = PublishFileAssetRequest {
        file_id: "file-a".to_string(),
        kind: "hero image".to_string(),
        owner_entity_type: "Page".to_string(),
        owner_entity_id: "p/1".to_string(),
        source_file_version_id: String::new(),
        public_key_prefix: Some("pages".to_string()),
    };
    let plan = plan_asset("t", request, &content(), settings()).ok().unwrap();
    assert_eq!(plan.row.byte_length, 3);
    assert!(plan.row.public_storage_key.starts_with("pages/Page/"));
    assert!(!plan.row.public_storage_key.contains(' '));
    assert_eq!(
        plan.row.id,
        published_asset_id("t", "Page", "p/1", "hero image", "sha256:abc123")
    );
    assert_eq!(sanitize_path_segment("-a/b c!"), "a/b-c");
}

#[test]
fn only_content_is_publishable() {
    assert!(publishable_content(
        "File 'f'",
        IndexedFileStreamRead::Content {
            content_hash: "h".to_string(),
            mime_type: "m".to_string(),
            bytes: vec![1],
        }
    )
    .is_ok());
    for read in [
        IndexedFileStreamRead::MissingIndex,
        IndexedFileStreamRead::NoContent { content_hash: String::new(), mime_type: String::new() },
        IndexedFileStreamRead::StaleIndex { content_hash: String::new(), mime_type: String::new() },
    ] {
        assert!(publishable_content("File 'f'", read).is_err());
    }
}

#[test]
fn the_source_of_a_publication() {
    assert!(matches!(publish_source(&valid_request()), PublishSource::File(f) if f == "file-a"));
    let versioned = PublishFileArtifactRequest {
        source_file_version_id: "v-1".to_string(),
        ..valid_request()
    };
    assert!(matches!(publish_source(&versioned), PublishSource::Version(v) if v == "v-1"));
    assert_eq!(
        file_version_source_file_id("v", Some(Ok(Some("f".to_string()))), Ok(Some("g".to_string()))),
        Ok("f".to_string())
    );
    assert_eq!(
        file_version_source_file_id("v", Some(Ok(Some(String::new()))), Ok(Some("g".to_string()))),
        Ok("g".to_string())
    );
    assert_eq!(
        file_version_source_file_id("v", None, Ok(None)),
        Err("FileVersion 'v' has no immutable file_id relationship".to_string())
    );
    assert_eq!(
        file_version_source_file_id("v", Some(Err("down".to_string())), Ok(Some("g".to_string()))),
        Err("failed to load FileVersion 'v' relationship: down".to_string())
    );
    assert_eq!(
        file_version_source_file_id("v", None, Err("down".to_string())),
        Err("failed to load FileVersion 'v' relationship: down".to_string())
    );
}

fn view(precondition: &str, status: &str) -> SourceView {
    let mut resource_attrs = SortedMap::new();
    resource_attrs.insert("status".to_string(), JsonValue::Text(status.to_string()));
    SourceView { state_precondition: precondition.to_string(), resource_attrs }
}

#[test]
fn authorization_holds_only_for_the_state_it_was_given_on() {
    let authorization = PublishArtifactAuthorization {
        source_entity_type: "File".to_string(),
        source_entity_id: "f".to_string(),
        view: view("seq-1", "Ready"),
    };
    assert!(check_authorization(Some(&view("seq-1", "Ready")), &authorization).is_ok());
    assert!(check_authorization(Some(&view("seq-2", "Ready")), &authorization).is_err());
    assert!(check_authorization(Some(&view("seq-1", "Sealed")), &authorization).is_err());
    assert!(check_authorization(None, &authorization).is_err());
}

fn read() -> IndexedFileStreamRead {
    IndexedFileStreamRead::Content {
        content_hash: "sha256:abc123".to_string(),
        mime_type: "image/png".to_string(),
        bytes: vec![1, 2, 3],
    }
}

#[test]
fn publications_fail_in_order() {
    let publish = |request, read, current: Vec<Option<SourceView>>, settings| {
        let authorizations = current
            .iter()
            .map(|_| PublishArtifactAuthorization {
                source_entity_type: "File".to_string(),
                source_entity_id: "file-a".to_string(),
                view: view("p1", "Ready"),
            })
            .collect();
        publish_file_artifact_authorized("t", request, read, &authorizations, &current, settings)
            .map(|planned| planned.0.row.public_storage_key)
    };
    let no_settings = || PublishSettings { public_base_url: None, endpoint: None, bucket: None };
    let bad = PublishFileArtifactRequest { label: "..".to_string(), ..valid_request() };
    assert_eq!(
        publish(bad, IndexedFileStreamRead::MissingIndex, vec![None], no_settings()),
        Err("label must not be a relative path segment".to_string())
    );
    assert_eq!(
        publish(valid_request(), IndexedFileStreamRead::MissingIndex, vec![None], no_settings()),
        Err("File('file-a') is missing from the file read index; rebuild projections before publishing".to_string())
    );
    let stale = Err("publish source authorization became stale; retry against current state".to_string());
    assert_eq!(publish(valid_request(), read(), vec![None], no_settings()), stale);
    let changed = vec![Some(view("p1", "Ready")), Some(view("p2", "Ready"))];
    assert_eq!(publish(valid_request(), read(), changed, no_settings()), stale);
    assert_eq!(
        publish(valid_request(), read(), vec![Some(view("p1", "Ready"))], no_settings()),
        Err("missing published_blob_public_base_url secret".to_string())
    );
    assert_eq!(
        publish(valid_request(), read(), vec![Some(view("p1", "Ready"))], settings()),
        Ok("published-artifacts/Document/doc-a/latest-abc123.png".to_string())
    );
}

#[test]
fn asset_publications_are_decided() {
    let request = || PublishFileAssetRequest {
        file_id: "file-a".to_string(),
        kind: "hero".to_string(),
        owner_entity_type: "Page".to_string(),
        owner_entity_id: "p1".to_string(),
        source_file_version_id: String::new(),
        public_key_prefix: None,
    };
    let planned = publish_file_asset("t", request(), read(), settings()).ok().unwrap();
    assert_eq!(planned.0.row.public_storage_key, "published-assets/Page/p1/hero-abc123.png");
    assert_eq!(planned.1.bytes, vec![1, 2, 3]);
    let stale = IndexedFileStreamRead::StaleIndex {
        content_hash: "h".to_string(),
        mime_type: String::new(),
    };
    assert_eq!(
        publish_file_asset("t", request(), stale, settings()).err().unwrap(),
        "File('file-a') has stale indexed content 'h'; rebuild projections before publishing"
    );
    assert_eq!(
        asset_put_request_error("k", "refused"),
        "public blob PUT request failed for 'k': refused"
    );
    assert_eq!(settle_asset_put("k", 204), Ok(()));
    assert_eq!(
        settle_asset_put("k", 403),
        Err("public blob PUT failed for 'k' with HTTP 403 Forbidden".to_string())
    );
}

#[test]
fn publications_are_recorded() {
    assert_eq!(settle_artifact_record(Some(Ok(1))), Ok(1));
    assert_eq!(
        settle_artifact_record::<u8>(Some(Err("down".to_string()))),
        Err("failed to persist published artifact: down".to_string())
    );
    assert_eq!(
        settle_artifact_record::<u8>(None),
        Err("published artifact metadata store unavailable".to_string())
    );
    assert_eq!(settle_asset_record(Some(Ok(1))), Ok(1));
    assert_eq!(
        settle_asset_record::<u8>(Some(Err("down".to_string()))),
        Err("failed to persist published asset: down".to_string())
    );
    assert_eq!(
        settle_asset_record::<u8>(None),
        Err("published assets require a Turso tenant store".to_string())
    );
    assert_eq!(
        local_put_failure("b", "k", "full"),
        "direct tenant-scoped public blob write failed for bucket 'b' key 'k': full"
    );
    assert_eq!(blob_credential(None, Some("own".to_string())), Some("own".to_string()));
    assert_eq!(
        blob_credential(Some("public".to_string()), Some("own".to_string())),
        Some("public".to_string())
    );
}
