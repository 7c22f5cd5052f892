//! What is said of a publication once it is recorded.

use vstd::prelude::*;
use vstd::string::*;

use crate::artifacts::PublishedArtifactStoreRow;

verus! {

/// The value of one field of an event.
pub enum LogValue<'a> {
    Text(&'a str),
    Number(i64),
}

/// One field of an event.
pub struct LogField<'a> {
    pub name: &'a str,
    pub value: LogValue<'a>,
}

/// The model of one field of an event.
pub enum LogModel {
    Text(Seq<char>),
    Number(int),
}

pub open spec fn log_view(f: LogField<'_>) -> (Seq<char>, LogModel) {
    (
        f.name@,
        match f.value {
            LogValue::Text(t) => LogModel::Text(t@),
            LogValue::Number(n) => LogModel::Number(n as int),
        },
    )
}

pub open spec fn log_views(fields: Seq<LogField<'_>>) -> Seq<(Seq<char>, LogModel)> {
    fields.map_values(|f: LogField<'_>| log_view(f))
}

/// A recorded publication and where it went.
pub struct PublishedArtifactTelemetry<'a> {
    pub tenant: &'a str,
    pub artifact_id: &'a str,
    pub source_file_id: &'a str,
    pub source_file_version_id: &'a str,
    pub content_hash: &'a str,
    pub artifact_label: &'a str,
    pub mime_type: &'a str,
    pub byte_length: i64,
    pub public_storage_key: &'a str,
    pub public_url: &'a str,
    pub owner_ref_type: &'a str,
    pub owner_ref_id: &'a str,
    pub artifact_status: &'a str,
    pub metadata_backend: &'a str,
    pub artifact_namespace: &'a str,
    pub public_blob_bucket: &'a str,
    pub public_blob_endpoint_host: &'a str,
}

impl<'a> PublishedArtifactTelemetry<'a> {
    /// Reads a recorded publication.
    pub fn from_row(
        row: &'a PublishedArtifactStoreRow,
        metadata_backend: &'a str,
        artifact_namespace: &'a str,
        public_blob_bucket: &'a str,
        public_blob_endpoint_host: &'a str,
    ) -> (r: Self)
        ensures
            r.tenant@ == row.tenant@,
            r.artifact_id@ == row.id@,
            r.source_file_id@ == row.source_file_id@,
            r.source_file_version_id@ == row.source_file_version_id@,
            r.content_hash@ == row.content_hash@,
            r.artifact_label@ == row.label@,
            r.mime_type@ == row.mime_type@,
            r.byte_length == row.byte_length,
            r.public_storage_key@ == row.public_storage_key@,
            r.public_url@ == row.public_url@,
            r.owner_ref_type@ == row.owner_ref_type@,
            r.owner_ref_id@ == row.owner_ref_id@,
            r.artifact_status@ == row.status@,
            r.metadata_backend@ == metadata_backend@,
            r.artifact_namespace@ == artifact_namespace@,
            r.public_blob_bucket@ == public_blob_bucket@,
            r.public_blob_endpoint_host@ == public_blob_endpoint_host@,
    {
        PublishedArtifactTelemetry {
            tenant: row.tenant.as_str(),
            artifact_id: row.id.as_str(),
            source_file_id: row.source_file_id.as_str(),
            source_file_version_id: row.source_file_version_id.as_str(),
            content_hash: row.content_hash.as_str(),
            artifact_label: row.label.as_str(),
            mime_type: row.mime_type.as_str(),
            byte_length: row.byte_length,
            public_storage_key: row.public_storage_key.as_str(),
            public_url: row.public_url.as_str(),
            owner_ref_type: row.owner_ref_type.as_str(),
            owner_ref_id: row.owner_ref_id.as_str(),
            artifact_status: row.status.as_str(),
            metadata_backend,
            artifact_namespace,
            public_blob_bucket,
            public_blob_endpoint_host,
        }
    }

    /// The fields of the span, without the tenant, which the span has already.
    pub open spec fn span_fields(self) -> Seq<(Seq<char>, LogModel)> {
        seq![
            ("artifact_id"@, LogModel::Text(self.artifact_id@)),
            ("source_file_id"@, LogModel::Text(self.source_file_id@)),
            ("source_file_version_id"@, LogModel::Text(self.source_file_version_id@)),
            ("content_hash"@, LogModel::Text(self.content_hash@)),
            ("artifact_label"@, LogModel::Text(self.artifact_label@)),
            ("mime_type"@, LogModel::Text(self.mime_type@)),
            ("byte_length"@, LogModel::Number(self.byte_length as int)),
            ("public_storage_key"@, LogModel::Text(self.public_storage_key@)),
            ("public_url"@, LogModel::Text(self.public_url@)),
            ("owner_ref_type"@, LogModel::Text(self.owner_ref_type@)),
            ("owner_ref_id"@, LogModel::Text(self.owner_ref_id@)),
            ("artifact_status"@, LogModel::Text(self.artifact_status@)),
            ("metadata_backend"@, LogModel::Text(self.metadata_backend@)),
            ("artifact_namespace"@, LogModel::Text(self.artifact_namespace@)),
            ("public_blob_bucket"@, LogModel::Text(self.public_blob_bucket@)),
            ("public_blob_endpoint_host"@, LogModel::Text(self.public_blob_endpoint_host@)),
        ]
    }

    /// The fields that the current span is given, in order.
    pub fn record_on_current_span(&self) -> (r: Vec<LogField<'a>>)
        ensures
            log_views(r@) == self.span_fields(),
    {
        let mut out: Vec<LogField<'a>> = Vec::new();
        out.push(LogField { name: "artifact_id", value: LogValue::Text(self.artifact_id) });
        out.push(LogField { name: "source_file_id", value: LogValue::Text(self.source_file_id) });
        out.push(
            LogField {
                name: "source_file_version_id",
                value: LogValue::Text(self.source_file_version_id),
            },
        );
        out.push(LogField { name: "content_hash", value: LogValue::Text(self.content_hash) });
        out.push(LogField { name: "artifact_label", value: LogValue::Text(self.artifact_label) });
        out.push(LogField { name: "mime_type", value: LogValue::Text(self.mime_type) });
        out.push(LogField { name: "byte_length", value: LogValue::Number(self.byte_length) });
        out.push(
            LogField { name: "public_storage_key", value: LogValue::Text(self.public_storage_key) },
        );
        out.push(LogField { name: "public_url", value: LogValue::Text(self.public_url) });
        out.push(LogField { name: "owner_ref_type", value: LogValue::Text(self.owner_ref_type) });
        out.push(LogField { name: "owner_ref_id", value: LogValue::Text(self.owner_ref_id) });
        out.push(LogField { name: "artifact_status", value: LogValue::Text(self.artifact_status) });
        out.push(
            LogField { name: "metadata_backend", value: LogValue::Text(self.metadata_backend) },
        );
        out.push(
            LogField { name: "artifact_namespace", value: LogValue::Text(self.artifact_namespace) },
        );
        out.push(
            LogField { name: "public_blob_bucket", value: LogValue::Text(self.public_blob_bucket) },
        );
        out.push(
            LogField {
                name: "public_blob_endpoint_host",
                value: LogValue::Text(self.public_blob_endpoint_host),
            },
        );
        assert(log_views(out@) =~= self.span_fields());
        out
    }
}

/// What is logged once a publication is recorded: its message and its fields.
pub fn emit_published_artifact_persisted_log<'a>(telemetry: &PublishedArtifactTelemetry<'a>) -> (r:
    (&'static str, Vec<LogField<'a>>))
    ensures
        r.0@ == "published artifact metadata persisted"@,
        log_views(r.1@) == seq![("tenant"@, LogModel::Text(telemetry.tenant@))]
            + telemetry.span_fields(),
{
    let mut fields: Vec<LogField<'a>> = Vec::new();
    fields.push(LogField { name: "tenant", value: LogValue::Text(telemetry.tenant) });
    let mut rest = telemetry.record_on_current_span();
    let ghost first = fields@;
    let ghost others = rest@;
    fields.append(&mut rest);
    assert(log_views(fields@) =~= log_views(first) + log_views(others));
    assert(log_views(first) =~= seq![("tenant"@, LogModel::Text(telemetry.tenant@))]);
    ("published artifact metadata persisted", fields)
}

/// A publication is told under names of its own: each value stands under its name, the
/// tenant is not among them, and no name is used twice.
pub proof fn law_publications_are_told_in_full(told: PublishedArtifactTelemetry<'_>, i: int)
    requires
        0 <= i < told.span_fields().len(),
    ensures
        told.span_fields().len() == 16,
        told.span_fields()[i].0 != "tenant"@,
        told.span_fields()[i].0 == "artifact_id"@ ==> told.span_fields()[i].1 == LogModel::Text(
            told.artifact_id@,
        ),
        told.span_fields()[i].0 == "source_file_id"@ ==> told.span_fields()[i].1 == LogModel::Text(
            told.source_file_id@,
        ),
        told.span_fields()[i].0 == "content_hash"@ ==> told.span_fields()[i].1 == LogModel::Text(
            told.content_hash@,
        ),
        told.span_fields()[i].0 == "byte_length"@ ==> told.span_fields()[i].1 == LogModel::Number(
            told.byte_length as int,
        ),
        told.span_fields()[i].0 == "public_url"@ ==> told.span_fields()[i].1 == LogModel::Text(
            told.public_url@,
        ),
        told.span_fields().contains(("artifact_id"@, LogModel::Text(told.artifact_id@))),
        told.span_fields().contains(("source_file_id"@, LogModel::Text(told.source_file_id@))),
        told.span_fields().contains(
            ("source_file_version_id"@, LogModel::Text(told.source_file_version_id@)),
        ),
        told.span_fields().contains(("content_hash"@, LogModel::Text(told.content_hash@))),
        told.span_fields().contains(("artifact_label"@, LogModel::Text(told.artifact_label@))),
        told.span_fields().contains(("mime_type"@, LogModel::Text(told.mime_type@))),
        told.span_fields().contains(("byte_length"@, LogModel::Number(told.byte_length as int))),
        told.span_fields().contains(
            ("public_storage_key"@, LogModel::Text(told.public_storage_key@)),
        ),
        told.span_fields().contains(("public_url"@, LogModel::Text(told.public_url@))),
        told.span_fields().contains(("owner_ref_type"@, LogModel::Text(told.owner_ref_type@))),
        told.span_fields().contains(("owner_ref_id"@, LogModel::Text(told.owner_ref_id@))),
        told.span_fields().contains(("artifact_status"@, LogModel::Text(told.artifact_status@))),
        told.span_fields().contains(("metadata_backend"@, LogModel::Text(told.metadata_backend@))),
        told.span_fields().contains(
            ("artifact_namespace"@, LogModel::Text(told.artifact_namespace@)),
        ),
        told.span_fields().contains(
            ("public_blob_bucket"@, LogModel::Text(told.public_blob_bucket@)),
        ),
        told.span_fields().contains(
            ("public_blob_endpoint_host"@, LogModel::Text(told.public_blob_endpoint_host@)),
        ),
{
    reveal_strlit("tenant");
    reveal_strlit("artifact_id");
    reveal_strlit("source_file_id");
    reveal_strlit("source_file_version_id");
    reveal_strlit("content_hash");
    reveal_strlit("artifact_label");
    reveal_strlit("mime_type");
    reveal_strlit("byte_length");
    reveal_strlit("public_storage_key");
    reveal_strlit("public_url");
    reveal_strlit("owner_ref_type");
    reveal_strlit("owner_ref_id");
    reveal_strlit("artifact_status");
    reveal_strlit("metadata_backend");
    reveal_strlit("artifact_namespace");
    reveal_strlit("public_blob_bucket");
    reveal_strlit("public_blob_endpoint_host");
    let f = told.span_fields();
    assert("artifact_label"@[0] == 'a');
    assert("artifact_label"@[9] == 'l');
    assert("artifact_id"@[9] == 'i');
    assert("content_hash"@[0] == 'c');
    assert("owner_ref_id"@[0] == 'o');
    assert("byte_length"@[0] == 'b');
    assert("public_url"@[0] == 'p');
    assert("source_file_id"@[0] == 's');
    assert("owner_ref_type"@[0] == 'o');
    assert("artifact_id"@[0] == 'a');
    assert(f[i].0 != "tenant"@) by {
        assert("tenant"@.len() == 6);
        assert(f[i].0.len() > 6);
    }
    assert(i != 1 ==> f[i].0 != "source_file_id"@) by {
        assert("source_file_id"@.len() == 14);
    }
    assert(i != 8 ==> f[i].0.len() != 10);
    assert("public_url"@.len() == 10);
    assert(f.contains(f[0]) && f.contains(f[1]) && f.contains(f[2]) && f.contains(f[3]));
    assert(f.contains(f[4]) && f.contains(f[5]) && f.contains(f[6]) && f.contains(f[7]));
    assert(f.contains(f[8]) && f.contains(f[9]) && f.contains(f[10]) && f.contains(f[11]));
    assert(f.contains(f[12]) && f.contains(f[13]) && f.contains(f[14]) && f.contains(f[15]));
}

} // verus!
