//! Parity between the query projection and what the journals replay.

use vstd::multiset::Multiset;
use vstd::prelude::*;
use vstd::string::*;

use crate::entity_load::deleted_status;
use crate::entity_load::is_deleted;
use crate::json::field;
use crate::json::json_equal;
use crate::json::law_equal_values_have_equal_members;
use crate::json::same_json;
use crate::json::JsonValue;
use crate::sorted::lemma_ascending_unique;
use crate::sorted::texts;
use crate::sorted::SortedMap;
use crate::text::has_prefix;
use crate::text::lemma_text_lt_irreflexive;
use crate::text::lemma_text_lt_transitive;
use crate::text::same_text;
use crate::text::text_less;
use crate::text::text_lt;

verus! {

/// How many examples a report keeps.
pub const MAX_REPLAY_PARITY_DRIFT_EXAMPLES: usize = 25;

/// One example of drift, or of an entity that could not be compared.
#[derive(Debug)]
pub struct QueryProjectionReplayParityDrift {
    pub entity_type: String,
    pub entity_id: String,
    /// The class of drift, such as `fields`, `sequence` or `missing_catalog`.
    pub drift_kind: String,
    /// How the catalog's sequence number stands to the replayed one.
    pub sequence_direction: String,
    /// How far the two sequence numbers are apart.
    pub sequence_gap: u64,
    /// The catalog's sequence number, where it has a row.
    pub catalog_sequence: Option<u64>,
    /// The sequence number that the replay reached.
    pub authoritative_sequence: u64,
}

/// The model of one example.
#[verifier::ext_equal]
pub struct DriftModel {
    pub entity_type: Seq<char>,
    pub entity_id: Seq<char>,
    pub drift_kind: Seq<char>,
    pub sequence_direction: Seq<char>,
    pub sequence_gap: u64,
    pub catalog_sequence: Option<u64>,
    pub authoritative_sequence: u64,
}

impl View for QueryProjectionReplayParityDrift {
    type V = DriftModel;

    open spec fn view(&self) -> DriftModel {
        DriftModel {
            entity_type: self.entity_type@,
            entity_id: self.entity_id@,
            drift_kind: self.drift_kind@,
            sequence_direction: self.sequence_direction@,
            sequence_gap: self.sequence_gap,
            catalog_sequence: self.catalog_sequence,
            authoritative_sequence: self.authoritative_sequence,
        }
    }
}

pub open spec fn drift_views(examples: Seq<QueryProjectionReplayParityDrift>) -> Seq<DriftModel> {
    examples.map_values(|d: QueryProjectionReplayParityDrift| d@)
}

/// The report of one run.
#[derive(Debug)]
pub struct QueryProjectionReplayParityReport {
    /// The tenant whose journals and rows were compared.
    pub tenant: String,
    /// The entity type to which the run was confined.
    pub entity_type: Option<String>,
    /// The most entities that the run would consider.
    pub entity_limit: Option<u64>,
    /// How many persisted entities were considered.
    pub checked: u64,
    /// How many live entities had a row that matched.
    pub matched: u64,
    /// How many entities had a row that diverged, or lacked one.
    pub drifted: u64,
    /// How many live entities lacked a row.
    pub missing: u64,
    /// How many deleted entities were rightly absent.
    pub deleted_absent: u64,
    /// How many entities could not be compared.
    pub errors: u64,
    /// The first examples of drift and errors.
    pub drift_examples: Vec<QueryProjectionReplayParityDrift>,
}

impl QueryProjectionReplayParityReport {
    /// Every entity is counted once, and the first findings are kept as examples.
    pub open spec fn wf(&self) -> bool {
        &&& self.checked == self.matched + self.drifted + self.deleted_absent + self.errors
        &&& self.missing <= self.drifted
        &&& self.drift_examples@.len() == if self.drifted + self.errors
            <= MAX_REPLAY_PARITY_DRIFT_EXAMPLES {
            self.drifted + self.errors
        } else {
            MAX_REPLAY_PARITY_DRIFT_EXAMPLES as int
        }
    }

    /// Nothing drifted, nothing is missing and everything could be compared.
    pub open spec fn clean(&self) -> bool {
        self.drifted == 0 && self.missing == 0 && self.errors == 0
    }

    /// A report before the first entity.
    pub fn new(tenant: &str, entity_type: Option<String>, entity_limit: Option<u64>) -> (r: Self)
        ensures
            r.wf(),
            r.tenant@ == tenant@,
            r.entity_type == entity_type,
            r.entity_limit == entity_limit,
            r.checked == 0,
            r.matched == 0,
            r.drifted == 0,
            r.missing == 0,
            r.deleted_absent == 0,
            r.errors == 0,
            r.drift_examples@.len() == 0,
    {
        QueryProjectionReplayParityReport {
            tenant: tenant.to_owned(),
            entity_type,
            entity_limit,
            checked: 0,
            matched: 0,
            drifted: 0,
            missing: 0,
            deleted_absent: 0,
            errors: 0,
            drift_examples: Vec::new(),
        }
    }

    /// Whether every checked entity met the projection contract.
    pub fn is_clean(&self) -> (r: bool)
        ensures
            r == self.clean(),
    {
        self.drifted == 0 && self.missing == 0 && self.errors == 0
    }
}

/// A report is clean exactly when each entity it checked matched its row or was
/// deleted and rightly absent.
pub proof fn law_clean_reports_have_only_matches(report: QueryProjectionReplayParityReport)
    requires
        report.wf(),
    ensures
        report.clean() == (report.checked == report.matched + report.deleted_absent),
        report.clean() ==> report.drift_examples@.len() == 0,
{
}

// ---------------------------------------------------------------------------
// One comparison
// ---------------------------------------------------------------------------

/// The row of an entity in the projection catalog.
pub struct EntityCatalogRow {
    pub status: String,
    pub fields: JsonValue,
    pub state: Option<JsonValue>,
    pub sequence_nr: u64,
}

/// What an entity's replay amounts to.
pub struct ReplayedEntity {
    pub status: String,
    /// The fields as the projection would hold them.
    pub projected_fields: JsonValue,
    /// The state as the projection would hold it.
    pub projected_state: JsonValue,
    pub authoritative_sequence: u64,
}

/// In how many respects a row differs, and in which one if it is one alone.
pub open spec fn drift_class(
    status: bool,
    fields: bool,
    state: bool,
    sequence: bool,
) -> Seq<char> {
    if !status && !fields && !state && !sequence {
        "none"@
    } else if status && !fields && !state && !sequence {
        "status"@
    } else if !status && fields && !state && !sequence {
        "fields"@
    } else if !status && !fields && state && !sequence {
        "state"@
    } else if !status && !fields && !state && sequence {
        "sequence"@
    } else {
        "multiple"@
    }
}

/// The drift between a row and a replay.
pub open spec fn drift_of(catalog: EntityCatalogRow, replayed: ReplayedEntity) -> Seq<char> {
    drift_class(
        catalog.status@ != replayed.status@,
        !same_json(catalog.fields, replayed.projected_fields),
        catalog.state is Some && !same_json(catalog.state->0, replayed.projected_state),
        catalog.sequence_nr != replayed.authoritative_sequence,
    )
}

/// The row agrees with the replay in every respect that it records.
pub open spec fn agrees(catalog: EntityCatalogRow, replayed: ReplayedEntity) -> bool {
    &&& catalog.status@ == replayed.status@
    &&& same_json(catalog.fields, replayed.projected_fields)
    &&& catalog.state is Some ==> same_json(catalog.state->0, replayed.projected_state)
    &&& catalog.sequence_nr == replayed.authoritative_sequence
}

/// The two values differ in a member: it stands in one of them alone, or with
/// another value.
pub open spec fn differ_in(a: JsonValue, b: JsonValue, name: Seq<char>) -> bool {
    match (field(a, name), field(b, name)) {
        (Some(x), Some(y)) => !same_json(x, y),
        (None, None) => false,
        _ => true,
    }
}

/// A row never agrees with a replay from which it differs: in the status, in the
/// sequence number, in a field, or in a part of the state that it records.
pub proof fn law_drifted_fields_never_agree(
    catalog: EntityCatalogRow,
    replayed: ReplayedEntity,
    name: Seq<char>,
)
    ensures
        catalog.status@ != replayed.status@ ==> !agrees(catalog, replayed),
        catalog.sequence_nr != replayed.authoritative_sequence ==> !agrees(catalog, replayed),
        differ_in(catalog.fields, replayed.projected_fields, name) ==> !agrees(catalog, replayed),
        catalog.state is Some && differ_in(catalog.state->0, replayed.projected_state, name)
            ==> !agrees(catalog, replayed),
{
    if agrees(catalog, replayed) {
        law_equal_values_have_equal_members(catalog.fields, replayed.projected_fields, name);
        if catalog.state is Some {
            law_equal_values_have_equal_members(
                catalog.state->0,
                replayed.projected_state,
                name,
            );
        }
    }
}

/// The kind of a drift names what drifted: where it names one respect, the row
/// differs in that one and in no other.
pub proof fn law_drift_kinds_name_what_drifted(catalog: EntityCatalogRow, replayed: ReplayedEntity)
    ensures
        ({
            let kind = drift_of(catalog, replayed);
            let status = catalog.status@ == replayed.status@;
            let sequence = catalog.sequence_nr == replayed.authoritative_sequence;
            let fields = same_json(catalog.fields, replayed.projected_fields);
            &&& kind == "none"@ ==> status && sequence && fields
            &&& kind == "status"@ ==> !status && sequence && fields
            &&& kind == "fields"@ ==> status && sequence && !fields
            &&& kind == "state"@ ==> status && sequence && fields && catalog.state is Some
            &&& kind == "sequence"@ ==> status && !sequence && fields
            &&& kind == "multiple"@ ==> !status || !sequence || !fields
            &&& status && sequence && fields && catalog.state is None ==> kind == "none"@
        }),
{
    reveal_strlit("none");
    reveal_strlit("status");
    reveal_strlit("fields");
    reveal_strlit("state");
    reveal_strlit("sequence");
    reveal_strlit("multiple");
    assert("none"@[0] == 'n' && "status"@[4] == 'u' && "fields"@[0] == 'f' && "state"@[4] == 'e'
        && "sequence"@[0] == 's' && "sequence"@[1] == 'e' && "multiple"@[0] == 'm');
    assert("status"@.len() == 6 && "state"@.len() == 5 && "sequence"@.len() == 8);
}

/// How far a catalog is behind or ahead brings the one sequence number to the other.
pub proof fn law_gaps_bridge_the_sequence_numbers(catalog: u64, authoritative: u64)
    ensures
        ({
            let direction = direction_of(Some(catalog), authoritative);
            let gap = gap_of(Some(catalog), authoritative);
            &&& direction == "catalog_behind"@ ==> catalog + gap == authoritative && gap > 0
            &&& direction == "catalog_ahead"@ ==> authoritative + gap == catalog && gap > 0
            &&& direction == "equal"@ ==> catalog == authoritative
            &&& catalog == authoritative ==> gap == 0 && direction == "equal"@
        }),
        gap_of(None, authoritative) == authoritative,
{
    reveal_strlit("catalog_behind");
    reveal_strlit("catalog_ahead");
    reveal_strlit("equal");
    assert("catalog_behind"@.len() == 14 && "catalog_ahead"@.len() == 13 && "equal"@.len() == 5);
}

/// The drift between a row and a replay.
pub fn replay_parity_drift_kind(catalog: &EntityCatalogRow, replayed: &ReplayedEntity) -> (r:
    &'static str)
    ensures
        r@ == drift_of(*catalog, *replayed),
        (r@ == "none"@) == agrees(*catalog, *replayed),
        catalog.status@ != replayed.status@ ==> r@ != "none"@,
        catalog.sequence_nr != replayed.authoritative_sequence ==> r@ != "none"@,
        forall|name: Seq<char>| #[trigger]
            differ_in(catalog.fields, replayed.projected_fields, name) ==> r@ != "none"@,
        catalog.state matches Some(state) ==> forall|name: Seq<char>| #[trigger]
            differ_in(state, replayed.projected_state, name) ==> r@ != "none"@,
{
    proof {
        assert forall|name: Seq<char>| #[trigger]
            differ_in(catalog.fields, replayed.projected_fields, name) implies !agrees(
            *catalog,
            *replayed,
        ) by {
            law_drifted_fields_never_agree(*catalog, *replayed, name);
        }
        if catalog.state is Some {
            let state = catalog.state->0;
            assert forall|name: Seq<char>| #[trigger]
                differ_in(state, replayed.projected_state, name) implies !agrees(
                *catalog,
                *replayed,
            ) by {
                law_drifted_fields_never_agree(*catalog, *replayed, name);
            }
        }
    }
    let status_drift = !same_text(catalog.status.as_str(), replayed.status.as_str());
    let fields_drift = !json_equal(&catalog.fields, &replayed.projected_fields);
    let state_drift = match &catalog.state {
        Some(s) => !json_equal(s, &replayed.projected_state),
        None => false,
    };
    let sequence_drift = catalog.sequence_nr != replayed.authoritative_sequence;
    proof {
        reveal_strlit("none");
        reveal_strlit("status");
        reveal_strlit("fields");
        reveal_strlit("state");
        reveal_strlit("sequence");
        reveal_strlit("multiple");
        assert("none"@[0] != "state"@[0]);
    }
    match (status_drift, fields_drift, state_drift, sequence_drift) {
        (false, false, false, false) => "none",
        (true, false, false, false) => "status",
        (false, true, false, false) => "fields",
        (false, false, true, false) => "state",
        (false, false, false, true) => "sequence",
        _ => "multiple",
    }
}

/// How a catalog's sequence number stands to the replayed one.
pub open spec fn direction_of(catalog: Option<u64>, authoritative: u64) -> Seq<char> {
    match catalog {
        None => "catalog_missing"@,
        Some(c) => if c < authoritative {
            "catalog_behind"@
        } else if c == authoritative {
            "equal"@
        } else {
            "catalog_ahead"@
        },
    }
}

/// How far the two sequence numbers are apart.
pub open spec fn gap_of(catalog: Option<u64>, authoritative: u64) -> u64 {
    match catalog {
        None => authoritative,
        Some(c) => if c < authoritative {
            (authoritative - c) as u64
        } else {
            (c - authoritative) as u64
        },
    }
}

/// How a catalog's sequence number stands to the replayed one, and how far.
pub fn replay_parity_sequence_gap(
    catalog_sequence: Option<u64>,
    authoritative_sequence: u64,
) -> (r: (&'static str, u64))
    ensures
        r.0@ == direction_of(catalog_sequence, authoritative_sequence),
        r.1 == gap_of(catalog_sequence, authoritative_sequence),
{
    match catalog_sequence {
        None => ("catalog_missing", authoritative_sequence),
        Some(c) => {
            if c < authoritative_sequence {
                ("catalog_behind", authoritative_sequence - c)
            } else if c == authoritative_sequence {
                ("equal", 0)
            } else {
                ("catalog_ahead", c - authoritative_sequence)
            }
        },
    }
}

/// One example for a report.
pub struct ReplayParityExample<'a> {
    pub entity_type: &'a str,
    pub entity_id: &'a str,
    pub drift_kind: &'a str,
    pub sequence_direction: &'a str,
    pub sequence_gap: u64,
    pub catalog_sequence: Option<u64>,
    pub authoritative_sequence: u64,
}

pub open spec fn example_model(e: ReplayParityExample<'_>) -> DriftModel {
    DriftModel {
        entity_type: e.entity_type@,
        entity_id: e.entity_id@,
        drift_kind: e.drift_kind@,
        sequence_direction: e.sequence_direction@,
        sequence_gap: e.sequence_gap,
        catalog_sequence: e.catalog_sequence,
        authoritative_sequence: e.authoritative_sequence,
    }
}

/// Examples with one more, as long as there is room.
pub open spec fn with_example(examples: Seq<DriftModel>, e: DriftModel) -> Seq<DriftModel> {
    if examples.len() >= MAX_REPLAY_PARITY_DRIFT_EXAMPLES {
        examples
    } else {
        examples.push(e)
    }
}

/// How many examples there are after one more was offered.
pub open spec fn room_for_one(n: nat) -> nat {
    if n >= MAX_REPLAY_PARITY_DRIFT_EXAMPLES {
        n
    } else {
        n + 1
    }
}

/// The counters and the scope of two reports are the same.
pub open spec fn same_counts(
    a: QueryProjectionReplayParityReport,
    b: QueryProjectionReplayParityReport,
) -> bool {
    &&& a.tenant == b.tenant
    &&& a.entity_type == b.entity_type
    &&& a.entity_limit == b.entity_limit
    &&& a.checked == b.checked
    &&& a.matched == b.matched
    &&& a.drifted == b.drifted
    &&& a.missing == b.missing
    &&& a.deleted_absent == b.deleted_absent
    &&& a.errors == b.errors
}

/// Adds an example to a report, as long as there is room.
pub fn push_replay_parity_example(
    report: &mut QueryProjectionReplayParityReport,
    example: ReplayParityExample<'_>,
)
    ensures
        same_counts(*final(report), *old(report)),
        drift_views(final(report).drift_examples@) == with_example(
            drift_views(old(report).drift_examples@),
            example_model(example),
        ),
        final(report).drift_examples@.len() == room_for_one(old(report).drift_examples@.len()),
{
    if report.drift_examples.len() >= MAX_REPLAY_PARITY_DRIFT_EXAMPLES {
        return;
    }
    report.drift_examples.push(
        QueryProjectionReplayParityDrift {
            entity_type: example.entity_type.to_owned(),
            entity_id: example.entity_id.to_owned(),
            drift_kind: example.drift_kind.to_owned(),
            sequence_direction: example.sequence_direction.to_owned(),
            sequence_gap: example.sequence_gap,
            catalog_sequence: example.catalog_sequence,
            authoritative_sequence: example.authoritative_sequence,
        },
    );
    assert(drift_views(report.drift_examples@) =~= drift_views(old(report).drift_examples@).push(
        example_model(example),
    ));
}

// ---------------------------------------------------------------------------
// One entity
// ---------------------------------------------------------------------------

/// What was found out about one entity.
pub enum ParityProbe {
    /// No transition table to replay with.
    MissingTable,
    /// The projection has no catalog to compare with.
    CatalogUnavailable,
    /// The catalog could not be read.
    CatalogError,
    /// The replay failed; the catalog's sequence number, where it has a row.
    ReplayError { catalog_sequence: Option<u64> },
    /// The replay brought no state.
    ReplayAbsent { catalog_sequence: Option<u64>, authoritative_sequence: u64 },
    /// The replayed state, and the catalog's row where there is one.
    Replayed { catalog: Option<EntityCatalogRow>, replayed: ReplayedEntity },
}

/// What the catalog says of one entity.
pub enum CatalogReading {
    /// It could not be read.
    Failed,
    /// There is none.
    Unavailable,
    /// The entity's row, where there is one.
    Row(Option<EntityCatalogRow>),
}

/// What the journal replays to.
pub enum ReplayReading {
    /// The replay failed.
    Failed,
    /// It brought no state.
    Absent { authoritative_sequence: u64 },
    /// The state that it brought.
    State(ReplayedEntity),
}

/// What the catalog settles about an entity before anything is replayed; its row,
/// where the replay is to be compared with it.
pub fn settle_before_replay(has_table: bool, catalog: CatalogReading) -> (r: Result<
    Option<EntityCatalogRow>,
    ParityProbe,
>)
    ensures
        r == (if !has_table {
            Err(ParityProbe::MissingTable)
        } else {
            match catalog {
                CatalogReading::Failed => Err(ParityProbe::CatalogError),
                CatalogReading::Unavailable => Err(ParityProbe::CatalogUnavailable),
                CatalogReading::Row(row) => Ok(row),
            }
        }),
{
    if !has_table {
        return Err(ParityProbe::MissingTable);
    }
    match catalog {
        CatalogReading::Failed => Err(ParityProbe::CatalogError),
        CatalogReading::Unavailable => Err(ParityProbe::CatalogUnavailable),
        CatalogReading::Row(row) => Ok(row),
    }
}

/// What was found out about an entity that was replayed.
pub fn probe_replay(catalog: Option<EntityCatalogRow>, replay: ReplayReading) -> (r: ParityProbe)
    ensures
        ({
            let catalog_sequence = match catalog {
                Some(row) => Some(row.sequence_nr),
                None => None,
            };
            r == match replay {
                ReplayReading::Failed => ParityProbe::ReplayError { catalog_sequence },
                ReplayReading::Absent { authoritative_sequence } => ParityProbe::ReplayAbsent {
                    catalog_sequence,
                    authoritative_sequence,
                },
                ReplayReading::State(replayed) => ParityProbe::Replayed { catalog, replayed },
            }
        }),
{
    let catalog_sequence: Option<u64> = match catalog.as_ref() {
        Some(row) => Some(row.sequence_nr),
        None => None,
    };
    match replay {
        ReplayReading::Failed => ParityProbe::ReplayError { catalog_sequence },
        ReplayReading::Absent { authoritative_sequence } => ParityProbe::ReplayAbsent {
            catalog_sequence,
            authoritative_sequence,
        },
        ReplayReading::State(replayed) => ParityProbe::Replayed { catalog, replayed },
    }
}

/// How one entity is counted.
pub enum Verdict {
    Matched,
    Drifted,
    Missing,
    DeletedAbsent,
    Failed,
}

/// How a probe is counted.
pub open spec fn verdict_of(probe: ParityProbe) -> Verdict {
    match probe {
        ParityProbe::Replayed { catalog, replayed } => if replayed.status@ == deleted_status() {
            if catalog is Some {
                Verdict::Drifted
            } else {
                Verdict::DeletedAbsent
            }
        } else if catalog is None {
            Verdict::Missing
        } else if agrees(catalog->0, replayed) {
            Verdict::Matched
        } else {
            Verdict::Drifted
        },
        _ => Verdict::Failed,
    }
}

/// The class of what was found.
pub open spec fn finding_of(probe: ParityProbe) -> Seq<char> {
    match probe {
        ParityProbe::MissingTable => "missing_table"@,
        ParityProbe::CatalogUnavailable => "catalog_unavailable"@,
        ParityProbe::CatalogError => "catalog_error"@,
        ParityProbe::ReplayError { .. } => "replay_error"@,
        ParityProbe::ReplayAbsent { .. } => "replay_absent"@,
        ParityProbe::Replayed { catalog, replayed } => if replayed.status@ == deleted_status() {
            if catalog is Some {
                "deleted_present"@
            } else {
                "deleted_absent"@
            }
        } else if catalog is None {
            "missing_catalog"@
        } else {
            drift_of(catalog->0, replayed)
        },
    }
}

/// The catalog's sequence number in a probe.
pub open spec fn probe_catalog(probe: ParityProbe) -> Option<u64> {
    match probe {
        ParityProbe::ReplayError { catalog_sequence } => catalog_sequence,
        ParityProbe::ReplayAbsent { catalog_sequence, .. } => catalog_sequence,
        ParityProbe::Replayed { catalog: Some(row), .. } => Some(row.sequence_nr),
        _ => None,
    }
}

/// The replayed sequence number in a probe.
pub open spec fn probe_sequence(probe: ParityProbe) -> u64 {
    match probe {
        ParityProbe::ReplayAbsent { authoritative_sequence, .. } => authoritative_sequence,
        ParityProbe::Replayed { replayed, .. } => replayed.authoritative_sequence,
        _ => 0,
    }
}

/// The example that a finding gives.
pub open spec fn example_of(
    entity_type: Seq<char>,
    entity_id: Seq<char>,
    probe: ParityProbe,
) -> DriftModel {
    DriftModel {
        entity_type,
        entity_id,
        drift_kind: finding_of(probe),
        sequence_direction: if probe is Replayed {
            direction_of(probe_catalog(probe), probe_sequence(probe))
        } else {
            "unknown"@
        },
        sequence_gap: if probe is Replayed {
            gap_of(probe_catalog(probe), probe_sequence(probe))
        } else {
            0
        },
        catalog_sequence: probe_catalog(probe),
        authoritative_sequence: probe_sequence(probe),
    }
}

/// The finding is worth an example.
pub open spec fn is_finding(v: Verdict) -> bool {
    v is Drifted || v is Missing || v is Failed
}

pub open spec fn one_if(b: bool) -> int {
    if b {
        1
    } else {
        0
    }
}

/// One entity more in a report.
pub open spec fn report_step(
    before: QueryProjectionReplayParityReport,
    after: QueryProjectionReplayParityReport,
    entity_type: Seq<char>,
    entity_id: Seq<char>,
    probe: ParityProbe,
) -> bool {
    let v = verdict_of(probe);
    &&& after.tenant == before.tenant
    &&& after.entity_type == before.entity_type
    &&& after.entity_limit == before.entity_limit
    &&& after.checked == before.checked + 1
    &&& after.matched == before.matched + one_if(v is Matched)
    &&& after.drifted == before.drifted + one_if(v is Drifted || v is Missing)
    &&& after.missing == before.missing + one_if(v is Missing)
    &&& after.deleted_absent == before.deleted_absent + one_if(v is DeletedAbsent)
    &&& after.errors == before.errors + one_if(v is Failed)
    &&& drift_views(after.drift_examples@) == if is_finding(v) {
        with_example(
            drift_views(before.drift_examples@),
            example_of(entity_type, entity_id, probe),
        )
    } else {
        drift_views(before.drift_examples@)
    }
}

/// What is measured of one check.
pub struct ParityCheckSample {
    pub result: &'static str,
    pub drift_kind: &'static str,
    pub sequence_direction: &'static str,
    pub sequence_gap: u64,
}

/// What is measured of a probe; nothing where the replay brought no state.
pub open spec fn sample_says(sample: Option<ParityCheckSample>, probe: ParityProbe) -> bool {
    match sample {
        None => probe is ReplayAbsent,
        Some(s) => {
            &&& !(probe is ReplayAbsent)
            &&& s.result@ == (match verdict_of(probe) {
                Verdict::Matched => "match"@,
                Verdict::DeletedAbsent => "match"@,
                Verdict::Failed => "error"@,
                _ => "drift"@,
            })
            &&& s.drift_kind@ == finding_of(probe)
            &&& s.sequence_direction@ == (match probe {
                ParityProbe::Replayed { .. } => if verdict_of(probe) is DeletedAbsent {
                    "catalog_absent"@
                } else {
                    direction_of(probe_catalog(probe), probe_sequence(probe))
                },
                _ => "unknown"@,
            })
            &&& s.sequence_gap == (match probe {
                ParityProbe::Replayed { .. } => if verdict_of(probe) is DeletedAbsent {
                    0
                } else {
                    gap_of(probe_catalog(probe), probe_sequence(probe))
                },
                _ => 0,
            })
        },
    }
}

fn count_failure(
    report: &mut QueryProjectionReplayParityReport,
    entity_type: &str,
    entity_id: &str,
    kind: &'static str,
    catalog_sequence: Option<u64>,
    authoritative_sequence: u64,
)
    requires
        old(report).errors < u64::MAX,
    ensures
        final(report).tenant == old(report).tenant,
        final(report).entity_type == old(report).entity_type,
        final(report).entity_limit == old(report).entity_limit,
        final(report).checked == old(report).checked,
        final(report).matched == old(report).matched,
        final(report).drifted == old(report).drifted,
        final(report).missing == old(report).missing,
        final(report).deleted_absent == old(report).deleted_absent,
        final(report).errors == old(report).errors + 1,
        drift_views(final(report).drift_examples@) == with_example(
            drift_views(old(report).drift_examples@),
            (DriftModel {
                entity_type: entity_type@,
                entity_id: entity_id@,
                drift_kind: kind@,
                sequence_direction: "unknown"@,
                sequence_gap: 0,
                catalog_sequence,
                authoritative_sequence,
            }),
        ),
        final(report).drift_examples@.len() == room_for_one(old(report).drift_examples@.len()),
{
    report.errors = report.errors + 1;
    push_replay_parity_example(
        report,
        ReplayParityExample {
            entity_type,
            entity_id,
            drift_kind: kind,
            sequence_direction: "unknown",
            sequence_gap: 0,
            catalog_sequence,
            authoritative_sequence,
        },
    );
}

fn error_sample(kind: &'static str) -> (r: Option<ParityCheckSample>)
    ensures
        r matches Some(s) && s.result@ == "error"@ && s.drift_kind@ == kind@
            && s.sequence_direction@ == "unknown"@ && s.sequence_gap == 0,
{
    Some(
        ParityCheckSample {
            result: "error",
            drift_kind: kind,
            sequence_direction: "unknown",
            sequence_gap: 0,
        },
    )
}

/// Counts one entity in the report and says what is measured of the check.
pub fn check_entity_parity(
    report: &mut QueryProjectionReplayParityReport,
    entity_type: &str,
    entity_id: &str,
    probe: &ParityProbe,
) -> (r: Option<ParityCheckSample>)
    requires
        old(report).wf(),
        old(report).checked < u64::MAX,
    ensures
        final(report).wf(),
        report_step(*old(report), *final(report), entity_type@, entity_id@, *probe),
        sample_says(r, *probe),
{
    report.checked = report.checked + 1;
    let ghost started = *report;
    assert(drift_views(started.drift_examples@) == drift_views(old(report).drift_examples@));
    match probe {
        ParityProbe::MissingTable => {
            count_failure(report, entity_type, entity_id, "missing_table", None, 0);
            error_sample("missing_table")
        },
        ParityProbe::CatalogUnavailable => {
            count_failure(report, entity_type, entity_id, "catalog_unavailable", None, 0);
            error_sample("catalog_unavailable")
        },
        ParityProbe::CatalogError => {
            count_failure(report, entity_type, entity_id, "catalog_error", None, 0);
            error_sample("catalog_error")
        },
        ParityProbe::ReplayError { catalog_sequence } => {
            count_failure(report, entity_type, entity_id, "replay_error", *catalog_sequence, 0);
            error_sample("replay_error")
        },
        ParityProbe::ReplayAbsent { catalog_sequence, authoritative_sequence } => {
            count_failure(
                report,
                entity_type,
                entity_id,
                "replay_absent",
                *catalog_sequence,
                *authoritative_sequence,
            );
            None
        },
        ParityProbe::Replayed { catalog, replayed } => {
            let sequence: u64 = replayed.authoritative_sequence;
            let deleted = is_deleted(replayed.status.as_str());
            let catalog_sequence: Option<u64> = match catalog {
                Some(row) => Some(row.sequence_nr),
                None => None,
            };
            let (direction, gap) = replay_parity_sequence_gap(catalog_sequence, sequence);
            let kind: &'static str = match catalog {
                Some(row) => {
                    if deleted {
                        "deleted_present"
                    } else {
                        replay_parity_drift_kind(row, replayed)
                    }
                },
                None => {
                    if deleted {
                        "deleted_absent"
                    } else {
                        "missing_catalog"
                    }
                },
            };
            if catalog.is_none() && deleted {
                report.deleted_absent = report.deleted_absent + 1;
                return Some(
                    ParityCheckSample {
                        result: "match",
                        drift_kind: kind,
                        sequence_direction: "catalog_absent",
                        sequence_gap: 0,
                    },
                );
            }
            if catalog.is_some() && !deleted && same_text(kind, "none") {
                report.matched = report.matched + 1;
                return Some(
                    ParityCheckSample {
                        result: "match",
                        drift_kind: kind,
                        sequence_direction: direction,
                        sequence_gap: gap,
                    },
                );
            }
            if catalog.is_none() {
                report.missing = report.missing + 1;
            }
            report.drifted = report.drifted + 1;
            push_replay_parity_example(
                report,
                ReplayParityExample {
                    entity_type,
                    entity_id,
                    drift_kind: kind,
                    sequence_direction: direction,
                    sequence_gap: gap,
                    catalog_sequence,
                    authoritative_sequence: sequence,
                },
            );
            Some(
                ParityCheckSample {
                    result: "drift",
                    drift_kind: kind,
                    sequence_direction: direction,
                    sequence_gap: gap,
                },
            )
        },
    }
}

// ---------------------------------------------------------------------------
// One run
// ---------------------------------------------------------------------------

/// One entity of a run and what was found out about it.
pub struct ProbedEntity {
    pub entity_type: String,
    pub entity_id: String,
    pub probe: ParityProbe,
}

/// How many of the probed entities are counted in a given way.
pub open spec fn tally(probed: Seq<ProbedEntity>, counts: spec_fn(Verdict) -> bool) -> nat
    decreases probed.len(),
{
    if probed.len() == 0 {
        0
    } else {
        tally(probed.drop_last(), counts) + (if counts(verdict_of(probed.last().probe)) {
            1nat
        } else {
            0nat
        })
    }
}

/// The examples of the findings among the probed entities.
pub open spec fn findings(probed: Seq<ProbedEntity>) -> Seq<DriftModel>
    decreases probed.len(),
{
    if probed.len() == 0 {
        Seq::empty()
    } else {
        let e = probed.last();
        if is_finding(verdict_of(e.probe)) {
            findings(probed.drop_last()).push(
                example_of(e.entity_type@, e.entity_id@, e.probe),
            )
        } else {
            findings(probed.drop_last())
        }
    }
}

/// The first examples that fit in a report.
pub open spec fn kept_examples(all: Seq<DriftModel>) -> Seq<DriftModel> {
    if all.len() <= MAX_REPLAY_PARITY_DRIFT_EXAMPLES {
        all
    } else {
        all.take(MAX_REPLAY_PARITY_DRIFT_EXAMPLES as int)
    }
}

/// The report of a run over the probed entities.
pub open spec fn report_covers(
    report: QueryProjectionReplayParityReport,
    probed: Seq<ProbedEntity>,
) -> bool {
    &&& report.checked == probed.len()
    &&& report.matched == tally(probed, |v: Verdict| v is Matched)
    &&& report.drifted == tally(probed, |v: Verdict| v is Drifted || v is Missing)
    &&& report.missing == tally(probed, |v: Verdict| v is Missing)
    &&& report.deleted_absent == tally(probed, |v: Verdict| v is DeletedAbsent)
    &&& report.errors == tally(probed, |v: Verdict| v is Failed)
    &&& drift_views(report.drift_examples@) == kept_examples(findings(probed))
}

/// Reports on a run: every probed entity is counted, and the first findings are
/// kept as examples.
pub fn verify_query_projection_replay_parity(
    tenant: &str,
    entity_type_filter: Option<String>,
    entity_limit: Option<u64>,
    probed: &Vec<ProbedEntity>,
) -> (r: QueryProjectionReplayParityReport)
    ensures
        r.wf(),
        r.tenant@ == tenant@,
        r.entity_type == entity_type_filter,
        r.entity_limit == entity_limit,
        report_covers(r, probed@),
{
    let mut report = QueryProjectionReplayParityReport::new(
        tenant,
        entity_type_filter,
        entity_limit,
    );
    let mut i: usize = 0;
    assert(drift_views(report.drift_examples@) =~= Seq::<DriftModel>::empty());
    while i < probed.len()
        invariant
            i <= probed@.len(),
            report.wf(),
            report.tenant@ == tenant@,
            report.entity_type == entity_type_filter,
            report.entity_limit == entity_limit,
            report_covers(report, probed@.take(i as int)),
        decreases probed@.len() - i,
    {
        let e: &ProbedEntity = &probed[i];
        let _ = check_entity_parity(
            &mut report,
            e.entity_type.as_str(),
            e.entity_id.as_str(),
            &e.probe,
        );
        proof {
            let next = probed@.take(i + 1);
            assert(next.drop_last() =~= probed@.take(i as int));
            assert(next.last() == probed@[i as int]);
            let all = findings(probed@.take(i as int));
            let m = example_of(e.entity_type@, e.entity_id@, e.probe);
            assert(with_example(kept_examples(all), m) =~= kept_examples(all.push(m)));
        }
        i += 1;
    }
    assert(probed@.take(probed@.len() as int) =~= probed@);
    report
}

/// What is counted of a kind is there: where the count is zero, nothing is.
proof fn lemma_tally(probed: Seq<ProbedEntity>, p: spec_fn(Verdict) -> bool)
    ensures
        tally(probed, p) == 0 ==> forall|i: int|
            0 <= i < probed.len() ==> !p(verdict_of((#[trigger] probed[i]).probe)),
        (forall|i: int| 0 <= i < probed.len() ==> !p(verdict_of((#[trigger] probed[i]).probe)))
            ==> tally(probed, p) == 0,
    decreases probed.len(),
{
    if probed.len() > 0 {
        let rest = probed.drop_last();
        lemma_tally(rest, p);
        assert(forall|i: int| 0 <= i < rest.len() ==> #[trigger] rest[i] == probed[i]);
        assert(probed[probed.len() - 1] == probed.last());
        assert forall|i: int| tally(probed, p) == 0 && 0 <= i < probed.len() implies !p(
            verdict_of((#[trigger] probed[i]).probe),
        ) by {
            if i < rest.len() {
                assert(rest[i] == probed[i]);
            }
        }
    }
}

/// The projection is right about an entity: it has no row of a deleted one, and of
/// any other a row that agrees with the replay.
pub open spec fn is_vouched_for(probe: ParityProbe) -> bool {
    probe matches ParityProbe::Replayed { catalog, replayed } && if replayed.status@
        == "Deleted"@ {
        catalog is None
    } else {
        catalog is Some && catalog->0.status@ == replayed.status@ && catalog->0.sequence_nr
            == replayed.authoritative_sequence && same_json(
            catalog->0.fields,
            replayed.projected_fields,
        ) && (catalog->0.state matches Some(state) ==> same_json(state, replayed.projected_state))
    }
}

/// A clean report vouches for every entity that was probed, and a report is clean
/// only then: one entity that could not be compared, is missing, lingers after its
/// deletion or differs in a single field makes it unclean.
pub proof fn law_clean_reports_vouch_for_every_entity(
    report: QueryProjectionReplayParityReport,
    probed: Seq<ProbedEntity>,
    i: int,
    name: Seq<char>,
)
    requires
        report_covers(report, probed),
    ensures
        report.clean() == (forall|j: int|
            0 <= j < probed.len() ==> is_vouched_for((#[trigger] probed[j]).probe)),
        0 <= i < probed.len() && (probed[i].probe matches ParityProbe::Replayed {
            catalog: Some(row),
            replayed,
        } && differ_in(row.fields, replayed.projected_fields, name)) ==> !report.clean(),
{
    lemma_tally(probed, |v: Verdict| v is Drifted || v is Missing);
    lemma_tally(probed, |v: Verdict| v is Missing);
    lemma_tally(probed, |v: Verdict| v is Failed);
    let drifted = |v: Verdict| v is Drifted || v is Missing;
    let missing = |v: Verdict| v is Missing;
    let failed = |v: Verdict| v is Failed;
    assert forall|j: int| 0 <= j < probed.len() implies (is_vouched_for(
        (#[trigger] probed[j]).probe,
    ) == (!drifted(verdict_of(probed[j].probe)) && !failed(verdict_of(probed[j].probe)))) && (missing(
        verdict_of(probed[j].probe),
    ) ==> drifted(verdict_of(probed[j].probe))) by {}
    if report.clean() {
        assert forall|j: int| 0 <= j < probed.len() implies is_vouched_for(
            (#[trigger] probed[j]).probe,
        ) by {
            assert(!drifted(verdict_of(probed[j].probe)));
            assert(!failed(verdict_of(probed[j].probe)));
        }
        if 0 <= i < probed.len() {
            match probed[i].probe {
                ParityProbe::Replayed { catalog: Some(row), replayed } => {
                    assert(is_vouched_for(probed[i].probe));
                    law_equal_values_have_equal_members(
                        row.fields,
                        replayed.projected_fields,
                        name,
                    );
                },
                _ => {},
            }
        }
    }
}

/// One entity that differs from its replay is counted as drifted and never as
/// matched, and it gives an example that names it while there is room.
pub proof fn law_drift_is_counted_as_drift(
    before: QueryProjectionReplayParityReport,
    after: QueryProjectionReplayParityReport,
    entity_type: Seq<char>,
    entity_id: Seq<char>,
    row: EntityCatalogRow,
    replayed: ReplayedEntity,
    name: Seq<char>,
)
    requires
        report_step(
            before,
            after,
            entity_type,
            entity_id,
            ParityProbe::Replayed { catalog: Some(row), replayed },
        ),
        row.status@ != replayed.status@ || row.sequence_nr != replayed.authoritative_sequence
            || differ_in(row.fields, replayed.projected_fields, name) || replayed.status@
            == "Deleted"@,
    ensures
        after.matched == before.matched,
        after.drifted == before.drifted + 1,
        after.checked == before.checked + 1,
        after.missing == before.missing,
        after.errors == before.errors,
        !after.clean(),
        before.drift_examples@.len() < MAX_REPLAY_PARITY_DRIFT_EXAMPLES ==> {
            let example = after.drift_examples@.last()@;
            &&& after.drift_examples@.len() == before.drift_examples@.len() + 1
            &&& example.entity_type == entity_type
            &&& example.entity_id == entity_id
            &&& example.drift_kind != "none"@
            &&& example.catalog_sequence == Some(row.sequence_nr)
            &&& example.authoritative_sequence == replayed.authoritative_sequence
        },
{
    law_drifted_fields_never_agree(row, replayed, name);
    law_drift_kinds_name_what_drifted(row, replayed);
    reveal_strlit("none");
    reveal_strlit("deleted_present");
    assert("none"@.len() == 4 && "deleted_present"@.len() == 15);
    if before.drift_examples@.len() < MAX_REPLAY_PARITY_DRIFT_EXAMPLES {
        let probe = ParityProbe::Replayed { catalog: Some(row), replayed };
        let examples = drift_views(before.drift_examples@);
        assert(examples.len() == before.drift_examples@.len());
        assert(drift_views(after.drift_examples@) == examples.push(
            example_of(entity_type, entity_id, probe),
        ));
        assert(drift_views(after.drift_examples@).len() == after.drift_examples@.len());
        assert(drift_views(after.drift_examples@).last() == after.drift_examples@.last()@);
        if finding_of(probe) == "none"@ {
            assert(drift_of(row, replayed) == "none"@);
            law_equal_values_have_equal_members(row.fields, replayed.projected_fields, name);
        }
    }
}

/// A living entity without a row is missing, and one whose journal or row could not
/// be read is an error; neither is a match.
pub proof fn law_missing_rows_and_failures_are_findings(
    before: QueryProjectionReplayParityReport,
    after: QueryProjectionReplayParityReport,
    entity_type: Seq<char>,
    entity_id: Seq<char>,
    probe: ParityProbe,
)
    requires
        report_step(before, after, entity_type, entity_id, probe),
        probe matches ParityProbe::Replayed { catalog, .. } ==> catalog is None,
    ensures
        after.matched == before.matched,
        !(probe is Replayed) ==> after.errors == before.errors + 1,
        probe matches ParityProbe::Replayed { replayed, .. } ==> if replayed.status@
            == "Deleted"@ {
            after.deleted_absent == before.deleted_absent + 1 && after.drifted == before.drifted
                && after.errors == before.errors
        } else {
            after.missing == before.missing + 1 && after.drifted == before.drifted + 1
        },
{
}

/// What a run amounts to: an error outweighs drift, and drift a clean run.
pub fn parity_run_result(report: &QueryProjectionReplayParityReport) -> (r: &'static str)
    ensures
        r@ == if report.errors > 0 {
            "error"@
        } else if report.drifted > 0 || report.missing > 0 {
            "drift"@
        } else {
            "clean"@
        },
        r@ == "clean"@ <==> report.clean(),
        r@ == "error"@ <==> report.errors > 0,
{
    proof {
        reveal_strlit("error");
        reveal_strlit("drift");
        reveal_strlit("clean");
        assert("error"@[0] == 'e');
        assert("drift"@[0] == 'd');
        assert("clean"@[0] == 'c');
    }
    if report.errors > 0 {
        "error"
    } else if report.drifted > 0 || report.missing > 0 {
        "drift"
    } else {
        "clean"
    }
}

// ---------------------------------------------------------------------------
// The entities of a run
// ---------------------------------------------------------------------------

/// A persisted entity.
#[derive(Debug)]
pub struct EntityRef {
    pub entity_type: String,
    pub entity_id: String,
}

/// The ids of one type among the entities, in the order in which they came.
pub open spec fn ids_of_type(entities: Seq<EntityRef>, t: Seq<char>) -> Seq<Seq<char>>
    decreases entities.len(),
{
    if entities.len() == 0 {
        Seq::empty()
    } else if entities.last().entity_type@ == t {
        ids_of_type(entities.drop_last(), t).push(entities.last().entity_id@)
    } else {
        ids_of_type(entities.drop_last(), t)
    }
}

/// No id stands before a smaller one.
pub open spec fn in_text_order(ids: Seq<Seq<char>>) -> bool {
    forall|i: int, j: int|
        #![trigger ids[i], ids[j]]
        0 <= i < j < ids.len() ==> !text_lt(ids[j], ids[i])
}

fn insert_in_order(ids: &mut Vec<String>, id: String)
    requires
        in_text_order(texts(old(ids)@)),
    ensures
        in_text_order(texts(final(ids)@)),
        texts(final(ids)@).to_multiset() == texts(old(ids)@).to_multiset().insert(id@),
{
    let ghost before = texts(ids@);
    let mut at: usize = 0;
    while at < ids.len() && !text_less(id.as_str(), ids[at].as_str())
        invariant
            at <= ids@.len(),
            before == texts(ids@),
            in_text_order(before),
            forall|j: int| 0 <= j < at ==> !text_lt(id@, #[trigger] before[j]),
        decreases ids@.len() - at,
    {
        assert(before[at as int] == ids@[at as int]@);
        at += 1;
    }
    let ghost model = id@;
    proof {
        if at < before.len() {
            assert(before[at as int] == ids@[at as int]@);
        }
    }
    ids.insert(at, id);
    proof {
        let after = texts(ids@);
        assert(after =~= before.insert(at as int, model));
        assert forall|i: int, j: int| 0 <= i < j < after.len() implies !text_lt(
            #[trigger] after[j],
            #[trigger] after[i],
        ) by {
            if j < at {
                assert(!text_lt(before[j], before[i]));
            } else if j == at {
                assert(after[i] == before[i]);
            } else if i < at {
                assert(!text_lt(before[j - 1], before[i]));
            } else if i == at {
                let x = before[j - 1];
                assert(text_lt(model, before[at as int]));
                if text_lt(x, model) {
                    lemma_text_lt_transitive(x, model, before[at as int]);
                    if at < j - 1 {
                        assert(!text_lt(before[j - 1], before[at as int]));
                    } else {
                        lemma_text_lt_irreflexive(x);
                    }
                }
            } else {
                assert(!text_lt(before[j - 1], before[i - 1]));
            }
        }
        vstd::seq_lib::lemma_multiset_commutative(before.take(at as int), seq![model]);
        before.to_multiset_ensures();
        assert(after =~= before.take(at as int) + seq![model] + before.skip(at as int));
        assert(before =~= before.take(at as int) + before.skip(at as int));
        vstd::seq_lib::lemma_multiset_commutative(
            before.take(at as int) + seq![model],
            before.skip(at as int),
        );
        vstd::seq_lib::lemma_multiset_commutative(before.take(at as int), before.skip(at as int));
        assert(seq![model].to_multiset() =~= Multiset::singleton(model)) by {
            assert(seq![model] =~= Seq::<Seq<char>>::empty().push(model));
            Seq::<Seq<char>>::empty().to_multiset_ensures();
        }
        assert(after.to_multiset() =~= before.to_multiset().insert(model));
    }
}

pub open spec fn filter_view(filter: Option<&str>) -> Option<Seq<char>> {
    match filter {
        Some(t) => Some(t@),
        None => None,
    }
}

/// The groups are right for the entities: under each type in scope its ids,
/// each as often as it came, in order.
pub open spec fn groups_cover(
    groups: Map<Seq<char>, Vec<String>>,
    entities: Seq<EntityRef>,
    filter: Option<Seq<char>>,
) -> bool {
    &&& forall|t: Seq<char>|
        #![trigger groups.dom().contains(t)]
        groups.dom().contains(t) == (ids_of_type(entities, t).len() > 0 && (filter matches Some(f)
            ==> t == f))
    &&& forall|t: Seq<char>|
        #![trigger groups[t]]
        groups.dom().contains(t) ==> in_text_order(texts(groups[t]@)) && texts(
            groups[t]@,
        ).to_multiset() == ids_of_type(entities, t).to_multiset()
}

/// Groups the entities in scope by their type, types and ids in order.
pub fn group_entities_by_type(entities: &Vec<EntityRef>, filter: Option<&str>) -> (r: SortedMap<
    String,
    Vec<String>,
>)
    ensures
        r.wf(),
        groups_cover(r@, entities@, filter_view(filter)),
{
    let mut groups: SortedMap<String, Vec<String>> = SortedMap::new();
    let mut i: usize = 0;
    while i < entities.len()
        invariant
            i <= entities@.len(),
            groups.wf(),
            groups_cover(groups@, entities@.take(i as int), filter_view(filter)),
        decreases entities@.len() - i,
    {
        let e: &EntityRef = &entities[i];
        let wanted = match filter {
            Some(t) => same_text(e.entity_type.as_str(), t),
            None => true,
        };
        let ghost prior = groups@;
        let ghost seen = entities@.take(i as int);
        let ghost next = entities@.take(i + 1);
        proof {
            assert(next.drop_last() =~= seen);
            assert(next.last() == entities@[i as int]);
        }
        if wanted {
            let mut ids = match groups.remove(&e.entity_type) {
                Some(v) => v,
                None => Vec::new(),
            };
            proof {
                if !prior.dom().contains(e.entity_type@) {
                    assert(ids_of_type(seen, e.entity_type@) =~= Seq::<Seq<char>>::empty());
                    assert(texts(ids@) =~= Seq::<Seq<char>>::empty());
                }
            }
            insert_in_order(&mut ids, e.entity_id.clone());
            let _ = groups.insert(e.entity_type.clone(), ids);
            proof {
                ids_of_type(seen, e.entity_type@).to_multiset_ensures();
                assert(groups@ =~= prior.insert(e.entity_type@, ids));
                assert forall|t: Seq<char>|
                    #![trigger groups@[t]]
                    groups@.dom().contains(t) implies in_text_order(texts(groups@[t]@)) && texts(
                    groups@[t]@,
                ).to_multiset() == ids_of_type(next, t).to_multiset() by {
                    if t != e.entity_type@ {
                        assert(groups@[t] == prior[t]);
                    }
                }
            }
        }
        i += 1;
    }
    assert(entities@.take(entities@.len() as int) =~= entities@);
    groups
}

/// What is said when the entities of a run cannot be listed.
pub open spec fn listing_failure(bounded: bool, error: Seq<char>) -> Seq<char> {
    (if bounded {
        "list bounded persisted entity ids failed: "@
    } else {
        "list persisted entity ids failed: "@
    }) + error
}

/// Begins a run: the entities to check, by their type, or why there is no run. A
/// bounded listing is in scope already, any other is narrowed to its scope here.
pub fn plan_replay_parity(
    has_journal: bool,
    has_query_plane: bool,
    bounded: bool,
    filter: Option<&str>,
    listed: Result<Vec<EntityRef>, String>,
) -> (r: Result<SortedMap<String, Vec<String>>, String>)
    ensures
        if !has_journal {
            r matches Err(e) && e@ == "event journal is not configured"@
        } else if !has_query_plane {
            r matches Err(e) && e@ == "query-plane store is not configured"@
        } else {
            match listed {
                Err(error) => r matches Err(e) && e@ == listing_failure(bounded, error@),
                Ok(entities) => r matches Ok(groups) && groups.wf() && groups_cover(
                    groups@,
                    entities@,
                    if bounded {
                        None
                    } else {
                        filter_view(filter)
                    },
                ),
            }
        },
{
    if !has_journal {
        return Err("event journal is not configured".to_owned());
    }
    if !has_query_plane {
        return Err("query-plane store is not configured".to_owned());
    }
    match listed {
        Err(error) => {
            let mut text = if bounded {
                "list bounded persisted entity ids failed: ".to_owned()
            } else {
                "list persisted entity ids failed: ".to_owned()
            };
            text.append(error.as_str());
            Err(text)
        },
        Ok(entities) => {
            let scope: Option<&str> = if bounded {
                None
            } else {
                filter
            };
            Ok(group_entities_by_type(&entities, scope))
        },
    }
}

// ---------------------------------------------------------------------------
// A whole run
// ---------------------------------------------------------------------------

/// The entities are those of the groups: for each type the ids of its group, in
/// their order, and no others.
pub open spec fn lists_groups(
    entities: Seq<EntityRef>,
    groups: Map<Seq<char>, Vec<String>>,
) -> bool {
    forall|t: Seq<char>| #[trigger]
        ids_of_type(entities, t) == if groups.dom().contains(t) {
            texts(groups[t]@)
        } else {
            Seq::<Seq<char>>::empty()
        }
}

/// The ids of one type after entities of one type were added.
proof fn lemma_ids_of_one_more(entities: Seq<EntityRef>, e: EntityRef)
    ensures
        forall|t: Seq<char>| #[trigger]
            ids_of_type(entities.push(e), t) == if t == e.entity_type@ {
                ids_of_type(entities, t).push(e.entity_id@)
            } else {
                ids_of_type(entities, t)
            },
{
    assert(entities.push(e).drop_last() =~= entities);
}

/// The entities of the groups, type by type in ascending order, each with its ids
/// in their order.
pub fn entities_of(groups: &SortedMap<String, Vec<String>>) -> (r: Vec<EntityRef>)
    requires
        groups.wf(),
    ensures
        lists_groups(r@, groups@),
{
    let mut r: Vec<EntityRef> = Vec::new();
    let n: usize = groups.len();
    let ghost order = groups.order();
    let mut i: usize = 0;
    proof {
        groups.lemma_domain();
    }
    while i < n
        invariant
            i <= n == order.len(),
            groups.wf(),
            order == groups.order(),
            forall|t: Seq<char>| #[trigger]
                ids_of_type(r@, t) == if order.take(i as int).contains(t) {
                    texts(groups@[t]@)
                } else {
                    Seq::<Seq<char>>::empty()
                },
        decreases n - i,
    {
        let name: &String = groups.key_at(i);
        let ids: &Vec<String> = groups.value_at(i);
        let ghost before = r@;
        let ghost short = order.take(i as int);
        let ghost long = order.take(i + 1);
        proof {
            lemma_ascending_unique::<String>(order, i as int);
            assert(!short.contains(name@)) by {
                if short.contains(name@) {
                    let j = choose|j: int| 0 <= j < short.len() && short[j] == name@;
                    lemma_ascending_unique::<String>(order, j);
                }
            }
            assert(texts(ids@).take(0) =~= Seq::<Seq<char>>::empty());
        }
        let mut k: usize = 0;
        while k < ids.len()
            invariant
                k <= ids@.len(),
                forall|t: Seq<char>| #[trigger]
                    ids_of_type(r@, t) == if t == name@ {
                        texts(ids@).take(k as int)
                    } else {
                        ids_of_type(before, t)
                    },
            decreases ids@.len() - k,
        {
            let e = EntityRef { entity_type: name.clone(), entity_id: ids[k].clone() };
            proof {
                lemma_ids_of_one_more(r@, e);
                assert(texts(ids@).take(k + 1) =~= texts(ids@).take(k as int).push(
                    ids@[k as int]@,
                ));
            }
            r.push(e);
            k += 1;
        }
        proof {
            assert(texts(ids@).take(k as int) =~= texts(ids@));
            assert forall|t: Seq<char>| #[trigger] ids_of_type(r@, t) == if long.contains(t) {
                texts(groups@[t]@)
            } else {
                Seq::<Seq<char>>::empty()
            } by {
                if t == name@ {
                    assert(long[i as int] == t);
                } else {
                    if long.contains(t) {
                        let j = choose|j: int| 0 <= j < long.len() && long[j] == t;
                        assert(short[j] == t);
                    }
                    if short.contains(t) {
                        let j = choose|j: int| 0 <= j < short.len() && short[j] == t;
                        assert(long[j] == t);
                    }
                }
            }
        }
        i += 1;
    }
    proof {
        groups.lemma_domain();
        assert(order.take(n as int) =~= order);
        assert forall|t: Seq<char>| groups@.dom().contains(t) == #[trigger] order.contains(t) by {
            assert(order.to_set().contains(t) == order.contains(t));
        }
    }
    r
}

/// A run under way: the entities to probe, and what was found out about the first
/// of them.
pub struct ParityRun {
    pub entities: Vec<EntityRef>,
    pub probed: Vec<ProbedEntity>,
}

impl ParityRun {
    /// The entities are probed one by one, in their order.
    pub open spec fn wf(&self) -> bool {
        &&& self.probed@.len() <= self.entities@.len()
        &&& forall|i: int|
            0 <= i < self.probed@.len() ==> (#[trigger] self.probed@[i]).entity_type@
                == self.entities@[i].entity_type@ && self.probed@[i].entity_id@
                == self.entities@[i].entity_id@
    }

    /// Begins a run over the entities of the groups.
    pub fn new(groups: &SortedMap<String, Vec<String>>) -> (r: ParityRun)
        requires
            groups.wf(),
        ensures
            r.wf(),
            lists_groups(r.entities@, groups@),
            r.probed@.len() == 0,
    {
        ParityRun { entities: entities_of(groups), probed: Vec::new() }
    }

    /// The entity that is to be probed next, where one is left.
    pub fn next(&self) -> (r: Option<&EntityRef>)
        requires
            self.wf(),
        ensures
            r is Some == (self.probed@.len() < self.entities@.len()),
            r matches Some(e) ==> *e == self.entities@[self.probed@.len() as int],
    {
        if self.probed.len() < self.entities.len() {
            Some(&self.entities[self.probed.len()])
        } else {
            None
        }
    }

    /// The next entity was probed, and this was found out about it.
    pub fn on_probe(&mut self, probe: ParityProbe)
        requires
            old(self).wf(),
            old(self).probed@.len() < old(self).entities@.len(),
        ensures
            final(self).wf(),
            final(self).entities == old(self).entities,
            final(self).probed@.drop_last() == old(self).probed@,
            final(self).probed@.len() == old(self).probed@.len() + 1,
            final(self).probed@.last().probe == probe,
    {
        let e: &EntityRef = &self.entities[self.probed.len()];
        let probed = ProbedEntity {
            entity_type: e.entity_type.clone(),
            entity_id: e.entity_id.clone(),
            probe,
        };
        self.probed.push(probed);
        assert(self.probed@.drop_last() =~= old(self).probed@);
    }

    /// Reports on what was probed.
    pub fn report(
        &self,
        tenant: &str,
        entity_type_filter: Option<String>,
        entity_limit: Option<u64>,
    ) -> (r: QueryProjectionReplayParityReport)
        ensures
            r.wf(),
            r.tenant@ == tenant@,
            r.entity_type == entity_type_filter,
            r.entity_limit == entity_limit,
            report_covers(r, self.probed@),
    {
        verify_query_projection_replay_parity(
            tenant,
            entity_type_filter,
            entity_limit,
            &self.probed,
        )
    }
}

/// The type and the id of each entity.
pub open spec fn pairs(entities: Seq<EntityRef>) -> Seq<(Seq<char>, Seq<char>)> {
    entities.map_values(|e: EntityRef| (e.entity_type@, e.entity_id@))
}

/// The entities in scope.
pub open spec fn in_scope(entities: Seq<EntityRef>, filter: Option<Seq<char>>) -> Seq<EntityRef> {
    entities.filter(|e: EntityRef| filter matches Some(t) ==> e.entity_type@ == t)
}

/// An entity occurs as often as its id does among those of its type.
proof fn lemma_pair_count(entities: Seq<EntityRef>, t: Seq<char>, id: Seq<char>)
    ensures
        pairs(entities).to_multiset().count((t, id)) == ids_of_type(
            entities,
            t,
        ).to_multiset().count(id),
    decreases entities.len(),
{
    broadcast use vstd::seq_lib::group_to_multiset_ensures;

    if entities.len() == 0 {
        assert(pairs(entities) =~= Seq::empty());
    } else {
        let rest = entities.drop_last();
        let last = entities[entities.len() - 1];
        lemma_pair_count(rest, t, id);
        assert(pairs(entities) =~= pairs(rest).push((last.entity_type@, last.entity_id@)));
    }
}

/// The ids of a type in scope are those of the type; out of scope there are none.
proof fn lemma_ids_in_scope(entities: Seq<EntityRef>, filter: Option<Seq<char>>, t: Seq<char>)
    ensures
        ids_of_type(in_scope(entities, filter), t) == if filter matches Some(f) ==> t == f {
            ids_of_type(entities, t)
        } else {
            Seq::<Seq<char>>::empty()
        },
    decreases entities.len(),
{
    reveal(Seq::filter);
    if entities.len() > 0 {
        let rest = entities.drop_last();
        let last = entities[entities.len() - 1];
        lemma_ids_in_scope(rest, filter, t);
        lemma_ids_of_one_more(in_scope(rest, filter), last);
        if filter matches Some(f) ==> last.entity_type@ == f {
            assert(in_scope(entities, filter) =~= in_scope(rest, filter).push(last));
        } else {
            assert(in_scope(entities, filter) =~= in_scope(rest, filter));
        }
    } else {
        assert(in_scope(entities, filter) =~= entities);
    }
}

/// A run that is through has checked every listed entity in scope, each as often as
/// it was listed, and nothing else; and its report counts them all.
pub proof fn law_parity_runs_check_every_listed_entity(
    run: ParityRun,
    groups: Map<Seq<char>, Vec<String>>,
    listed: Seq<EntityRef>,
    filter: Option<Seq<char>>,
    report: QueryProjectionReplayParityReport,
)
    requires
        groups_cover(groups, listed, filter),
        lists_groups(run.entities@, groups),
        run.wf(),
        run.probed@.len() == run.entities@.len(),
        report_covers(report, run.probed@),
    ensures
        pairs(run.entities@).to_multiset() == pairs(in_scope(listed, filter)).to_multiset(),
        report.checked == in_scope(listed, filter).len(),
{
    broadcast use vstd::seq_lib::group_to_multiset_ensures;

    let a = pairs(run.entities@).to_multiset();
    let b = pairs(in_scope(listed, filter)).to_multiset();
    assert forall|p: (Seq<char>, Seq<char>)| #[trigger] a.count(p) == b.count(p) by {
        let (t, id) = p;
        lemma_pair_count(run.entities@, t, id);
        lemma_pair_count(in_scope(listed, filter), t, id);
        lemma_ids_in_scope(listed, filter, t);
        if groups.dom().contains(t) {
            assert(texts(groups[t]@).to_multiset() == ids_of_type(listed, t).to_multiset());
        } else {
            assert(ids_of_type(run.entities@, t) == Seq::<Seq<char>>::empty());
            if filter matches Some(f) ==> t == f {
                assert(ids_of_type(listed, t) =~= Seq::<Seq<char>>::empty());
            }
        }
    }
    assert(a =~= b);
    assert(a.len() == run.entities@.len());
    assert(b.len() == in_scope(listed, filter).len());
}

/// What was found is named by what stood in the way of the comparison, or by what the
/// comparison showed; a deleted entity is named by whether a row of it is left.
pub proof fn law_findings_are_named(probe: ParityProbe)
    ensures
        probe is MissingTable ==> finding_of(probe) == "missing_table"@,
        probe is CatalogUnavailable ==> finding_of(probe) == "catalog_unavailable"@,
        probe is CatalogError ==> finding_of(probe) == "catalog_error"@,
        probe is ReplayError ==> finding_of(probe) == "replay_error"@,
        probe is ReplayAbsent ==> finding_of(probe) == "replay_absent"@,
        probe matches ParityProbe::Replayed { catalog, replayed } ==> {
            &&& replayed.status@ == "Deleted"@ && catalog is Some ==> finding_of(probe)
                == "deleted_present"@
            &&& replayed.status@ == "Deleted"@ && catalog is None ==> finding_of(probe)
                == "deleted_absent"@
            &&& replayed.status@ != "Deleted"@ && catalog is None ==> finding_of(probe)
                == "missing_catalog"@
            &&& replayed.status@ != "Deleted"@ && catalog is Some && catalog->0.status@
                != replayed.status@ && catalog->0.sequence_nr != replayed.authoritative_sequence
                ==> finding_of(probe) == "multiple"@
        },
{
}

/// An example names its entity, what was found and both sequence numbers; how far they are
/// apart is told only where there was something to compare.
pub proof fn law_examples_tell_what_was_compared(
    entity_type: Seq<char>,
    entity_id: Seq<char>,
    probe: ParityProbe,
)
    ensures
        ({
            let example = example_of(entity_type, entity_id, probe);
            &&& example.entity_type == entity_type
            &&& example.entity_id == entity_id
            &&& example.drift_kind == finding_of(probe)
            &&& !(probe is Replayed) ==> example.sequence_direction == "unknown"@
                && example.sequence_gap == 0
            &&& probe matches ParityProbe::Replayed { catalog, replayed } ==> {
                &&& example.authoritative_sequence == replayed.authoritative_sequence
                &&& catalog matches Some(row) ==> example.catalog_sequence == Some(row.sequence_nr)
                    && (row.sequence_nr < replayed.authoritative_sequence ==> row.sequence_nr
                    + example.sequence_gap == replayed.authoritative_sequence
                    && example.sequence_direction == "catalog_behind"@) && (row.sequence_nr
                    > replayed.authoritative_sequence ==> row.sequence_nr - example.sequence_gap
                    == replayed.authoritative_sequence && example.sequence_direction
                    == "catalog_ahead"@)
                &&& catalog is None ==> example.catalog_sequence is None
                    && example.sequence_direction == "catalog_missing"@ && example.sequence_gap
                    == replayed.authoritative_sequence
            }
            &&& probe matches ParityProbe::ReplayAbsent { catalog_sequence, authoritative_sequence }
                ==> example.catalog_sequence == catalog_sequence && example.authoritative_sequence
                == authoritative_sequence
            &&& probe matches ParityProbe::ReplayError { catalog_sequence }
                ==> example.catalog_sequence == catalog_sequence && example.authoritative_sequence
                == 0
        }),
{
}

/// What is measured of a check is whether it matched, drifted or failed. An entity that is
/// rightly gone matches, and nothing is measured where the replay brought no state.
pub proof fn law_checks_are_measured_by_their_outcome(
    sample: Option<ParityCheckSample>,
    probe: ParityProbe,
)
    requires
        sample_says(sample, probe),
    ensures
        sample is None <==> probe is ReplayAbsent,
        sample matches Some(s) ==> {
            &&& is_vouched_for(probe) ==> s.result@ == "match"@
            &&& !(probe is Replayed) ==> s.result@ == "error"@
            &&& probe is Replayed && !is_vouched_for(probe) ==> s.result@ == "drift"@
            &&& s.drift_kind@ == finding_of(probe)
        },
{
}

/// A report keeps its first twenty-five findings, in the order in which they were made.
pub proof fn law_the_first_findings_are_kept(all: Seq<DriftModel>, e: DriftModel, i: int)
    ensures
        kept_examples(all).len() <= 25,
        all.len() <= 25 ==> kept_examples(all) == all,
        all.len() > 25 ==> kept_examples(all).len() == 25,
        0 <= i < kept_examples(all).len() ==> kept_examples(all)[i] == all[i],
        all.len() < 25 ==> with_example(all, e) == all.push(e),
        all.len() == 25 ==> with_example(all, e) == all,
{
}

/// Each finding of a run gives the example of its own entity, and what is no finding gives
/// none.
pub proof fn law_every_finding_gives_its_example(probed: Seq<ProbedEntity>, i: int)
    requires
        0 <= i < probed.len(),
    ensures
        !is_vouched_for(probed[i].probe) ==> findings(probed).contains(
            example_of(probed[i].entity_type@, probed[i].entity_id@, probed[i].probe),
        ),
        findings(probed).len() == probed.filter(
            |e: ProbedEntity| !is_vouched_for(e.probe),
        ).len(),
    decreases probed.len(),
{
    lemma_findings_are_counted(probed);
    let before = probed.drop_last();
    let n = probed.len() - 1;
    let front = findings(before);
    let all = findings(probed);
    if before.len() > 0 {
        law_every_finding_gives_its_example(
            before,
            if i < n {
                i
            } else {
                0
            },
        );
    }
    if !is_vouched_for(probed[i].probe) {
        if i < n {
            assert(before[i] == probed[i]);
            let wanted = example_of(probed[i].entity_type@, probed[i].entity_id@, probed[i].probe);
            let k = choose|k: int| 0 <= k < front.len() && front[k] == wanted;
            assert(all[k] == wanted);
        } else {
            assert(all[all.len() - 1] == example_of(
                probed[i].entity_type@,
                probed[i].entity_id@,
                probed[i].probe,
            ));
        }
    }
}

proof fn lemma_findings_are_counted(probed: Seq<ProbedEntity>)
    ensures
        findings(probed).len() == probed.filter(
            |e: ProbedEntity| !is_vouched_for(e.probe),
        ).len(),
    decreases probed.len(),
{
    reveal(Seq::filter);
    if probed.len() > 0 {
        lemma_findings_are_counted(probed.drop_last());
        let probe = probed.last().probe;
        assert(is_finding(verdict_of(probe)) == !is_vouched_for(probe));
    }
}

/// A failed listing is told apart by whether it was bounded, and ends in its own words.
pub proof fn law_failed_listings_are_told_apart(error: Seq<char>)
    ensures
        has_prefix(listing_failure(true, error), "list bounded persisted entity ids failed: "@),
        has_prefix(listing_failure(false, error), "list persisted entity ids failed: "@),
        listing_failure(true, error).skip(42) == error,
        listing_failure(false, error).skip(34) == error,
{
    reveal_strlit("list bounded persisted entity ids failed: ");
    reveal_strlit("list persisted entity ids failed: ");
    assert(listing_failure(true, error).take(42) =~= "list bounded persisted entity ids failed: "@);
    assert(listing_failure(false, error).take(34) =~= "list persisted entity ids failed: "@);
    assert(listing_failure(true, error).skip(42) =~= error);
    assert(listing_failure(false, error).skip(34) =~= error);
}

} // verus!
