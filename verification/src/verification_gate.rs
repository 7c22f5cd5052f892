//! What keeps requests from entity types whose specs are not verified.

use vstd::prelude::*;
use vstd::string::*;

use crate::json::copy_json;
use crate::json::same_json;
use crate::json::JsonValue;
use crate::text::has_prefix;

verus! {

/// What one level of verification found.
pub struct VerificationLevel {
    pub level: String,
    pub passed: bool,
    pub summary: String,
    pub details: Option<Vec<JsonValue>>,
}

/// What verification found.
pub struct VerificationResult {
    pub all_passed: bool,
    pub levels: Vec<VerificationLevel>,
}

/// Where the verification of a type stands.
pub enum VerificationStatus {
    Pending,
    Running,
    Completed(VerificationResult),
    /// As completed earlier.
    Restored(VerificationResult),
}

/// A level that failed.
#[derive(Debug)]
pub struct FailedLevelInfo {
    pub level: String,
    pub summary: String,
    pub details: Option<Vec<JsonValue>>,
}

/// Why a request is held back.
#[derive(Debug)]
pub struct VerificationGateError {
    pub entity_type: String,
    /// `pending`, `running` or `failed`.
    pub status: String,
    pub message: String,
    /// The levels that failed, where verification failed.
    pub failed_levels: Option<Vec<FailedLevelInfo>>,
}

/// The two lists of details are equal.
pub open spec fn same_details(a: Option<Vec<JsonValue>>, b: Option<Vec<JsonValue>>) -> bool {
    match (a, b) {
        (Some(x), Some(y)) => x@.len() == y@.len() && forall|i: int|
            0 <= i < x@.len() ==> same_json(#[trigger] x@[i], y@[i]),
        (None, None) => true,
        _ => false,
    }
}

/// What is told of a failed level.
pub open spec fn tells_of(info: FailedLevelInfo, level: VerificationLevel) -> bool {
    info.level@ == level.level@ && info.summary@ == level.summary@ && same_details(
        info.details,
        level.details,
    )
}

/// The levels that failed, in their order.
pub open spec fn failed(levels: Seq<VerificationLevel>) -> Seq<VerificationLevel>
    decreases levels.len(),
{
    if levels.len() == 0 {
        Seq::empty()
    } else if levels.last().passed {
        failed(levels.drop_last())
    } else {
        failed(levels.drop_last()).push(levels.last())
    }
}

/// Each item tells of one level.
pub open spec fn tell_of_all(told: Seq<FailedLevelInfo>, levels: Seq<VerificationLevel>) -> bool {
    told.len() == levels.len() && forall|i: int|
        0 <= i < told.len() ==> tells_of(#[trigger] told[i], levels[i])
}

fn copy_details(details: &Option<Vec<JsonValue>>) -> (r: Option<Vec<JsonValue>>)
    ensures
        same_details(r, *details),
{
    match details {
        None => None,
        Some(items) => {
            let mut copy: Vec<JsonValue> = Vec::new();
            let mut i: usize = 0;
            while i < items.len()
                invariant
                    i <= items@.len(),
                    copy@.len() == i,
                    forall|j: int| 0 <= j < i ==> same_json(#[trigger] copy@[j], items@[j]),
                decreases items@.len() - i,
            {
                copy.push(copy_json(&items[i]));
                i += 1;
            }
            Some(copy)
        },
    }
}

/// What is told of the levels that failed.
pub fn failed_levels(levels: &Vec<VerificationLevel>) -> (r: Vec<FailedLevelInfo>)
    ensures
        tell_of_all(r@, failed(levels@)),
{
    let mut r: Vec<FailedLevelInfo> = Vec::new();
    let mut i: usize = 0;
    assert(levels@.take(0) =~= Seq::<VerificationLevel>::empty());
    while i < levels.len()
        invariant
            i <= levels@.len(),
            tell_of_all(r@, failed(levels@.take(i as int))),
        decreases levels@.len() - i,
    {
        proof {
            let long = levels@.take(i + 1);
            assert(long.drop_last() =~= levels@.take(i as int));
            assert(long.last() == levels@[i as int]);
        }
        if !levels[i].passed {
            r.push(
                FailedLevelInfo {
                    level: levels[i].level.clone(),
                    summary: levels[i].summary.clone(),
                    details: copy_details(&levels[i].details),
                },
            );
        }
        i += 1;
    }
    assert(levels@.take(i as int) =~= levels@);
    r
}

/// The message of a type whose verification has not begun.
pub open spec fn pending_text(entity_type: Seq<char>) -> Seq<char> {
    "Verification has not started for entity type '"@ + entity_type
        + "'. Waiting for verification cascade to begin."@
}

/// The message of a type whose verification is running.
pub open spec fn running_text(entity_type: Seq<char>) -> Seq<char> {
    "Verification is currently running for entity type '"@ + entity_type
        + "'. Please wait for the cascade to complete."@
}

/// The message of a type whose verification failed.
pub open spec fn failed_text(entity_type: Seq<char>) -> Seq<char> {
    "Verification failed for entity type '"@ + entity_type + "'. Fix the spec and re-push."@
}

/// The error says that, and no more than that, verification is `status`.
pub open spec fn says(
    error: VerificationGateError,
    entity_type: Seq<char>,
    status: Seq<char>,
    message: Seq<char>,
) -> bool {
    error.entity_type@ == entity_type && error.status@ == status && error.message@ == message
}

/// Requests to the type are let through.
pub open spec fn lets_through(known: bool, status: Option<VerificationStatus>) -> bool {
    !known || match status {
        None => true,
        Some(VerificationStatus::Completed(result)) => result.all_passed,
        Some(VerificationStatus::Restored(result)) => result.all_passed,
        _ => false,
    }
}

/// What is said of a type that is not verified.
pub open spec fn gate_error(
    error: VerificationGateError,
    entity_type: Seq<char>,
    status: VerificationStatus,
) -> bool {
    match status {
        VerificationStatus::Pending => says(
            error,
            entity_type,
            "pending"@,
            pending_text(entity_type),
        ) && error.failed_levels is None,
        VerificationStatus::Running => says(
            error,
            entity_type,
            "running"@,
            running_text(entity_type),
        ) && error.failed_levels is None,
        VerificationStatus::Completed(result) => says(
            error,
            entity_type,
            "failed"@,
            failed_text(entity_type),
        ) && (error.failed_levels matches Some(levels) && tell_of_all(
            levels@,
            failed(result.levels@),
        )),
        VerificationStatus::Restored(result) => says(
            error,
            entity_type,
            "failed"@,
            failed_text(entity_type),
        ) && (error.failed_levels matches Some(levels) && tell_of_all(
            levels@,
            failed(result.levels@),
        )),
    }
}

fn refusal(entity_type: &str, status: &str, before: &str, after: &str) -> (r: VerificationGateError)
    ensures
        says(r, entity_type@, status@, before@ + entity_type@ + after@),
        r.failed_levels is None,
{
    let mut message = before.to_owned();
    message.append(entity_type);
    message.append(after);
    VerificationGateError {
        entity_type: entity_type.to_owned(),
        status: status.to_owned(),
        message,
        failed_levels: None,
    }
}

fn failure(entity_type: &str, result: &VerificationResult) -> (r: VerificationGateError)
    ensures
        says(r, entity_type@, "failed"@, failed_text(entity_type@)),
        r.failed_levels matches Some(levels) && tell_of_all(levels@, failed(result.levels@)),
{
    let mut error = refusal(
        entity_type,
        "failed",
        "Verification failed for entity type '",
        "'. Fix the spec and re-push.",
    );
    error.failed_levels = Some(failed_levels(&result.levels));
    error
}

/// Checks whether a type is verified. `known` says whether the tenant has the type; a type without
/// a verification status is let through.
pub fn check_verification_gate(
    entity_type: &str,
    known: bool,
    status: Option<&VerificationStatus>,
) -> (r: Result<(), VerificationGateError>)
    ensures
        r is Ok == lets_through(
            known,
            match status {
                Some(s) => Some(*s),
                None => None,
            },
        ),
        r matches Err(error) ==> status is Some && gate_error(error, entity_type@, *status->0),
{
    if !known {
        return Ok(());
    }
    match status {
        None => Ok(()),
        Some(VerificationStatus::Pending) => Err(
            refusal(
                entity_type,
                "pending",
                "Verification has not started for entity type '",
                "'. Waiting for verification cascade to begin.",
            ),
        ),
        Some(VerificationStatus::Running) => Err(
            refusal(
                entity_type,
                "running",
                "Verification is currently running for entity type '",
                "'. Please wait for the cascade to complete.",
            ),
        ),
        Some(VerificationStatus::Completed(result)) => if result.all_passed {
            Ok(())
        } else {
            Err(failure(entity_type, result))
        },
        Some(VerificationStatus::Restored(result)) => if result.all_passed {
            Ok(())
        } else {
            Err(failure(entity_type, result))
        },
    }
}

/// No level that passed is among those that failed.
pub proof fn law_only_failed_levels_are_told(levels: Seq<VerificationLevel>, i: int)
    requires
        0 <= i < failed(levels).len(),
    ensures
        !failed(levels)[i].passed,
    decreases levels.len(),
{
    if levels.len() > 0 {
        if levels.last().passed || i < failed(levels).len() - 1 {
            law_only_failed_levels_are_told(levels.drop_last(), i);
        }
    }
}

/// A type that the tenant has is let through only where no verification is known of it or
/// all of it passed: while it waits or runs, and once it failed, requests are held back. A
/// result that was restored counts as one that was just completed.
pub proof fn law_unverified_types_are_held_back(result: VerificationResult)
    ensures
        !lets_through(true, Some(VerificationStatus::Pending)),
        !lets_through(true, Some(VerificationStatus::Running)),
        lets_through(true, Some(VerificationStatus::Completed(result))) <==> result.all_passed,
        lets_through(true, Some(VerificationStatus::Restored(result))) <==> result.all_passed,
        lets_through(true, None),
        lets_through(false, Some(VerificationStatus::Pending)),
        lets_through(false, Some(VerificationStatus::Completed(result))),
{
}

/// Every level that failed is told, and none is told twice: as many are told as failed.
pub proof fn law_every_failed_level_is_told(levels: Seq<VerificationLevel>, i: int)
    requires
        0 <= i < levels.len(),
    ensures
        !levels[i].passed ==> failed(levels).contains(levels[i]),
        failed(levels) == levels.filter(|l: VerificationLevel| !l.passed),
{
    lemma_failed(levels);
    if !levels[i].passed {
        levels.lemma_filter_contains(|l: VerificationLevel| !l.passed, i);
    }
}

proof fn lemma_failed(levels: Seq<VerificationLevel>)
    ensures
        failed(levels) == levels.filter(|l: VerificationLevel| !l.passed),
    decreases levels.len(),
{
    reveal(Seq::filter);
    if levels.len() > 0 {
        lemma_failed(levels.drop_last());
    }
}

/// What is said of a type names the type and where its verification stands; only a failed
/// one tells levels, each with its name, its summary and its details.
pub proof fn law_refusals_tell_where_verification_stands(
    error: VerificationGateError,
    entity_type: Seq<char>,
    status: VerificationStatus,
    i: int,
)
    requires
        gate_error(error, entity_type, status),
    ensures
        error.entity_type@ == entity_type,
        status is Pending ==> error.status@ == "pending"@,
        status is Running ==> error.status@ == "running"@,
        status is Completed || status is Restored ==> error.status@ == "failed"@,
        error.failed_levels is Some <==> status is Completed || status is Restored,
        has_prefix(
            error.message@,
            if status is Pending {
                "Verification has not started for entity type '"@
            } else if status is Running {
                "Verification is currently running for entity type '"@
            } else {
                "Verification failed for entity type '"@
            } + entity_type,
        ),
        status matches VerificationStatus::Completed(result) ==> 0 <= i
            < error.failed_levels->0@.len() ==> error.failed_levels->0@[i].level@ == failed(
            result.levels@,
        )[i].level@ && error.failed_levels->0@[i].summary@ == failed(result.levels@)[i].summary@
            && same_details(
            error.failed_levels->0@[i].details,
            failed(result.levels@)[i].details,
        ),
{
    let head = if status is Pending {
        "Verification has not started for entity type '"@
    } else if status is Running {
        "Verification is currently running for entity type '"@
    } else {
        "Verification failed for entity type '"@
    } + entity_type;
    assert(error.message@.take(head.len() as int) =~= head);
    match status {
        VerificationStatus::Completed(result) => {
            if 0 <= i < error.failed_levels->0@.len() {
                assert(tells_of(error.failed_levels->0@[i], failed(result.levels@)[i]));
            }
        },
        _ => {},
    }
}

} // verus!
