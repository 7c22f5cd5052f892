//! Activating the key contracts of new specs, and letting their types back in.

use vstd::prelude::*;
use vstd::string::*;
use vstd::utf8::encode_utf8;

use crate::coverage::index_keys_of;
use crate::coverage::marked;
use crate::coverage::CoverageModel;
use crate::coverage::KeyIndexCoverage;
use crate::digest::hex_of;
use crate::digest::sha256_of;
use crate::digest::sha256_text;
use crate::digest::text_digest;
use crate::directory::ActorDirectory;
use crate::gates::of_tenant;
use crate::gates::ActivatingContracts;
use crate::key_backfill::publish_failure_text;
use crate::key_backfill::settle_publication;
use crate::key_backfill::CandidateType;
use crate::key_backfill::PreparedKeyIndexCoverage;
use crate::keys::actor_key_of;
use crate::keys::has_three_parts;
use crate::keys::index_key_of;
use crate::keys::key_head;
use crate::keys::key_tail;
use crate::keys::law_actor_keys_read_back;
use crate::keys::parse_actor_key;
use crate::sorted::lemma_to_set_step;
use crate::sorted::texts;
use crate::sorted::SortedMap;
use crate::sorted::SortedSet;
use crate::text::same_text;

verus! {

/// How often coverage is repaired before an activation is given up.
pub const REPAIR_ATTEMPTS: usize = 3;

/// What a parsed spec declares.
pub struct KeyDeclaration {
    /// The signature of its key set.
    pub key_set: String,
    /// It declares no key.
    pub keyless: bool,
}

/// A spec to publish, and what parsing it gave.
pub struct ContractSource {
    pub entity_type: String,
    pub ioa_source: String,
    pub parsed: Result<KeyDeclaration, String>,
}

/// The contract under which a type's keys are to be held.
pub struct KeyContract {
    pub key_set: String,
    pub spec_fingerprint: String,
    /// Rows that are there already are purged.
    pub purge_existing_rows: bool,
}

/// The mathematical content of a contract.
pub struct ContractModel {
    pub key_set: Seq<char>,
    pub spec_fingerprint: Seq<char>,
    pub purge_existing_rows: bool,
}

impl View for KeyContract {
    type V = ContractModel;

    open spec fn view(&self) -> ContractModel {
        ContractModel {
            key_set: self.key_set@,
            spec_fingerprint: self.spec_fingerprint@,
            purge_existing_rows: self.purge_existing_rows,
        }
    }
}

/// The contents of contracts by entity type.
pub open spec fn contract_models(contracts: Map<Seq<char>, KeyContract>) -> Map<
    Seq<char>,
    ContractModel,
> {
    contracts.map_values(|c: KeyContract| c@)
}

/// The error text of a type that is published twice.
pub open spec fn duplicate_type_text(entity_type: Seq<char>) -> Seq<char> {
    "duplicate entity type "@ + entity_type + " in key contract activation"@
}

/// The error text of a spec that does not parse.
pub open spec fn unparsed_text(entity_type: Seq<char>, error: Seq<char>) -> Seq<char> {
    "failed to prepare key contract for "@ + entity_type + " before spec activation: "@ + error
}

/// The error text of a type that is both published and removed.
pub open spec fn kept_and_removed_text(entity_type: Seq<char>) -> Seq<char> {
    "entity type "@ + entity_type + " cannot be both published and removed"@
}

/// What stands for the source of a removed spec.
pub open spec fn removed_marker(entity_type: Seq<char>) -> Seq<char> {
    "temper.removed-spec.v1:"@ + entity_type
}

/// The contracts of the published specs, or the first error among them.
pub open spec fn published_contracts(sources: Seq<ContractSource>) -> Result<
    Map<Seq<char>, ContractModel>,
    Seq<char>,
>
    decreases sources.len(),
{
    if sources.len() == 0 {
        Ok(Map::empty())
    } else {
        let source = sources.last();
        match published_contracts(sources.drop_last()) {
            Err(e) => Err(e),
            Ok(contracts) => if contracts.dom().contains(source.entity_type@) {
                Err(duplicate_type_text(source.entity_type@))
            } else {
                match source.parsed {
                    Err(e) => Err(unparsed_text(source.entity_type@, e@)),
                    Ok(declared) => Ok(
                        contracts.insert(
                            source.entity_type@,
                            ContractModel {
                                key_set: declared.key_set@,
                                spec_fingerprint: text_digest(source.ioa_source@),
                                purge_existing_rows: declared.keyless,
                            },
                        ),
                    ),
                }
            },
        }
    }
}

/// The contracts with those of the removed types added, or the first error.
pub open spec fn with_removals(
    published: Map<Seq<char>, ContractModel>,
    removed: Seq<Seq<char>>,
    empty_key_set: Seq<char>,
) -> Result<Map<Seq<char>, ContractModel>, Seq<char>>
    decreases removed.len(),
{
    if removed.len() == 0 {
        Ok(published)
    } else {
        match with_removals(published, removed.drop_last(), empty_key_set) {
            Err(e) => Err(e),
            Ok(contracts) => if contracts.dom().contains(removed.last()) {
                Err(kept_and_removed_text(removed.last()))
            } else {
                Ok(
                    contracts.insert(
                        removed.last(),
                        ContractModel {
                            key_set: empty_key_set,
                            spec_fingerprint: text_digest(removed_marker(removed.last())),
                            purge_existing_rows: true,
                        },
                    ),
                )
            },
        }
    }
}

/// All contracts of a publication, or its first error.
pub open spec fn planned_contracts(
    sources: Seq<ContractSource>,
    removed: Seq<Seq<char>>,
    empty_key_set: Seq<char>,
) -> Result<Map<Seq<char>, ContractModel>, Seq<char>> {
    match published_contracts(sources) {
        Err(e) => Err(e),
        Ok(published) => with_removals(published, removed, empty_key_set),
    }
}

/// An error in a prefix of the sources is the error of them all.
proof fn lemma_published_error(sources: Seq<ContractSource>, i: int)
    requires
        0 <= i <= sources.len(),
        published_contracts(sources.take(i)) is Err,
    ensures
        published_contracts(sources) == published_contracts(sources.take(i)),
    decreases sources.len(),
{
    if i == sources.len() {
        assert(sources.take(i) =~= sources);
    } else {
        assert(sources.drop_last().take(i) =~= sources.take(i));
        lemma_published_error(sources.drop_last(), i);
    }
}

/// An error in a prefix of the removals is the error of them all.
proof fn lemma_removal_error(
    published: Map<Seq<char>, ContractModel>,
    removed: Seq<Seq<char>>,
    empty_key_set: Seq<char>,
    i: int,
)
    requires
        0 <= i <= removed.len(),
        with_removals(published, removed.take(i), empty_key_set) is Err,
    ensures
        with_removals(published, removed, empty_key_set) == with_removals(
            published,
            removed.take(i),
            empty_key_set,
        ),
    decreases removed.len(),
{
    if i == removed.len() {
        assert(removed.take(i) =~= removed);
    } else {
        assert(removed.drop_last().take(i) =~= removed.take(i));
        lemma_removal_error(published, removed.drop_last(), empty_key_set, i);
    }
}

fn insert_contract(contracts: &mut SortedMap<String, KeyContract>, name: &str, contract: KeyContract)
    requires
        old(contracts).wf(),
    ensures
        final(contracts).wf(),
        contract_models(final(contracts)@) == contract_models(old(contracts)@).insert(
            name@,
            contract@,
        ),
{
    let ghost before = contracts@;
    let _ = contracts.insert(name.to_owned(), contract);
    assert(contract_models(contracts@) =~= contract_models(before).insert(name@, contract@));
}

/// The contracts to activate, by entity type in ascending order: one for each
/// published spec, and an empty one for each removed type, whose rows are
/// purged. `empty_key_set` is the signature of no keys.
pub fn plan_key_contracts(
    sources: &Vec<ContractSource>,
    removed_entity_types: &Vec<String>,
    empty_key_set: &str,
) -> (r: Result<SortedMap<String, KeyContract>, String>)
    ensures
        ({
            let planned = planned_contracts(
                sources@,
                texts(removed_entity_types@),
                empty_key_set@,
            );
            &&& r is Ok == planned is Ok
            &&& r matches Ok(contracts) ==> contracts.wf() && planned == Ok::<_, Seq<char>>(
                contract_models(contracts@),
            )
            &&& r matches Err(e) ==> planned == Err::<Map<Seq<char>, ContractModel>, _>(e@)
        }),
{
    let mut contracts: SortedMap<String, KeyContract> = SortedMap::new();
    let mut i: usize = 0;
    proof {
        assert(sources@.take(0) =~= Seq::<ContractSource>::empty());
        assert(contract_models(contracts@) =~= Map::<Seq<char>, ContractModel>::empty());
    }
    while i < sources.len()
        invariant
            i <= sources@.len(),
            contracts.wf(),
            published_contracts(sources@.take(i as int)) == Ok::<_, Seq<char>>(
                contract_models(contracts@),
            ),
        decreases sources@.len() - i,
    {
        let source = &sources[i];
        proof {
            let long = sources@.take(i + 1);
            assert(long.drop_last() =~= sources@.take(i as int));
            assert(long.last() == sources@[i as int]);
        }
        if contracts.contains_key(&source.entity_type) {
            proof {
                lemma_published_error(sources@, i + 1);
            }
            let mut e = "duplicate entity type ".to_owned();
            e.append(source.entity_type.as_str());
            e.append(" in key contract activation");
            return Err(e);
        }
        match &source.parsed {
            Err(error) => {
                proof {
                    lemma_published_error(sources@, i + 1);
                }
                let mut e = "failed to prepare key contract for ".to_owned();
                e.append(source.entity_type.as_str());
                e.append(" before spec activation: ");
                e.append(error.as_str());
                return Err(e);
            },
            Ok(declared) => {
                let contract = KeyContract {
                    key_set: declared.key_set.clone(),
                    spec_fingerprint: sha256_text(source.ioa_source.as_str()),
                    purge_existing_rows: declared.keyless,
                };
                insert_contract(&mut contracts, source.entity_type.as_str(), contract);
            },
        }
        i += 1;
    }
    assert(sources@.take(i as int) =~= sources@);
    let ghost published = contract_models(contracts@);
    let ghost removed = texts(removed_entity_types@);
    let mut k: usize = 0;
    assert(removed.take(0) =~= Seq::<Seq<char>>::empty());
    while k < removed_entity_types.len()
        invariant
            k <= removed_entity_types@.len(),
            removed == texts(removed_entity_types@),
            contracts.wf(),
            published_contracts(sources@) == Ok::<_, Seq<char>>(published),
            with_removals(published, removed.take(k as int), empty_key_set@) == Ok::<_, Seq<char>>(
                contract_models(contracts@),
            ),
        decreases removed_entity_types@.len() - k,
    {
        let name = &removed_entity_types[k];
        proof {
            let long = removed.take(k + 1);
            assert(long.drop_last() =~= removed.take(k as int));
            assert(long.last() == name@);
        }
        if contracts.contains_key(name) {
            proof {
                lemma_removal_error(published, removed, empty_key_set@, k + 1);
            }
            let mut e = "entity type ".to_owned();
            e.append(name.as_str());
            e.append(" cannot be both published and removed");
            return Err(e);
        }
        let mut marker = "temper.removed-spec.v1:".to_owned();
        marker.append(name.as_str());
        let contract = KeyContract {
            key_set: empty_key_set.to_owned(),
            spec_fingerprint: sha256_text(marker.as_str()),
            purge_existing_rows: true,
        };
        insert_contract(&mut contracts, name.as_str(), contract);
        k += 1;
    }
    assert(removed.take(k as int) =~= removed);
    Ok(contracts)
}

/// A type that a publication removes is held under an empty contract that
/// purges its rows.
pub proof fn law_removed_types_are_purged(
    published: Map<Seq<char>, ContractModel>,
    removed: Seq<Seq<char>>,
    empty_key_set: Seq<char>,
    i: int,
)
    requires
        0 <= i < removed.len(),
        with_removals(published, removed, empty_key_set) is Ok,
    ensures
        ({
            let contracts = with_removals(published, removed, empty_key_set)->Ok_0;
            &&& contracts.dom().contains(removed[i])
            &&& contracts[removed[i]].key_set == empty_key_set
            &&& contracts[removed[i]].purge_existing_rows
        }),
    decreases removed.len(),
{
    if i < removed.len() - 1 {
        assert(removed.drop_last()[i] == removed[i]);
        law_removed_types_are_purged(published, removed.drop_last(), empty_key_set, i);
    }
}

// ---------------------------------------------------------------------------
// Repairs
// ---------------------------------------------------------------------------

/// What follows an attempt to publish coverage.
pub enum RepairStep {
    /// The coverage is published: the types are let in again.
    Ready,
    /// Prepare the coverage again, and publish it.
    Repair,
    /// The types stay closed.
    Failed(String),
}

/// The attempts to publish the coverage of a cutover.
#[derive(Clone, Copy, PartialEq, Eq, Structural, Debug)]
pub struct Repairs {
    pub attempts: usize,
}

/// The error text of a cutover that was given up.
pub open spec fn not_ready_text(tenant: Seq<char>, error: Seq<char>) -> Seq<char> {
    "key contract activation for "@ + tenant + " remained not-ready after 3 source-fenced repairs: "@
        + error
}

impl Repairs {
    /// Before the first attempt.
    pub fn new() -> (r: Repairs)
        ensures
            r.attempts == 0,
    {
        Repairs { attempts: 0 }
    }

    /// Takes in an attempt: the error that it gave, if any.
    pub fn on_publish(&mut self, tenant: &str, error: Option<&str>) -> (r: RepairStep)
        requires
            old(self).attempts < REPAIR_ATTEMPTS,
        ensures
            final(self).attempts == old(self).attempts + 1,
            r is Ready == error is None,
            r is Repair == (error is Some && final(self).attempts < REPAIR_ATTEMPTS),
            r is Failed == (error is Some && final(self).attempts == 3),
            r matches RepairStep::Failed(text) ==> error matches Some(e) && text@
                == not_ready_text(tenant@, e@),
    {
        self.attempts = self.attempts + 1;
        match error {
            None => RepairStep::Ready,
            Some(e) => if self.attempts < REPAIR_ATTEMPTS {
                RepairStep::Repair
            } else {
                let mut text = "key contract activation for ".to_owned();
                text.append(tenant);
                text.append(" remained not-ready after 3 source-fenced repairs: ");
                text.append(e);
                RepairStep::Failed(text)
            },
        }
    }
}

// ---------------------------------------------------------------------------
// The cutover
// ---------------------------------------------------------------------------

/// The types of the contracts.
fn contract_types(contracts: &SortedMap<String, KeyContract>) -> (r: SortedSet<String>)
    requires
        contracts.wf(),
    ensures
        r.wf(),
        r@ == contracts@.dom(),
{
    let mut r: SortedSet<String> = SortedSet::new();
    let n: usize = contracts.len();
    let mut i: usize = 0;
    proof {
        contracts.lemma_domain();
        assert(r@ =~= contracts.order().take(0).to_set());
    }
    while i < n
        invariant
            contracts.wf(),
            r.wf(),
            i <= n == contracts.order().len(),
            r@ == contracts.order().take(i as int).to_set(),
        decreases n - i,
    {
        let _ = r.insert(contracts.key_at(i).clone());
        proof {
            lemma_to_set_step(contracts.order(), i as int);
            assert(r@ =~= contracts.order().take(i + 1).to_set());
        }
        i += 1;
    }
    proof {
        contracts.lemma_domain();
        assert(contracts.order().take(n as int) =~= contracts.order());
    }
    r
}

/// Closes the types of the contracts before the store activates them, and tells
/// which they are.
pub fn close_for_activation(
    activating: &mut ActivatingContracts,
    tenant: &str,
    contracts: &SortedMap<String, KeyContract>,
) -> (r: SortedSet<String>)
    requires
        old(activating).wf(),
        contracts.wf(),
    ensures
        r.wf(),
        r@ == contracts@.dom(),
        final(activating).wf(),
        final(activating)@ == old(activating)@.union(of_tenant(tenant@, contracts@.dom())),
{
    let types = contract_types(contracts);
    activating.close(tenant, &types);
    types
}

/// The epoch of a candidate once these types were activated: the one of its
/// activation, or the one that it had.
pub open spec fn epoch_of(candidate: CandidateType, epochs: Map<Seq<char>, u64>) -> u64 {
    if epochs.dom().contains(candidate.entity_type@) {
        epochs[candidate.entity_type@]
    } else {
        candidate.activation_epoch
    }
}

/// The candidates once these types were activated.
pub open spec fn with_epochs(
    candidates: Seq<CandidateType>,
    epochs: Map<Seq<char>, u64>,
) -> Seq<CandidateType> {
    candidates.map_values(
        |c: CandidateType| CandidateType { activation_epoch: epoch_of(c, epochs), ..c },
    )
}

/// Gives each candidate that was activated its epoch; every other keeps the one it
/// had.
pub fn take_epochs(candidates: &mut Vec<CandidateType>, epochs: &SortedMap<String, u64>)
    requires
        epochs.wf(),
    ensures
        final(candidates)@ == with_epochs(old(candidates)@, epochs@),
{
    let ghost before = candidates@;
    let mut i: usize = 0;
    while i < candidates.len()
        invariant
            i <= candidates@.len() == before.len(),
            epochs.wf(),
            forall|k: int|
                0 <= k < i ==> #[trigger] candidates@[k] == with_epochs(before, epochs@)[k],
            forall|k: int| i <= k < before.len() ==> #[trigger] candidates@[k] == before[k],
        decreases candidates@.len() - i,
    {
        if let Some(epoch) = epochs.get(&candidates[i].entity_type) {
            let epoch: u64 = *epoch;
            let candidate: &mut CandidateType = &mut candidates[i];
            candidate.activation_epoch = epoch;
        }
        i += 1;
    }
    assert(candidates@ =~= with_epochs(before, epochs@));
}

/// The keys under which these types of a tenant are remembered.
pub open spec fn remembered_keys(tenant: Seq<char>, types: Set<Seq<char>>) -> Set<Seq<char>> {
    Set::new(
        |k: Seq<char>| exists|t: Seq<char>| types.contains(t) && #[trigger] index_key_of(tenant, t)
            == k,
    )
}

/// Takes in how the store's activation went. Where it succeeded, it brings the epoch
/// of each activated type: the candidates take theirs, all of them are handed on, and
/// nothing that was remembered of these types counts any more. Where it failed, the
/// types stay closed.
pub fn settle_activation(
    coverage: &mut KeyIndexCoverage,
    candidates: &mut Vec<CandidateType>,
    tenant: &str,
    activated: Result<SortedMap<String, u64>, String>,
) -> (r: Result<SortedMap<String, u64>, String>)
    requires
        old(coverage).wf(),
        activated matches Ok(epochs) ==> epochs.wf(),
    ensures
        final(coverage).wf(),
        match activated {
            Ok(epochs) => {
                &&& r == Ok::<_, String>(epochs)
                &&& final(candidates)@ == with_epochs(old(candidates)@, epochs@)
                &&& final(coverage)@.loaded == old(coverage)@.loaded
                &&& final(coverage)@.entries == old(coverage)@.entries.remove_keys(
                    remembered_keys(tenant@, epochs@.dom()),
                )
            },
            Err(error) => {
                &&& final(coverage)@ == old(coverage)@
                &&& final(candidates)@ == old(candidates)@
                &&& r matches Err(e)
                &&& e@ == "failed to atomically activate key contracts for "@ + tenant@ + ": "@
                    + error@
            },
        },
{
    match activated {
        Ok(epochs) => {
            take_epochs(candidates, &epochs);
            let types: Vec<String> = epochs.keys();
            coverage.forget_types(tenant, &types);
            proof {
                let names = texts(types@);
                let dom = epochs@.dom();
                assert forall|k: Seq<char>|
                    index_keys_of(tenant@, types@).contains(k) == remembered_keys(
                        tenant@,
                        dom,
                    ).contains(k) by {
                    if index_keys_of(tenant@, types@).contains(k) {
                        let j = choose|j: int|
                            0 <= j < types@.len() && index_key_of(tenant@, (#[trigger] types@[j])@)
                                == k;
                        assert(names[j] == types@[j]@);
                        assert(names.to_set().contains(names[j]));
                        assert(dom.contains(types@[j]@));
                    }
                    if remembered_keys(tenant@, dom).contains(k) {
                        let t = choose|t: Seq<char>|
                            dom.contains(t) && #[trigger] index_key_of(tenant@, t) == k;
                        assert(names.to_set().contains(t));
                        let j = choose|j: int| 0 <= j < names.len() && names[j] == t;
                        assert(types@[j]@ == t);
                    }
                }
                assert(index_keys_of(tenant@, types@) =~= remembered_keys(tenant@, dom));
            }
            Ok(epochs)
        },
        Err(error) => {
            let mut text = "failed to atomically activate key contracts for ".to_owned();
            text.append(tenant);
            text.append(": ");
            text.append(error.as_str());
            Err(text)
        },
    }
}

/// The store took the coverage.
pub open spec fn is_published(published: Result<bool, String>) -> bool {
    published matches Ok(p) && p
}

/// The place of the first coverage that the store did not take.
pub open spec fn first_refused(published: Seq<Result<bool, String>>, from: int) -> int
    decreases published.len() - from,
{
    if from < 0 || from >= published.len() || !is_published(published[from]) {
        from
    } else {
        first_refused(published, from + 1)
    }
}

/// What is remembered once the first `n` coverages were offered to the store.
pub open spec fn published_until(
    before: CoverageModel,
    tenant: Seq<char>,
    prepared: Seq<PreparedKeyIndexCoverage>,
    published: Seq<Result<bool, String>>,
    n: int,
) -> CoverageModel
    decreases n,
{
    if n <= 0 {
        before
    } else {
        marked(
            published_until(before, tenant, prepared, published, n - 1),
            index_key_of(tenant, prepared[n - 1].entity_type@),
            prepared[n - 1].key_set@,
            published[n - 1],
        )
    }
}

/// Takes in how the store answered to the prepared coverages, one after the
/// other. The first that it did not take ends the publication.
pub fn publish_prepared_key_index_coverage(
    coverage: &mut KeyIndexCoverage,
    tenant: &str,
    prepared: &Vec<PreparedKeyIndexCoverage>,
    published: Vec<Result<bool, String>>,
) -> (r: Result<(), String>)
    requires
        old(coverage).wf(),
        published@.len() <= prepared@.len(),
        published@.len() < prepared@.len() ==> first_refused(published@, 0) < published@.len(),
    ensures
        final(coverage).wf(),
        ({
            let end = first_refused(published@, 0);
            &&& r is Ok == (end == published@.len())
            &&& r matches Err(e) ==> e@ == publish_failure_text(
                tenant@,
                prepared@[end].entity_type@,
                published@[end],
            )
            &&& final(coverage)@ == published_until(
                old(coverage)@,
                tenant@,
                prepared@,
                published@,
                if r is Ok {
                    end
                } else {
                    end + 1
                },
            )
        }),
{
    let mut i: usize = 0;
    while i < published.len()
        invariant
            i <= published@.len() <= prepared@.len(),
            coverage.wf(),
            first_refused(published@, 0) == first_refused(published@, i as int),
            coverage@ == published_until(
                old(coverage)@,
                tenant@,
                prepared@,
                published@,
                i as int,
            ),
        decreases published@.len() - i,
    {
        let contract = &prepared[i];
        let answer: &Result<bool, String> = &published[i];
        coverage.mark_key_index_backfilled_if_revision(
            tenant,
            contract.entity_type.as_str(),
            contract.key_set.as_str(),
            answer,
        );
        match answer {
            Ok(true) => {},
            Ok(false) => {
                return settle_publication(tenant, contract.entity_type.as_str(), Ok(false));
            },
            Err(error) => {
                return settle_publication(
                    tenant,
                    contract.entity_type.as_str(),
                    Err(error.clone()),
                );
            },
        }
        i += 1;
    }
    Ok(())
}

/// Takes in an attempt to publish the coverage of a cutover. The types are let
/// in again only once all of it is published.
pub fn finish_key_index_contract_activation(
    activating: &mut ActivatingContracts,
    repairs: &mut Repairs,
    tenant: &str,
    affected: &SortedSet<String>,
    published: Result<(), String>,
) -> (r: RepairStep)
    requires
        old(activating).wf(),
        affected.wf(),
        old(repairs).attempts < REPAIR_ATTEMPTS,
    ensures
        final(activating).wf(),
        final(repairs).attempts == old(repairs).attempts + 1,
        r is Ready == published is Ok,
        r is Repair == (published is Err && final(repairs).attempts < REPAIR_ATTEMPTS),
        r is Failed == (published is Err && final(repairs).attempts == 3),
        r matches RepairStep::Failed(text) ==> published matches Err(e) && text@
            == not_ready_text(tenant@, e@),
        final(activating)@ == if r is Ready {
            old(activating)@.difference(of_tenant(tenant@, affected@))
        } else {
            old(activating)@
        },
{
    match published {
        Ok(_) => {
            let step = repairs.on_publish(tenant, None);
            activating.reopen(tenant, affected);
            step
        },
        Err(e) => repairs.on_publish(tenant, Some(e.as_str())),
    }
}

/// A cutover that closes types and ends in publication leaves the other types as
/// they were, and its own types open.
pub proof fn law_cutovers_reopen_what_they_closed(
    before: Set<(Seq<char>, Seq<char>)>,
    tenant: Seq<char>,
    affected: Set<Seq<char>>,
)
    requires
        before.disjoint(of_tenant(tenant, affected)),
    ensures
        before.union(of_tenant(tenant, affected)).difference(of_tenant(tenant, affected))
            == before,
{
    let closed = of_tenant(tenant, affected);
    assert(before.union(closed).difference(closed) =~= before);
}

/// What is said when the activated contracts cannot be listed at startup.
pub fn startup_listing_failure(error: &str) -> (r: String)
    ensures
        r@ == "failed to enumerate activated key contracts at startup: "@ + error@,
{
    let mut text = "failed to enumerate activated key contracts at startup: ".to_owned();
    text.append(error);
    text
}

// ---------------------------------------------------------------------------
// Actors of changed types
// ---------------------------------------------------------------------------

/// The actor under a key belongs to the tenant, and to one of the types where
/// types are given.
pub open spec fn is_affected(
    key: Seq<char>,
    tenant: Seq<char>,
    types: Option<Set<Seq<char>>>,
) -> bool {
    has_three_parts(key) && key_head(key) == Some(tenant) && (types matches Some(t) ==> t.contains(
        key_head(key_tail(key))->0,
    ))
}

/// The map without the keys of affected actors.
pub open spec fn spared<V>(
    map: Map<Seq<char>, V>,
    gone: Seq<Seq<char>>,
) -> Map<Seq<char>, V> {
    Map::new(|k: Seq<char>| map.dom().contains(k) && !gone.contains(k), |k: Seq<char>| map[k])
}

/// Those of the keys that are affected, in their order.
pub open spec fn affected_keys(
    order: Seq<Seq<char>>,
    tenant: Seq<char>,
    types: Option<Set<Seq<char>>>,
) -> Seq<Seq<char>> {
    order.filter(|k: Seq<char>| is_affected(k, tenant, types))
}

fn affected(key: &str, tenant: &str, types: Option<&SortedSet<String>>) -> (r: bool)
    requires
        types matches Some(t) ==> t.wf(),
    ensures
        r == is_affected(
            key@,
            tenant@,
            match types {
                Some(t) => Some(t@),
                None => None,
            },
        ),
{
    match parse_actor_key(key) {
        None => false,
        Some(parts) => {
            if !same_text(parts.tenant, tenant) {
                return false;
            }
            match types {
                None => true,
                Some(t) => t.contains(&parts.entity_type.to_owned()),
            }
        },
    }
}

/// Removes the actors of a tenant, of some types or of all, and hands them out
/// in the order of their keys so that they can be stopped. What is listed stays
/// listed: the next request spawns the actor again, under the new contract.
pub fn evict_tenant_actors_for_types(
    directory: &mut ActorDirectory,
    tenant: &str,
    types: Option<&SortedSet<String>>,
) -> (r: Vec<u128>)
    requires
        old(directory).wf(),
        types matches Some(t) ==> t.wf(),
    ensures
        final(directory).wf(),
        final(directory).collection == old(directory).collection,
        ({
            let chosen = match types {
                Some(t) => Some(t@),
                None => None,
            };
            let gone = affected_keys(old(directory).registry.order(), tenant@, chosen);
            &&& final(directory)@.registry == spared(old(directory)@.registry, gone)
            &&& final(directory)@.stamps == spared(old(directory)@.stamps, gone)
            &&& r@ == gone.map_values(|k: Seq<char>| old(directory)@.registry[k])
        }),
{
    let ghost chosen = match types {
        Some(t) => Some(t@),
        None => None,
    };
    let ghost order = directory.registry.order();
    let ghost keep = |k: Seq<char>| is_affected(k, tenant@, chosen);
    let n: usize = directory.registry.len();
    let mut keys: Vec<String> = Vec::new();
    let mut uids: Vec<u128> = Vec::new();
    let mut i: usize = 0;
    proof {
        reveal(Seq::filter);
        assert(order.take(0) =~= Seq::<Seq<char>>::empty());
        assert(texts(keys@) =~= Seq::<Seq<char>>::empty());
        assert(uids@ =~= texts(keys@).map_values(|k: Seq<char>| old(directory)@.registry[k]));
    }
    while i < n
        invariant
            i <= n,
            *directory == *old(directory),
            directory.wf(),
            types matches Some(t) ==> t.wf(),
            chosen == (match types {
                Some(t) => Some(t@),
                None => None,
            }),
            order == directory.registry.order(),
            n == order.len(),
            keep == (|k: Seq<char>| is_affected(k, tenant@, chosen)),
            texts(keys@) == order.take(i as int).filter(keep),
            uids@ == texts(keys@).map_values(|k: Seq<char>| old(directory)@.registry[k]),
        decreases n - i,
    {
        let key = directory.registry.key_at(i);
        proof {
            reveal(Seq::filter);
            let long = order.take(i + 1);
            assert(long.drop_last() =~= order.take(i as int));
            assert(long.last() == key@);
        }
        if affected(key.as_str(), tenant, types) {
            let ghost before = keys@;
            let ghost before_uids = uids@;
            uids.push(*directory.registry.value_at(i));
            keys.push(key.clone());
            proof {
                assert(texts(keys@) =~= texts(before).push(key@));
                assert(uids@ =~= texts(keys@).map_values(
                    |k: Seq<char>| old(directory)@.registry[k],
                ));
            }
        }
        i += 1;
    }
    assert(order.take(n as int) =~= order);
    let ghost gone = texts(keys@);
    let mut k: usize = 0;
    proof {
        assert(gone.take(0) =~= Seq::<Seq<char>>::empty());
        assert(directory@.registry =~= spared(old(directory)@.registry, gone.take(0)));
        assert(directory@.stamps =~= spared(old(directory)@.stamps, gone.take(0)));
    }
    while k < keys.len()
        invariant
            k <= keys@.len(),
            gone == texts(keys@),
            directory.registry.wf(),
            directory.last_accessed.wf(),
            directory.collection == old(directory).collection,
            directory@.registry == spared(old(directory)@.registry, gone.take(k as int)),
            directory@.stamps == spared(old(directory)@.stamps, gone.take(k as int)),
        decreases keys@.len() - k,
    {
        let _ = directory.registry.remove(&keys[k]);
        let _ = directory.last_accessed.remove(&keys[k]);
        proof {
            let short = gone.take(k as int);
            let long = gone.take(k + 1);
            assert(long =~= short.push(gone[k as int]));
            assert forall|x: Seq<char>| #[trigger] long.contains(x) <==> short.contains(x) || x
                == gone[k as int] by {
                if short.contains(x) {
                    let j = choose|j: int| 0 <= j < short.len() && short[j] == x;
                    assert(long[j] == x);
                }
                assert(long[k as int] == gone[k as int]);
            }
            assert(directory@.registry =~= spared(old(directory)@.registry, long));
            assert(directory@.stamps =~= spared(old(directory)@.stamps, long));
        }
        k += 1;
    }
    assert(gone.take(k as int) =~= gone);
    uids
}

// ---------------------------------------------------------------------------
// Contracts that outlive their specs
// ---------------------------------------------------------------------------

/// A contract that the store holds.
pub struct ActivatedContract {
    pub tenant: String,
    pub entity_type: String,
}

/// The types of a tenant that are held under a contract although no spec of
/// theirs is registered, in their order.
pub open spec fn retired(
    activated: Seq<ActivatedContract>,
    tenant: Seq<char>,
    registered: Set<Seq<char>>,
) -> Seq<Seq<char>>
    decreases activated.len(),
{
    if activated.len() == 0 {
        Seq::empty()
    } else {
        let before = retired(activated.drop_last(), tenant, registered);
        let last = activated.last();
        if last.tenant@ == tenant && !registered.contains(last.entity_type@) {
            before.push(last.entity_type@)
        } else {
            before
        }
    }
}

/// The types of a tenant that are to be retired.
pub fn retired_types(
    activated: &Vec<ActivatedContract>,
    tenant: &str,
    registered: &SortedSet<String>,
) -> (r: Vec<String>)
    requires
        registered.wf(),
    ensures
        texts(r@) == retired(activated@, tenant@, registered@),
{
    let mut r: Vec<String> = Vec::new();
    let mut i: usize = 0;
    proof {
        assert(activated@.take(0) =~= Seq::<ActivatedContract>::empty());
        assert(texts(r@) =~= Seq::<Seq<char>>::empty());
    }
    while i < activated.len()
        invariant
            i <= activated@.len(),
            registered.wf(),
            texts(r@) == retired(activated@.take(i as int), tenant@, registered@),
        decreases activated@.len() - i,
    {
        proof {
            let long = activated@.take(i + 1);
            assert(long.drop_last() =~= activated@.take(i as int));
            assert(long.last() == activated@[i as int]);
        }
        if same_text(activated[i].tenant.as_str(), tenant) && !registered.contains(
            &activated[i].entity_type,
        ) {
            let ghost before = r@;
            r.push(activated[i].entity_type.clone());
            assert(texts(r@) =~= texts(before).push(activated@[i as int].entity_type@));
        }
        i += 1;
    }
    assert(activated@.take(i as int) =~= activated@);
    r
}

/// The spec at place `i` cannot be published: it does not parse, or its type was
/// published before it.
pub open spec fn is_rejected(sources: Seq<ContractSource>, i: int) -> bool {
    sources[i].parsed is Err || exists|j: int|
        0 <= j < i && (#[trigger] sources[j]).entity_type@ == sources[i].entity_type@
}

/// Each spec of a publication is held under the keys that it declares and the digest of
/// its own source, and the rows of a type without keys are purged.
pub proof fn law_each_published_spec_has_its_contract(sources: Seq<ContractSource>, i: int)
    requires
        published_contracts(sources) is Ok,
        0 <= i < sources.len(),
    ensures
        ({
            let contracts = published_contracts(sources)->Ok_0;
            let t = sources[i].entity_type@;
            &&& !is_rejected(sources, i)
            &&& contracts.dom().contains(t)
            &&& contracts[t].key_set == sources[i].parsed->Ok_0.key_set@
            &&& contracts[t].spec_fingerprint == hex_of(
                sha256_of(encode_utf8(sources[i].ioa_source@)),
            )
            &&& contracts[t].purge_existing_rows == sources[i].parsed->Ok_0.keyless
        }),
    decreases sources.len(),
{
    let before = sources.drop_last();
    let n = sources.len() - 1;
    let contracts = published_contracts(sources)->Ok_0;
    assert(published_contracts(before) is Ok);
    if i < n {
        law_each_published_spec_has_its_contract(before, i);
        assert(before[i] == sources[i]);
        if is_rejected(sources, i) {
            let j = choose|j: int|
                0 <= j < i && (#[trigger] sources[j]).entity_type@ == sources[i].entity_type@;
            assert(before[j] == sources[j]);
            assert(is_rejected(before, i));
        }
    } else if is_rejected(sources, n) {
        let j = choose|j: int|
            0 <= j < n && (#[trigger] sources[j]).entity_type@ == sources[n].entity_type@;
        law_each_published_spec_has_its_contract(before, j);
        assert(before[j] == sources[j]);
    }
}

/// Only published types have a contract.
pub proof fn law_contracts_are_those_of_the_published(sources: Seq<ContractSource>, t: Seq<char>)
    requires
        published_contracts(sources) is Ok,
        published_contracts(sources)->Ok_0.dom().contains(t),
    ensures
        exists|i: int| 0 <= i < sources.len() && (#[trigger] sources[i]).entity_type@ == t,
    decreases sources.len(),
{
    if sources.len() > 0 {
        let before = sources.drop_last();
        let n = sources.len() - 1;
        if sources[n].entity_type@ != t {
            law_contracts_are_those_of_the_published(before, t);
            let i = choose|i: int|
                0 <= i < before.len() && (#[trigger] before[i]).entity_type@ == t;
            assert(sources[i].entity_type@ == t);
        }
    }
}

/// A publication fails exactly where some spec of it cannot be published, and with the
/// error of the first such spec.
pub proof fn law_publications_fail_for_their_first_bad_spec(sources: Seq<ContractSource>)
    ensures
        published_contracts(sources) is Err <==> exists|i: int|
            0 <= i < sources.len() && #[trigger] is_rejected(sources, i),
        published_contracts(sources) matches Err(e) ==> exists|i: int|
            {
                &&& 0 <= i < sources.len()
                &&& #[trigger] is_rejected(sources, i)
                &&& forall|k: int| 0 <= k < i ==> !#[trigger] is_rejected(sources, k)
                &&& if exists|j: int|
                    0 <= j < i && (#[trigger] sources[j]).entity_type@
                        == sources[i].entity_type@ {
                    e == "duplicate entity type "@ + sources[i].entity_type@
                        + " in key contract activation"@
                } else {
                    e == "failed to prepare key contract for "@ + sources[i].entity_type@
                        + " before spec activation: "@ + sources[i].parsed->Err_0@
                }
            },
    decreases sources.len(),
{
    if sources.len() > 0 {
        let before = sources.drop_last();
        let n = sources.len() - 1;
        law_publications_fail_for_their_first_bad_spec(before);
        assert forall|k: int| 0 <= k < n implies #[trigger] is_rejected(sources, k)
            == is_rejected(before, k) by {
            assert(before[k] == sources[k]);
            if is_rejected(sources, k) && sources[k].parsed is Ok {
                let j = choose|j: int|
                    0 <= j < k && (#[trigger] sources[j]).entity_type@ == sources[k].entity_type@;
                assert(before[j].entity_type@ == before[k].entity_type@);
            }
            if is_rejected(before, k) && before[k].parsed is Ok {
                let j = choose|j: int|
                    0 <= j < k && (#[trigger] before[j]).entity_type@ == before[k].entity_type@;
                assert(sources[j].entity_type@ == sources[k].entity_type@);
            }
        }
        if published_contracts(before) is Err {
            let e = published_contracts(before)->Err_0;
            let i = choose|i: int|
                {
                    &&& 0 <= i < before.len()
                    &&& #[trigger] is_rejected(before, i)
                    &&& forall|k: int| 0 <= k < i ==> !#[trigger] is_rejected(before, k)
                    &&& if exists|j: int|
                        0 <= j < i && (#[trigger] before[j]).entity_type@
                            == before[i].entity_type@ {
                        e == "duplicate entity type "@ + before[i].entity_type@
                            + " in key contract activation"@
                    } else {
                        e == "failed to prepare key contract for "@ + before[i].entity_type@
                            + " before spec activation: "@ + before[i].parsed->Err_0@
                    }
                };
            assert(is_rejected(sources, i));
            assert(before[i] == sources[i]);
            if exists|j: int|
                0 <= j < i && (#[trigger] sources[j]).entity_type@ == sources[i].entity_type@ {
                let j = choose|j: int|
                    0 <= j < i && (#[trigger] sources[j]).entity_type@ == sources[i].entity_type@;
                assert(before[j].entity_type@ == before[i].entity_type@);
            }
            if exists|j: int|
                0 <= j < i && (#[trigger] before[j]).entity_type@ == before[i].entity_type@ {
                let j = choose|j: int|
                    0 <= j < i && (#[trigger] before[j]).entity_type@ == before[i].entity_type@;
                assert(sources[j].entity_type@ == sources[i].entity_type@);
            }
        } else {
            let contracts = published_contracts(before)->Ok_0;
            assert forall|k: int| 0 <= k < n implies !#[trigger] is_rejected(sources, k) by {
                assert(!is_rejected(before, k));
            }
            if contracts.dom().contains(sources[n].entity_type@) {
                law_contracts_are_those_of_the_published(before, sources[n].entity_type@);
                let j = choose|j: int|
                    0 <= j < before.len() && (#[trigger] before[j]).entity_type@
                        == sources[n].entity_type@;
                assert(sources[j].entity_type@ == sources[n].entity_type@);
                assert(is_rejected(sources, n));
            } else {
                assert forall|j: int| 0 <= j < n implies (#[trigger] sources[j]).entity_type@
                    != sources[n].entity_type@ by {
                    law_each_published_spec_has_its_contract(before, j);
                    assert(before[j] == sources[j]);
                }
                if sources[n].parsed is Err {
                    assert(is_rejected(sources, n));
                } else {
                    assert(!is_rejected(sources, n));
                }
            }
        }
    }
}

/// The removed type at place `i` cannot be removed: it is published, or was removed
/// before.
pub open spec fn is_kept_too(
    published: Map<Seq<char>, ContractModel>,
    removed: Seq<Seq<char>>,
    i: int,
) -> bool {
    published.dom().contains(removed[i]) || exists|j: int|
        0 <= j < i && #[trigger] removed[j] == removed[i]
}

/// Removals leave the contracts of the published types as they are, and each removed
/// type stands under the digest of its own marker. They succeed exactly where no type
/// is both published and removed, or removed twice.
pub proof fn law_removals_add_to_what_is_published(
    published: Map<Seq<char>, ContractModel>,
    removed: Seq<Seq<char>>,
    empty_key_set: Seq<char>,
    t: Seq<char>,
)
    ensures
        with_removals(published, removed, empty_key_set) is Ok <==> forall|i: int|
            0 <= i < removed.len() ==> !#[trigger] is_kept_too(published, removed, i),
        with_removals(published, removed, empty_key_set) matches Ok(all) ==> {
            &&& all.dom().contains(t) <==> published.dom().contains(t) || removed.contains(t)
            &&& published.dom().contains(t) ==> all[t] == published[t] && !removed.contains(t)
            &&& removed.contains(t) ==> all[t].spec_fingerprint == hex_of(
                sha256_of(encode_utf8("temper.removed-spec.v1:"@ + t)),
            )
        },
        with_removals(published, removed, empty_key_set) matches Err(e) ==> exists|i: int|
            {
                &&& 0 <= i < removed.len()
                &&& #[trigger] is_kept_too(published, removed, i)
                &&& e == "entity type "@ + removed[i] + " cannot be both published and removed"@
            },
    decreases removed.len(),
{
    if removed.len() > 0 {
        let before = removed.drop_last();
        let n = removed.len() - 1;
        law_removals_add_to_what_is_published(published, before, empty_key_set, t);
        law_removals_add_to_what_is_published(published, before, empty_key_set, removed[n]);
        assert(removed.contains(t) <==> before.contains(t) || removed[n] == t) by {
            if removed.contains(t) {
                let k = choose|k: int| 0 <= k < removed.len() && removed[k] == t;
                if k < n {
                    assert(before[k] == t);
                }
            }
            if before.contains(t) {
                let k = choose|k: int| 0 <= k < before.len() && before[k] == t;
                assert(removed[k] == t);
            }
            assert(removed[n] == t ==> removed.contains(t));
        }
        assert forall|k: int| 0 <= k < n implies #[trigger] is_kept_too(published, removed, k)
            == is_kept_too(published, before, k) by {
            assert(before[k] == removed[k]);
            if is_kept_too(published, removed, k) && !published.dom().contains(removed[k]) {
                let j = choose|j: int| 0 <= j < k && #[trigger] removed[j] == removed[k];
                assert(before[j] == before[k]);
            }
            if is_kept_too(published, before, k) && !published.dom().contains(before[k]) {
                let j = choose|j: int| 0 <= j < k && #[trigger] before[j] == before[k];
                assert(removed[j] == removed[k]);
            }
        }
        match with_removals(published, before, empty_key_set) {
            Err(e) => {
                let i = choose|i: int|
                    {
                        &&& 0 <= i < before.len()
                        &&& #[trigger] is_kept_too(published, before, i)
                        &&& e == "entity type "@ + before[i]
                            + " cannot be both published and removed"@
                    };
                assert(is_kept_too(published, removed, i));
                assert(before[i] == removed[i]);
            },
            Ok(all) => {
                assert(is_kept_too(published, removed, n) == all.dom().contains(removed[n])) by {
                    if before.contains(removed[n]) {
                        let j = choose|j: int| 0 <= j < before.len() && before[j] == removed[n];
                        assert(removed[j] == removed[n]);
                    }
                    if is_kept_too(published, removed, n) && !published.dom().contains(
                        removed[n],
                    ) {
                        let j = choose|j: int| 0 <= j < n && #[trigger] removed[j] == removed[n];
                        assert(before[j] == removed[n]);
                    }
                }
                assert forall|k: int| 0 <= k < n implies !#[trigger] is_kept_too(
                    published,
                    removed,
                    k,
                ) by {
                    assert(!is_kept_too(published, before, k));
                }
            },
        }
    }
}

/// A publication of coverage ends at the first one that the store did not take: each
/// before it was taken.
pub proof fn law_publication_ends_at_the_first_refusal(
    published: Seq<Result<bool, String>>,
    from: int,
    i: int,
)
    requires
        0 <= from <= published.len(),
        from <= i < first_refused(published, from),
    ensures
        first_refused(published, from) <= published.len(),
        published[i] matches Ok(taken) && taken,
        first_refused(published, from) < published.len() ==> !(published[first_refused(
            published,
            from,
        )] matches Ok(taken) && taken),
    decreases published.len() - from,
{
    if from < published.len() && is_published(published[from]) {
        if i > from {
            law_publication_ends_at_the_first_refusal(published, from + 1, i);
        } else {
            lemma_first_refused(published, from + 1);
        }
    }
}

proof fn lemma_first_refused(published: Seq<Result<bool, String>>, from: int)
    requires
        0 <= from <= published.len(),
    ensures
        from <= first_refused(published, from) <= published.len(),
        first_refused(published, from) < published.len() ==> !is_published(
            published[first_refused(published, from)],
        ),
    decreases published.len() - from,
{
    if from < published.len() && is_published(published[from]) {
        lemma_first_refused(published, from + 1);
    }
}

/// Once coverage was offered to the store, a type is remembered with its keys where the
/// store took it, is forgotten where the store refused it, and stands as before where
/// the store failed or was not asked.
pub proof fn law_published_coverage_is_remembered(
    before: CoverageModel,
    tenant: Seq<char>,
    prepared: Seq<PreparedKeyIndexCoverage>,
    published: Seq<Result<bool, String>>,
    n: int,
    key: Seq<char>,
    i: int,
)
    requires
        0 <= n <= prepared.len(),
        n <= published.len(),
        -1 <= i < n,
        forall|j: int|
            i < j < n ==> index_key_of(tenant, (#[trigger] prepared[j]).entity_type@) != key,
        i >= 0 ==> index_key_of(tenant, prepared[i].entity_type@) == key,
    ensures
        ({
            let after = published_until(before, tenant, prepared, published, n);
            &&& after.loaded == before.loaded
            &&& i >= 0 && published[i] == Ok::<bool, String>(true) ==> after.entries.dom().contains(
                key,
            ) && after.entries[key] == prepared[i].key_set@
            &&& i >= 0 && published[i] == Ok::<bool, String>(false)
                ==> !after.entries.dom().contains(key)
            &&& i < 0 ==> after.entries.dom().contains(key) == before.entries.dom().contains(key)
                && (before.entries.dom().contains(key) ==> after.entries[key]
                == before.entries[key])
        }),
    decreases n,
{
    if n > 0 {
        if i < n - 1 {
            assert(index_key_of(tenant, prepared[n - 1].entity_type@) != key);
            law_published_coverage_is_remembered(
                before,
                tenant,
                prepared,
                published,
                n - 1,
                key,
                i,
            );
        } else {
            lemma_publication_keeps_what_is_loaded(before, tenant, prepared, published, n);
        }
    }
}

proof fn lemma_publication_keeps_what_is_loaded(
    before: CoverageModel,
    tenant: Seq<char>,
    prepared: Seq<PreparedKeyIndexCoverage>,
    published: Seq<Result<bool, String>>,
    n: int,
)
    ensures
        published_until(before, tenant, prepared, published, n).loaded == before.loaded,
    decreases n,
{
    if n > 0 {
        lemma_publication_keeps_what_is_loaded(before, tenant, prepared, published, n - 1);
    }
}

/// An activated type takes the epoch of its activation, and any other keeps its own;
/// nothing else of a candidate changes.
pub proof fn law_epochs_are_those_of_the_activation(
    candidates: Seq<CandidateType>,
    epochs: Map<Seq<char>, u64>,
    i: int,
)
    requires
        0 <= i < candidates.len(),
    ensures
        ({
            let after = with_epochs(candidates, epochs);
            let t = candidates[i].entity_type@;
            &&& after.len() == candidates.len()
            &&& after[i].entity_type == candidates[i].entity_type
            &&& after[i].key_set == candidates[i].key_set
            &&& epochs.dom().contains(t) ==> after[i].activation_epoch == epochs[t]
            &&& !epochs.dom().contains(t) ==> after[i].activation_epoch
                == candidates[i].activation_epoch
        }),
{
}

/// An actor is evicted with its tenant where its type is one of those given, or where
/// all types are meant; actors of other tenants and of other types stay.
pub proof fn law_actors_go_with_their_tenant_and_type(
    order: Seq<Seq<char>>,
    owner: Seq<char>,
    entity_type: Seq<char>,
    id: Seq<char>,
    tenant: Seq<char>,
    types: Set<Seq<char>>,
)
    requires
        !owner.contains(':'),
        !entity_type.contains(':'),
    ensures
        ({
            let key = actor_key_of(owner, entity_type, id);
            &&& affected_keys(order, tenant, None).contains(key) == (order.contains(key) && owner
                == tenant)
            &&& affected_keys(order, tenant, Some(types)).contains(key) == (order.contains(key)
                && owner == tenant && types.contains(entity_type))
        }),
{
    let key = actor_key_of(owner, entity_type, id);
    law_actor_keys_read_back(owner, entity_type, id);
    lemma_affected_keys(order, tenant, None, key);
    lemma_affected_keys(order, tenant, Some(types), key);
}

proof fn lemma_affected_keys(
    order: Seq<Seq<char>>,
    tenant: Seq<char>,
    types: Option<Set<Seq<char>>>,
    key: Seq<char>,
)
    ensures
        affected_keys(order, tenant, types).contains(key) == (order.contains(key) && is_affected(
            key,
            tenant,
            types,
        )),
{
    let chosen = |k: Seq<char>| is_affected(k, tenant, types);
    let kept = order.filter(chosen);
    if kept.contains(key) {
        let i = choose|i: int| 0 <= i < kept.len() && kept[i] == key;
        order.lemma_filter_contains_rev(chosen, key);
        order.lemma_filter_pred(chosen, i);
    }
    if order.contains(key) && is_affected(key, tenant, types) {
        let i = choose|i: int| 0 <= i < order.len() && order[i] == key;
        order.lemma_filter_contains(chosen, i);
    }
}

/// A type is retired where the store holds a contract of this very tenant for it and no
/// spec of it is registered.
pub proof fn law_retired_types_have_lost_their_spec(
    activated: Seq<ActivatedContract>,
    tenant: Seq<char>,
    registered: Set<Seq<char>>,
    t: Seq<char>,
)
    ensures
        retired(activated, tenant, registered).contains(t) <==> !registered.contains(t) && exists|
            i: int,
        |
            0 <= i < activated.len() && (#[trigger] activated[i]).tenant@ == tenant
                && activated[i].entity_type@ == t,
    decreases activated.len(),
{
    if activated.len() > 0 {
        let before = activated.drop_last();
        let n = activated.len() - 1;
        law_retired_types_have_lost_their_spec(before, tenant, registered, t);
        assert forall|i: int| 0 <= i < n implies #[trigger] before[i] == activated[i] by {}
        let front = retired(before, tenant, registered);
        let all = retired(activated, tenant, registered);
        if all.contains(t) {
            let k = choose|k: int| 0 <= k < all.len() && all[k] == t;
            if k < front.len() {
                assert(front[k] == t);
                let i = choose|i: int|
                    0 <= i < before.len() && (#[trigger] before[i]).tenant@ == tenant
                        && before[i].entity_type@ == t;
                assert(activated[i].tenant@ == tenant);
            } else {
                assert(activated[n].entity_type@ == t);
            }
        }
        if !registered.contains(t) && exists|i: int|
            0 <= i < activated.len() && (#[trigger] activated[i]).tenant@ == tenant
                && activated[i].entity_type@ == t {
            let i = choose|i: int|
                0 <= i < activated.len() && (#[trigger] activated[i]).tenant@ == tenant
                    && activated[i].entity_type@ == t;
            if i < n {
                assert(before[i].tenant@ == tenant);
                let k = choose|k: int| 0 <= k < front.len() && front[k] == t;
                assert(all[k] == t);
            } else {
                assert(all[all.len() - 1] == t);
            }
        }
    }
}

} // verus!
