//! Which store holds what, what it refuses, and how its failures are told.

use vstd::prelude::*;
use vstd::string::*;
use vstd::utf8::decode_utf8;
use vstd::utf8::valid_utf8;

use crate::observe_events::DesignTimeEvent;
use crate::text::has_prefix;
use crate::verification_gate::VerificationLevel;
use crate::verification_gate::VerificationResult;

verus! {

/// The store that holds a tenant's metadata.
#[derive(Clone, Copy, PartialEq, Eq, Structural, Debug)]
pub enum TenantMetadataBackend {
    Postgres,
    Turso,
    /// Metadata lives in memory alone.
    Redis,
}

/// What is configured.
#[derive(Clone, Copy, PartialEq, Eq, Structural, Debug)]
pub struct StorageStack {
    pub postgres: bool,
    /// There is a Turso store for the tenant.
    pub turso: bool,
    /// The stack is labelled as Redis.
    pub redis: bool,
}

/// The store of a tenant's metadata: Postgres before Turso before Redis.
pub open spec fn backend_of(stack: Option<StorageStack>) -> Option<TenantMetadataBackend> {
    match stack {
        None => None,
        Some(s) => if s.postgres {
            Some(TenantMetadataBackend::Postgres)
        } else if s.turso {
            Some(TenantMetadataBackend::Turso)
        } else if s.redis {
            Some(TenantMetadataBackend::Redis)
        } else {
            None
        },
    }
}

/// The store of a tenant's metadata.
pub fn tenant_metadata_backend(stack: Option<StorageStack>) -> (r: Option<TenantMetadataBackend>)
    ensures
        r == backend_of(stack),
{
    match stack {
        None => None,
        Some(s) => if s.postgres {
            Some(TenantMetadataBackend::Postgres)
        } else if s.turso {
            Some(TenantMetadataBackend::Turso)
        } else if s.redis {
            Some(TenantMetadataBackend::Redis)
        } else {
            None
        },
    }
}

// ---------------------------------------------------------------------------
// Operations and where they go
// ---------------------------------------------------------------------------

/// What is asked of a metadata store.
#[derive(Clone, Copy, PartialEq, Eq, Structural, Debug)]
pub enum MetadataOperation {
    PersistWasmModule,
    DeleteWasmModule,
    LoadWasmSources,
    LazyLoadWasmModule,
    StageSpec,
    PersistSpec,
    DeleteSpec,
    PersistConstraints,
    PersistVerification,
    PublishCatalog,
    PersistSecret,
    DeleteSecret,
    LoadSecrets,
}

/// Where an operation goes.
pub enum Route {
    /// Nowhere: there is nothing to do.
    Nothing,
    Postgres,
    Turso,
    /// The store does not take it.
    Refused(String),
}

/// What an in-memory store calls an operation that it refuses. It knows of no
/// modules, and skips the summaries of verifications.
pub open spec fn refused_name(operation: MetadataOperation) -> Option<Seq<char>> {
    match operation {
        MetadataOperation::PersistWasmModule => Some("WASM module persistence"@),
        MetadataOperation::DeleteWasmModule => Some("WASM module deletion"@),
        MetadataOperation::LoadWasmSources => None,
        MetadataOperation::LazyLoadWasmModule => Some("WASM lazy-load"@),
        MetadataOperation::StageSpec => Some("Spec source staging"@),
        MetadataOperation::PersistSpec => Some("Spec source persistence"@),
        MetadataOperation::DeleteSpec => Some("Spec source deletion"@),
        MetadataOperation::PersistConstraints => Some("Tenant constraint persistence"@),
        MetadataOperation::PersistVerification => None,
        MetadataOperation::PublishCatalog => Some("Verified spec catalog publication"@),
        MetadataOperation::PersistSecret => Some("Secret persistence"@),
        MetadataOperation::DeleteSecret => Some("Secret deletion"@),
        MetadataOperation::LoadSecrets => Some("Secret loading"@),
    }
}

/// The error text of an operation that an in-memory store refuses.
pub open spec fn ephemeral_text(operation: Seq<char>) -> Seq<char> {
    operation
        + " is not supported on redis backend (explicit ephemeral mode: metadata is in-memory only)"@
}

/// The error text of an operation that an in-memory store refuses.
pub fn redis_ephemeral_error(operation: &str) -> (r: String)
    ensures
        r@ == ephemeral_text(operation@),
{
    let mut text = operation.to_owned();
    text.append(
        " is not supported on redis backend (explicit ephemeral mode: metadata is in-memory only)",
    );
    text
}

/// Why Turso refuses an operation, where it does: it holds no secrets.
pub open spec fn turso_refusal(operation: MetadataOperation) -> Option<Seq<char>> {
    match operation {
        MetadataOperation::PersistSecret => Some(
            "secret persistence is not supported on turso backend yet"@,
        ),
        MetadataOperation::DeleteSecret => Some(
            "secret deletion is not supported on turso backend yet"@,
        ),
        MetadataOperation::LoadSecrets => Some(
            "secret loading is not supported on turso backend yet"@,
        ),
        _ => None,
    }
}

/// The route is the one of the operation. A missing store takes nothing.
pub open spec fn is_route(
    route: Route,
    operation: MetadataOperation,
    backend: Option<TenantMetadataBackend>,
) -> bool {
    match backend {
        None => route is Nothing,
        Some(TenantMetadataBackend::Postgres) => route is Postgres,
        Some(TenantMetadataBackend::Turso) => match turso_refusal(operation) {
            Some(text) => route matches Route::Refused(t) && t@ == text,
            None => route is Turso,
        },
        Some(TenantMetadataBackend::Redis) => match refused_name(operation) {
            Some(name) => route matches Route::Refused(t) && t@ == ephemeral_text(name),
            None => route is Nothing,
        },
    }
}

/// Where an operation goes.
pub fn route(operation: MetadataOperation, backend: Option<TenantMetadataBackend>) -> (r: Route)
    ensures
        is_route(r, operation, backend),
{
    match backend {
        None => Route::Nothing,
        Some(TenantMetadataBackend::Postgres) => Route::Postgres,
        Some(TenantMetadataBackend::Turso) => match operation {
            MetadataOperation::PersistSecret => Route::Refused(
                "secret persistence is not supported on turso backend yet".to_owned(),
            ),
            MetadataOperation::DeleteSecret => Route::Refused(
                "secret deletion is not supported on turso backend yet".to_owned(),
            ),
            MetadataOperation::LoadSecrets => Route::Refused(
                "secret loading is not supported on turso backend yet".to_owned(),
            ),
            _ => Route::Turso,
        },
        Some(TenantMetadataBackend::Redis) => {
            let name: &str = match operation {
                MetadataOperation::LoadWasmSources => {
                    return Route::Nothing;
                },
                MetadataOperation::PersistVerification => {
                    return Route::Nothing;
                },
                MetadataOperation::PersistWasmModule => "WASM module persistence",
                MetadataOperation::DeleteWasmModule => "WASM module deletion",
                MetadataOperation::LazyLoadWasmModule => "WASM lazy-load",
                MetadataOperation::StageSpec => "Spec source staging",
                MetadataOperation::PersistSpec => "Spec source persistence",
                MetadataOperation::DeleteSpec => "Spec source deletion",
                MetadataOperation::PersistConstraints => "Tenant constraint persistence",
                MetadataOperation::PublishCatalog => "Verified spec catalog publication",
                MetadataOperation::PersistSecret => "Secret persistence",
                MetadataOperation::DeleteSecret => "Secret deletion",
                MetadataOperation::LoadSecrets => "Secret loading",
            };
            Route::Refused(redis_ephemeral_error(name))
        },
    }
}

/// An in-memory store takes no metadata: whatever is to be written is refused and
/// not dropped in silence, but for the summaries of verifications, which it skips.
pub proof fn law_memory_takes_no_metadata(route: Route, operation: MetadataOperation)
    requires
        is_route(route, operation, Some(TenantMetadataBackend::Redis)),
    ensures
        route is Nothing == (operation is LoadWasmSources || operation is PersistVerification),
        route is Nothing || route is Refused,
{
}

// ---------------------------------------------------------------------------
// Failures in words
// ---------------------------------------------------------------------------

/// A store that can fail.
#[derive(Clone, Copy, PartialEq, Eq, Structural, Debug)]
pub enum NamedStore {
    Postgres,
    Turso,
}

/// What failed on one module, spec or secret.
#[derive(Clone, Copy, PartialEq, Eq, Structural, Debug)]
pub enum StoreOperation {
    UpsertWasmModule,
    DeleteWasmModule,
    StageSpec,
    UpsertSpec,
    DeleteSpec,
    UpsertSecret,
    DeleteSecret,
}

/// How a failure begins.
pub open spec fn failure_head(operation: StoreOperation) -> Seq<char> {
    match operation {
        StoreOperation::UpsertWasmModule => "failed to upsert WASM module "@,
        StoreOperation::DeleteWasmModule => "failed to delete WASM module "@,
        StoreOperation::StageSpec => "failed to stage spec "@,
        StoreOperation::UpsertSpec => "failed to upsert spec "@,
        StoreOperation::DeleteSpec => "failed to delete spec "@,
        StoreOperation::UpsertSecret => "failed to upsert secret "@,
        StoreOperation::DeleteSecret => "failed to delete secret "@,
    }
}

/// Specs name the store in any case, all else only where it is Turso.
pub open spec fn failure_place(operation: StoreOperation, store: NamedStore) -> Seq<char> {
    match store {
        NamedStore::Turso => " in turso: "@,
        NamedStore::Postgres => if operation is StageSpec || operation is UpsertSpec
            || operation is DeleteSpec {
            " in postgres: "@
        } else {
            ": "@
        },
    }
}

/// The failure of an operation in words.
pub fn store_failure(
    operation: StoreOperation,
    store: NamedStore,
    tenant: &str,
    name: &str,
    error: &str,
) -> (r: String)
    ensures
        r@ == failure_head(operation) + tenant@ + "/"@ + name@ + failure_place(operation, store)
            + error@,
{
    let mut text: String = match operation {
        StoreOperation::UpsertWasmModule => "failed to upsert WASM module ".to_owned(),
        StoreOperation::DeleteWasmModule => "failed to delete WASM module ".to_owned(),
        StoreOperation::StageSpec => "failed to stage spec ".to_owned(),
        StoreOperation::UpsertSpec => "failed to upsert spec ".to_owned(),
        StoreOperation::DeleteSpec => "failed to delete spec ".to_owned(),
        StoreOperation::UpsertSecret => "failed to upsert secret ".to_owned(),
        StoreOperation::DeleteSecret => "failed to delete secret ".to_owned(),
    };
    text.append(tenant);
    text.append("/");
    text.append(name);
    let place: &str = match store {
        NamedStore::Turso => " in turso: ",
        NamedStore::Postgres => match operation {
            StoreOperation::StageSpec => " in postgres: ",
            StoreOperation::UpsertSpec => " in postgres: ",
            StoreOperation::DeleteSpec => " in postgres: ",
            _ => ": ",
        },
    };
    text.append(place);
    text.append(error);
    text
}

/// The failure to write or to clear a tenant's constraints, in words.
pub fn constraints_failure(cleared: bool, store: NamedStore, tenant: &str, error: &str) -> (r: String)
    ensures
        r@ == (if cleared {
            "failed to clear tenant constraints for "@
        } else {
            "failed to upsert tenant constraints for "@
        }) + tenant@ + (match store {
            NamedStore::Postgres => ": "@,
            NamedStore::Turso => " in turso: "@,
        }) + error@,
        has_prefix(r@, "failed to clear"@) == cleared,
        r@.skip(r@.len() - error@.len()) == error@,
{
    proof {
        reveal_strlit("failed to clear");
        reveal_strlit("failed to clear tenant constraints for ");
        reveal_strlit("failed to upsert tenant constraints for ");
        assert("failed to clear"@[10] == 'c');
        assert("failed to upsert tenant constraints for "@[10] == 'u');
    }
    let mut text: String = if cleared {
        "failed to clear tenant constraints for ".to_owned()
    } else {
        "failed to upsert tenant constraints for ".to_owned()
    };
    text.append(tenant);
    let place: &str = match store {
        NamedStore::Postgres => ": ",
        NamedStore::Turso => " in turso: ",
    };
    text.append(place);
    text.append(error);
    proof {
        let head = "failed to clear"@;
        assert(text@.skip(text@.len() - error@.len()) =~= error@);
        if cleared {
            assert(text@.take(head.len() as int) =~= head);
        } else {
            assert(text@[10] == 'u');
            if has_prefix(text@, head) {
                assert(text@.take(head.len() as int)[10] == head[10]);
            }
        }
    }
    text
}

pub open spec fn verification_failure_text(
    store: NamedStore,
    tenant: Seq<char>,
    entity_type: Seq<char>,
    status: Seq<char>,
    error: Seq<char>,
) -> Seq<char> {
    "failed to persist spec verification status for "@ + tenant + "/"@ + entity_type + " ("@
        + status + (match store {
        NamedStore::Postgres => "): "@,
        NamedStore::Turso => ") in turso: "@,
    }) + error
}

/// The failure to write a verification status, in words.
pub fn verification_failure(
    store: NamedStore,
    tenant: &str,
    entity_type: &str,
    status: &str,
    error: &str,
) -> (r: String)
    ensures
        r@ == verification_failure_text(store, tenant@, entity_type@, status@, error@),
{
    let mut text = "failed to persist spec verification status for ".to_owned();
    text.append(tenant);
    text.append("/");
    text.append(entity_type);
    text.append(" (");
    text.append(status);
    let place: &str = match store {
        NamedStore::Postgres => "): ",
        NamedStore::Turso => ") in turso: ",
    };
    text.append(place);
    text.append(error);
    text
}

/// How the writing of a verification's summary ends, by how the store took it.
/// Without a store that keeps summaries nothing is written, and that is no error.
pub fn persist_spec_verification(
    backend: Option<TenantMetadataBackend>,
    tenant: &str,
    entity_type: &str,
    status: &str,
    written: Result<(), String>,
) -> (r: Result<(), String>)
    ensures
        ({
            let store = match backend {
                Some(TenantMetadataBackend::Postgres) => Some(NamedStore::Postgres),
                Some(TenantMetadataBackend::Turso) => Some(NamedStore::Turso),
                Some(TenantMetadataBackend::Redis) => None,
                None => None,
            };
            match (store, written) {
                (Some(store), Err(error)) => r matches Err(e) && e@ == verification_failure_text(
                    store,
                    tenant@,
                    entity_type@,
                    status@,
                    error@,
                ),
                _ => r is Ok,
            }
        }),
{
    let store: NamedStore = match route(MetadataOperation::PersistVerification, backend) {
        Route::Nothing => {
            return Ok(());
        },
        Route::Refused(error) => {
            return Err(error);
        },
        Route::Postgres => NamedStore::Postgres,
        Route::Turso => NamedStore::Turso,
    };
    match written {
        Ok(()) => Ok(()),
        Err(error) => Err(
            verification_failure(store, tenant, entity_type, status, error.as_str()),
        ),
    }
}

/// The failure to write a design-time event, in words.
pub open spec fn design_time_failure_text(event: DesignTimeEvent, error: Seq<char>) -> Seq<char> {
    "failed to persist design-time event "@ + event.kind@ + " for "@ + event.tenant@ + "/"@
        + event.entity_type@ + ": "@ + error
}

/// The failure to write a design-time event, in words.
pub fn design_time_failure(event: &DesignTimeEvent, error: &str) -> (r: String)
    ensures
        r@ == design_time_failure_text(*event, error@),
{
    let mut text = "failed to persist design-time event ".to_owned();
    text.append(event.kind.as_str());
    text.append(" for ");
    text.append(event.tenant.as_str());
    text.append("/");
    text.append(event.entity_type.as_str());
    text.append(": ");
    text.append(error);
    text
}

// ---------------------------------------------------------------------------
// Verification summaries
// ---------------------------------------------------------------------------

/// What is stored of a verification result.
#[derive(Clone, Copy, PartialEq, Eq, Structural, Debug)]
pub struct VerificationSummary {
    pub verified: bool,
    pub levels_passed: Option<i32>,
    pub levels_total: Option<i32>,
}

/// How many levels passed.
pub open spec fn passed_among(levels: Seq<VerificationLevel>) -> nat
    decreases levels.len(),
{
    if levels.len() == 0 {
        0
    } else {
        passed_among(levels.drop_last()) + if levels.last().passed {
            1nat
        } else {
            0nat
        }
    }
}

/// What is stored of a verification result; without one nothing is verified.
pub fn verification_summary(result: Option<&VerificationResult>) -> (r: VerificationSummary)
    requires
        result matches Some(v) ==> v.levels@.len() <= i32::MAX,
    ensures
        match result {
            None => r == (VerificationSummary {
                verified: false,
                levels_passed: None,
                levels_total: None,
            }),
            Some(v) => r.verified == v.all_passed && r.levels_passed == Some(
                passed_among(v.levels@) as i32,
            ) && r.levels_total == Some(v.levels@.len() as i32) && passed_among(v.levels@)
                <= v.levels@.len(),
        },
{
    match result {
        None => VerificationSummary { verified: false, levels_passed: None, levels_total: None },
        Some(v) => {
            let mut passed: usize = 0;
            let mut i: usize = 0;
            assert(v.levels@.take(0) =~= Seq::<VerificationLevel>::empty());
            while i < v.levels.len()
                invariant
                    i <= v.levels@.len(),
                    v.levels@.len() <= i32::MAX,
                    passed <= i,
                    passed == passed_among(v.levels@.take(i as int)),
                decreases v.levels@.len() - i,
            {
                proof {
                    let long = v.levels@.take(i + 1);
                    assert(long.drop_last() =~= v.levels@.take(i as int));
                    assert(long.last() == v.levels@[i as int]);
                }
                if v.levels[i].passed {
                    passed += 1;
                }
                i += 1;
            }
            assert(v.levels@.take(i as int) =~= v.levels@);
            VerificationSummary {
                verified: v.all_passed,
                levels_passed: Some(passed as i32),
                levels_total: Some(v.levels.len() as i32),
            }
        },
    }
}

// ---------------------------------------------------------------------------
// Trajectories
// ---------------------------------------------------------------------------

/// What is stored of a step that an entity took.
#[derive(Debug)]
pub struct TrajectoryEntry {
    pub timestamp: String,
    pub tenant: String,
    pub entity_type: String,
    pub entity_id: String,
    pub action: String,
    pub success: bool,
    pub from_status: Option<String>,
    pub to_status: Option<String>,
    pub error: Option<String>,
    pub agent_id: Option<String>,
    pub session_id: Option<String>,
}

/// The place of a failed trajectory.
pub open spec fn trajectory_place(store: TenantMetadataBackend) -> Seq<char> {
    match store {
        TenantMetadataBackend::Postgres => ": "@,
        TenantMetadataBackend::Turso => " in turso: "@,
        TenantMetadataBackend::Redis => " in redis: "@,
    }
}

/// The failure to write a trajectory, in words.
pub fn trajectory_failure(store: TenantMetadataBackend, entry: &TrajectoryEntry, error: &str) -> (r:
    String)
    ensures
        r@ == "failed to persist trajectory entry for "@ + entry.tenant@ + "/"@ + entry.entity_type@
            + "/"@ + entry.entity_id@ + " action "@ + entry.action@ + trajectory_place(store)
            + error@,
{
    let mut text = "failed to persist trajectory entry for ".to_owned();
    text.append(entry.tenant.as_str());
    text.append("/");
    text.append(entry.entity_type.as_str());
    text.append("/");
    text.append(entry.entity_id.as_str());
    text.append(" action ");
    text.append(entry.action.as_str());
    let place: &str = match store {
        TenantMetadataBackend::Postgres => ": ",
        TenantMetadataBackend::Turso => " in turso: ",
        TenantMetadataBackend::Redis => " in redis: ",
    };
    text.append(place);
    text.append(error);
    text
}

// ---------------------------------------------------------------------------
// Secrets
// ---------------------------------------------------------------------------

/// What became of a stored secret.
pub enum SecretReading {
    /// It could not be decrypted; it is passed over.
    Undecrypted,
    /// What it decrypts to is no text, with the reason.
    NoText(String),
    /// Its text.
    Text(String),
}

/// Why some bytes are not UTF-8, in words.
pub uninterp spec fn utf8_fault(bytes: Seq<u8>) -> Seq<char>;

/// `String::from_utf8`: the text of bytes that are UTF-8, and an error for any
/// others. The words of the error depend on the bytes alone; which they are is left
/// to the name.
#[verifier::external_body]
fn decode_text(bytes: Vec<u8>) -> (r: Result<String, String>)
    ensures
        r is Ok == valid_utf8(bytes@),
        r matches Ok(text) ==> text@ == decode_utf8(bytes@),
        r matches Err(reason) ==> reason@ == utf8_fault(bytes@),
{
    match String::from_utf8(bytes) {
        Ok(text) => Ok(text),
        Err(error) => Err(error.to_string()),
    }
}

/// What became of a stored secret that decrypts to these bytes; `None` where it
/// could not be decrypted.
pub fn read_secret(plaintext: Option<Vec<u8>>) -> (r: SecretReading)
    ensures
        match plaintext {
            None => r is Undecrypted,
            Some(bytes) => if valid_utf8(bytes@) {
                r matches SecretReading::Text(text) && text@ == decode_utf8(bytes@)
            } else {
                r matches SecretReading::NoText(reason) && reason@ == utf8_fault(bytes@)
            },
        },
{
    match plaintext {
        None => SecretReading::Undecrypted,
        Some(bytes) => match decode_text(bytes) {
            Ok(text) => SecretReading::Text(text),
            Err(reason) => SecretReading::NoText(reason),
        },
    }
}

/// A stored secret.
pub struct StoredSecret {
    pub key_name: String,
    pub reading: SecretReading,
}

/// The error text of a secret that is no text.
pub open spec fn no_text_error(key_name: Seq<char>, reason: Seq<char>) -> Seq<char> {
    "secret "@ + key_name + " is not valid UTF-8: "@ + reason
}

/// The places of the secrets that are cached, up to the first one that is no
/// text.
pub open spec fn cached_places(secrets: Seq<StoredSecret>, n: int) -> Seq<int>
    decreases n,
{
    if n <= 0 {
        Seq::empty()
    } else if secrets[n - 1].reading is Text {
        cached_places(secrets, n - 1).push(n - 1)
    } else {
        cached_places(secrets, n - 1)
    }
}

/// The place of the first secret that is no text, or the number of secrets.
pub open spec fn first_no_text(secrets: Seq<StoredSecret>, from: int) -> int
    decreases secrets.len() - from,
{
    if from < 0 || from >= secrets.len() || secrets[from].reading is NoText {
        from
    } else {
        first_no_text(secrets, from + 1)
    }
}

/// Which of the secrets are cached, in their order, and how the load ends: with
/// their number, or with the first secret that is no text.
pub fn load_tenant_secrets(secrets: &Vec<StoredSecret>) -> (r: (Vec<usize>, Result<usize, String>))
    ensures
        ({
            let end = first_no_text(secrets@, 0);
            let places = cached_places(secrets@, end);
            &&& 0 <= end <= secrets@.len()
            &&& r.0@.len() == places.len()
            &&& forall|i: int| 0 <= i < places.len() ==> #[trigger] r.0@[i] == places[i]
            &&& r.1 is Ok == (end == secrets@.len())
            &&& r.1 matches Ok(count) ==> count == places.len()
            &&& r.1 matches Err(e) ==> (secrets@[end].reading matches SecretReading::NoText(reason)
                && e@ == no_text_error(secrets@[end].key_name@, reason@))
        }),
{
    let mut cached: Vec<usize> = Vec::new();
    let mut i: usize = 0;
    while i < secrets.len()
        invariant
            i <= secrets@.len(),
            first_no_text(secrets@, 0) == first_no_text(secrets@, i as int),
            cached@.len() == cached_places(secrets@, i as int).len(),
            forall|k: int|
                0 <= k < cached@.len() ==> #[trigger] cached@[k] == cached_places(
                    secrets@,
                    i as int,
                )[k],
        decreases secrets@.len() - i,
    {
        match &secrets[i].reading {
            SecretReading::Undecrypted => {},
            SecretReading::NoText(reason) => {
                let mut e = "secret ".to_owned();
                e.append(secrets[i].key_name.as_str());
                e.append(" is not valid UTF-8: ");
                e.append(reason.as_str());
                return (cached, Err(e));
            },
            SecretReading::Text(_) => {
                cached.push(i);
            },
        }
        i += 1;
    }
    let count: usize = cached.len();
    (cached, Ok(count))
}

/// The failure to read a tenant's secrets, in words.
pub fn secrets_load_failure(tenant: &str, error: &str) -> (r: String)
    ensures
        r@ == "failed to load secrets for tenant "@ + tenant@ + ": "@ + error@,
{
    let mut text = "failed to load secrets for tenant ".to_owned();
    text.append(tenant);
    text.append(": ");
    text.append(error);
    text
}

/// Metadata goes to Postgres wherever there is one, to Turso only without it, and to
/// memory only without both; where nothing is configured it goes nowhere.
pub proof fn law_durable_stores_come_first(stack: StorageStack)
    ensures
        backend_of(None) is None,
        stack.postgres ==> backend_of(Some(stack)) == Some(TenantMetadataBackend::Postgres),
        backend_of(Some(stack)) == Some(TenantMetadataBackend::Turso) <==> stack.turso
            && !stack.postgres,
        backend_of(Some(stack)) == Some(TenantMetadataBackend::Redis) <==> stack.redis
            && !stack.postgres && !stack.turso,
        backend_of(Some(stack)) is None <==> !stack.postgres && !stack.turso && !stack.redis,
{
}

/// Postgres takes every operation. Turso takes all but those on secrets. Without a store
/// nothing is done, and nothing is refused.
pub proof fn law_stores_take_what_they_hold(route: Route, operation: MetadataOperation)
    ensures
        is_route(route, operation, Some(TenantMetadataBackend::Postgres)) ==> route is Postgres,
        is_route(route, operation, None) ==> route is Nothing,
        is_route(route, operation, Some(TenantMetadataBackend::Turso)) ==> (route is Refused <==> (
        operation is PersistSecret || operation is DeleteSecret || operation is LoadSecrets)),
        is_route(route, operation, Some(TenantMetadataBackend::Turso)) ==> route is Refused
            || route is Turso,
{
}

/// What memory refuses is told by the name of the operation, and each operation that it
/// refuses has a name of its own.
pub proof fn law_refusals_name_the_operation(a: MetadataOperation, b: MetadataOperation)
    ensures
        a is PersistSecret ==> refused_name(a) == Some("Secret persistence"@),
        a is DeleteSecret ==> refused_name(a) == Some("Secret deletion"@),
        a is LoadSecrets ==> refused_name(a) == Some("Secret loading"@),
        a is StageSpec ==> refused_name(a) == Some("Spec source staging"@),
        a is PersistSpec ==> refused_name(a) == Some("Spec source persistence"@),
        a is DeleteSpec ==> refused_name(a) == Some("Spec source deletion"@),
        a is PersistWasmModule ==> refused_name(a) == Some("WASM module persistence"@),
        a is DeleteWasmModule ==> refused_name(a) == Some("WASM module deletion"@),
        refused_name(a) matches Some(name) ==> has_prefix(ephemeral_text(name), name),
        turso_refusal(a) is Some && turso_refusal(a) == turso_refusal(b) ==> a == b,
{
    if refused_name(a) is Some {
        let name = refused_name(a)->0;
        assert(ephemeral_text(name).take(name.len() as int) =~= name);
    }
    reveal_strlit("secret persistence is not supported on turso backend yet");
    reveal_strlit("secret deletion is not supported on turso backend yet");
    reveal_strlit("secret loading is not supported on turso backend yet");
    assert("secret persistence is not supported on turso backend yet"@[7] == 'p');
    assert("secret deletion is not supported on turso backend yet"@[7] == 'd');
    assert("secret loading is not supported on turso backend yet"@[7] == 'l');
}

/// A failure on Turso says so, whatever failed; one on Postgres says so of specs alone.
pub proof fn law_failures_name_their_store(operation: StoreOperation)
    ensures
        failure_place(operation, NamedStore::Turso) == " in turso: "@,
        failure_place(operation, NamedStore::Postgres) == " in postgres: "@ <==> (operation
            is StageSpec || operation is UpsertSpec || operation is DeleteSpec),
        failure_place(operation, NamedStore::Postgres) == " in postgres: "@ || failure_place(
            operation,
            NamedStore::Postgres,
        ) == ": "@,
        operation is UpsertSpec ==> failure_head(operation) == "failed to upsert spec "@,
        operation is DeleteSpec ==> failure_head(operation) == "failed to delete spec "@,
        operation is StageSpec ==> failure_head(operation) == "failed to stage spec "@,
        operation is UpsertSecret ==> failure_head(operation) == "failed to upsert secret "@,
        operation is DeleteSecret ==> failure_head(operation) == "failed to delete secret "@,
        operation is UpsertWasmModule ==> failure_head(operation)
            == "failed to upsert WASM module "@,
        operation is DeleteWasmModule ==> failure_head(operation)
            == "failed to delete WASM module "@,
{
    reveal_strlit(" in postgres: ");
    reveal_strlit(": ");
    assert(" in postgres: "@.len() == 14);
    assert(": "@.len() == 2);
}

/// A failed trajectory names the store that failed, and Postgres by saying none.
pub proof fn law_trajectories_name_their_store(store: TenantMetadataBackend)
    ensures
        store is Postgres <==> trajectory_place(store) == ": "@,
        store is Turso <==> trajectory_place(store) == " in turso: "@,
        store is Redis <==> trajectory_place(store) == " in redis: "@,
{
    reveal_strlit(": ");
    reveal_strlit(" in turso: ");
    reveal_strlit(" in redis: ");
    assert(": "@.len() == 2);
    assert(" in turso: "@.len() == 11);
    assert(" in redis: "@.len() == 11);
    assert(" in turso: "@[4] == 't');
    assert(" in redis: "@[4] == 'r');
}

/// The number of passed levels is the number of levels that passed.
pub proof fn law_passed_levels_are_counted(levels: Seq<VerificationLevel>)
    ensures
        passed_among(levels) == levels.filter(|l: VerificationLevel| l.passed).len(),
        passed_among(levels) <= levels.len(),
    decreases levels.len(),
{
    reveal(Seq::filter);
    if levels.len() > 0 {
        law_passed_levels_are_counted(levels.drop_last());
    }
}

/// A load of secrets ends at the first one that is no text: all before it that decrypt
/// are cached, in their order, those that do not are passed over, and none behind it is.
pub proof fn law_secrets_are_cached_up_to_the_first_fault(
    secrets: Seq<StoredSecret>,
    place: int,
)
    ensures
        ({
            let end = first_no_text(secrets, 0);
            &&& 0 <= end <= secrets.len()
            &&& end < secrets.len() ==> secrets[end].reading is NoText
            &&& forall|i: int| 0 <= i < end ==> !((#[trigger] secrets[i]).reading is NoText)
            &&& cached_places(secrets, end).contains(place) <==> 0 <= place < end
                && secrets[place].reading is Text
        }),
{
    lemma_first_no_text(secrets, 0);
    lemma_cached_places(secrets, first_no_text(secrets, 0), place);
}

proof fn lemma_first_no_text(secrets: Seq<StoredSecret>, from: int)
    requires
        0 <= from <= secrets.len(),
    ensures
        from <= first_no_text(secrets, from) <= secrets.len(),
        first_no_text(secrets, from) < secrets.len() ==> secrets[first_no_text(
            secrets,
            from,
        )].reading is NoText,
        forall|i: int|
            from <= i < first_no_text(secrets, from) ==> !((#[trigger] secrets[i]).reading
                is NoText),
    decreases secrets.len() - from,
{
    if from < secrets.len() && !(secrets[from].reading is NoText) {
        lemma_first_no_text(secrets, from + 1);
    }
}

proof fn lemma_cached_places(secrets: Seq<StoredSecret>, n: int, place: int)
    requires
        0 <= n <= secrets.len(),
    ensures
        cached_places(secrets, n).contains(place) <==> 0 <= place < n && secrets[place].reading
            is Text,
    decreases n,
{
    if n > 0 {
        lemma_cached_places(secrets, n - 1, place);
        let before = cached_places(secrets, n - 1);
        let all = cached_places(secrets, n);
        if secrets[n - 1].reading is Text {
            assert(all == before.push(n - 1));
            if all.contains(place) {
                let k = choose|k: int| 0 <= k < all.len() && all[k] == place;
                if k < before.len() {
                    assert(before[k] == place);
                }
            }
            if before.contains(place) {
                let k = choose|k: int| 0 <= k < before.len() && before[k] == place;
                assert(all[k] == place);
            }
            assert(all[before.len() as int] == n - 1);
        }
    }
}

/// A failure to write a verification status or a design-time event names what it
/// was about and ends in the cause; the store is told where it is a remote one.
pub proof fn law_lost_results_are_told(
    tenant: Seq<char>,
    entity_type: Seq<char>,
    status: Seq<char>,
    event: DesignTimeEvent,
    error: Seq<char>,
)
    ensures
        verification_failure_text(NamedStore::Turso, tenant, entity_type, status, error).len()
            == verification_failure_text(NamedStore::Postgres, tenant, entity_type, status, error).len()
            + " in turso"@.len(),
        forall|store: NamedStore|
            has_prefix(
                #[trigger] verification_failure_text(store, tenant, entity_type, status, error),
                "failed to persist spec verification status for "@ + tenant + "/"@ + entity_type
                    + " ("@ + status + ")"@,
            ),
        has_prefix(
            design_time_failure_text(event, error),
            "failed to persist design-time event "@ + event.kind@ + " for "@ + event.tenant@
                + "/"@ + event.entity_type@,
        ),
        design_time_failure_text(event, error).skip(
            design_time_failure_text(event, error).len() - error.len(),
        ) == error,
{
    reveal_strlit("): ");
    reveal_strlit(") in turso: ");
    reveal_strlit(" in turso");
    reveal_strlit(")");
    let head = "failed to persist spec verification status for "@ + tenant + "/"@ + entity_type
        + " ("@ + status + ")"@;
    assert forall|store: NamedStore|
        has_prefix(
            #[trigger] verification_failure_text(store, tenant, entity_type, status, error),
            head,
        ) by {
        let text = verification_failure_text(store, tenant, entity_type, status, error);
        assert(text.take(head.len() as int) =~= head);
    }
    let told = design_time_failure_text(event, error);
    let front = "failed to persist design-time event "@ + event.kind@ + " for "@ + event.tenant@
        + "/"@ + event.entity_type@;
    assert(told.take(front.len() as int) =~= front);
    assert(told.skip(told.len() - error.len()) =~= error);
}

} // verus!
