//! WebAssembly modules: which bytes win, and how a module is found again.

use vstd::prelude::*;
use vstd::string::*;

use crate::observe_events::newest;
use crate::observe_events::BoundedLog;
use crate::persistence::ephemeral_text;
use crate::persistence::redis_ephemeral_error;
use crate::persistence::TenantMetadataBackend;
use crate::sorted::SortedMap;
use crate::text::same_text;

verus! {

/// The source that marks a bundled module which replaces an uploaded one.
pub open spec fn replacing_source() -> Seq<char> {
    "bundled-replace-upload"@
}

/// The source of a bundled module that takes the place of an uploaded one.
pub fn bundled_replace_upload_source() -> (r: &'static str)
    ensures
        r@ == replacing_source(),
{
    "bundled-replace-upload"
}

/// What is stored of a module.
pub struct WasmModuleRow {
    pub sha256_hash: String,
    /// `bundled` or `upload`.
    pub source: String,
    pub version: u64,
}

/// A module to store.
pub struct WasmUpsert {
    pub sha256_hash: String,
    /// The source as it is stored.
    pub source: String,
    /// It replaces an uploaded module.
    pub replaces_upload: bool,
}

/// The hash that is given, or else the one that was computed.
pub open spec fn effective(given: Seq<char>, computed: Seq<char>) -> Seq<char> {
    if given.len() == 0 {
        computed
    } else {
        given
    }
}

/// The hash that is given, or else the one that was computed.
pub fn effective_hash(given: &str, computed: &str) -> (r: String)
    ensures
        r@ == effective(given@, computed@),
{
    if given.unicode_len() == 0 {
        computed.to_owned()
    } else {
        given.to_owned()
    }
}

/// Prepares a module for its store. `computed` is the hash of its bytes.
pub fn plan_wasm_upsert(source: &str, given_hash: &str, computed: &str) -> (r: WasmUpsert)
    ensures
        r.sha256_hash@ == effective(given_hash@, computed@),
        r.replaces_upload == (source@ == replacing_source()),
        r.source@ == if source@ == replacing_source() {
            "bundled"@
        } else {
            source@
        },
{
    let replaces_upload: bool = same_text(source, bundled_replace_upload_source());
    WasmUpsert {
        sha256_hash: effective_hash(given_hash, computed),
        source: if replaces_upload {
            "bundled".to_owned()
        } else {
            source.to_owned()
        },
        replaces_upload,
    }
}

/// The module takes the place of the stored one: its bytes differ, and it was
/// uploaded, or replaces an upload, or the stored one was bundled.
pub open spec fn overwrites(stored: WasmModuleRow, upsert: WasmUpsert) -> bool {
    stored.sha256_hash@ != upsert.sha256_hash@ && (upsert.replaces_upload || upsert.source@
        == "upload"@ || stored.source@ == "bundled"@)
}

/// What is stored after a module was written.
pub fn stored_wasm_module(stored: Option<WasmModuleRow>, upsert: &WasmUpsert) -> (r: WasmModuleRow)
    requires
        stored matches Some(row) ==> row.version < u64::MAX,
    ensures
        match stored {
            Some(row) => if overwrites(row, *upsert) {
                r.sha256_hash@ == upsert.sha256_hash@ && r.source@ == upsert.source@ && r.version
                    == row.version + 1
            } else {
                r == row
            },
            None => r.sha256_hash@ == upsert.sha256_hash@ && r.source@ == upsert.source@
                && r.version == 1,
        },
{
    let version: u64 = match stored {
        None => 1,
        Some(row) => {
            let wins: bool = !same_text(row.sha256_hash.as_str(), upsert.sha256_hash.as_str()) && (
            upsert.replaces_upload || same_text(upsert.source.as_str(), "upload") || same_text(
                row.source.as_str(),
                "bundled",
            ));
            if !wins {
                return row;
            }
            row.version + 1
        },
    };
    WasmModuleRow {
        sha256_hash: upsert.sha256_hash.clone(),
        source: upsert.source.clone(),
        version,
    }
}

/// An uploaded module survives the installation of a bundled one, whatever the
/// bytes, unless the installation says that it replaces uploads.
pub proof fn law_uploads_survive_installation(stored: WasmModuleRow, upsert: WasmUpsert)
    requires
        stored.source@ == "upload"@,
        upsert.source@ == "bundled"@,
        !upsert.replaces_upload,
    ensures
        !overwrites(stored, upsert),
{
    reveal_strlit("upload");
    reveal_strlit("bundled");
    assert("upload"@.len() == 6 && "bundled"@.len() == 7);
}

/// Writing the same bytes again changes nothing.
pub proof fn law_same_bytes_change_nothing(stored: WasmModuleRow, upsert: WasmUpsert)
    requires
        stored.sha256_hash@ == upsert.sha256_hash@,
    ensures
        !overwrites(stored, upsert),
{
}

/// The failure to store a module's bytes, in words.
pub fn artifact_failure(tenant: &str, module_name: &str, error: &str) -> (r: String)
    ensures
        r@ == "failed to persist WASM artifact "@ + tenant@ + "/"@ + module_name@
            + " to object store: "@ + error@,
{
    let mut text = "failed to persist WASM artifact ".to_owned();
    text.append(tenant);
    text.append("/");
    text.append(module_name);
    text.append(" to object store: ");
    text.append(error);
    text
}

// ---------------------------------------------------------------------------
// Modules by name
// ---------------------------------------------------------------------------

/// A module, its hash and where it came from.
pub struct NamedWasmModule {
    pub module_name: String,
    pub sha256_hash: String,
    pub source: String,
}

/// The modules by name; of two with one name the later one counts.
pub open spec fn by_name(rows: Seq<NamedWasmModule>) -> Map<Seq<char>, (Seq<char>, Seq<char>)>
    decreases rows.len(),
{
    if rows.len() == 0 {
        Map::empty()
    } else {
        by_name(rows.drop_last()).insert(
            rows.last().module_name@,
            (rows.last().sha256_hash@, rows.last().source@),
        )
    }
}

/// The contents of hash and source by name.
pub open spec fn source_texts(m: Map<Seq<char>, (String, String)>) -> Map<
    Seq<char>,
    (Seq<char>, Seq<char>),
> {
    m.map_values(|p: (String, String)| (p.0@, p.1@))
}

/// Hash and source of each stored module, by name.
pub fn wasm_module_sources(rows: &Vec<NamedWasmModule>) -> (r: SortedMap<String, (String, String)>)
    ensures
        r.wf(),
        source_texts(r@) == by_name(rows@),
{
    let mut r: SortedMap<String, (String, String)> = SortedMap::new();
    let mut i: usize = 0;
    proof {
        assert(rows@.take(0) =~= Seq::<NamedWasmModule>::empty());
        assert(source_texts(r@) =~= Map::<Seq<char>, (Seq<char>, Seq<char>)>::empty());
    }
    while i < rows.len()
        invariant
            i <= rows@.len(),
            r.wf(),
            source_texts(r@) == by_name(rows@.take(i as int)),
        decreases rows@.len() - i,
    {
        let ghost before = r@;
        let row = &rows[i];
        let _ = r.insert(row.module_name.clone(), (row.sha256_hash.clone(), row.source.clone()));
        proof {
            let long = rows@.take(i + 1);
            assert(long.drop_last() =~= rows@.take(i as int));
            assert(long.last() == rows@[i as int]);
            assert(source_texts(r@) =~= source_texts(before).insert(
                row.module_name@,
                (row.sha256_hash@, row.source@),
            ));
        }
        i += 1;
    }
    assert(rows@.take(i as int) =~= rows@);
    r
}

/// A stored module of some tenant.
pub struct TenantWasmModule {
    pub tenant: String,
    pub module_name: String,
    pub sha256_hash: String,
    /// The hash of its bytes.
    pub computed_hash: String,
}

/// The hashes by tenant and module, with the stored modules among them.
pub open spec fn with_modules(
    known: Map<(Seq<char>, Seq<char>), Seq<char>>,
    rows: Seq<TenantWasmModule>,
) -> Map<(Seq<char>, Seq<char>), Seq<char>>
    decreases rows.len(),
{
    if rows.len() == 0 {
        known
    } else {
        with_modules(known, rows.drop_last()).insert(
            (rows.last().tenant@, rows.last().module_name@),
            effective(rows.last().sha256_hash@, rows.last().computed_hash@),
        )
    }
}

/// The hash of each module that can be called, by tenant and name.
pub struct WasmModuleRegistry {
    modules: SortedMap<(String, String), String>,
}

impl View for WasmModuleRegistry {
    type V = Map<(Seq<char>, Seq<char>), Seq<char>>;

    closed spec fn view(&self) -> Map<(Seq<char>, Seq<char>), Seq<char>> {
        self.modules@.map_values(|s: String| s@)
    }
}

impl WasmModuleRegistry {
    pub closed spec fn wf(&self) -> bool {
        self.modules.wf()
    }

    /// No modules.
    pub fn new() -> (r: WasmModuleRegistry)
        ensures
            r.wf(),
            r@ == Map::<(Seq<char>, Seq<char>), Seq<char>>::empty(),
    {
        let r = WasmModuleRegistry { modules: SortedMap::new() };
        assert(r@ =~= Map::<(Seq<char>, Seq<char>), Seq<char>>::empty());
        r
    }

    /// The hash of a module.
    pub fn hash(&self, tenant: &str, module_name: &str) -> (r: Option<String>)
        requires
            self.wf(),
        ensures
            r is Some == self@.dom().contains((tenant@, module_name@)),
            r matches Some(hash) ==> hash@ == self@[(tenant@, module_name@)],
    {
        match self.modules.get(&(tenant.to_owned(), module_name.to_owned())) {
            Some(hash) => Some(hash.clone()),
            None => None,
        }
    }

    /// Registers the stored modules after a start, and says how many there are.
    /// They are compiled when they are first called.
    pub fn load_wasm_modules(&mut self, rows: &Vec<TenantWasmModule>) -> (r: usize)
        requires
            old(self).wf(),
        ensures
            final(self).wf(),
            r == rows@.len(),
            final(self)@ == with_modules(old(self)@, rows@),
    {
        let mut i: usize = 0;
        assert(rows@.take(0) =~= Seq::<TenantWasmModule>::empty());
        while i < rows.len()
            invariant
                i <= rows@.len(),
                self.wf(),
                self@ == with_modules(old(self)@, rows@.take(i as int)),
            decreases rows@.len() - i,
        {
            let ghost before = self@;
            let row = &rows[i];
            let hash = effective_hash(row.sha256_hash.as_str(), row.computed_hash.as_str());
            let _ = self.modules.insert((row.tenant.clone(), row.module_name.clone()), hash);
            proof {
                let long = rows@.take(i + 1);
                assert(long.drop_last() =~= rows@.take(i as int));
                assert(long.last() == rows@[i as int]);
                assert(self@ =~= before.insert((row.tenant@, row.module_name@), hash@));
            }
            i += 1;
        }
        assert(rows@.take(i as int) =~= rows@);
        i
    }
}

// ---------------------------------------------------------------------------
// Loading a module when it is first called
// ---------------------------------------------------------------------------

/// How a call finds its module.
pub enum WasmLookup {
    /// It is compiled already.
    Cached,
    /// It has to be read from this store.
    Read(TenantMetadataBackend),
    /// It cannot be had.
    Failed(String),
}

/// Begins to look for a module.
pub fn plan_wasm_lookup(
    cached: bool,
    backend: Option<TenantMetadataBackend>,
    tenant: &str,
    module_name: &str,
) -> (r: WasmLookup)
    ensures
        if cached {
            r is Cached
        } else {
            match backend {
                None => r matches WasmLookup::Failed(e) && e@ == "cannot lazy-load WASM module '"@
                    + module_name@ + "' for tenant '"@ + tenant@ + "' without a metadata backend"@,
                Some(TenantMetadataBackend::Redis) => r matches WasmLookup::Failed(e) && e@
                    == ephemeral_text("WASM lazy-load"@),
                Some(store) => r == WasmLookup::Read(store),
            }
        },
{
    if cached {
        return WasmLookup::Cached;
    }
    match backend {
        None => {
            let mut e = "cannot lazy-load WASM module '".to_owned();
            e.append(module_name);
            e.append("' for tenant '");
            e.append(tenant);
            e.append("' without a metadata backend");
            WasmLookup::Failed(e)
        },
        Some(TenantMetadataBackend::Redis) => WasmLookup::Failed(
            redis_ephemeral_error("WASM lazy-load"),
        ),
        Some(store) => WasmLookup::Read(store),
    }
}

/// The failure to read a module, in words.
pub open spec fn lazy_load_text(
    store: TenantMetadataBackend,
    tenant: Seq<char>,
    module_name: Seq<char>,
    error: Seq<char>,
) -> Seq<char> {
    "failed to lazy-load WASM module "@ + tenant + "/"@ + module_name + (match store {
        TenantMetadataBackend::Postgres => " from postgres: "@,
        TenantMetadataBackend::Turso => " from turso: "@,
        TenantMetadataBackend::Redis => " from redis: "@,
    }) + error
}

/// The failure to read a module, in words.
pub fn lazy_load_failure(
    store: TenantMetadataBackend,
    tenant: &str,
    module_name: &str,
    error: &str,
) -> (r: String)
    ensures
        r@ == lazy_load_text(store, tenant@, module_name@, error@),
{
    let mut text = "failed to lazy-load WASM module ".to_owned();
    text.append(tenant);
    text.append("/");
    text.append(module_name);
    let place: &str = match store {
        TenantMetadataBackend::Postgres => " from postgres: ",
        TenantMetadataBackend::Turso => " from turso: ",
        TenantMetadataBackend::Redis => " from redis: ",
    };
    text.append(place);
    text.append(error);
    text
}

/// Where the bytes of a stored module are.
pub enum WasmBytes {
    /// Beside its hash.
    Inline,
    /// In the object store.
    Artifact,
    /// They cannot be had.
    Failed(String),
}

/// The error text of a module that is not stored.
pub open spec fn not_found_text(tenant: Seq<char>, module_name: Seq<char>) -> Seq<char> {
    "WASM module '"@ + module_name + "' not found in persistence for tenant '"@ + tenant + "'"@
}

/// The error text of a module that has neither bytes nor a hash.
pub open spec fn no_bytes_text(tenant: Seq<char>, module_name: Seq<char>) -> Seq<char> {
    "WASM module '"@ + module_name + "' for tenant '"@ + tenant
        + "' has no inline bytes and no artifact hash"@
}

/// Finds the bytes of a stored module: `row` tells how many bytes stand beside
/// its hash, and the hash; `None` where it is not stored.
pub fn resolve_wasm_artifact_bytes(tenant: &str, module_name: &str, row: Option<(usize, &str)>) -> (r:
    WasmBytes)
    ensures
        match row {
            None => r matches WasmBytes::Failed(e) && e@ == not_found_text(tenant@, module_name@),
            Some((inline, hash)) => if inline > 0 {
                r is Inline
            } else if hash@.len() == 0 {
                r matches WasmBytes::Failed(e) && e@ == no_bytes_text(tenant@, module_name@)
            } else {
                r is Artifact
            },
        },
{
    match row {
        None => {
            let mut e = "WASM module '".to_owned();
            e.append(module_name);
            e.append("' not found in persistence for tenant '");
            e.append(tenant);
            e.append("'");
            WasmBytes::Failed(e)
        },
        Some((inline, hash)) => {
            if inline > 0 {
                return WasmBytes::Inline;
            }
            if hash.unicode_len() == 0 {
                let mut e = "WASM module '".to_owned();
                e.append(module_name);
                e.append("' for tenant '");
                e.append(tenant);
                e.append("' has no inline bytes and no artifact hash");
                return WasmBytes::Failed(e);
            }
            WasmBytes::Artifact
        },
    }
}

/// The error text of a module whose bytes are gone.
pub fn missing_artifact_error(tenant: &str, module_name: &str, artifact_key: &str) -> (r: String)
    ensures
        r@ == "WASM artifact missing for tenant '"@ + tenant@ + "' module '"@ + module_name@
            + "' at '"@ + artifact_key@ + "'"@,
{
    let mut text = "WASM artifact missing for tenant '".to_owned();
    text.append(tenant);
    text.append("' module '");
    text.append(module_name);
    text.append("' at '");
    text.append(artifact_key);
    text.append("'");
    text
}

/// The error text of a module whose bytes are not the registered ones.
pub open spec fn mismatch_text(
    tenant: Seq<char>,
    module_name: Seq<char>,
    expected: Seq<char>,
    found: Seq<char>,
) -> Seq<char> {
    "WASM module hash mismatch for "@ + tenant + "/"@ + module_name + ": registry="@ + expected
        + " persisted="@ + found
}

/// Checks that the stored module is the registered one, by its stored hash or,
/// without one, by the hash of its bytes.
pub fn check_wasm_hash(
    tenant: &str,
    module_name: &str,
    expected: &str,
    stored: &str,
    computed: &str,
) -> (r: Result<(), String>)
    ensures
        r is Ok == (effective(stored@, computed@) == expected@),
        r matches Err(e) ==> e@ == mismatch_text(
            tenant@,
            module_name@,
            expected@,
            effective(stored@, computed@),
        ),
{
    let resolved = effective_hash(stored, computed);
    if same_text(resolved.as_str(), expected) {
        return Ok(());
    }
    let mut e = "WASM module hash mismatch for ".to_owned();
    e.append(tenant);
    e.append("/");
    e.append(module_name);
    e.append(": registry=");
    e.append(expected);
    e.append(" persisted=");
    e.append(resolved.as_str());
    Err(e)
}

/// The failure to compile a module, in words.
pub fn compile_failure(tenant: &str, module_name: &str, error: &str) -> (r: String)
    ensures
        r@ == "failed to compile lazy-loaded WASM module "@ + tenant@ + "/"@ + module_name@ + ": "@
            + error@,
{
    let mut text = "failed to compile lazy-loaded WASM module ".to_owned();
    text.append(tenant);
    text.append("/");
    text.append(module_name);
    text.append(": ");
    text.append(error);
    text
}

/// What was read and done for a module that is first called.
pub struct WasmReadings<'a> {
    /// How many bytes stand beside its hash, and the hash, where it is stored.
    pub row: Result<Option<(usize, &'a str)>, String>,
    /// Under which key its bytes are in the object store, and whether they are.
    pub artifact_key: &'a str,
    pub artifact: Result<bool, String>,
    /// The hash of its bytes.
    pub computed: &'a str,
    /// Compiling it.
    pub compiled: Result<(), String>,
}

/// Why the bytes of a stored module cannot be had.
pub open spec fn bytes_failure(
    tenant: Seq<char>,
    module_name: Seq<char>,
    inline: usize,
    hash: Seq<char>,
    readings: WasmReadings<'_>,
) -> Option<Seq<char>> {
    if inline > 0 {
        None
    } else if hash.len() == 0 {
        Some(no_bytes_text(tenant, module_name))
    } else {
        match readings.artifact {
            Err(error) => Some(error@),
            Ok(false) => Some(
                "WASM artifact missing for tenant '"@ + tenant + "' module '"@ + module_name
                    + "' at '"@ + readings.artifact_key@ + "'"@,
            ),
            Ok(true) => None,
        }
    }
}

/// Why a module that is read from a store cannot be called.
pub open spec fn load_failure(
    store: TenantMetadataBackend,
    tenant: Seq<char>,
    module_name: Seq<char>,
    expected: Seq<char>,
    readings: WasmReadings<'_>,
) -> Option<Seq<char>> {
    match readings.row {
        Err(error) => Some(lazy_load_text(store, tenant, module_name, error@)),
        Ok(None) => Some(not_found_text(tenant, module_name)),
        Ok(Some((inline, hash))) => if bytes_failure(
            tenant,
            module_name,
            inline,
            hash@,
            readings,
        ) is Some {
            bytes_failure(tenant, module_name, inline, hash@, readings)
        } else if effective(hash@, readings.computed@) != expected {
            Some(
                mismatch_text(tenant, module_name, expected, effective(hash@, readings.computed@)),
            )
        } else {
            match readings.compiled {
                Ok(_) => None,
                Err(error) => Some(
                    "failed to compile lazy-loaded WASM module "@ + tenant + "/"@ + module_name
                        + ": "@ + error@,
                ),
            }
        },
    }
}

/// Decides whether a module that is first called can be called, by what was read
/// from its store: it must be stored, its bytes must be there and be the
/// registered ones, and they must compile.
pub fn ensure_wasm_module_cached(
    store: TenantMetadataBackend,
    tenant: &str,
    module_name: &str,
    expected: &str,
    readings: WasmReadings<'_>,
) -> (r: Result<(), String>)
    ensures
        r is Ok == load_failure(store, tenant@, module_name@, expected@, readings) is None,
        r matches Err(e) ==> load_failure(store, tenant@, module_name@, expected@, readings)
            == Some(e@),
{
    let row: Option<(usize, &str)> = match readings.row {
        Err(error) => {
            return Err(lazy_load_failure(store, tenant, module_name, error.as_str()));
        },
        Ok(row) => row,
    };
    match resolve_wasm_artifact_bytes(tenant, module_name, row) {
        WasmBytes::Failed(e) => {
            return Err(e);
        },
        WasmBytes::Inline => {},
        WasmBytes::Artifact => match readings.artifact {
            Err(error) => {
                return Err(error);
            },
            Ok(found) => {
                if !found {
                    return Err(missing_artifact_error(tenant, module_name, readings.artifact_key));
                }
            },
        },
    }
    let hash: &str = match row {
        Some((_, hash)) => hash,
        None => "",
    };
    match check_wasm_hash(tenant, module_name, expected, hash, readings.computed) {
        Err(e) => {
            return Err(e);
        },
        Ok(_) => {},
    }
    match readings.compiled {
        Ok(_) => Ok(()),
        Err(error) => Err(compile_failure(tenant, module_name, error.as_str())),
    }
}

/// A module is called only where its row holds the registered hash, or holds none
/// and the hash of its stored bytes is the registered one.
pub proof fn law_only_registered_hashes_are_called(
    store: TenantMetadataBackend,
    tenant: Seq<char>,
    module_name: Seq<char>,
    expected: Seq<char>,
    readings: WasmReadings<'_>,
)
    requires
        load_failure(store, tenant, module_name, expected, readings) is None,
    ensures
        readings.row matches Ok(Some((_, hash))) && effective(hash@, readings.computed@)
            == expected,
{
}

/// The failure to read the sources of a tenant's modules, in words.
pub fn sources_failure(tenant: &str, error: &str) -> (r: String)
    ensures
        r@ == "failed to load WASM module sources for "@ + tenant@ + ": "@ + error@,
{
    let mut text = "failed to load WASM module sources for ".to_owned();
    text.append(tenant);
    text.append(": ");
    text.append(error);
    text
}

/// The failure to read all modules at startup, in words.
pub fn recovery_failure(error: &str) -> (r: String)
    ensures
        r@ == "failed to load WASM modules from turso: "@ + error@,
{
    let mut text = "failed to load WASM modules from turso: ".to_owned();
    text.append(error);
    text
}

// ---------------------------------------------------------------------------
// Invocations
// ---------------------------------------------------------------------------

/// One call of a module.
#[derive(Debug)]
pub struct WasmInvocationEntry {
    pub timestamp: String,
    pub tenant: String,
    pub entity_type: String,
    pub entity_id: String,
    pub module_name: String,
    pub trigger_action: String,
    pub callback_action: Option<String>,
    pub success: bool,
    pub error: Option<String>,
    pub duration_ms: u64,
}

/// The failure to write a call, in words.
pub fn invocation_failure(entry: &WasmInvocationEntry, backend_name: &str, error: &str) -> (r: String)
    ensures
        r@ == "failed to persist WASM invocation for "@ + entry.tenant@ + "/"@ + entry.module_name@
            + " via "@ + backend_name@ + " metadata store: "@ + error@,
{
    let mut text = "failed to persist WASM invocation for ".to_owned();
    text.append(entry.tenant.as_str());
    text.append("/");
    text.append(entry.module_name.as_str());
    text.append(" via ");
    text.append(backend_name);
    text.append(" metadata store: ");
    text.append(error);
    text
}

proof fn lemma_newest_step<T>(all: Seq<T>, item: T, limit: nat)
    requires
        limit > 0,
    ensures
        newest(newest(all, limit).push(item), limit) == newest(all.push(item), limit),
{
    assert(newest(newest(all, limit).push(item), limit) =~= newest(all.push(item), limit));
}

/// Fills the log from stored calls, which come newest first: they are logged
/// oldest first. Says how many there are.
pub fn load_recent_wasm_invocations(
    log: &mut BoundedLog<WasmInvocationEntry>,
    newest_first: Vec<WasmInvocationEntry>,
) -> (r: usize)
    requires
        old(log).wf(),
    ensures
        final(log).wf(),
        final(log).limit() == old(log).limit(),
        r == newest_first@.len(),
        final(log)@ == newest(old(log)@ + newest_first@.reverse(), old(log).limit()),
{
    let count: usize = newest_first.len();
    let ghost all = newest_first@;
    let ghost before = log@;
    let ghost limit = log.limit();
    let mut rest: Vec<WasmInvocationEntry> = newest_first;
    proof {
        assert(all.skip(all.len() as int).reverse() =~= Seq::<WasmInvocationEntry>::empty());
        assert(before + all.skip(all.len() as int).reverse() =~= before);
        assert(all.take(all.len() as int) =~= all);
    }
    while rest.len() > 0
        invariant
            rest@.len() <= all.len(),
            rest@ == all.take(rest@.len() as int),
            log.wf(),
            log.limit() == limit,
            limit > 0,
            log@ == newest(before + all.skip(rest@.len() as int).reverse(), limit),
        decreases rest@.len(),
    {
        let ghost n = rest@.len();
        match rest.pop() {
            Some(entry) => {
                proof {
                    assert(entry == all[n - 1]);
                    assert(rest@ =~= all.take(n - 1));
                    let shorter = before + all.skip(n as int).reverse();
                    lemma_newest_step(shorter, entry, limit);
                    assert(shorter.push(entry) =~= before + all.skip(n - 1).reverse());
                }
                log.push(entry);
            },
            None => {},
        }
    }
    assert(all.skip(0) =~= all);
    count
}

/// A given hash counts as it is, and only without one does the hash of the bytes.
pub proof fn law_given_hashes_count(given: Seq<char>, computed: Seq<char>)
    ensures
        given.len() > 0 ==> effective(given, computed) == given,
        effective(Seq::empty(), computed) == computed,
{
}

/// Other bytes take the place of a bundled module, whatever their source, and of an
/// uploaded one where they were uploaded or replace uploads.
pub proof fn law_new_bytes_take_their_place(stored: WasmModuleRow, upsert: WasmUpsert)
    requires
        stored.sha256_hash@ != upsert.sha256_hash@,
    ensures
        stored.source@ == "bundled"@ ==> overwrites(stored, upsert),
        upsert.source@ == "upload"@ ==> overwrites(stored, upsert),
        upsert.replaces_upload ==> overwrites(stored, upsert),
        stored.source@ != "bundled"@ && upsert.source@ != "upload"@ && !upsert.replaces_upload
            ==> !overwrites(stored, upsert),
        replacing_source() == "bundled-replace-upload"@,
{
}

/// A name leads to the last module that has it, with its own hash and source; a name that
/// no module has leads nowhere.
pub proof fn law_the_last_module_of_a_name_counts(
    rows: Seq<NamedWasmModule>,
    name: Seq<char>,
    i: int,
)
    ensures
        0 <= i < rows.len() && rows[i].module_name@ == name && (forall|j: int|
            i < j < rows.len() ==> (#[trigger] rows[j]).module_name@ != name) ==> by_name(
            rows,
        ).dom().contains(name) && by_name(rows)[name] == (rows[i].sha256_hash@, rows[i].source@),
        (forall|j: int| 0 <= j < rows.len() ==> (#[trigger] rows[j]).module_name@ != name)
            ==> !by_name(rows).dom().contains(name),
    decreases rows.len(),
{
    if rows.len() > 0 {
        let before = rows.drop_last();
        let n = rows.len() - 1;
        law_the_last_module_of_a_name_counts(before, name, i);
        assert forall|j: int| 0 <= j < n implies #[trigger] before[j] == rows[j] by {}
        if 0 <= i < n && rows[i].module_name@ == name && (forall|j: int|
            i < j < rows.len() ==> (#[trigger] rows[j]).module_name@ != name) {
            assert(rows[n].module_name@ != name);
            assert forall|j: int| i < j < before.len() implies (#[trigger] before[j]).module_name@
                != name by {
                assert(before[j] == rows[j]);
            }
        }
        if forall|j: int| 0 <= j < rows.len() ==> (#[trigger] rows[j]).module_name@ != name {
            assert(rows[n].module_name@ != name);
            assert forall|j: int| 0 <= j < before.len() implies (#[trigger] before[j]).module_name@
                != name by {
                assert(before[j] == rows[j]);
            }
        }
    }
}

/// A stored module is registered for its tenant under its name, with its hash or that of
/// its bytes; of two the later one counts, and what no row names stays as it was.
pub proof fn law_stored_modules_are_registered(
    known: Map<(Seq<char>, Seq<char>), Seq<char>>,
    rows: Seq<TenantWasmModule>,
    key: (Seq<char>, Seq<char>),
    i: int,
)
    ensures
        0 <= i < rows.len() && (rows[i].tenant@, rows[i].module_name@) == key && (forall|j: int|
            i < j < rows.len() ==> ((#[trigger] rows[j]).tenant@, rows[j].module_name@) != key)
            ==> with_modules(known, rows).dom().contains(key) && with_modules(known, rows)[key] == (
        if rows[i].sha256_hash@.len() > 0 {
            rows[i].sha256_hash@
        } else {
            rows[i].computed_hash@
        }),
        (forall|j: int|
            0 <= j < rows.len() ==> ((#[trigger] rows[j]).tenant@, rows[j].module_name@) != key)
            ==> with_modules(known, rows).dom().contains(key) == known.dom().contains(key) && (
        known.dom().contains(key) ==> with_modules(known, rows)[key] == known[key]),
    decreases rows.len(),
{
    if rows.len() > 0 {
        let before = rows.drop_last();
        let n = rows.len() - 1;
        law_stored_modules_are_registered(known, before, key, i);
        assert forall|j: int| 0 <= j < n implies #[trigger] before[j] == rows[j] by {}
        if 0 <= i < n && (rows[i].tenant@, rows[i].module_name@) == key && (forall|j: int|
            i < j < rows.len() ==> ((#[trigger] rows[j]).tenant@, rows[j].module_name@) != key) {
            assert((rows[n].tenant@, rows[n].module_name@) != key);
            assert forall|j: int| i < j < before.len() implies ((#[trigger] before[j]).tenant@, before[j].module_name@)
                != key by {
                assert(before[j] == rows[j]);
            }
        }
        if forall|j: int|
            0 <= j < rows.len() ==> ((#[trigger] rows[j]).tenant@, rows[j].module_name@) != key {
            assert((rows[n].tenant@, rows[n].module_name@) != key);
            assert forall|j: int| 0 <= j < before.len() implies ((#[trigger] before[j]).tenant@, before[j].module_name@)
                != key by {
                assert(before[j] == rows[j]);
            }
        }
    }
}

/// A module can be called exactly where it was read and is stored, where its bytes stand
/// beside its hash or were found under it, where they are the registered ones, and where
/// they compile.
pub proof fn law_modules_are_called_where_all_is_well(
    store: TenantMetadataBackend,
    tenant: Seq<char>,
    module_name: Seq<char>,
    expected: Seq<char>,
    readings: WasmReadings<'_>,
)
    ensures
        load_failure(store, tenant, module_name, expected, readings) is None <==> {
            &&& readings.row is Ok
            &&& readings.row->Ok_0 is Some
            &&& ({
                let (inline, hash) = readings.row->Ok_0->0;
                &&& inline > 0 || (hash@.len() > 0 && readings.artifact == Ok::<bool, String>(true))
                &&& hash@.len() > 0 ==> hash@ == expected
                &&& hash@.len() == 0 ==> readings.computed@ == expected
            })
            &&& readings.compiled is Ok
        },
        readings.row is Ok && readings.row->Ok_0 is None ==> load_failure(
            store,
            tenant,
            module_name,
            expected,
            readings,
        ) == Some(not_found_text(tenant, module_name)),
{
}

/// What cannot be had is named: the module and its tenant stand in each of these texts.
pub proof fn law_missing_modules_are_named(tenant: Seq<char>, module_name: Seq<char>)
    ensures
        not_found_text(tenant, module_name) == "WASM module '"@ + module_name
            + "' not found in persistence for tenant '"@ + tenant + "'"@,
        no_bytes_text(tenant, module_name) == "WASM module '"@ + module_name + "' for tenant '"@
            + tenant + "' has no inline bytes and no artifact hash"@,
{
}

} // verus!
