//! The catalog of specs: what is staged, what is declared and what is gone.

use vstd::prelude::*;
use vstd::string::*;

use crate::persistence::ephemeral_text;
use crate::persistence::redis_ephemeral_error;
use crate::persistence::TenantMetadataBackend;
use crate::sorted::texts;
use crate::sorted::SortedMap;
use crate::sorted::SortedSet;
use crate::text::same_text;

verus! {

/// What is declared of a type that has no spec any more.
pub open spec fn absent_declaration() -> Seq<char> {
    "absent:v1"@
}

/// The fingerprint of a declaration that is gone.
pub fn absent_fingerprint() -> (r: &'static str)
    ensures
        r@ == absent_declaration(),
{
    "absent:v1"
}

/// What is staged of a spec.
pub struct StagedSpec {
    pub content_hash: String,
    pub csdl_xml: String,
    pub version: u64,
}

/// The version of a staged spec: a new one only where its content changes.
pub open spec fn staged_version(
    stored: Option<StagedSpec>,
    content_hash: Seq<char>,
    csdl_xml: Seq<char>,
) -> int {
    match stored {
        None => 1,
        Some(s) => if s.content_hash@ != content_hash || s.csdl_xml@ != csdl_xml {
            s.version + 1
        } else {
            s.version as int
        },
    }
}

/// What is staged after a spec was staged.
pub fn stage_spec(stored: Option<StagedSpec>, content_hash: &str, csdl_xml: &str) -> (r: StagedSpec)
    requires
        stored matches Some(s) ==> s.version < u64::MAX,
    ensures
        r.content_hash@ == content_hash@,
        r.csdl_xml@ == csdl_xml@,
        r.version == staged_version(stored, content_hash@, csdl_xml@),
{
    let version: u64 = match stored {
        None => 1,
        Some(s) => if same_text(s.content_hash.as_str(), content_hash) && same_text(
            s.csdl_xml.as_str(),
            csdl_xml,
        ) {
            s.version
        } else {
            s.version + 1
        },
    };
    StagedSpec { content_hash: content_hash.to_owned(), csdl_xml: csdl_xml.to_owned(), version }
}

/// Staging the same spec again keeps its version.
pub proof fn law_restaging_keeps_the_version(stored: StagedSpec)
    ensures
        staged_version(Some(stored), stored.content_hash@, stored.csdl_xml@) == stored.version,
{
}

// ---------------------------------------------------------------------------
// Publication
// ---------------------------------------------------------------------------

/// Where the types that a publication drops become known, beyond those that the
/// caller names.
pub enum DroppedTypes<'a> {
    /// The store reports them.
    Reported(&'a Vec<String>),
    /// The journal declares these types; those that are not published are
    /// dropped, for the publication replaces all.
    Declared(&'a Vec<String>),
    /// Nowhere.
    Unknown,
}

/// The types of a list that are not published.
pub open spec fn not_published(list: Seq<Seq<char>>, incoming: Set<Seq<char>>) -> Set<Seq<char>> {
    list.to_set().difference(incoming)
}

/// The types that a publication drops.
pub open spec fn dropped(
    incoming: Set<Seq<char>>,
    additional: Seq<Seq<char>>,
    found: DroppedTypes<'_>,
) -> Set<Seq<char>> {
    not_published(additional, incoming).union(
        match found {
            DroppedTypes::Reported(list) => texts(list@).to_set(),
            DroppedTypes::Declared(list) => not_published(texts(list@), incoming),
            DroppedTypes::Unknown => Set::empty(),
        },
    )
}

fn add_all(
    set: &mut SortedSet<String>,
    list: &Vec<String>,
    incoming: Option<&SortedMap<String, String>>,
)
    requires
        old(set).wf(),
        incoming matches Some(m) ==> m.wf(),
    ensures
        final(set).wf(),
        final(set)@ == old(set)@.union(
            match incoming {
                Some(m) => not_published(texts(list@), m@.dom()),
                None => texts(list@).to_set(),
            },
        ),
{
    let ghost before = set@;
    let ghost all = texts(list@);
    let ghost published = match incoming {
        Some(m) => m@.dom(),
        None => Set::empty(),
    };
    let mut i: usize = 0;
    assert(set@ =~= before.union(not_published(all.take(0), published)));
    while i < list.len()
        invariant
            i <= list@.len(),
            all == texts(list@),
            set.wf(),
            incoming matches Some(m) ==> m.wf(),
            published == (match incoming {
                Some(m) => m@.dom(),
                None => Set::empty(),
            }),
            set@ == before.union(not_published(all.take(i as int), published)),
        decreases list@.len() - i,
    {
        let skip: bool = match incoming {
            Some(m) => m.contains_key(&list[i]),
            None => false,
        };
        let ghost was = set@;
        if !skip {
            let _ = set.insert(list[i].clone());
        }
        proof {
            crate::sorted::lemma_to_set_step(all, i as int);
            assert(all[i as int] == list@[i as int]@);
            assert(set@ =~= before.union(not_published(all.take(i + 1), published)));
        }
        i += 1;
    }
    proof {
        assert(all.take(i as int) =~= all);
        assert(not_published(all, Set::empty()) =~= all.to_set());
    }
}

/// The types that a publication drops, in ascending order.
pub fn dropped_types(
    incoming: &SortedMap<String, String>,
    additional: &Vec<String>,
    found: DroppedTypes<'_>,
) -> (r: SortedSet<String>)
    requires
        incoming.wf(),
    ensures
        r.wf(),
        r@ == dropped(incoming@.dom(), texts(additional@), found),
{
    let mut r: SortedSet<String> = SortedSet::new();
    add_all(&mut r, additional, Some(incoming));
    match found {
        DroppedTypes::Reported(list) => {
            add_all(&mut r, list, None);
        },
        DroppedTypes::Declared(list) => {
            add_all(&mut r, list, Some(incoming));
        },
        DroppedTypes::Unknown => {},
    }
    assert(r@ =~= dropped(incoming@.dom(), texts(additional@), found));
    r
}

/// What is to be declared of a type.
pub struct SpecDeclaration {
    pub entity_type: String,
    pub fingerprint: String,
}

/// The declarations in words.
pub open spec fn declared(all: Seq<SpecDeclaration>) -> Seq<(Seq<char>, Seq<char>)> {
    all.map_values(|d: SpecDeclaration| (d.entity_type@, d.fingerprint@))
}

/// What a publication declares: each published type with its fingerprint, then
/// each dropped type as absent, both in ascending order.
pub fn plan_declarations(incoming: &SortedMap<String, String>, gone: &SortedSet<String>) -> (r: Vec<
    SpecDeclaration,
>)
    requires
        incoming.wf(),
        gone.wf(),
    ensures
        declared(r@) == incoming.order().map_values(
            |t: Seq<char>| (t, incoming@[t]@),
        ) + gone.order().map_values(|t: Seq<char>| (t, absent_declaration())),
{
    let mut r: Vec<SpecDeclaration> = Vec::new();
    let ghost order = incoming.order();
    let ghost first = order.map_values(|t: Seq<char>| (t, incoming@[t]@));
    let n: usize = incoming.len();
    let mut i: usize = 0;
    assert(declared(r@) =~= first.take(0));
    while i < n
        invariant
            i <= n,
            n == order.len(),
            incoming.wf(),
            order == incoming.order(),
            first == order.map_values(|t: Seq<char>| (t, incoming@[t]@)),
            declared(r@) == first.take(i as int),
        decreases n - i,
    {
        let ghost before = r@;
        let entity_type = incoming.key_at(i).clone();
        let fingerprint = incoming.value_at(i).clone();
        r.push(SpecDeclaration { entity_type, fingerprint });
        proof {
            assert(declared(r@) =~= declared(before).push((entity_type@, fingerprint@)));
            assert(first.take(i + 1) =~= first.take(i as int).push(first[i as int]));
        }
        i += 1;
    }
    assert(first.take(i as int) =~= first);
    let ghost gone_order = gone.order();
    let ghost second = gone_order.map_values(|t: Seq<char>| (t, absent_declaration()));
    let m: usize = gone.len();
    let mut k: usize = 0;
    assert(first + second.take(0) =~= first);
    while k < m
        invariant
            k <= m,
            m == gone_order.len(),
            gone.wf(),
            gone_order == gone.order(),
            second == gone_order.map_values(|t: Seq<char>| (t, absent_declaration())),
            declared(r@) == first + second.take(k as int),
        decreases m - k,
    {
        let ghost before = r@;
        let entity_type = gone.at(k).clone();
        r.push(SpecDeclaration { entity_type, fingerprint: absent_fingerprint().to_owned() });
        proof {
            assert(declared(r@) =~= declared(before).push((entity_type@, absent_declaration())));
            assert(first + second.take(k + 1) =~= (first + second.take(k as int)).push(
                second[k as int],
            ));
        }
        k += 1;
    }
    assert(second.take(k as int) =~= second);
    r
}

/// No published type is dropped by name: what the caller or the journal lists
/// counts only where it is not published.
pub proof fn law_published_types_are_kept(
    incoming: Set<Seq<char>>,
    additional: Seq<Seq<char>>,
    list: &Vec<String>,
    entity_type: Seq<char>,
)
    requires
        incoming.contains(entity_type),
    ensures
        !dropped(incoming, additional, DroppedTypes::Declared(list)).contains(entity_type),
        !dropped(incoming, additional, DroppedTypes::Unknown).contains(entity_type),
{
}

/// Where the types that a publication drops become known.
#[derive(Clone, Copy, PartialEq, Eq, Structural, Debug)]
pub enum DroppedSource {
    /// From the store, which publishes the catalog and reports them.
    Store,
    /// From the journal's declarations, for the publication replaces all.
    Declarations,
    /// From the caller alone.
    Caller,
    /// The store refuses the publication.
    Refused,
}

/// Where the types that a publication drops become known.
pub open spec fn source_of(
    backend: Option<TenantMetadataBackend>,
    replace: bool,
    has_journal: bool,
) -> DroppedSource {
    match backend {
        Some(TenantMetadataBackend::Redis) => DroppedSource::Refused,
        Some(_) => DroppedSource::Store,
        None => if replace && has_journal {
            DroppedSource::Declarations
        } else {
            DroppedSource::Caller
        },
    }
}

/// Decides where the types that a publication drops become known.
pub fn dropped_source(
    backend: Option<TenantMetadataBackend>,
    replace: bool,
    has_journal: bool,
) -> (r: DroppedSource)
    ensures
        r == source_of(backend, replace, has_journal),
{
    match backend {
        Some(TenantMetadataBackend::Redis) => DroppedSource::Refused,
        Some(_) => DroppedSource::Store,
        None => if replace && has_journal {
            DroppedSource::Declarations
        } else {
            DroppedSource::Caller
        },
    }
}

/// What comes of a publication: the types that it drops, and what is to be
/// declared.
pub struct CatalogUpdate {
    pub removed: SortedSet<String>,
    pub declarations: Vec<SpecDeclaration>,
}

/// The types that a publication drops, by what was found.
pub open spec fn update_drops(
    source: DroppedSource,
    incoming: Set<Seq<char>>,
    additional: Seq<Seq<char>>,
    found: Vec<String>,
) -> Set<Seq<char>> {
    dropped(
        incoming,
        additional,
        match source {
            DroppedSource::Store => DroppedTypes::Reported(&found),
            DroppedSource::Declarations => DroppedTypes::Declared(&found),
            _ => DroppedTypes::Unknown,
        },
    )
}

/// Decides a publication of verified specs by what the store or the journal
/// found. `incoming` holds each published type with its fingerprint.
pub fn persist_verified_spec_catalog_update(
    source: DroppedSource,
    incoming: &SortedMap<String, String>,
    additional: &Vec<String>,
    found: Result<Vec<String>, String>,
) -> (r: Result<CatalogUpdate, String>)
    requires
        incoming.wf(),
    ensures
        match source {
            DroppedSource::Refused => r matches Err(e) && e@ == ephemeral_text(
                "Verified spec catalog publication"@,
            ),
            DroppedSource::Caller => r is Ok,
            _ => r is Ok == found is Ok && (r matches Err(e) ==> e@ == found->Err_0@),
        },
        r matches Ok(update) ==> {
            &&& update.removed.wf()
            &&& update.removed@ == update_drops(
                source,
                incoming@.dom(),
                texts(additional@),
                found->Ok_0,
            )
            &&& declared(update.declarations@) == incoming.order().map_values(
                |t: Seq<char>| (t, incoming@[t]@),
            ) + update.removed.order().map_values(|t: Seq<char>| (t, absent_declaration()))
        },
{
    let removed = match source {
        DroppedSource::Refused => {
            return Err(redis_ephemeral_error("Verified spec catalog publication"));
        },
        DroppedSource::Caller => dropped_types(incoming, additional, DroppedTypes::Unknown),
        DroppedSource::Store => match found {
            Ok(list) => dropped_types(incoming, additional, DroppedTypes::Reported(&list)),
            Err(e) => {
                return Err(e);
            },
        },
        DroppedSource::Declarations => match found {
            Ok(list) => dropped_types(incoming, additional, DroppedTypes::Declared(&list)),
            Err(e) => {
                return Err(e);
            },
        },
    };
    let declarations = plan_declarations(incoming, &removed);
    Ok(CatalogUpdate { removed, declarations })
}

/// The version of a staged spec says how often its content changed: it begins at one, and
/// either change of content, of the spec or of its schema, makes exactly one more.
pub proof fn law_changed_specs_get_a_new_version(
    stored: StagedSpec,
    content_hash: Seq<char>,
    csdl_xml: Seq<char>,
)
    ensures
        staged_version(None, content_hash, csdl_xml) == 1,
        content_hash != stored.content_hash@ ==> staged_version(
            Some(stored),
            content_hash,
            csdl_xml,
        ) == stored.version + 1,
        csdl_xml != stored.csdl_xml@ ==> staged_version(Some(stored), content_hash, csdl_xml)
            == stored.version + 1,
{
}

/// A type is dropped where the caller, the store or the journal names it; only what the
/// store reports counts even for a published type.
pub proof fn law_named_types_are_dropped(
    incoming: Set<Seq<char>>,
    additional: Seq<Seq<char>>,
    list: &Vec<String>,
    t: Seq<char>,
)
    ensures
        dropped(incoming, additional, DroppedTypes::Reported(list)).contains(t) <==> texts(
            list@,
        ).contains(t) || (additional.contains(t) && !incoming.contains(t)),
        dropped(incoming, additional, DroppedTypes::Declared(list)).contains(t) <==> (texts(
            list@,
        ).contains(t) || additional.contains(t)) && !incoming.contains(t),
        dropped(incoming, additional, DroppedTypes::Unknown).contains(t) <==> additional.contains(t)
            && !incoming.contains(t),
{
}

/// A store that keeps the catalog reports what is dropped itself; memory refuses the
/// publication; and only a publication that replaces all asks the journal, where there is
/// one and no store.
pub proof fn law_stores_report_what_is_dropped(
    backend: Option<TenantMetadataBackend>,
    replace: bool,
    has_journal: bool,
)
    ensures
        source_of(backend, replace, has_journal) is Refused <==> backend
            == Some(TenantMetadataBackend::Redis),
        source_of(backend, replace, has_journal) is Store <==> backend
            == Some(TenantMetadataBackend::Postgres) || backend
            == Some(TenantMetadataBackend::Turso),
        source_of(backend, replace, has_journal) is Declarations <==> backend is None && replace
            && has_journal,
        source_of(backend, replace, has_journal) is Caller <==> backend is None && !(replace
            && has_journal),
{
}

/// What was found counts as the source says: as reported, as declared, or not at all.
pub proof fn law_findings_count_by_their_source(
    incoming: Set<Seq<char>>,
    additional: Seq<Seq<char>>,
    found: Vec<String>,
    t: Seq<char>,
)
    ensures
        texts(found@).contains(t) ==> update_drops(
            DroppedSource::Store,
            incoming,
            additional,
            found,
        ).contains(t),
        texts(found@).contains(t) && !incoming.contains(t) ==> update_drops(
            DroppedSource::Declarations,
            incoming,
            additional,
            found,
        ).contains(t),
        incoming.contains(t) ==> !update_drops(
            DroppedSource::Declarations,
            incoming,
            additional,
            found,
        ).contains(t),
        !additional.contains(t) ==> !update_drops(
            DroppedSource::Caller,
            incoming,
            additional,
            found,
        ).contains(t),
{
}

/// A declaration is told as its type and its fingerprint, in its place; one that is gone
/// has one fixed fingerprint.
pub proof fn law_declarations_are_told_in_place(all: Seq<SpecDeclaration>, i: int)
    requires
        0 <= i < all.len(),
    ensures
        declared(all).len() == all.len(),
        declared(all)[i].0 == all[i].entity_type@,
        declared(all)[i].1 == all[i].fingerprint@,
        absent_declaration() == "absent:v1"@,
{
}

} // verus!
