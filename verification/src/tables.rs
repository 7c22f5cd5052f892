//! Transition tables: the tenant's own first, then those that every tenant
//! shares.

use vstd::prelude::*;
use vstd::string::*;

use crate::replay_parity::EntityRef;
use crate::sorted::texts;
use crate::sorted::SortedMap;
use crate::sorted::SortedSet;
use crate::text::same_text;

verus! {

/// An access path that a table declares: a key or a vector.
pub struct DeclaredPath {
    pub name: String,
    pub columns: Vec<String>,
}

/// The mathematical content of a declared path.
pub struct PathModel {
    pub name: Seq<char>,
    pub columns: Seq<Seq<char>>,
}

impl View for DeclaredPath {
    type V = PathModel;

    open spec fn view(&self) -> PathModel {
        PathModel { name: self.name@, columns: texts(self.columns@) }
    }
}

/// The contents of declared paths, in their order.
pub open spec fn paths(declared: Seq<DeclaredPath>) -> Seq<PathModel> {
    declared.map_values(|p: DeclaredPath| p@)
}

/// Copies texts.
pub fn copy_texts(items: &Vec<String>) -> (r: Vec<String>)
    ensures
        texts(r@) == texts(items@),
{
    let mut r: Vec<String> = Vec::new();
    let mut i: usize = 0;
    assert(texts(r@) =~= texts(items@).take(0));
    while i < items.len()
        invariant
            i <= items@.len(),
            texts(r@) == texts(items@).take(i as int),
        decreases items@.len() - i,
    {
        let ghost before = r@;
        r.push(items[i].clone());
        assert(texts(r@) =~= texts(before).push(items@[i as int]@));
        assert(texts(items@).take(i + 1) =~= texts(items@).take(i as int).push(items@[i as int]@));
        i += 1;
    }
    assert(texts(items@).take(i as int) =~= texts(items@));
    r
}

/// Copies declared paths.
pub fn copy_paths(declared: &Vec<DeclaredPath>) -> (r: Vec<DeclaredPath>)
    ensures
        paths(r@) == paths(declared@),
{
    let mut r: Vec<DeclaredPath> = Vec::new();
    let mut i: usize = 0;
    assert(paths(r@) =~= paths(declared@).take(0));
    while i < declared.len()
        invariant
            i <= declared@.len(),
            paths(r@) == paths(declared@).take(i as int),
        decreases declared@.len() - i,
    {
        let ghost before = r@;
        let path = DeclaredPath {
            name: declared[i].name.clone(),
            columns: copy_texts(&declared[i].columns),
        };
        assert(path@ == declared@[i as int]@);
        r.push(path);
        assert(paths(r@) =~= paths(before).push(declared@[i as int]@));
        assert(paths(declared@).take(i + 1) =~= paths(declared@).take(i as int).push(
            declared@[i as int]@,
        ));
        i += 1;
    }
    assert(paths(declared@).take(i as int) =~= paths(declared@));
    r
}

/// What is read of a transition table.
pub struct TableInfo {
    pub initial_state: String,
    /// It has rules; without any its entities are plain data.
    pub has_rules: bool,
    /// Some state of it times out.
    pub has_timeouts: bool,
    pub keys: Vec<DeclaredPath>,
    pub vectors: Vec<DeclaredPath>,
}

/// The known transition tables.
pub struct SpecTables {
    /// By tenant and entity type.
    pub registered: SortedMap<(String, String), TableInfo>,
    /// By entity type, for every tenant.
    pub shared: SortedMap<String, TableInfo>,
}

/// The error text of a type that no table governs.
pub open spec fn no_table_text(tenant: Seq<char>, entity_type: Seq<char>) -> Seq<char> {
    "No transition table for tenant '"@ + tenant + "', entity type '"@ + entity_type + "'"@
}

/// The error text of a type that no table governs.
pub fn no_table_error(tenant: &str, entity_type: &str) -> (r: String)
    ensures
        r@ == no_table_text(tenant@, entity_type@),
{
    let mut text = "No transition table for tenant '".to_owned();
    text.append(tenant);
    text.append("', entity type '");
    text.append(entity_type);
    text.append("'");
    text
}

impl SpecTables {
    pub open spec fn wf(&self) -> bool {
        self.registered.wf() && self.shared.wf()
    }

    /// The tenant has a table of its own for the type.
    pub open spec fn is_registered(&self, tenant: Seq<char>, entity_type: Seq<char>) -> bool {
        self.registered@.dom().contains((tenant, entity_type))
    }

    /// The table that governs a type: the tenant's own, or else the shared one.
    pub open spec fn table(&self, tenant: Seq<char>, entity_type: Seq<char>) -> Option<TableInfo> {
        if self.is_registered(tenant, entity_type) {
            Some(self.registered@[(tenant, entity_type)])
        } else if self.shared@.dom().contains(entity_type) {
            Some(self.shared@[entity_type])
        } else {
            None
        }
    }

    /// No tables.
    pub fn new() -> (r: SpecTables)
        ensures
            r.wf(),
            r.registered@ == Map::<(Seq<char>, Seq<char>), TableInfo>::empty(),
            r.shared@ == Map::<Seq<char>, TableInfo>::empty(),
    {
        SpecTables { registered: SortedMap::new(), shared: SortedMap::new() }
    }

    /// Whether the tenant has a table of its own for the type.
    pub fn has_registered_spec(&self, tenant: &str, entity_type: &str) -> (r: bool)
        requires
            self.wf(),
        ensures
            r == self.is_registered(tenant@, entity_type@),
    {
        self.registered.contains_key(&(tenant.to_owned(), entity_type.to_owned()))
    }

    /// The table that governs a type.
    pub fn transition_table_for(&self, tenant: &str, entity_type: &str) -> (r: Option<&TableInfo>)
        requires
            self.wf(),
        ensures
            r is Some == self.table(tenant@, entity_type@) is Some,
            r matches Some(t) ==> self.table(tenant@, entity_type@) == Some(*t),
    {
        match self.registered.get(&(tenant.to_owned(), entity_type.to_owned())) {
            Some(t) => Some(t),
            None => self.shared.get(&entity_type.to_owned()),
        }
    }

    /// Whether any table governs the type.
    pub fn is_entity_type_governed(&self, tenant: &str, entity_type: &str) -> (r: bool)
        requires
            self.wf(),
        ensures
            r == self.table(tenant@, entity_type@) is Some,
    {
        self.has_registered_spec(tenant, entity_type) || self.shared.contains_key(
            &entity_type.to_owned(),
        )
    }

    /// The keys that a type declares. They come from the table that dispatch
    /// uses, so that a keyed read never misses a tenant's own keys.
    pub fn declared_keys_for(&self, tenant: &str, entity_type: &str) -> (r: Vec<DeclaredPath>)
        requires
            self.wf(),
        ensures
            paths(r@) == (match self.table(tenant@, entity_type@) {
                Some(t) => paths(t.keys@),
                None => Seq::empty(),
            }),
    {
        match self.transition_table_for(tenant, entity_type) {
            Some(t) => copy_paths(&t.keys),
            None => {
                let none: Vec<DeclaredPath> = Vec::new();
                assert(paths(none@) =~= Seq::<PathModel>::empty());
                none
            },
        }
    }

    /// The vectors that a type declares.
    pub fn declared_vectors_for(&self, tenant: &str, entity_type: &str) -> (r: Vec<DeclaredPath>)
        requires
            self.wf(),
        ensures
            paths(r@) == (match self.table(tenant@, entity_type@) {
                Some(t) => paths(t.vectors@),
                None => Seq::empty(),
            }),
    {
        match self.transition_table_for(tenant, entity_type) {
            Some(t) => copy_paths(&t.vectors),
            None => {
                let none: Vec<DeclaredPath> = Vec::new();
                assert(paths(none@) =~= Seq::<PathModel>::empty());
                none
            },
        }
    }

    /// The status in which an entity of the type begins.
    pub fn initial_entity_status(&self, tenant: &str, entity_type: &str) -> (r: Result<
        String,
        String,
    >)
        requires
            self.wf(),
        ensures
            r is Ok == self.table(tenant@, entity_type@) is Some,
            r matches Ok(status) ==> status@ == (self.table(
                tenant@,
                entity_type@,
            )->0).initial_state@,
            r matches Err(e) ==> e@ == no_table_text(tenant@, entity_type@),
    {
        match self.transition_table_for(tenant, entity_type) {
            Some(t) => Ok(t.initial_state.clone()),
            None => Err(no_table_error(tenant, entity_type)),
        }
    }

    /// The tenant's own table of the type declares keys.
    pub open spec fn is_keyed(&self, tenant: Seq<char>, entity_type: Seq<char>) -> bool {
        self.is_registered(tenant, entity_type) && self.registered@[(
            tenant,
            entity_type,
        )].keys@.len() > 0
    }

    /// The types whose entities are to be keyed: those for which the tenant's own
    /// table declares keys.
    pub fn keyed_types(&self, tenant: &str) -> (r: SortedSet<String>)
        requires
            self.wf(),
        ensures
            r.wf(),
            forall|t: Seq<char>| #[trigger] r@.contains(t) == self.is_keyed(tenant@, t),
    {
        let mut r: SortedSet<String> = SortedSet::new();
        let n: usize = self.registered.len();
        let ghost order = self.registered.order();
        let mut i: usize = 0;
        while i < n
            invariant
                i <= n == order.len(),
                self.wf(),
                order == self.registered.order(),
                r.wf(),
                forall|t: Seq<char>| #[trigger]
                    r@.contains(t) == (self.is_keyed(tenant@, t) && exists|j: int|
                        0 <= j < i && #[trigger] order[j] == (tenant@, t)),
            decreases n - i,
        {
            let key = self.registered.key_at(i);
            let ghost before = r@;
            proof {
                self.registered.lemma_domain();
                assert(order[i as int] == (key.0@, key.1@));
                assert(order.to_set().contains(order[i as int]));
            }
            if same_text(key.0.as_str(), tenant) && self.registered.value_at(i).keys.len() > 0 {
                let _ = r.insert(key.1.clone());
            }
            proof {
                assert forall|t: Seq<char>| #[trigger]
                    r@.contains(t) == (self.is_keyed(tenant@, t) && exists|j: int|
                        0 <= j < i + 1 && #[trigger] order[j] == (tenant@, t)) by {
                    if before.contains(t) {
                        let j = choose|j: int|
                            0 <= j < i && #[trigger] order[j] == (tenant@, t);
                        assert(0 <= j < i + 1 && order[j] == (tenant@, t));
                    }
                    if order[i as int] == (tenant@, t) {
                        assert(0 <= i < i + 1);
                    }
                }
            }
            i += 1;
        }
        proof {
            self.registered.lemma_domain();
            assert forall|t: Seq<char>| #[trigger] r@.contains(t) == self.is_keyed(tenant@, t) by {
                if self.is_keyed(tenant@, t) {
                    assert(order.to_set().contains((tenant@, t)));
                    let j = choose|j: int| 0 <= j < order.len() && order[j] == (tenant@, t);
                    assert(order[j] == (tenant@, t));
                }
            }
        }
        r
    }

    /// The type has a state that times out.
    pub open spec fn times_out(&self, tenant: Seq<char>, entity_type: Seq<char>) -> bool {
        self.table(tenant, entity_type) matches Some(t) && t.has_timeouts
    }

    /// Those of the entities whose type has a state that times out, in their
    /// order: their timers have to run although no request arrives.
    pub fn timed_entities(&self, tenant: &str, entities: &Vec<EntityRef>) -> (r: Vec<usize>)
        requires
            self.wf(),
        ensures
            forall|k: int| 0 <= k < r@.len() ==> #[trigger] r@[k] < entities@.len(),
            forall|k: int|
                0 <= k < r@.len() ==> self.times_out(
                    tenant@,
                    entities@[#[trigger] r@[k] as int].entity_type@,
                ),
            forall|k: int, l: int| 0 <= k < l < r@.len() ==> #[trigger] r@[k] < #[trigger] r@[l],
            forall|i: int|
                0 <= i < entities@.len() && self.times_out(
                    tenant@,
                    (#[trigger] entities@[i]).entity_type@,
                ) ==> r@.contains(i as usize),
    {
        let mut r: Vec<usize> = Vec::new();
        let mut i: usize = 0;
        while i < entities.len()
            invariant
                i <= entities@.len(),
                self.wf(),
                forall|k: int| 0 <= k < r@.len() ==> #[trigger] r@[k] < i,
                forall|k: int|
                    0 <= k < r@.len() ==> self.times_out(
                        tenant@,
                        entities@[#[trigger] r@[k] as int].entity_type@,
                    ),
                forall|k: int, l: int|
                    0 <= k < l < r@.len() ==> #[trigger] r@[k] < #[trigger] r@[l],
                forall|j: int|
                    0 <= j < i && self.times_out(
                        tenant@,
                        (#[trigger] entities@[j]).entity_type@,
                    ) ==> r@.contains(j as usize),
            decreases entities@.len() - i,
        {
            let timed: bool = match self.transition_table_for(
                tenant,
                entities[i].entity_type.as_str(),
            ) {
                Some(t) => t.has_timeouts,
                None => false,
            };
            if timed {
                let ghost before = r@;
                r.push(i);
                proof {
                    assert(r@[before.len() as int] == i);
                    assert forall|j: usize| #[trigger] before.contains(j) implies r@.contains(j) by {
                        let k = choose|k: int| 0 <= k < before.len() && before[k] == j;
                        assert(r@[k] == j);
                    }
                }
            }
            i += 1;
        }
        r
    }
}

/// A tenant's own table wins over the shared one.
pub proof fn law_own_tables_win(tables: SpecTables, tenant: Seq<char>, entity_type: Seq<char>)
    requires
        tables.is_registered(tenant, entity_type),
    ensures
        tables.table(tenant, entity_type) == Some(tables.registered@[(tenant, entity_type)]),
{
}

/// A type is governed by the shared table only where the tenant has none of its own, and
/// by none where there is neither. Another tenant's tables count for nothing.
pub proof fn law_shared_tables_stand_in(
    tables: SpecTables,
    tenant: Seq<char>,
    entity_type: Seq<char>,
)
    ensures
        !tables.registered@.dom().contains((tenant, entity_type))
            && tables.shared@.dom().contains(entity_type) ==> tables.table(tenant, entity_type)
            == Some(tables.shared@[entity_type]),
        !tables.registered@.dom().contains((tenant, entity_type))
            && !tables.shared@.dom().contains(entity_type) ==> tables.table(tenant, entity_type)
            is None,
        tables.registered@.dom().contains((tenant, entity_type)) ==> tables.is_registered(
            tenant,
            entity_type,
        ),
        tables.is_registered(tenant, entity_type) ==> tables.registered@.dom().contains(
            (tenant, entity_type),
        ),
{
}

/// Entities are keyed by the tenant's own table alone, and only where it declares a key;
/// timers run for what the governing table says.
pub proof fn law_only_own_tables_key_entities(
    tables: SpecTables,
    tenant: Seq<char>,
    entity_type: Seq<char>,
)
    ensures
        !tables.registered@.dom().contains((tenant, entity_type)) ==> !tables.is_keyed(
            tenant,
            entity_type,
        ),
        tables.registered@.dom().contains((tenant, entity_type)) ==> (tables.is_keyed(
            tenant,
            entity_type,
        ) <==> tables.registered@[(tenant, entity_type)].keys@.len() > 0),
        tables.registered@.dom().contains((tenant, entity_type)) ==> tables.times_out(
            tenant,
            entity_type,
        ) == tables.registered@[(tenant, entity_type)].has_timeouts,
        tables.table(tenant, entity_type) is None ==> !tables.times_out(tenant, entity_type),
{
}

/// A declared path is its name and its columns, in the order in which they are declared.
pub proof fn law_declared_paths_keep_their_order(declared: Seq<DeclaredPath>, i: int, k: int)
    requires
        0 <= i < declared.len(),
        0 <= k < declared[i].columns@.len(),
    ensures
        paths(declared).len() == declared.len(),
        paths(declared)[i].name == declared[i].name@,
        paths(declared)[i].columns.len() == declared[i].columns@.len(),
        paths(declared)[i].columns[k] == declared[i].columns@[k]@,
{
}

} // verus!
