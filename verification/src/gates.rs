//! What holds requests back while a tenant's contracts change.

use vstd::prelude::*;
use vstd::string::*;

use crate::sorted::SortedSet;
use crate::text::same_text;

verus! {

/// A request's hold on the generation of a tenant that it was admitted to.
pub struct GenerationLease {
    pub tenant: String,
    pub generation: u64,
    /// The request still holds the generation.
    pub held: bool,
    /// The request belongs to the publication that closed the tenant.
    pub publication_owned: bool,
}

/// The lease admits requests to the tenant at its current generation.
pub open spec fn admits(lease: GenerationLease, tenant: Seq<char>, generation: u64) -> bool {
    lease.tenant@ == tenant && lease.generation == generation && (lease.held
        || lease.publication_owned)
}

impl GenerationLease {
    /// Whether the lease admits requests to the tenant at its current
    /// generation.
    pub fn admits_to(&self, tenant: &str, generation: u64) -> (r: bool)
        ensures
            r == admits(*self, tenant@, generation),
    {
        same_text(self.tenant.as_str(), tenant) && self.generation == generation && (self.held
            || self.publication_owned)
    }
}

/// A tenant whose specs are being published.
#[derive(Clone, Copy, PartialEq, Eq, Structural, Debug)]
pub struct TenantGate {
    /// The publication keeps requests out.
    pub closed: bool,
    /// The tenant's current generation.
    pub generation: u64,
}

/// Whether no actor may be resolved for a type: its key contract is being
/// activated, or its tenant is closed and the request has no lease on the
/// current generation.
pub open spec fn gated(
    activating: Set<(Seq<char>, Seq<char>)>,
    tenant: Seq<char>,
    entity_type: Seq<char>,
    gate: TenantGate,
    lease: Option<GenerationLease>,
) -> bool {
    activating.contains((tenant, entity_type)) || (gate.closed && !(lease matches Some(l) && admits(
        l,
        tenant,
        gate.generation,
    )))
}

/// The key contracts that are being activated, by tenant and entity type.
pub struct ActivatingContracts {
    pub types: SortedSet<(String, String)>,
}

impl View for ActivatingContracts {
    type V = Set<(Seq<char>, Seq<char>)>;

    open spec fn view(&self) -> Set<(Seq<char>, Seq<char>)> {
        self.types@
    }
}

/// The pairs of one tenant and each of the types.
pub open spec fn of_tenant(tenant: Seq<char>, types: Set<Seq<char>>) -> Set<
    (Seq<char>, Seq<char>),
> {
    Set::new(|p: (Seq<char>, Seq<char>)| p.0 == tenant && types.contains(p.1))
}

/// One more type of a walk: it, and those before it.
proof fn lemma_one_more(order: Seq<Seq<char>>, i: int)
    requires
        0 <= i < order.len(),
    ensures
        forall|t: Seq<char>| #[trigger]
            order.take(i + 1).contains(t) <==> order.take(i).contains(t) || t == order[i],
{
    let short = order.take(i);
    let long = order.take(i + 1);
    assert(long =~= short.push(order[i]));
    assert forall|t: Seq<char>| #[trigger] long.contains(t) <==> short.contains(t) || t
        == order[i] by {
        if short.contains(t) {
            let j = choose|j: int| 0 <= j < short.len() && short[j] == t;
            assert(long[j] == t);
        }
        if t == order[i] {
            assert(long[i] == t);
        }
    }
}

impl ActivatingContracts {
    pub open spec fn wf(&self) -> bool {
        self.types.wf()
    }

    /// No contract is being activated.
    pub fn new() -> (r: ActivatingContracts)
        ensures
            r.wf(),
            r@ == Set::<(Seq<char>, Seq<char>)>::empty(),
    {
        ActivatingContracts { types: SortedSet::new() }
    }

    /// Whether a contract is being activated.
    pub fn contains(&self, tenant: &str, entity_type: &str) -> (r: bool)
        requires
            self.wf(),
        ensures
            r == self@.contains((tenant@, entity_type@)),
    {
        self.types.contains(&(tenant.to_owned(), entity_type.to_owned()))
    }

    /// Closes the types of a tenant.
    pub fn close(&mut self, tenant: &str, types: &SortedSet<String>)
        requires
            old(self).wf(),
            types.wf(),
        ensures
            final(self).wf(),
            final(self)@ == old(self)@.union(of_tenant(tenant@, types@)),
    {
        let n: usize = types.len();
        let ghost order = types.order();
        let ghost before = self@;
        let mut i: usize = 0;
        proof {
            types.lemma_members();
        }
        while i < n
            invariant
                i <= n,
                n == order.len(),
                order == types.order(),
                types.wf(),
                self.wf(),
                forall|p: (Seq<char>, Seq<char>)| #[trigger]
                    self@.contains(p) <==> before.contains(p) || (p.0 == tenant@ && order.take(
                        i as int,
                    ).contains(p.1)),
            decreases n - i,
        {
            let name = types.at(i);
            let ghost was = self@;
            let _ = self.types.insert((tenant.to_owned(), name.clone()));
            proof {
                assert(self@ =~= was.insert((tenant@, order[i as int])));
                lemma_one_more(order, i as int);
            }
            i += 1;
        }
        proof {
            assert(order.take(n as int) =~= order);
            assert(self@ =~= before.union(of_tenant(tenant@, types@)));
        }
    }

    /// Reopens the types of a tenant.
    pub fn reopen(&mut self, tenant: &str, types: &SortedSet<String>)
        requires
            old(self).wf(),
            types.wf(),
        ensures
            final(self).wf(),
            final(self)@ == old(self)@.difference(of_tenant(tenant@, types@)),
    {
        let n: usize = types.len();
        let ghost order = types.order();
        let ghost before = self@;
        let mut i: usize = 0;
        proof {
            types.lemma_members();
        }
        while i < n
            invariant
                i <= n,
                n == order.len(),
                order == types.order(),
                types.wf(),
                self.wf(),
                forall|p: (Seq<char>, Seq<char>)| #[trigger]
                    self@.contains(p) <==> before.contains(p) && !(p.0 == tenant@ && order.take(
                        i as int,
                    ).contains(p.1)),
            decreases n - i,
        {
            let name = types.at(i);
            let ghost was = self@;
            let _ = self.types.remove(&(tenant.to_owned(), name.clone()));
            proof {
                assert(self@ =~= was.remove((tenant@, order[i as int])));
                lemma_one_more(order, i as int);
            }
            i += 1;
        }
        proof {
            assert(order.take(n as int) =~= order);
            assert(self@ =~= before.difference(of_tenant(tenant@, types@)));
        }
    }

    /// Whether no actor may be resolved for a type.
    pub fn actor_resolution_gated(
        &self,
        tenant: &str,
        entity_type: &str,
        gate: TenantGate,
        lease: Option<&GenerationLease>,
    ) -> (r: bool)
        requires
            self.wf(),
        ensures
            r == gated(
                self@,
                tenant@,
                entity_type@,
                gate,
                match lease {
                    Some(l) => Some(*l),
                    None => None,
                },
            ),
    {
        if self.contains(tenant, entity_type) {
            return true;
        }
        if !gate.closed {
            return false;
        }
        match lease {
            Some(l) => !l.admits_to(tenant, gate.generation),
            None => true,
        }
    }
}

/// An activating contract gates every request for its type, whatever its lease.
pub proof fn law_activation_gates_everything(
    activating: Set<(Seq<char>, Seq<char>)>,
    tenant: Seq<char>,
    entity_type: Seq<char>,
    gate: TenantGate,
    lease: Option<GenerationLease>,
)
    requires
        activating.contains((tenant, entity_type)),
    ensures
        gated(activating, tenant, entity_type, gate, lease),
{
}

/// A lease on an earlier generation opens no closed tenant.
pub proof fn law_stale_leases_open_nothing(
    activating: Set<(Seq<char>, Seq<char>)>,
    tenant: Seq<char>,
    entity_type: Seq<char>,
    gate: TenantGate,
    lease: GenerationLease,
)
    requires
        gate.closed,
        lease.generation != gate.generation,
    ensures
        gated(activating, tenant, entity_type, gate, Some(lease)),
{
}

/// A lease admits to the one tenant and the one generation that it was given for, and
/// only while it is held or belongs to the publication itself.
pub proof fn law_leases_admit_to_their_own_generation(
    lease: GenerationLease,
    tenant: Seq<char>,
    generation: u64,
)
    ensures
        lease.tenant@ != tenant ==> !admits(lease, tenant, generation),
        lease.generation != generation ==> !admits(lease, tenant, generation),
        !lease.held && !lease.publication_owned ==> !admits(lease, tenant, generation),
        lease.tenant@ == tenant && lease.generation == generation && lease.held ==> admits(
            lease,
            tenant,
            generation,
        ),
        lease.tenant@ == tenant && lease.generation == generation && lease.publication_owned
            ==> admits(lease, tenant, generation),
{
}

/// An open tenant keeps no one out of a type that is not being activated, whatever the
/// lease; a closed one keeps out everyone without a lease, and no one who is admitted.
pub proof fn law_open_tenants_let_everyone_in(
    activating: Set<(Seq<char>, Seq<char>)>,
    tenant: Seq<char>,
    entity_type: Seq<char>,
    gate: TenantGate,
    lease: GenerationLease,
)
    requires
        !activating.contains((tenant, entity_type)),
    ensures
        !gate.closed ==> !gated(activating, tenant, entity_type, gate, None) && !gated(
            activating,
            tenant,
            entity_type,
            gate,
            Some(lease),
        ),
        gate.closed ==> gated(activating, tenant, entity_type, gate, None),
        gate.closed && lease.tenant@ == tenant && lease.generation == gate.generation
            && lease.held ==> !gated(activating, tenant, entity_type, gate, Some(lease)),
        gate.closed && lease.tenant@ != tenant ==> gated(
            activating,
            tenant,
            entity_type,
            gate,
            Some(lease),
        ),
{
}

/// Closing types of a tenant gates these types of this tenant, and no other type and no
/// other tenant.
pub proof fn law_closing_gates_the_named_types_alone(
    tenant: Seq<char>,
    types: Set<Seq<char>>,
    other: Seq<char>,
    entity_type: Seq<char>,
)
    ensures
        of_tenant(tenant, types).contains((tenant, entity_type)) == types.contains(entity_type),
        other != tenant ==> !of_tenant(tenant, types).contains((other, entity_type)),
{
}

} // verus!
