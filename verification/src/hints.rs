//! Hints that agents left on actions.

use vstd::prelude::*;
use vstd::string::*;

use crate::sorted::SortedMap;
use crate::text::lemma_text_lt_irreflexive;
use crate::text::text_lt;

verus! {

/// How many hints are kept for a tenant.
pub const AGENT_HINTS_BUDGET: usize = 1_000;

/// The hints of one tenant, by action.
pub struct AgentHints {
    hints: SortedMap<String, String>,
}

impl View for AgentHints {
    type V = Map<Seq<char>, Seq<char>>;

    closed spec fn view(&self) -> Map<Seq<char>, Seq<char>> {
        self.hints@.map_values(|s: String| s@)
    }
}

/// The name comes first among the actions.
pub open spec fn is_first(hints: Map<Seq<char>, Seq<char>>, name: Seq<char>) -> bool {
    hints.dom().contains(name) && forall|other: Seq<char>| #[trigger]
        hints.dom().contains(other) ==> other == name || text_lt(name, other)
}

/// The hints that are kept of all: those within the budget, or all but the one
/// on the action that comes first.
pub open spec fn is_enriched(all: Map<Seq<char>, Seq<char>>, kept: Map<Seq<char>, Seq<char>>) -> bool {
    if all.dom().len() <= AGENT_HINTS_BUDGET {
        kept == all
    } else {
        exists|least: Seq<char>| #[trigger] is_first(all, least) && kept == all.remove(least)
    }
}

impl AgentHints {
    /// The budget is kept.
    pub closed spec fn wf(&self) -> bool {
        self.hints.wf() && self.hints@.dom().len() <= AGENT_HINTS_BUDGET
    }

    /// No hints.
    pub fn new() -> (r: AgentHints)
        ensures
            r.wf(),
            r@ == Map::<Seq<char>, Seq<char>>::empty(),
    {
        let r = AgentHints { hints: SortedMap::new() };
        assert(r@ =~= Map::<Seq<char>, Seq<char>>::empty());
        r
    }

    /// The hint on an action.
    pub fn hint(&self, action_name: &str) -> (r: Option<String>)
        requires
            self.wf(),
        ensures
            r is Some == self@.dom().contains(action_name@),
            r matches Some(hint) ==> hint@ == self@[action_name@],
    {
        match self.hints.get(&action_name.to_owned()) {
            Some(hint) => Some(hint.clone()),
            None => None,
        }
    }

    /// Leaves a hint on an action. Past the budget, the action that comes first
    /// by name loses its hint.
    pub fn enrich_metadata(&mut self, action_name: &str, hint: &str)
        requires
            old(self).wf(),
        ensures
            final(self).wf(),
            is_enriched(old(self)@.insert(action_name@, hint@), final(self)@),
    {
        let ghost all = self@.insert(action_name@, hint@);
        let ghost before = self.hints@;
        let _ = self.hints.insert(action_name.to_owned(), hint.to_owned());
        proof {
            assert(self@ =~= all);
            assert(all.dom() =~= before.dom().insert(action_name@));
            assert(all.dom() =~= self.hints@.dom());
            self.hints.lemma_domain();
            assert(before.dom().finite()) by {
                old(self).hints.lemma_domain();
            }
        }
        if self.hints.len() > AGENT_HINTS_BUDGET {
            let ghost full = self.hints;
            let _ = self.hints.pop_first();
            proof {
                let order = full.order();
                let least = order[0];
                assert(is_first(all, least)) by {
                    assert(all.dom().contains(order[0]));
                    assert forall|other: Seq<char>| #[trigger]
                        all.dom().contains(other) implies other == least || text_lt(
                        least,
                        other,
                    ) by {
                        assert(order.to_set().contains(other));
                        let i = choose|i: int| 0 <= i < order.len() && order[i] == other;
                        if i > 0 {
                            assert(text_lt(order[0], order[i]));
                        }
                    }
                }
                assert(self@ =~= all.remove(least));
                self.hints.lemma_domain();
            }
        }
    }
}

/// Only one action comes first.
pub proof fn law_first_action_is_one(
    hints: Map<Seq<char>, Seq<char>>,
    a: Seq<char>,
    b: Seq<char>,
)
    requires
        is_first(hints, a),
        is_first(hints, b),
    ensures
        a == b,
{
    if a != b {
        assert(text_lt(a, b));
        assert(text_lt(b, a));
        crate::text::lemma_text_lt_transitive(a, b, a);
        lemma_text_lt_irreflexive(a);
    }
}

/// No more than a thousand hints are kept. What is dropped is the hint on the action that
/// comes first by name, and only where there are too many; every other stays as it is.
pub proof fn law_hints_are_kept_within_the_budget(
    all: Map<Seq<char>, Seq<char>>,
    kept: Map<Seq<char>, Seq<char>>,
    name: Seq<char>,
    other: Seq<char>,
)
    requires
        is_enriched(all, kept),
    ensures
        all.dom().len() <= 1000 ==> kept == all,
        all.dom().len() > 1000 && is_first(all, name) ==> !kept.dom().contains(name),
        all.dom().contains(other) && !is_first(all, other) ==> kept.dom().contains(other)
            && kept[other] == all[other],
        kept.dom().contains(other) ==> all.dom().contains(other) && kept[other] == all[other],
{
    if all.dom().len() > 1000 {
        let least = choose|least: Seq<char>| #[trigger]
            is_first(all, least) && kept == all.remove(least);
        if is_first(all, name) {
            law_first_action_is_one(all, name, least);
        }
    }
}

} // verus!
