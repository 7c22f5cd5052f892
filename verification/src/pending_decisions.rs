//! Denied requests that wait for a person to decide.

use std::collections::VecDeque;
use vstd::prelude::*;
use vstd::string::*;

use crate::json::JsonValue;
use crate::sorted::SortedMap;
use crate::text::chars_of;
use crate::text::same_text;

verus! {

/// How many decisions are kept.
pub const PENDING_DECISION_CAPACITY: usize = 1_000;

/// Where a decision stands.
#[derive(Clone, Copy, PartialEq, Eq, Structural, Debug)]
pub enum DecisionStatus {
    /// Nobody has decided yet.
    Pending,
    /// Approved: a policy was made and loaded.
    Approved,
    /// Denied by a person.
    Denied,
    /// Too late to decide.
    Expired,
}

/// Whom a policy is for.
#[derive(Clone, Copy, PartialEq, Eq, Structural, Debug)]
pub enum PrincipalScope {
    AgentsOfType,
    AnyAgent,
}

/// Which actions a policy covers.
#[derive(Clone, Copy, PartialEq, Eq, Structural, Debug)]
pub enum ActionScope {
    ThisAction,
    AllActionsOnType,
}

/// Which resources a policy covers.
#[derive(Clone, Copy, PartialEq, Eq, Structural, Debug)]
pub enum ResourceScope {
    AnyOfType,
}

/// How long a policy holds.
#[derive(Clone, Copy, PartialEq, Eq, Structural, Debug)]
pub enum DurationScope {
    Always,
}

/// What a policy covers.
#[derive(Debug)]
pub struct PolicyScopeMatrix {
    pub principal: PrincipalScope,
    pub action: ActionScope,
    pub resource: ResourceScope,
    pub duration: DurationScope,
    pub agent_type_value: Option<String>,
    pub role_value: Option<String>,
    pub session_id: Option<String>,
}

/// A denied request that waits for a decision.
#[derive(Debug)]
pub struct PendingDecision {
    /// `PD-` and a fresh id.
    pub id: String,
    pub tenant: String,
    pub agent_id: String,
    pub action: String,
    pub resource_type: String,
    pub resource_id: String,
    pub resource_attrs: JsonValue,
    pub denial_reason: String,
    pub module_name: Option<String>,
    pub created_at: String,
    pub status: DecisionStatus,
    pub decided_by: Option<String>,
    pub decided_at: Option<String>,
    pub generated_policy: Option<String>,
    pub approved_scope: Option<PolicyScopeMatrix>,
    pub evolution_record_id: Option<String>,
    pub agent_type: Option<String>,
    pub session_id: Option<String>,
}

/// The two denials are of one request: of the same tenant, agent, action, resource
/// type and resource.
pub open spec fn same_denial(a: PendingDecision, b: PendingDecision) -> bool {
    &&& a.tenant@ == b.tenant@
    &&& a.agent_id@ == b.agent_id@
    &&& a.action@ == b.action@
    &&& a.resource_type@ == b.resource_type@
    &&& a.resource_id@ == b.resource_id@
}

/// The character cannot stand for itself inside a part of a key.
pub open spec fn is_reserved(c: char) -> bool {
    c == ':' || c == '\\'
}

/// A character inside a part of a key, behind a backslash where it is reserved.
pub open spec fn escaped_char(c: char) -> Seq<char> {
    if is_reserved(c) {
        seq!['\\', c]
    } else {
        seq![c]
    }
}

/// A text as a part of a key.
pub open spec fn escaped(text: Seq<char>) -> Seq<char>
    decreases text.len(),
{
    if text.len() == 0 {
        Seq::empty()
    } else {
        escaped_char(text[0]) + escaped(text.drop_first())
    }
}

/// The key by which equal denials are recognized: its parts, with colons between
/// them.
pub open spec fn dedup_key_of(d: PendingDecision) -> Seq<char> {
    escaped(d.tenant@) + seq![':'] + (escaped(d.agent_id@) + seq![':'] + (escaped(d.action@)
        + seq![':'] + (escaped(d.resource_type@) + seq![':'] + escaped(d.resource_id@))))
}

fn append_escaped(key: &mut String, text: &str)
    ensures
        final(key)@ == old(key)@ + escaped(text@),
{
    let chars = chars_of(text);
    let ghost before = key@;
    let mut i: usize = 0;
    assert(text@.skip(0) =~= text@);
    while i < chars.len()
        invariant
            i <= chars@.len(),
            chars@ == text@,
            key@ + escaped(text@.skip(i as int)) == before + escaped(text@),
        decreases chars@.len() - i,
    {
        let c: char = chars[i];
        let ghost prior = key@;
        proof {
            let rest = text@.skip(i as int);
            assert(rest[0] == c);
            assert(rest.drop_first() =~= text@.skip(i + 1));
        }
        if c == ':' || c == '\\' {
            key.push('\\');
            key.push(c);
        } else {
            key.push(c);
        }
        proof {
            assert(key@ =~= prior + escaped_char(c));
            assert(key@ + escaped(text@.skip(i + 1)) =~= prior + escaped(text@.skip(i as int)));
        }
        i += 1;
    }
    assert(key@ + escaped(text@.skip(i as int)) =~= key@);
}

/// Where a part of a key ends can be told: what follows it begins with a colon
/// that no backslash guards.
proof fn lemma_parts_part(a: Seq<char>, x: Seq<char>, b: Seq<char>, y: Seq<char>)
    requires
        escaped(a) + seq![':'] + x == escaped(b) + seq![':'] + y,
    ensures
        a == b,
        x == y,
    decreases a.len(),
{
    let left = escaped(a) + seq![':'] + x;
    let right = escaped(b) + seq![':'] + y;
    if a.len() == 0 {
        assert(left[0] == ':');
        if b.len() > 0 {
            assert(right[0] == escaped_char(b[0])[0]);
            assert(false);
        }
        assert(x =~= left.skip(1));
        assert(y =~= right.skip(1));
        assert(a =~= b);
    } else {
        assert(left[0] == escaped_char(a[0])[0]);
        if b.len() == 0 {
            assert(right[0] == ':');
            assert(false);
        }
        assert(right[0] == escaped_char(b[0])[0]);
        if is_reserved(a[0]) {
            assert(left[1] == escaped_char(a[0])[1]);
            assert(is_reserved(b[0]));
            assert(right[1] == escaped_char(b[0])[1]);
        }
        assert(a[0] == b[0]);
        let n = escaped_char(a[0]).len() as int;
        let ra = a.drop_first();
        let rb = b.drop_first();
        assert(left.skip(n) =~= escaped(ra) + seq![':'] + x);
        assert(right.skip(n) =~= escaped(rb) + seq![':'] + y);
        lemma_parts_part(ra, x, rb, y);
        assert(a =~= seq![a[0]] + ra);
        assert(b =~= seq![b[0]] + rb);
    }
}

/// Two denials have one key exactly where they are of one request, whatever
/// characters their parts hold.
pub proof fn law_equal_keys_are_equal_denials(a: PendingDecision, b: PendingDecision)
    ensures
        dedup_key_of(a) == dedup_key_of(b) <==> same_denial(a, b),
{
    if dedup_key_of(a) == dedup_key_of(b) {
        let a4 = escaped(a.resource_id@);
        let b4 = escaped(b.resource_id@);
        let a3 = escaped(a.resource_type@) + seq![':'] + a4;
        let b3 = escaped(b.resource_type@) + seq![':'] + b4;
        let a2 = escaped(a.action@) + seq![':'] + a3;
        let b2 = escaped(b.action@) + seq![':'] + b3;
        let a1 = escaped(a.agent_id@) + seq![':'] + a2;
        let b1 = escaped(b.agent_id@) + seq![':'] + b2;
        lemma_parts_part(a.tenant@, a1, b.tenant@, b1);
        lemma_parts_part(a.agent_id@, a2, b.agent_id@, b2);
        lemma_parts_part(a.action@, a3, b.action@, b3);
        lemma_parts_part(a.resource_type@, a4, b.resource_type@, b4);
        let end = Seq::<char>::empty();
        assert(a4 + seq![':'] + end == b4 + seq![':'] + end);
        lemma_parts_part(a.resource_id@, end, b.resource_id@, end);
    }
}

impl PendingDecision {
    /// A denial that nobody has decided on yet.
    pub fn from_denial(
        fresh_id: &str,
        created_at: &str,
        tenant: &str,
        agent_id: &str,
        action: &str,
        resource_type: &str,
        resource_id: &str,
        resource_attrs: JsonValue,
        denial_reason: &str,
        module_name: Option<String>,
    ) -> (r: PendingDecision)
        ensures
            r.id@ == "PD-"@ + fresh_id@,
            r.tenant@ == tenant@,
            r.agent_id@ == agent_id@,
            r.action@ == action@,
            r.resource_type@ == resource_type@,
            r.resource_id@ == resource_id@,
            r.resource_attrs == resource_attrs,
            r.denial_reason@ == denial_reason@,
            r.module_name == module_name,
            r.created_at@ == created_at@,
            r.status == DecisionStatus::Pending,
            r.decided_by is None,
            r.decided_at is None,
            r.generated_policy is None,
            r.approved_scope is None,
            r.evolution_record_id is None,
            r.agent_type is None,
            r.session_id is None,
    {
        let mut id = "PD-".to_owned();
        id.append(fresh_id);
        PendingDecision {
            id,
            tenant: tenant.to_owned(),
            agent_id: agent_id.to_owned(),
            action: action.to_owned(),
            resource_type: resource_type.to_owned(),
            resource_id: resource_id.to_owned(),
            resource_attrs,
            denial_reason: denial_reason.to_owned(),
            module_name,
            created_at: created_at.to_owned(),
            status: DecisionStatus::Pending,
            decided_by: None,
            decided_at: None,
            generated_policy: None,
            approved_scope: None,
            evolution_record_id: None,
            agent_type: None,
            session_id: None,
        }
    }

    /// The key by which equal denials are recognized.
    pub fn dedup_key(&self) -> (r: String)
        ensures
            r@ == dedup_key_of(*self),
    {
        let mut key = String::new();
        append_escaped(&mut key, self.tenant.as_str());
        key.push(':');
        append_escaped(&mut key, self.agent_id.as_str());
        key.push(':');
        append_escaped(&mut key, self.action.as_str());
        key.push(':');
        append_escaped(&mut key, self.resource_type.as_str());
        key.push(':');
        append_escaped(&mut key, self.resource_id.as_str());
        assert(key@ =~= dedup_key_of(*self));
        key
    }

    /// The policy that would let the denied request through, as `render` puts it
    /// for the agent, the action, the resource type and the resource.
    pub fn generate_policy_from_matrix<
        F: Fn(&String, &String, &String, &String, &PolicyScopeMatrix) -> String,
    >(&self, matrix: &PolicyScopeMatrix, render: F) -> (r: String)
        requires
            render.requires(
                (&self.agent_id, &self.action, &self.resource_type, &self.resource_id, matrix),
            ),
        ensures
            render.ensures(
                (&self.agent_id, &self.action, &self.resource_type, &self.resource_id, matrix),
                r,
            ),
    {
        render(&self.agent_id, &self.action, &self.resource_type, &self.resource_id, matrix)
    }
}

/// Decisions, the oldest first, of which no two that wait are equal when they
/// come in.
pub struct PendingDecisionLog {
    entries: VecDeque<PendingDecision>,
    /// The id of the newest decision for each key.
    dedup_keys: SortedMap<String, String>,
}

/// The mathematical content of a log.
#[verifier::ext_equal]
pub struct LogModel {
    pub entries: Seq<PendingDecision>,
    pub newest: Map<Seq<char>, Seq<char>>,
}

impl View for PendingDecisionLog {
    type V = LogModel;

    closed spec fn view(&self) -> LogModel {
        LogModel {
            entries: self.entries@,
            newest: self.dedup_keys@.map_values(|s: String| s@),
        }
    }
}

/// Some decision with the id still waits.
pub open spec fn waits(entries: Seq<PendingDecision>, id: Seq<char>) -> bool {
    exists|i: int|
        0 <= i < entries.len() && (#[trigger] entries[i]).id@ == id && entries[i].status
            == DecisionStatus::Pending
}

/// An equal denial still waits.
pub open spec fn is_duplicate(log: LogModel, d: PendingDecision) -> bool {
    let key = dedup_key_of(d);
    log.newest.dom().contains(key) && waits(log.entries, log.newest[key])
}

/// The keys once the oldest decision has left: its key goes with it, unless the
/// key is a younger decision's by now.
pub open spec fn keys_without_oldest(log: LogModel) -> Map<Seq<char>, Seq<char>> {
    let key = dedup_key_of(log.entries[0]);
    if log.newest.dom().contains(key) && log.newest[key] == log.entries[0].id@ {
        log.newest.remove(key)
    } else {
        log.newest
    }
}

/// The log with a decision added; the oldest leaves a full log.
pub open spec fn with_decision(log: LogModel, d: PendingDecision) -> LogModel {
    let full = log.entries.len() >= PENDING_DECISION_CAPACITY;
    LogModel {
        entries: (if full {
            log.entries.drop_first()
        } else {
            log.entries
        }).push(d),
        newest: (if full {
            keys_without_oldest(log)
        } else {
            log.newest
        }).insert(dedup_key_of(d), d.id@),
    }
}

/// The place of the first decision with an id, or the number of decisions.
pub open spec fn place_of(entries: Seq<PendingDecision>, id: Seq<char>) -> int
    decreases entries.len(),
{
    if entries.len() == 0 || entries[0].id@ == id {
        0
    } else {
        1 + place_of(entries.drop_first(), id)
    }
}

proof fn lemma_place(entries: Seq<PendingDecision>, id: Seq<char>, i: int)
    requires
        0 <= i <= entries.len(),
        forall|j: int| 0 <= j < i ==> (#[trigger] entries[j]).id@ != id,
        i < entries.len() ==> entries[i].id@ == id,
    ensures
        place_of(entries, id) == i,
    decreases entries.len(),
{
    if i > 0 {
        let rest = entries.drop_first();
        assert forall|j: int| 0 <= j < i - 1 implies (#[trigger] rest[j]).id@ != id by {
            assert(rest[j] == entries[j + 1]);
        }
        lemma_place(rest, id, i - 1);
    }
}

/// How many decisions have a status.
pub open spec fn count_of(entries: Seq<PendingDecision>, status: DecisionStatus) -> nat
    decreases entries.len(),
{
    if entries.len() == 0 {
        0
    } else {
        count_of(entries.drop_last(), status) + if entries.last().status == status {
            1nat
        } else {
            0nat
        }
    }
}

/// `VecDeque::get_mut`: the decision at the place, to be changed where it stands, and
/// `None` past the last one.
#[verifier::external_body]
fn entry_mut(entries: &mut VecDeque<PendingDecision>, i: usize) -> (r: Option<&mut PendingDecision>)
    ensures
        match r {
            Some(d) => i < old(entries)@.len() && *d == old(entries)@[i as int]
                && final(entries)@ == old(entries)@.update(i as int, *final(d)),
            None => i >= old(entries)@.len() && *final(entries) == *old(entries),
        },
{
    entries.get_mut(i)
}

impl PendingDecisionLog {
    /// The log is within its capacity.
    pub closed spec fn wf(&self) -> bool {
        self.dedup_keys.wf() && self.entries@.len() <= PENDING_DECISION_CAPACITY
    }

    /// An empty log.
    pub fn new() -> (r: PendingDecisionLog)
        ensures
            r.wf(),
            r@ == (LogModel { entries: Seq::empty(), newest: Map::empty() }),
    {
        let r = PendingDecisionLog { entries: VecDeque::new(), dedup_keys: SortedMap::new() };
        assert(r@.newest =~= Map::<Seq<char>, Seq<char>>::empty());
        r
    }

    fn find(&self, id: &str) -> (r: usize)
        ensures
            r == place_of(self@.entries, id@),
            r <= self@.entries.len(),
    {
        let mut i: usize = 0;
        while i < self.entries.len()
            invariant
                i <= self.entries@.len(),
                forall|j: int| 0 <= j < i ==> (#[trigger] self.entries@[j]).id@ != id@,
            decreases self.entries@.len() - i,
        {
            if same_text(self.entries[i].id.as_str(), id) {
                proof {
                    lemma_place(self.entries@, id@, i as int);
                }
                return i;
            }
            i += 1;
        }
        proof {
            lemma_place(self.entries@, id@, i as int);
        }
        i
    }

    fn any_waits(&self, id: &str) -> (r: bool)
        ensures
            r == waits(self@.entries, id@),
    {
        let mut i: usize = 0;
        while i < self.entries.len()
            invariant
                i <= self.entries@.len(),
                forall|j: int|
                    0 <= j < i ==> !((#[trigger] self.entries@[j]).id@ == id@
                        && self.entries@[j].status == DecisionStatus::Pending),
            decreases self.entries@.len() - i,
        {
            if same_text(self.entries[i].id.as_str(), id) && self.entries[i].status
                == DecisionStatus::Pending {
                assert(self.entries@[i as int].id@ == id@);
                return true;
            }
            i += 1;
        }
        false
    }

    /// Adds a decision unless an equal denial still waits, and says whether it
    /// was added.
    pub fn push(&mut self, decision: PendingDecision) -> (r: bool)
        requires
            old(self).wf(),
        ensures
            final(self).wf(),
            r == !is_duplicate(old(self)@, decision),
            final(self)@ == if r {
                with_decision(old(self)@, decision)
            } else {
                old(self)@
            },
    {
        let ghost before = self@;
        let key = decision.dedup_key();
        let duplicate: bool = match self.dedup_keys.get(&key) {
            Some(id) => self.any_waits(id.as_str()),
            None => false,
        };
        if duplicate {
            return false;
        }
        if self.entries.len() >= PENDING_DECISION_CAPACITY {
            if let Some(evicted) = self.entries.pop_front() {
                let old_key = evicted.dedup_key();
                let is_newest: bool = match self.dedup_keys.get(&old_key) {
                    Some(id) => same_text(id.as_str(), evicted.id.as_str()),
                    None => false,
                };
                if is_newest {
                    let _ = self.dedup_keys.remove(&old_key);
                }
            }
            proof {
                assert(self@.entries =~= before.entries.drop_first());
                assert(self@.newest =~= keys_without_oldest(before));
            }
        }
        let ghost middle = self@;
        let _ = self.dedup_keys.insert(key, decision.id.clone());
        self.entries.push_back(decision);
        proof {
            assert(self@.newest =~= middle.newest.insert(dedup_key_of(decision), decision.id@));
        }
        true
    }

    /// All decisions, the oldest first.
    pub fn entries(&self) -> (r: &VecDeque<PendingDecision>)
        ensures
            r@ == self@.entries,
    {
        &self.entries
    }

    /// The first decision with an id.
    pub fn get(&self, id: &str) -> (r: Option<&PendingDecision>)
        ensures
            ({
                let i = place_of(self@.entries, id@);
                &&& r is Some == (i < self@.entries.len())
                &&& r matches Some(d) ==> *d == self@.entries[i]
            }),
    {
        let i: usize = self.find(id);
        if i < self.entries.len() {
            Some(&self.entries[i])
        } else {
            None
        }
    }

    /// The first decision with an id, to be changed.
    pub fn get_mut(&mut self, id: &str) -> (r: Option<&mut PendingDecision>)
        requires
            old(self).wf(),
        ensures
            ({
                let i = place_of(old(self)@.entries, id@);
                match r {
                    Some(d) => i < old(self)@.entries.len() && *d == old(self)@.entries[i]
                        && final(self)@ == (LogModel {
                        entries: old(self)@.entries.update(i, *final(d)),
                        newest: old(self)@.newest,
                    }) && final(self).wf(),
                    None => i == old(self)@.entries.len() && *final(self) == *old(self),
                }
            }),
    {
        let i: usize = self.find(id);
        entry_mut(&mut self.entries, i)
    }

    /// How many decisions have a status.
    pub fn count_by_status(&self, status: &DecisionStatus) -> (r: usize)
        ensures
            r == count_of(self@.entries, *status),
    {
        let mut count: usize = 0;
        let mut i: usize = 0;
        assert(self.entries@.take(0) =~= Seq::<PendingDecision>::empty());
        while i < self.entries.len()
            invariant
                i <= self.entries@.len(),
                count <= i,
                count == count_of(self.entries@.take(i as int), *status),
            decreases self.entries@.len() - i,
        {
            proof {
                let long = self.entries@.take(i + 1);
                assert(long.drop_last() =~= self.entries@.take(i as int));
                assert(long.last() == self.entries@[i as int]);
            }
            if self.entries[i].status == *status {
                count += 1;
            }
            i += 1;
        }
        assert(self.entries@.take(i as int) =~= self.entries@);
        count
    }
}

impl Default for PendingDecisionLog {
    fn default() -> (r: PendingDecisionLog)
        ensures
            r.wf(),
            r@ == (LogModel { entries: Seq::empty(), newest: Map::empty() }),
    {
        PendingDecisionLog::new()
    }
}

// ---------------------------------------------------------------------------
// What a log refuses over its whole life
// ---------------------------------------------------------------------------

/// A denial of the same request waits in the log.
pub open spec fn an_equal_waits(entries: Seq<PendingDecision>, d: PendingDecision) -> bool {
    exists|i: int|
        0 <= i < entries.len() && same_denial(#[trigger] entries[i], d) && entries[i].status
            == DecisionStatus::Pending
}

/// What happens to a log.
pub enum LogStep {
    /// A decision is pushed.
    Push(PendingDecision),
    /// The decision at a place is changed to this.
    Decide(int, PendingDecision),
}

pub open spec fn log_after_step(log: LogModel, step: LogStep) -> LogModel {
    match step {
        LogStep::Push(d) => if is_duplicate(log, d) {
            log
        } else {
            with_decision(log, d)
        },
        LogStep::Decide(i, d) => LogModel { entries: log.entries.update(i, d), ..log },
    }
}

/// The log that some steps lead to from an empty one.
pub open spec fn log_after(steps: Seq<LogStep>) -> LogModel
    decreases steps.len(),
{
    if steps.len() == 0 {
        LogModel { entries: Seq::empty(), newest: Map::empty() }
    } else {
        log_after_step(log_after(steps.drop_last()), steps.last())
    }
}

/// A step pushes a decision with the id.
pub open spec fn pushes(steps: Seq<LogStep>, id: Seq<char>) -> bool {
    exists|i: int|
        0 <= i < steps.len() && (#[trigger] steps[i] matches LogStep::Push(d) && d.id@ == id)
}

/// The steps push decisions with an id of their own each, and change no more of one
/// than what becomes of it: it stays the denial that it is, and does not wait
/// again once it was decided.
pub open spec fn is_history(steps: Seq<LogStep>) -> bool
    decreases steps.len(),
{
    steps.len() == 0 || is_history(steps.drop_last()) && match steps.last() {
        LogStep::Push(d) => !pushes(steps.drop_last(), d.id@),
        LogStep::Decide(i, d) => {
            let entries = log_after(steps.drop_last()).entries;
            &&& 0 <= i < entries.len()
            &&& d.id@ == entries[i].id@
            &&& same_denial(d, entries[i])
            &&& d.status == DecisionStatus::Pending ==> entries[i].status
                == DecisionStatus::Pending
        },
    }
}

/// Ids tell decisions apart, a key leads to a decision that has it, and to the one
/// that waits where one does.
pub open spec fn is_consistent(log: LogModel) -> bool {
    &&& forall|i: int, j: int|
        #![trigger log.entries[i], log.entries[j]]
        0 <= i < j < log.entries.len() ==> log.entries[i].id@ != log.entries[j].id@
    &&& forall|i: int|
        0 <= i < log.entries.len() && (#[trigger] log.entries[i]).status == DecisionStatus::Pending
            ==> leads_to(log, dedup_key_of(log.entries[i]), i)
    &&& forall|key: Seq<char>| #[trigger]
        log.newest.dom().contains(key) ==> exists|i: int|
            #![trigger log.entries[i]]
            0 <= i < log.entries.len() && dedup_key_of(log.entries[i]) == key && leads_to(log, key, i)
}

/// The key leads to the decision at a place.
pub open spec fn leads_to(log: LogModel, key: Seq<char>, i: int) -> bool {
    log.newest.dom().contains(key) && log.newest[key] == log.entries[i].id@
}

proof fn lemma_duplicates_wait(log: LogModel, d: PendingDecision)
    requires
        is_consistent(log),
    ensures
        is_duplicate(log, d) == an_equal_waits(log.entries, d),
{
    let key = dedup_key_of(d);
    if is_duplicate(log, d) {
        let i = choose|i: int|
            #![trigger log.entries[i]]
            0 <= i < log.entries.len() && dedup_key_of(log.entries[i]) == key && leads_to(log, key, i);
        let j = choose|j: int|
            0 <= j < log.entries.len() && (#[trigger] log.entries[j]).id@ == log.newest[key]
                && log.entries[j].status == DecisionStatus::Pending;
        assert(i == j) by {
            assert(log.entries[i].id@ == log.entries[j].id@);
        }
        law_equal_keys_are_equal_denials(log.entries[i], d);
        assert(same_denial(log.entries[i], d));
    }
    if an_equal_waits(log.entries, d) {
        let i = choose|i: int|
            0 <= i < log.entries.len() && same_denial(#[trigger] log.entries[i], d)
                && log.entries[i].status == DecisionStatus::Pending;
        law_equal_keys_are_equal_denials(log.entries[i], d);
        assert(leads_to(log, key, i));
        assert(log.entries[i].id@ == log.newest[key]);
    }
}

/// The log without its oldest decision stays consistent.
proof fn lemma_eviction_keeps(log: LogModel)
    requires
        is_consistent(log),
        log.entries.len() > 0,
    ensures
        is_consistent(
            LogModel { entries: log.entries.drop_first(), newest: keys_without_oldest(log) },
        ),
{
    let after = LogModel { entries: log.entries.drop_first(), newest: keys_without_oldest(log) };
    assert forall|i: int| 0 <= i < after.entries.len() implies #[trigger] after.entries[i]
        == log.entries[i + 1] by {}
    assert forall|i: int|
        0 <= i < after.entries.len() && (#[trigger] after.entries[i]).status
            == DecisionStatus::Pending implies leads_to(
        after,
        dedup_key_of(after.entries[i]),
        i,
    ) by {
        assert(leads_to(log, dedup_key_of(log.entries[i + 1]), i + 1));
        assert(log.entries[0].id@ != log.entries[i + 1].id@);
    }
    assert forall|key: Seq<char>| #[trigger] after.newest.dom().contains(key) implies exists|i: int|
        #![trigger after.entries[i]]
        0 <= i < after.entries.len() && dedup_key_of(after.entries[i]) == key && leads_to(
            after,
            key,
            i,
        ) by {
        assert(log.newest.dom().contains(key));
        let i = choose|i: int|
            #![trigger log.entries[i]]
            0 <= i < log.entries.len() && dedup_key_of(log.entries[i]) == key && leads_to(log, key, i);
        assert(i != 0);
        assert(after.entries[i - 1] == log.entries[i]);
    }
}

/// An added decision with an id of its own keeps the log consistent.
proof fn lemma_appending_keeps(log: LogModel, d: PendingDecision)
    requires
        is_consistent(log),
        !an_equal_waits(log.entries, d),
        forall|i: int| 0 <= i < log.entries.len() ==> (#[trigger] log.entries[i]).id@ != d.id@,
    ensures
        is_consistent(
            LogModel {
                entries: log.entries.push(d),
                newest: log.newest.insert(dedup_key_of(d), d.id@),
            },
        ),
{
    let after = LogModel {
        entries: log.entries.push(d),
        newest: log.newest.insert(dedup_key_of(d), d.id@),
    };
    let last = log.entries.len() as int;
    assert(after.entries[last] == d);
    assert forall|i: int| 0 <= i < last implies #[trigger] after.entries[i] == log.entries[i] by {}
    assert forall|i: int|
        0 <= i < after.entries.len() && (#[trigger] after.entries[i]).status
            == DecisionStatus::Pending implies leads_to(
        after,
        dedup_key_of(after.entries[i]),
        i,
    ) by {
        if i < last {
            assert(leads_to(log, dedup_key_of(log.entries[i]), i));
            law_equal_keys_are_equal_denials(log.entries[i], d);
        }
    }
    assert forall|key: Seq<char>| #[trigger] after.newest.dom().contains(key) implies exists|i: int|
        #![trigger after.entries[i]]
        0 <= i < after.entries.len() && dedup_key_of(after.entries[i]) == key && leads_to(
            after,
            key,
            i,
        ) by {
        if key == dedup_key_of(d) {
            assert(leads_to(after, key, last));
        } else {
            assert(log.newest.dom().contains(key));
            let i = choose|i: int|
                #![trigger log.entries[i]]
                0 <= i < log.entries.len() && dedup_key_of(log.entries[i]) == key && leads_to(
                    log,
                    key,
                    i,
                );
            assert(after.entries[i] == log.entries[i]);
        }
    }
}

/// A decision that was made keeps the log consistent.
proof fn lemma_deciding_keeps(log: LogModel, i: int, d: PendingDecision)
    requires
        is_consistent(log),
        0 <= i < log.entries.len(),
        d.id@ == log.entries[i].id@,
        same_denial(d, log.entries[i]),
        d.status == DecisionStatus::Pending ==> log.entries[i].status == DecisionStatus::Pending,
    ensures
        is_consistent(LogModel { entries: log.entries.update(i, d), ..log }),
{
    let after = LogModel { entries: log.entries.update(i, d), ..log };
    law_equal_keys_are_equal_denials(d, log.entries[i]);
    assert forall|j: int| 0 <= j < after.entries.len() implies (#[trigger] after.entries[j]).id@
        == log.entries[j].id@ && dedup_key_of(after.entries[j]) == dedup_key_of(log.entries[j]) by {}
    assert forall|j: int|
        0 <= j < after.entries.len() && (#[trigger] after.entries[j]).status
            == DecisionStatus::Pending implies leads_to(
        after,
        dedup_key_of(after.entries[j]),
        j,
    ) by {
        assert(leads_to(log, dedup_key_of(log.entries[j]), j));
    }
    assert forall|key: Seq<char>| #[trigger] after.newest.dom().contains(key) implies exists|j: int|
        #![trigger after.entries[j]]
        0 <= j < after.entries.len() && dedup_key_of(after.entries[j]) == key && leads_to(
            after,
            key,
            j,
        ) by {
        let j = choose|j: int|
            #![trigger log.entries[j]]
            0 <= j < log.entries.len() && dedup_key_of(log.entries[j]) == key && leads_to(log, key, j);
        assert(after.entries[j].id@ == log.entries[j].id@);
    }
}

proof fn lemma_histories_are_consistent(steps: Seq<LogStep>)
    requires
        is_history(steps),
    ensures
        is_consistent(log_after(steps)),
        forall|i: int|
            0 <= i < log_after(steps).entries.len() ==> pushes(
                steps,
                (#[trigger] log_after(steps).entries[i]).id@,
            ),
    decreases steps.len(),
{
    if steps.len() > 0 {
        let prior = steps.drop_last();
        let log = log_after(prior);
        let after = log_after(steps);
        lemma_histories_are_consistent(prior);
        assert forall|id: Seq<char>| #[trigger] pushes(prior, id) implies pushes(steps, id) by {
            let k = choose|k: int|
                0 <= k < prior.len() && (#[trigger] prior[k] matches LogStep::Push(d) && d.id@ == id);
            assert(steps[k] == prior[k]);
        }
        match steps.last() {
            LogStep::Push(d) => {
                lemma_duplicates_wait(log, d);
                if !is_duplicate(log, d) {
                    assert(steps[steps.len() - 1] == LogStep::Push(d));
                    assert(pushes(steps, d.id@));
                    if log.entries.len() >= PENDING_DECISION_CAPACITY {
                        lemma_eviction_keeps(log);
                        let rest = LogModel {
                            entries: log.entries.drop_first(),
                            newest: keys_without_oldest(log),
                        };
                        assert forall|i: int| 0 <= i < rest.entries.len() implies (
                        #[trigger] rest.entries[i]) == log.entries[i + 1] by {}
                        lemma_appending_keeps(rest, d);
                        assert forall|i: int| 0 <= i < after.entries.len() implies pushes(
                            steps,
                            (#[trigger] after.entries[i]).id@,
                        ) by {
                            if i < rest.entries.len() {
                                assert(after.entries[i] == log.entries[i + 1]);
                            }
                        }
                    } else {
                        lemma_appending_keeps(log, d);
                        assert forall|i: int| 0 <= i < after.entries.len() implies pushes(
                            steps,
                            (#[trigger] after.entries[i]).id@,
                        ) by {
                            if i < log.entries.len() {
                                assert(after.entries[i] == log.entries[i]);
                            }
                        }
                    }
                }
            },
            LogStep::Decide(i, d) => {
                lemma_deciding_keeps(log, i, d);
                assert forall|j: int| 0 <= j < after.entries.len() implies pushes(
                    steps,
                    (#[trigger] after.entries[j]).id@,
                ) by {
                    assert(after.entries[j].id@ == log.entries[j].id@);
                }
            },
        }
    }
}

/// However a log came about, it refuses a denial exactly where a denial of the same
/// request waits in it.
pub proof fn law_exactly_waiting_denials_are_refused(steps: Seq<LogStep>, d: PendingDecision)
    requires
        is_history(steps),
    ensures
        is_duplicate(log_after(steps), d) == an_equal_waits(log_after(steps).entries, d),
{
    lemma_histories_are_consistent(steps);
    lemma_duplicates_wait(log_after(steps), d);
}

/// While a denial waits, an equal one is refused.
pub proof fn law_waiting_denials_are_not_repeated(
    log: LogModel,
    first: PendingDecision,
    second: PendingDecision,
)
    requires
        first.status == DecisionStatus::Pending,
        dedup_key_of(first) == dedup_key_of(second),
    ensures
        is_duplicate(with_decision(log, first), second),
{
    let after = with_decision(log, first);
    assert(after.entries.last() == first);
    assert(after.entries[after.entries.len() - 1].id@ == first.id@);
}

/// A log never outgrows its capacity.
pub proof fn law_decision_logs_are_bounded(log: LogModel, d: PendingDecision)
    requires
        log.entries.len() <= PENDING_DECISION_CAPACITY,
    ensures
        with_decision(log, d).entries.len() <= PENDING_DECISION_CAPACITY,
        with_decision(log, d).entries.last() == d,
{
}

/// The first decision with an id is found, and no earlier one has that id; an id that no
/// decision has is found nowhere.
pub proof fn law_decisions_are_found_by_id(entries: Seq<PendingDecision>, id: Seq<char>)
    ensures
        0 <= place_of(entries, id) <= entries.len(),
        place_of(entries, id) < entries.len() ==> entries[place_of(entries, id)].id@ == id,
        forall|j: int|
            0 <= j < place_of(entries, id) ==> (#[trigger] entries[j]).id@ != id,
    decreases entries.len(),
{
    if entries.len() > 0 && entries[0].id@ != id {
        let rest = entries.drop_first();
        law_decisions_are_found_by_id(rest, id);
        assert forall|j: int| 0 <= j < place_of(entries, id) implies (#[trigger] entries[j]).id@
            != id by {
            if j > 0 {
                assert(rest[j - 1] == entries[j]);
            }
        }
    }
}

/// The number of decisions with a status is the number of those that have it.
pub proof fn law_decisions_are_counted_by_status(
    entries: Seq<PendingDecision>,
    status: DecisionStatus,
)
    ensures
        count_of(entries, status) == entries.filter(
            |d: PendingDecision| d.status == status,
        ).len(),
        count_of(entries, status) <= entries.len(),
    decreases entries.len(),
{
    reveal(Seq::filter);
    if entries.len() > 0 {
        law_decisions_are_counted_by_status(entries.drop_last(), status);
    }
}

/// A thousand decisions are kept. While there is room nothing leaves; in a full log the
/// oldest makes place, and all others stay in their order before the new one.
pub proof fn law_the_oldest_decision_makes_place(log: LogModel, d: PendingDecision, i: int)
    requires
        0 <= i < log.entries.len(),
    ensures
        log.entries.len() < 1000 ==> with_decision(log, d).entries.len() == log.entries.len() + 1
            && with_decision(log, d).entries[i] == log.entries[i],
        log.entries.len() == 1000 ==> with_decision(log, d).entries.len() == 1000 && (i > 0
            ==> with_decision(log, d).entries[i - 1] == log.entries[i]),
        with_decision(log, d).newest.dom().contains(dedup_key_of(d)),
        with_decision(log, d).newest[dedup_key_of(d)] == d.id@,
{
}

/// Only a decision that waits stands in the way of an equal one: once all with the id are
/// decided, none waits.
pub proof fn law_decided_denials_do_not_wait(entries: Seq<PendingDecision>, id: Seq<char>)
    ensures
        (forall|i: int|
            0 <= i < entries.len() && (#[trigger] entries[i]).id@ == id ==> entries[i].status
                != DecisionStatus::Pending) ==> !waits(entries, id),
        forall|i: int|
            0 <= i < entries.len() && (#[trigger] entries[i]).id@ == id && entries[i].status
                == DecisionStatus::Pending ==> waits(entries, id),
{
}

/// Two denials are of one request only where tenant, agent, action and resource agree.
pub proof fn law_denials_of_one_request_agree(a: PendingDecision, b: PendingDecision)
    requires
        same_denial(a, b),
    ensures
        a.tenant@ == b.tenant@,
        a.agent_id@ == b.agent_id@,
        a.action@ == b.action@,
        a.resource_type@ == b.resource_type@,
        a.resource_id@ == b.resource_id@,
{
}

} // verus!
