//! Policies that denied requests suggest.
//!
//! Denials are counted for each agent type, action and resource type. An action
//! that is denied often enough suggests a policy for it; several denied actions
//! on one resource type suggest one policy for them all.

use vstd::prelude::*;
use vstd::string::*;

use crate::pending_decisions::ActionScope;
use crate::pending_decisions::DurationScope;
use crate::pending_decisions::PolicyScopeMatrix;
use crate::pending_decisions::PrincipalScope;
use crate::pending_decisions::ResourceScope;
use crate::sorted::sorted;
use crate::sorted::SortedMap;
use crate::sorted::SortedSet;
use crate::text::decimal;
use crate::text::decimal_text;
use crate::text::has_prefix;

verus! {

/// The denials of one action.
pub struct DenialPattern {
    pub agent_type: Option<String>,
    pub action: String,
    pub resource_type: String,
    pub count: usize,
    pub first_seen: String,
    pub last_seen: String,
    pub distinct_resource_ids: SortedSet<String>,
}

/// The denials of all actions on one resource type.
pub struct GroupedPattern {
    pub agent_type: Option<String>,
    pub resource_type: String,
    pub denied_actions: SortedSet<String>,
    pub total_denials: usize,
}

/// A suggested policy.
#[derive(Debug)]
pub struct PolicySuggestion {
    pub description: String,
    pub matrix: PolicyScopeMatrix,
    pub cedar_preview: String,
    pub denial_count: usize,
    /// It covers several actions.
    pub grouped: bool,
}

/// The text of an option.
pub open spec fn option_text(s: Option<String>) -> Option<Seq<char>> {
    match s {
        Some(t) => Some(t@),
        None => None,
    }
}

/// The mathematical content of the denials of one action.
#[verifier::ext_equal]
pub struct PatternModel {
    pub agent_type: Option<Seq<char>>,
    pub action: Seq<char>,
    pub resource_type: Seq<char>,
    pub count: nat,
    pub first_seen: Seq<char>,
    pub last_seen: Seq<char>,
    pub resource_ids: Set<Seq<char>>,
}

impl View for DenialPattern {
    type V = PatternModel;

    open spec fn view(&self) -> PatternModel {
        PatternModel {
            agent_type: option_text(self.agent_type),
            action: self.action@,
            resource_type: self.resource_type@,
            count: self.count as nat,
            first_seen: self.first_seen@,
            last_seen: self.last_seen@,
            resource_ids: self.distinct_resource_ids@,
        }
    }
}

/// The mathematical content of the denials on one resource type.
#[verifier::ext_equal]
pub struct GroupModel {
    pub agent_type: Option<Seq<char>>,
    pub resource_type: Seq<char>,
    pub actions: Set<Seq<char>>,
    pub total: nat,
}

impl View for GroupedPattern {
    type V = GroupModel;

    open spec fn view(&self) -> GroupModel {
        GroupModel {
            agent_type: option_text(self.agent_type),
            resource_type: self.resource_type@,
            actions: self.denied_actions@,
            total: self.total_denials as nat,
        }
    }
}

/// What an action's denials are counted under.
pub type ActionKey = (Option<Seq<char>>, (Seq<char>, Seq<char>));

/// What a resource type's denials are counted under.
pub type TypeKey = (Option<Seq<char>>, Seq<char>);

/// The contents of the patterns.
pub open spec fn patterns(m: Map<ActionKey, DenialPattern>) -> Map<ActionKey, PatternModel> {
    m.map_values(|p: DenialPattern| p@)
}

/// The contents of the groups.
pub open spec fn groups(m: Map<TypeKey, GroupedPattern>) -> Map<TypeKey, GroupModel> {
    m.map_values(|g: GroupedPattern| g@)
}

/// Finds denial patterns and suggests policies.
pub struct PolicySuggestionEngine {
    pub action_threshold: usize,
    pub group_threshold: usize,
    pub per_action: SortedMap<(Option<String>, (String, String)), DenialPattern>,
    pub per_type: SortedMap<(Option<String>, String), GroupedPattern>,
}

/// A denial.
pub struct Denial {
    pub agent_type: Option<Seq<char>>,
    pub action: Seq<char>,
    pub resource_type: Seq<char>,
    pub resource_id: Seq<char>,
    pub timestamp: Seq<char>,
}

/// What a denial is counted under with its action.
pub open spec fn action_key(d: Denial) -> ActionKey {
    (d.agent_type, (d.action, d.resource_type))
}

/// What a denial is counted under with its resource type.
pub open spec fn type_key(d: Denial) -> TypeKey {
    (d.agent_type, d.resource_type)
}

/// The pattern of an action after one more denial.
pub open spec fn pattern_after(m: Map<ActionKey, PatternModel>, d: Denial) -> PatternModel {
    let key = (d.agent_type, (d.action, d.resource_type));
    if m.dom().contains(key) {
        PatternModel {
            count: m[key].count + 1,
            last_seen: d.timestamp,
            resource_ids: m[key].resource_ids.insert(d.resource_id),
            ..m[key]
        }
    } else {
        PatternModel {
            agent_type: d.agent_type,
            action: d.action,
            resource_type: d.resource_type,
            count: 1,
            first_seen: d.timestamp,
            last_seen: d.timestamp,
            resource_ids: Set::empty().insert(d.resource_id),
        }
    }
}

/// The group of a resource type after one more denial.
pub open spec fn group_after(m: Map<TypeKey, GroupModel>, d: Denial) -> GroupModel {
    let key = (d.agent_type, d.resource_type);
    if m.dom().contains(key) {
        GroupModel {
            actions: m[key].actions.insert(d.action),
            total: m[key].total + 1,
            ..m[key]
        }
    } else {
        GroupModel {
            agent_type: d.agent_type,
            resource_type: d.resource_type,
            actions: Set::empty().insert(d.action),
            total: 1,
        }
    }
}

/// The patterns once all these denials were counted, the last one last.
pub open spec fn patterns_after(history: Seq<Denial>) -> Map<ActionKey, PatternModel>
    decreases history.len(),
{
    if history.len() == 0 {
        Map::empty()
    } else {
        let before = patterns_after(history.drop_last());
        let d = history.last();
        before.insert(action_key(d), pattern_after(before, d))
    }
}

/// The groups once all these denials were counted, the last one last.
pub open spec fn groups_after(history: Seq<Denial>) -> Map<TypeKey, GroupModel>
    decreases history.len(),
{
    if history.len() == 0 {
        Map::empty()
    } else {
        let before = groups_after(history.drop_last());
        let d = history.last();
        before.insert(type_key(d), group_after(before, d))
    }
}

fn owned(s: Option<&str>) -> (r: Option<String>)
    ensures
        option_text(r) == (match s {
            Some(t) => Some(t@),
            None => None,
        }),
{
    match s {
        Some(t) => Some(t.to_owned()),
        None => None,
    }
}

fn copy_option(s: &Option<String>) -> (r: Option<String>)
    ensures
        option_text(r) == option_text(*s),
{
    match s {
        Some(t) => Some(t.clone()),
        None => None,
    }
}

// ---------------------------------------------------------------------------
// Suggestions
// ---------------------------------------------------------------------------

/// What a suggestion covers and why it is made.
pub struct SuggestionModel {
    pub description: Seq<char>,
    pub principal: PrincipalScope,
    pub action: ActionScope,
    pub agent_type: Option<Seq<char>>,
    /// The action that the preview is for.
    pub previewed_action: Seq<char>,
    pub resource_type: Seq<char>,
    pub denial_count: nat,
    pub grouped: bool,
}

/// The agents of a type, or all agents.
pub open spec fn principal_of(agent_type: Option<Seq<char>>) -> PrincipalScope {
    if agent_type is Some {
        PrincipalScope::AgentsOfType
    } else {
        PrincipalScope::AnyAgent
    }
}

/// The agent type, or what stands for all agents.
pub open spec fn or_else(agent_type: Option<Seq<char>>, all: Seq<char>) -> Seq<char> {
    match agent_type {
        Some(t) => t,
        None => all,
    }
}

/// What several denied actions on a resource type suggest.
pub open spec fn group_suggestion(g: GroupModel) -> SuggestionModel {
    SuggestionModel {
        description: decimal(g.actions.len()) + " actions on "@ + g.resource_type + " denied "@
            + decimal(g.total) + " times for "@ + or_else(g.agent_type, "all agents"@),
        principal: principal_of(g.agent_type),
        action: ActionScope::AllActionsOnType,
        agent_type: g.agent_type,
        previewed_action: "*"@,
        resource_type: g.resource_type,
        denial_count: g.total,
        grouped: true,
    }
}

/// What the denials of one action suggest.
pub open spec fn single_suggestion(key: ActionKey, count: nat) -> SuggestionModel {
    let (agent_type, (action, resource_type)) = key;
    SuggestionModel {
        description: action + " denied "@ + decimal(count) + " times on "@ + resource_type
            + " for "@ + or_else(agent_type, "all agents"@),
        principal: principal_of(agent_type),
        action: ActionScope::ThisAction,
        agent_type,
        previewed_action: action,
        resource_type,
        denial_count: count,
        grouped: false,
    }
}

/// What the pattern of one action suggests.
pub open spec fn action_suggestion(p: PatternModel) -> SuggestionModel {
    single_suggestion((p.agent_type, (p.action, p.resource_type)), p.count)
}

/// The suggestion is the expected one, apart from its preview.
pub open spec fn is_suggestion(s: PolicySuggestion, m: SuggestionModel) -> bool {
    &&& s.description@ == m.description
    &&& s.matrix.principal == m.principal
    &&& s.matrix.action == m.action
    &&& s.matrix.resource == ResourceScope::AnyOfType
    &&& s.matrix.duration == DurationScope::Always
    &&& option_text(s.matrix.agent_type_value) == m.agent_type
    &&& s.matrix.role_value is None
    &&& s.matrix.session_id is None
    &&& s.denial_count == m.denial_count
    &&& s.grouped == m.grouped
}

/// The group is large enough for a suggestion of its own.
pub open spec fn is_group(g: GroupModel, threshold: nat) -> bool {
    g.actions.len() >= threshold
}

/// The suggestions for groups, in the order of their keys.
pub open spec fn group_suggestions(
    order: Seq<TypeKey>,
    m: Map<TypeKey, GroupModel>,
    threshold: nat,
) -> Seq<SuggestionModel>
    decreases order.len(),
{
    if order.len() == 0 {
        Seq::empty()
    } else {
        let before = group_suggestions(order.drop_last(), m, threshold);
        if is_group(m[order.last()], threshold) {
            before.push(group_suggestion(m[order.last()]))
        } else {
            before
        }
    }
}

/// A group covers the action.
pub open spec fn is_covered(key: ActionKey, m: Map<TypeKey, GroupModel>, threshold: nat) -> bool {
    let type_key = (key.0, key.1.1);
    m.dom().contains(type_key) && is_group(m[type_key], threshold)
}

/// The suggestions for single actions that no group covers, in the order of
/// their keys.
pub open spec fn action_suggestions(
    order: Seq<ActionKey>,
    m: Map<ActionKey, PatternModel>,
    threshold: nat,
    by_type: Map<TypeKey, GroupModel>,
    group_threshold: nat,
) -> Seq<SuggestionModel>
    decreases order.len(),
{
    if order.len() == 0 {
        Seq::empty()
    } else {
        let before = action_suggestions(order.drop_last(), m, threshold, by_type, group_threshold);
        let key = order.last();
        if m[key].count >= threshold && !is_covered(key, by_type, group_threshold) {
            before.push(action_suggestion(m[key]))
        } else {
            before
        }
    }
}

/// The preview of a suggestion is what `render` makes of its agents, its action,
/// its resource type, any resource and its matrix.
pub open spec fn is_previewed<
    F: Fn(&String, &String, &String, &String, &PolicyScopeMatrix) -> String,
>(s: PolicySuggestion, m: SuggestionModel, render: F) -> bool {
    exists|agent: &String, action: &String, resource_type: &String, resource: &String|
        {
            &&& agent@ == or_else(m.agent_type, "*"@)
            &&& action@ == m.previewed_action
            &&& resource_type@ == m.resource_type
            &&& resource@ == "*"@
            &&& #[trigger] render.ensures(
                (agent, action, resource_type, resource, &s.matrix),
                s.cedar_preview,
            )
        }
}

/// Each suggestion is the expected one, and so is its preview.
pub open spec fn are_suggestions<
    F: Fn(&String, &String, &String, &String, &PolicyScopeMatrix) -> String,
>(s: Seq<PolicySuggestion>, m: Seq<SuggestionModel>, render: F) -> bool {
    s.len() == m.len() && forall|i: int|
        0 <= i < s.len() ==> is_suggestion(#[trigger] s[i], m[i]) && is_previewed(
            s[i],
            m[i],
            render,
        )
}

fn agent_or(agent_type: &Option<String>, all: &str) -> (r: String)
    ensures
        r@ == or_else(option_text(*agent_type), all@),
{
    match agent_type {
        Some(t) => t.clone(),
        None => all.to_owned(),
    }
}

fn matrix_for(agent_type: &Option<String>, action: ActionScope) -> (r: PolicyScopeMatrix)
    ensures
        r.principal == principal_of(option_text(*agent_type)),
        r.action == action,
        r.resource == ResourceScope::AnyOfType,
        r.duration == DurationScope::Always,
        option_text(r.agent_type_value) == option_text(*agent_type),
        r.role_value is None,
        r.session_id is None,
{
    PolicyScopeMatrix {
        principal: if agent_type.is_some() {
            PrincipalScope::AgentsOfType
        } else {
            PrincipalScope::AnyAgent
        },
        action,
        resource: ResourceScope::AnyOfType,
        duration: DurationScope::Always,
        agent_type_value: copy_option(agent_type),
        role_value: None,
        session_id: None,
    }
}

fn suggest_group<F: Fn(&String, &String, &String, &String, &PolicyScopeMatrix) -> String>(
    g: &GroupedPattern,
    render: &F,
) -> (r: PolicySuggestion)
    requires
        g.denied_actions.wf(),
        forall|a: &String, b: &String, c: &String, d: &String, m: &PolicyScopeMatrix| #[trigger]
            render.requires((a, b, c, d, m)),
    ensures
        is_suggestion(r, group_suggestion(g@)),
        is_previewed(r, group_suggestion(g@), *render),
{
    let matrix = matrix_for(&g.agent_type, ActionScope::AllActionsOnType);
    let agent = agent_or(&g.agent_type, "*");
    let star = "*".to_owned();
    let preview = (*render)(&agent, &star, &g.resource_type, &star, &matrix);
    let mut description = decimal_text(g.denied_actions.len() as u64);
    description.append(" actions on ");
    description.append(g.resource_type.as_str());
    description.append(" denied ");
    description.append(decimal_text(g.total_denials as u64).as_str());
    description.append(" times for ");
    description.append(agent_or(&g.agent_type, "all agents").as_str());
    proof {
        g.denied_actions.lemma_members();
    }
    let r = PolicySuggestion {
        description,
        matrix,
        cedar_preview: preview,
        denial_count: g.total_denials,
        grouped: true,
    };
    assert(render.ensures((&agent, &star, &g.resource_type, &star, &r.matrix), r.cedar_preview));
    r
}

fn suggest_action<F: Fn(&String, &String, &String, &String, &PolicyScopeMatrix) -> String>(
    p: &DenialPattern,
    render: &F,
) -> (r: PolicySuggestion)
    requires
        forall|a: &String, b: &String, c: &String, d: &String, m: &PolicyScopeMatrix| #[trigger]
            render.requires((a, b, c, d, m)),
    ensures
        is_suggestion(r, action_suggestion(p@)),
        is_previewed(r, action_suggestion(p@), *render),
{
    let matrix = matrix_for(&p.agent_type, ActionScope::ThisAction);
    let agent = agent_or(&p.agent_type, "*");
    let star = "*".to_owned();
    let preview = (*render)(&agent, &p.action, &p.resource_type, &star, &matrix);
    let mut description = p.action.clone();
    description.append(" denied ");
    description.append(decimal_text(p.count as u64).as_str());
    description.append(" times on ");
    description.append(p.resource_type.as_str());
    description.append(" for ");
    description.append(agent_or(&p.agent_type, "all agents").as_str());
    let r = PolicySuggestion {
        description,
        matrix,
        cedar_preview: preview,
        denial_count: p.count,
        grouped: false,
    };
    assert(render.ensures((&agent, &p.action, &p.resource_type, &star, &r.matrix), r.cedar_preview));
    r
}

impl PolicySuggestionEngine {
    pub open spec fn wf(&self) -> bool {
        &&& self.per_action.wf()
        &&& self.per_type.wf()
        &&& forall|key: ActionKey| #[trigger]
            self.per_action@.dom().contains(key) ==> self.per_action@[key].distinct_resource_ids.wf()
        &&& forall|key: TypeKey| #[trigger]
            self.per_type@.dom().contains(key) ==> self.per_type@[key].denied_actions.wf()
    }

    /// The engine has counted these denials and no others.
    pub open spec fn has_seen(&self, history: Seq<Denial>) -> bool {
        &&& self.wf()
        &&& patterns(self.per_action@) == patterns_after(history)
        &&& groups(self.per_type@) == groups_after(history)
    }

    /// The suggestions that the engine makes.
    pub open spec fn suggested(&self) -> Seq<SuggestionModel> {
        group_suggestions(
            self.per_type.order(),
            groups(self.per_type@),
            self.group_threshold as nat,
        ) + action_suggestions(
            self.per_action.order(),
            patterns(self.per_action@),
            self.action_threshold as nat,
            groups(self.per_type@),
            self.group_threshold as nat,
        )
    }

    /// An engine that has seen no denial, with the usual thresholds.
    pub fn new() -> (r: PolicySuggestionEngine)
        ensures
            r.wf(),
            r.has_seen(Seq::empty()),
            r.action_threshold == 3,
            r.group_threshold == 3,
            patterns(r.per_action@) == Map::<ActionKey, PatternModel>::empty(),
            groups(r.per_type@) == Map::<TypeKey, GroupModel>::empty(),
    {
        let r = PolicySuggestionEngine {
            action_threshold: 3,
            group_threshold: 3,
            per_action: SortedMap::new(),
            per_type: SortedMap::new(),
        };
        proof {
            assert(patterns(r.per_action@) =~= Map::<ActionKey, PatternModel>::empty());
            assert(groups(r.per_type@) =~= Map::<TypeKey, GroupModel>::empty());
        }
        r
    }

    /// Counts a denial.
    pub fn record_denial(
        &mut self,
        agent_type: Option<&str>,
        action: &str,
        resource_type: &str,
        resource_id: &str,
        timestamp: &str,
    )
        requires
            old(self).wf(),
            forall|key: ActionKey| #[trigger]
                old(self).per_action@.dom().contains(key) ==> old(self).per_action@[key].count
                    < usize::MAX,
            forall|key: TypeKey| #[trigger]
                old(self).per_type@.dom().contains(key) ==> old(self).per_type@[key].total_denials
                    < usize::MAX,
        ensures
            final(self).wf(),
            final(self).action_threshold == old(self).action_threshold,
            final(self).group_threshold == old(self).group_threshold,
            ({
                let d = Denial {
                    agent_type: match agent_type {
                        Some(t) => Some(t@),
                        None => None,
                    },
                    action: action@,
                    resource_type: resource_type@,
                    resource_id: resource_id@,
                    timestamp: timestamp@,
                };
                let by_action = patterns(old(self).per_action@);
                let by_type = groups(old(self).per_type@);
                &&& patterns(final(self).per_action@) == by_action.insert(
                    (d.agent_type, (d.action, d.resource_type)),
                    pattern_after(by_action, d),
                )
                &&& groups(final(self).per_type@) == by_type.insert(
                    (d.agent_type, d.resource_type),
                    group_after(by_type, d),
                )
                &&& forall|history: Seq<Denial>| #[trigger]
                    old(self).has_seen(history) ==> final(self).has_seen(history.push(d))
            }),
    {
        let ghost d = Denial {
            agent_type: match agent_type {
                Some(t) => Some(t@),
                None => None,
            },
            action: action@,
            resource_type: resource_type@,
            resource_id: resource_id@,
            timestamp: timestamp@,
        };
        let ghost by_action = patterns(self.per_action@);
        let ghost by_type = groups(self.per_type@);
        let key = (owned(agent_type), (action.to_owned(), resource_type.to_owned()));
        let ghost action_key = (d.agent_type, (d.action, d.resource_type));
        let mut pattern = match self.per_action.remove(&key) {
            Some(p) => p,
            None => DenialPattern {
                agent_type: owned(agent_type),
                action: action.to_owned(),
                resource_type: resource_type.to_owned(),
                count: 0,
                first_seen: timestamp.to_owned(),
                last_seen: timestamp.to_owned(),
                distinct_resource_ids: SortedSet::new(),
            },
        };
        pattern.count = pattern.count + 1;
        pattern.last_seen = timestamp.to_owned();
        let _ = pattern.distinct_resource_ids.insert(resource_id.to_owned());
        assert(pattern@ =~= pattern_after(by_action, d));
        let _ = self.per_action.insert(key, pattern);
        assert(patterns(self.per_action@) =~= by_action.insert(
            action_key,
            pattern_after(by_action, d),
        ));

        let type_key = (owned(agent_type), resource_type.to_owned());
        let ghost group_key = (d.agent_type, d.resource_type);
        let mut grouped = match self.per_type.remove(&type_key) {
            Some(g) => g,
            None => GroupedPattern {
                agent_type: owned(agent_type),
                resource_type: resource_type.to_owned(),
                denied_actions: SortedSet::new(),
                total_denials: 0,
            },
        };
        let _ = grouped.denied_actions.insert(action.to_owned());
        grouped.total_denials = grouped.total_denials + 1;
        assert(grouped@ =~= group_after(by_type, d));
        let _ = self.per_type.insert(type_key, grouped);
        assert(groups(self.per_type@) =~= by_type.insert(group_key, group_after(by_type, d)));
        assert forall|history: Seq<Denial>| #[trigger]
            old(self).has_seen(history) implies self.has_seen(history.push(d)) by {
            assert(history.push(d).drop_last() =~= history);
        }
    }

    /// The suggestions that the denials make so far: first those for groups, each
    /// in place of the suggestions for its actions, then those for the other
    /// actions. `render` makes the preview of a policy from the agents, the
    /// action, the resource type, the resource and the matrix.
    pub fn suggestions<F: Fn(&String, &String, &String, &String, &PolicyScopeMatrix) -> String>(
        &self,
        render: F,
    ) -> (r: Vec<PolicySuggestion>)
        requires
            self.wf(),
            forall|a: &String, b: &String, c: &String, d: &String, m: &PolicyScopeMatrix|
                #[trigger]
                render.requires((a, b, c, d, m)),
        ensures
            are_suggestions(r@, self.suggested(), render),
    {
        let mut r: Vec<PolicySuggestion> = Vec::new();
        let ghost by_type = groups(self.per_type@);
        let ghost by_action = patterns(self.per_action@);
        let ghost type_order = self.per_type.order();
        let ghost action_order = self.per_action.order();
        let ghost large = self.group_threshold as nat;
        let n: usize = self.per_type.len();
        let mut i: usize = 0;
        assert(type_order.take(0) =~= Seq::<TypeKey>::empty());
        while i < n
            invariant
                i <= n,
                n == type_order.len(),
                type_order == self.per_type.order(),
                by_type == groups(self.per_type@),
                large == self.group_threshold,
                self.wf(),
                forall|a: &String, b: &String, c: &String, d: &String, m: &PolicyScopeMatrix|
                    #[trigger]
                    render.requires((a, b, c, d, m)),
                are_suggestions(
                    r@,
                    group_suggestions(type_order.take(i as int), by_type, large),
                    render,
                ),
            decreases n - i,
        {
            proof {
                self.per_type.lemma_domain();
                let long = type_order.take(i + 1);
                assert(long.drop_last() =~= type_order.take(i as int));
                assert(long.last() == type_order[i as int]);
            }
            let g = self.per_type.value_at(i);
            proof {
                assert(self.per_type@.dom().contains(type_order[i as int]));
                assert(by_type[type_order[i as int]] == g@);
                g.denied_actions.lemma_members();
            }
            if g.denied_actions.len() >= self.group_threshold {
                r.push(suggest_group(g, &render));
            }
            i += 1;
        }
        assert(type_order.take(i as int) =~= type_order);
        let ghost first = group_suggestions(type_order, by_type, large);
        let ghost often = self.action_threshold as nat;
        let m: usize = self.per_action.len();
        let mut k: usize = 0;
        assert(action_order.take(0) =~= Seq::<ActionKey>::empty());
        assert(first + Seq::<SuggestionModel>::empty() =~= first);
        while k < m
            invariant
                k <= m,
                m == action_order.len(),
                action_order == self.per_action.order(),
                by_type == groups(self.per_type@),
                by_action == patterns(self.per_action@),
                large == self.group_threshold,
                often == self.action_threshold,
                self.wf(),
                forall|a: &String, b: &String, c: &String, d: &String, x: &PolicyScopeMatrix|
                    #[trigger]
                    render.requires((a, b, c, d, x)),
                are_suggestions(
                    r@,
                    first + action_suggestions(
                        action_order.take(k as int),
                        by_action,
                        often,
                        by_type,
                        large,
                    ),
                    render,
                ),
            decreases m - k,
        {
            let ghost shorter = action_suggestions(
                action_order.take(k as int),
                by_action,
                often,
                by_type,
                large,
            );
            proof {
                self.per_action.lemma_domain();
                let long = action_order.take(k + 1);
                assert(long.drop_last() =~= action_order.take(k as int));
                assert(long.last() == action_order[k as int]);
            }
            let p = self.per_action.value_at(k);
            let key = self.per_action.key_at(k);
            let type_key = (copy_option(&key.0), key.1.1.clone());
            let ghost group_key = (action_order[k as int].0, action_order[k as int].1.1);
            proof {
                assert(self.per_action@.dom().contains(action_order[k as int]));
                assert(by_action[action_order[k as int]] == p@);
            }
            let covered: bool = match self.per_type.get(&type_key) {
                Some(g) => {
                    proof {
                        assert(self.per_type@.dom().contains(group_key));
                        assert(by_type[group_key] == g@);
                        g.denied_actions.lemma_members();
                    }
                    g.denied_actions.len() >= self.group_threshold
                },
                None => false,
            };
            if p.count >= self.action_threshold && !covered {
                r.push(suggest_action(p, &render));
                proof {
                    assert(first + shorter.push(action_suggestion(p@)) =~= (first + shorter).push(
                        action_suggestion(p@),
                    ));
                }
            }
            k += 1;
        }
        assert(action_order.take(k as int) =~= action_order);
        r
    }
}

impl Default for PolicySuggestionEngine {
    fn default() -> (r: PolicySuggestionEngine)
        ensures
            r.wf(),
            r.has_seen(Seq::empty()),
            r.action_threshold == 3,
            r.group_threshold == 3,
            patterns(r.per_action@) == Map::<ActionKey, PatternModel>::empty(),
            groups(r.per_type@) == Map::<TypeKey, GroupModel>::empty(),
    {
        PolicySuggestionEngine::new()
    }
}

/// A suggestion for a group stands in place of those for its actions: no action
/// that a group covers adds a suggestion of its own.
pub proof fn law_groups_replace_their_actions(
    order: Seq<ActionKey>,
    m: Map<ActionKey, PatternModel>,
    threshold: nat,
    by_type: Map<TypeKey, GroupModel>,
    group_threshold: nat,
)
    requires
        order.len() > 0,
        is_covered(order.last(), by_type, group_threshold),
    ensures
        action_suggestions(order, m, threshold, by_type, group_threshold) == action_suggestions(
            order.drop_last(),
            m,
            threshold,
            by_type,
            group_threshold,
        ),
{
}

/// Below both thresholds nothing is suggested.
pub proof fn law_rare_denials_suggest_nothing(
    order: Seq<ActionKey>,
    m: Map<ActionKey, PatternModel>,
    threshold: nat,
    by_type: Map<TypeKey, GroupModel>,
    group_threshold: nat,
)
    requires
        forall|i: int| 0 <= i < order.len() ==> m[#[trigger] order[i]].count < threshold,
    ensures
        action_suggestions(order, m, threshold, by_type, group_threshold).len() == 0,
    decreases order.len(),
{
    if order.len() > 0 {
        assert(m[order[order.len() - 1]].count < threshold);
        assert forall|i: int| 0 <= i < order.drop_last().len() implies m[#[trigger] order.drop_last()[i]].count
            < threshold by {
            assert(order.drop_last()[i] == order[i]);
        }
        law_rare_denials_suggest_nothing(
            order.drop_last(),
            m,
            threshold,
            by_type,
            group_threshold,
        );
    }
}

// ---------------------------------------------------------------------------
// What a history of denials suggests
// ---------------------------------------------------------------------------

/// How often the action was denied.
pub open spec fn denials_of(history: Seq<Denial>, key: ActionKey) -> nat {
    history.fold_left(
        0nat,
        |n: nat, d: Denial|
            if action_key(d) == key {
                n + 1
            } else {
                n
            },
    )
}

/// How often any action was denied on the resource type.
pub open spec fn denials_on(history: Seq<Denial>, key: TypeKey) -> nat {
    history.fold_left(
        0nat,
        |n: nat, d: Denial|
            if type_key(d) == key {
                n + 1
            } else {
                n
            },
    )
}

/// The actions that were denied on the resource type.
pub open spec fn denied_on(history: Seq<Denial>, key: TypeKey) -> Set<Seq<char>> {
    history.fold_left(
        Set::empty(),
        |s: Set<Seq<char>>, d: Denial|
            if type_key(d) == key {
                s.insert(d.action)
            } else {
                s
            },
    )
}

/// The actions of the history, each with its agent type and its resource type.
pub open spec fn action_keys(history: Seq<Denial>) -> Set<ActionKey> {
    history.fold_left(Set::empty(), |s: Set<ActionKey>, d: Denial| s.insert(action_key(d)))
}

/// The resource types of the history, each with its agent type.
pub open spec fn type_keys(history: Seq<Denial>) -> Set<TypeKey> {
    history.fold_left(Set::empty(), |s: Set<TypeKey>, d: Denial| s.insert(type_key(d)))
}

/// What the history says of a resource type.
pub open spec fn group_in(history: Seq<Denial>, key: TypeKey) -> GroupModel {
    GroupModel {
        agent_type: key.0,
        resource_type: key.1,
        actions: denied_on(history, key),
        total: denials_on(history, key),
    }
}

/// At least `large` actions were denied on the resource type.
pub open spec fn is_group_in(history: Seq<Denial>, key: TypeKey, large: nat) -> bool {
    denied_on(history, key).len() >= large
}

/// The action was denied at least `often` times, and its resource type is no group.
pub open spec fn stands_alone(history: Seq<Denial>, key: ActionKey, often: nat, large: nat) -> bool {
    denials_of(history, key) >= often && !is_group_in(history, (key.0, key.1.1), large)
}

/// What the history suggests: a policy for each resource type on which at least
/// `large` actions were denied, then one for each other action that was denied at
/// least `often` times.
pub open spec fn suggestions_for(history: Seq<Denial>, often: nat, large: nat) -> Seq<
    SuggestionModel,
> {
    sorted::<(Option<String>, String)>(type_keys(history)).filter(
        |key: TypeKey| is_group_in(history, key, large),
    ).map_values(|key: TypeKey| group_suggestion(group_in(history, key)))
        + sorted::<(Option<String>, (String, String))>(action_keys(history)).filter(
        |key: ActionKey| stands_alone(history, key, often, large),
    ).map_values(|key: ActionKey| single_suggestion(key, denials_of(history, key)))
}

/// What one more denial adds to what a history says.
proof fn lemma_last_denial(history: Seq<Denial>)
    requires
        history.len() > 0,
    ensures
        forall|key: ActionKey| #[trigger]
            denials_of(history, key) == denials_of(history.drop_last(), key) + if action_key(
                history.last(),
            ) == key {
                1nat
            } else {
                0nat
            },
        forall|key: TypeKey| #[trigger]
            denials_on(history, key) == denials_on(history.drop_last(), key) + if type_key(
                history.last(),
            ) == key {
                1nat
            } else {
                0nat
            },
        forall|key: TypeKey| #[trigger]
            denied_on(history, key) == if type_key(history.last()) == key {
                denied_on(history.drop_last(), key).insert(history.last().action)
            } else {
                denied_on(history.drop_last(), key)
            },
        action_keys(history) == action_keys(history.drop_last()).insert(
            action_key(history.last()),
        ),
        type_keys(history) == type_keys(history.drop_last()).insert(type_key(history.last())),
{
}

/// The patterns hold what the history says of each action.
proof fn lemma_patterns_after(history: Seq<Denial>)
    ensures
        patterns_after(history).dom() == action_keys(history),
        forall|key: ActionKey| #[trigger]
            patterns_after(history).dom().contains(key) ==> ({
                let p = patterns_after(history)[key];
                (p.agent_type, (p.action, p.resource_type)) == key && p.count == denials_of(
                    history,
                    key,
                )
            }),
        forall|key: ActionKey| #[trigger]
            denials_of(history, key) > 0 ==> patterns_after(history).dom().contains(key),
    decreases history.len(),
{
    if history.len() > 0 {
        lemma_patterns_after(history.drop_last());
        lemma_last_denial(history);
    } else {
        assert(patterns_after(history).dom() =~= action_keys(history));
    }
}

/// The groups hold what the history says of each resource type.
proof fn lemma_groups_after(history: Seq<Denial>)
    ensures
        groups_after(history).dom() == type_keys(history),
        forall|key: TypeKey| #[trigger]
            groups_after(history).dom().contains(key) ==> groups_after(history)[key] == group_in(
                history,
                key,
            ),
        forall|key: TypeKey|
            !groups_after(history).dom().contains(key) ==> #[trigger] denials_on(history, key) == 0,
        forall|key: TypeKey|
            !groups_after(history).dom().contains(key) ==> #[trigger] denied_on(history, key)
                == Set::<Seq<char>>::empty(),
    decreases history.len(),
{
    if history.len() > 0 {
        lemma_groups_after(history.drop_last());
        lemma_last_denial(history);
    } else {
        assert(groups_after(history).dom() =~= type_keys(history));
    }
}

/// Walking groups that hold what the history says suggests what the history does.
proof fn lemma_group_suggestions(
    order: Seq<TypeKey>,
    m: Map<TypeKey, GroupModel>,
    history: Seq<Denial>,
    large: nat,
)
    requires
        forall|i: int|
            0 <= i < order.len() ==> m[#[trigger] order[i]] == group_in(history, order[i]),
    ensures
        group_suggestions(order, m, large) == order.filter(
            |key: TypeKey| is_group_in(history, key, large),
        ).map_values(|key: TypeKey| group_suggestion(group_in(history, key))),
    decreases order.len(),
{
    reveal(Seq::filter);
    let kept = |key: TypeKey| is_group_in(history, key, large);
    let made = |key: TypeKey| group_suggestion(group_in(history, key));
    if order.len() == 0 {
        assert(order.filter(kept).map_values(made) =~= Seq::empty());
    } else {
        let shorter = order.drop_last();
        assert forall|i: int| 0 <= i < shorter.len() implies m[#[trigger] shorter[i]] == group_in(
            history,
            shorter[i],
        ) by {
            assert(shorter[i] == order[i]);
        }
        lemma_group_suggestions(shorter, m, history, large);
        let last = order[order.len() - 1];
        assert(shorter.filter(kept).push(last).map_values(made) =~= shorter.filter(kept).map_values(
            made,
        ).push(made(last)));
    }
}

/// Walking patterns that hold what the history says suggests what the history does.
proof fn lemma_action_suggestions(
    order: Seq<ActionKey>,
    m: Map<ActionKey, PatternModel>,
    by_type: Map<TypeKey, GroupModel>,
    history: Seq<Denial>,
    often: nat,
    large: nat,
)
    requires
        forall|i: int|
            0 <= i < order.len() ==> {
                let p = m[#[trigger] order[i]];
                &&& (p.agent_type, (p.action, p.resource_type)) == order[i]
                &&& p.count == denials_of(history, order[i])
                &&& is_covered(order[i], by_type, large) == is_group_in(
                    history,
                    (order[i].0, order[i].1.1),
                    large,
                )
            },
    ensures
        action_suggestions(order, m, often, by_type, large) == order.filter(
            |key: ActionKey| stands_alone(history, key, often, large),
        ).map_values(|key: ActionKey| single_suggestion(key, denials_of(history, key))),
    decreases order.len(),
{
    reveal(Seq::filter);
    let kept = |key: ActionKey| stands_alone(history, key, often, large);
    let made = |key: ActionKey| single_suggestion(key, denials_of(history, key));
    if order.len() == 0 {
        assert(order.filter(kept).map_values(made) =~= Seq::empty());
    } else {
        let shorter = order.drop_last();
        assert forall|i: int| 0 <= i < shorter.len() implies {
            let p = m[#[trigger] shorter[i]];
            &&& (p.agent_type, (p.action, p.resource_type)) == shorter[i]
            &&& p.count == denials_of(history, shorter[i])
            &&& is_covered(shorter[i], by_type, large) == is_group_in(
                history,
                (shorter[i].0, shorter[i].1.1),
                large,
            )
        } by {
            assert(shorter[i] == order[i]);
        }
        lemma_action_suggestions(shorter, m, by_type, history, often, large);
        let last = order[order.len() - 1];
        assert(shorter.filter(kept).push(last).map_values(made) =~= shorter.filter(kept).map_values(
            made,
        ).push(made(last)));
    }
}

/// Actions were denied on a resource type only where a denial on it was counted.
proof fn lemma_actions_of_type(history: Seq<Denial>, key: ActionKey)
    requires
        action_keys(history).contains(key),
    ensures
        type_keys(history).contains((key.0, key.1.1)),
    decreases history.len(),
{
    if history.len() > 0 {
        lemma_last_denial(history);
        if action_key(history.last()) != key {
            lemma_actions_of_type(history.drop_last(), key);
        }
    }
}

/// What is suggested is a function of the denials that were counted and of nothing
/// else: however an engine came to its state, its counts and its suggestions are
/// those of the whole history.
pub proof fn law_suggestions_follow_from_denials(
    engine: PolicySuggestionEngine,
    history: Seq<Denial>,
)
    requires
        engine.has_seen(history),
    ensures
        engine.suggested() == suggestions_for(
            history,
            engine.action_threshold as nat,
            engine.group_threshold as nat,
        ),
        engine.per_action@.dom() == action_keys(history),
        engine.per_type@.dom() == type_keys(history),
        forall|key: ActionKey| #[trigger]
            engine.per_action@.dom().contains(key) ==> engine.per_action@[key].count == denials_of(
                history,
                key,
            ),
        forall|key: TypeKey| #[trigger]
            engine.per_type@.dom().contains(key) ==> engine.per_type@[key]@ == group_in(
                history,
                key,
            ),
{
    let by_action = patterns(engine.per_action@);
    let by_type = groups(engine.per_type@);
    let often = engine.action_threshold as nat;
    let large = engine.group_threshold as nat;
    lemma_patterns_after(history);
    lemma_groups_after(history);
    engine.per_action.lemma_domain();
    engine.per_type.lemma_domain();
    assert(engine.per_action@.dom() =~= by_action.dom());
    assert(engine.per_type@.dom() =~= by_type.dom());
    assert forall|key: ActionKey| #[trigger]
        engine.per_action@.dom().contains(key) implies engine.per_action@[key].count == denials_of(
        history,
        key,
    ) by {
        assert(by_action.dom().contains(key));
        assert(by_action[key] == engine.per_action@[key]@);
    }
    assert forall|key: TypeKey| #[trigger]
        engine.per_type@.dom().contains(key) implies engine.per_type@[key]@ == group_in(
        history,
        key,
    ) by {
        assert(by_type.dom().contains(key));
        assert(by_type[key] == engine.per_type@[key]@);
    }
    let types = engine.per_type.order();
    assert forall|i: int| 0 <= i < types.len() implies by_type[#[trigger] types[i]] == group_in(
        history,
        types[i],
    ) by {
        assert(by_type.dom().contains(types[i]));
    }
    lemma_group_suggestions(types, by_type, history, large);
    let actions = engine.per_action.order();
    assert forall|i: int| 0 <= i < actions.len() implies {
        let p = by_action[#[trigger] actions[i]];
        &&& (p.agent_type, (p.action, p.resource_type)) == actions[i]
        &&& p.count == denials_of(history, actions[i])
        &&& is_covered(actions[i], by_type, large) == is_group_in(
            history,
            (actions[i].0, actions[i].1.1),
            large,
        )
    } by {
        assert(by_action.dom().contains(actions[i]));
        lemma_actions_of_type(history, actions[i]);
        assert(by_type.dom().contains((actions[i].0, actions[i].1.1)));
    }
    lemma_action_suggestions(actions, by_action, by_type, history, often, large);
}

/// The order of denials does not matter: two histories of the same denials have the
/// same counts, the same denied actions and the same suggestions.
pub proof fn law_order_of_denials_does_not_matter(
    a: Seq<Denial>,
    b: Seq<Denial>,
    often: nat,
    large: nat,
)
    requires
        a.to_multiset() == b.to_multiset(),
    ensures
        action_keys(a) == action_keys(b),
        type_keys(a) == type_keys(b),
        forall|key: ActionKey| #[trigger] denials_of(a, key) == denials_of(b, key),
        forall|key: TypeKey| #[trigger] denials_on(a, key) == denials_on(b, key),
        forall|key: TypeKey| #[trigger] denied_on(a, key) == denied_on(b, key),
        suggestions_for(a, often, large) == suggestions_for(b, often, large),
{
    let f = |s: Set<ActionKey>, d: Denial| s.insert(action_key(d));
    assert forall|x: Denial, y: Denial, s: Set<ActionKey>| #[trigger] f(f(s, x), y) == f(f(s, y), x) by {
        assert(f(f(s, x), y) =~= f(f(s, y), x));
    }
    vstd::seq_lib::lemma_fold_left_permutation(a, b, f, Set::empty());
    let f = |s: Set<TypeKey>, d: Denial| s.insert(type_key(d));
    assert forall|x: Denial, y: Denial, s: Set<TypeKey>| #[trigger] f(f(s, x), y) == f(f(s, y), x) by {
        assert(f(f(s, x), y) =~= f(f(s, y), x));
    }
    vstd::seq_lib::lemma_fold_left_permutation(a, b, f, Set::empty());
    assert forall|key: ActionKey| #[trigger] denials_of(a, key) == denials_of(b, key) by {
        let f = |n: nat, d: Denial|
            if action_key(d) == key {
                n + 1
            } else {
                n
            };
        vstd::seq_lib::lemma_fold_left_permutation(a, b, f, 0nat);
    }
    assert forall|key: TypeKey| #[trigger] denials_on(a, key) == denials_on(b, key) by {
        let f = |n: nat, d: Denial|
            if type_key(d) == key {
                n + 1
            } else {
                n
            };
        vstd::seq_lib::lemma_fold_left_permutation(a, b, f, 0nat);
    }
    assert forall|key: TypeKey| #[trigger] denied_on(a, key) == denied_on(b, key) by {
        let f = |s: Set<Seq<char>>, d: Denial|
            if type_key(d) == key {
                s.insert(d.action)
            } else {
                s
            };
        assert forall|x: Denial, y: Denial, s: Set<Seq<char>>| #[trigger]
            f(f(s, x), y) == f(f(s, y), x) by {
            assert(f(f(s, x), y) =~= f(f(s, y), x));
        }
        vstd::seq_lib::lemma_fold_left_permutation(a, b, f, Set::empty());
    }
    assert((|key: TypeKey| is_group_in(a, key, large)) =~= (|key: TypeKey|
        is_group_in(b, key, large)));
    assert((|key: TypeKey| group_suggestion(group_in(a, key))) =~= (|key: TypeKey|
        group_suggestion(group_in(b, key))));
    assert((|key: ActionKey| stands_alone(a, key, often, large)) =~= (|key: ActionKey|
        stands_alone(b, key, often, large)));
    assert((|key: ActionKey| single_suggestion(key, denials_of(a, key))) =~= (|key: ActionKey|
        single_suggestion(key, denials_of(b, key))));
}

/// The matrices have the same scopes and texts.
pub open spec fn same_matrix(a: PolicyScopeMatrix, b: PolicyScopeMatrix) -> bool {
    &&& a.principal == b.principal
    &&& a.action == b.action
    &&& a.resource == b.resource
    &&& a.duration == b.duration
    &&& option_text(a.agent_type_value) == option_text(b.agent_type_value)
    &&& option_text(a.role_value) == option_text(b.role_value)
    &&& option_text(a.session_id) == option_text(b.session_id)
}

/// What `render` makes depends on the texts and the matrix that it is given, and on
/// nothing else.
pub open spec fn depends_on_texts<
    F: Fn(&String, &String, &String, &String, &PolicyScopeMatrix) -> String,
>(render: F) -> bool {
    forall|
        a: &String,
        b: &String,
        c: &String,
        d: &String,
        m: &PolicyScopeMatrix,
        x: String,
        e: &String,
        f: &String,
        g: &String,
        h: &String,
        n: &PolicyScopeMatrix,
        y: String,
    |
        #![trigger render.ensures((a, b, c, d, m), x), render.ensures((e, f, g, h, n), y)]
        render.ensures((a, b, c, d, m), x) && render.ensures((e, f, g, h, n), y) && a@ == e@ && b@
            == f@ && c@ == g@ && d@ == h@ && same_matrix(*m, *n) ==> x@ == y@
}

/// The suggestions are equal, entry by entry.
pub open spec fn same_suggestions(a: Seq<PolicySuggestion>, b: Seq<PolicySuggestion>) -> bool {
    a.len() == b.len() && forall|i: int|
        #![trigger a[i], b[i]]
        0 <= i < a.len() ==> {
            &&& a[i].description@ == b[i].description@
            &&& same_matrix(a[i].matrix, b[i].matrix)
            &&& a[i].cedar_preview@ == b[i].cedar_preview@
            &&& a[i].denial_count == b[i].denial_count
            &&& a[i].grouped == b[i].grouped
        }
}

/// Two engines that were told of the same denials, in whatever order, suggest the
/// same: `x` and `y` are what their `suggestions` may return.
pub proof fn law_permuted_denials_suggest_the_same<
    F: Fn(&String, &String, &String, &String, &PolicyScopeMatrix) -> String,
>(
    a: PolicySuggestionEngine,
    b: PolicySuggestionEngine,
    told_a: Seq<Denial>,
    told_b: Seq<Denial>,
    render: F,
    x: Seq<PolicySuggestion>,
    y: Seq<PolicySuggestion>,
)
    requires
        a.has_seen(told_a),
        b.has_seen(told_b),
        told_a.to_multiset() == told_b.to_multiset(),
        a.action_threshold == b.action_threshold,
        a.group_threshold == b.group_threshold,
        depends_on_texts(render),
        are_suggestions(x, a.suggested(), render),
        are_suggestions(y, b.suggested(), render),
    ensures
        a.suggested() == b.suggested(),
        same_suggestions(x, y),
{
    law_suggestions_follow_from_denials(a, told_a);
    law_suggestions_follow_from_denials(b, told_b);
    law_order_of_denials_does_not_matter(
        told_a,
        told_b,
        a.action_threshold as nat,
        a.group_threshold as nat,
    );
    let models = a.suggested();
    assert forall|i: int|
        #![trigger x[i], y[i]]
        0 <= i < x.len() implies x[i].cedar_preview@ == y[i].cedar_preview@ && same_matrix(
        x[i].matrix,
        y[i].matrix,
    ) by {
        assert(is_suggestion(x[i], models[i]) && is_previewed(x[i], models[i], render));
        assert(is_suggestion(y[i], models[i]) && is_previewed(y[i], models[i], render));
        assert(same_matrix(x[i].matrix, y[i].matrix));
    }
}

/// The denials of an action are those with its agent type, its name and its resource type,
/// and so many are counted; those on a resource type are all with its agent type.
pub proof fn law_denials_are_counted_where_they_belong(
    history: Seq<Denial>,
    agent_type: Option<Seq<char>>,
    action: Seq<char>,
    resource_type: Seq<char>,
)
    ensures
        denials_of(history, (agent_type, (action, resource_type))) == history.filter(
            |d: Denial|
                d.agent_type == agent_type && d.action == action && d.resource_type
                    == resource_type,
        ).len(),
        denials_on(history, (agent_type, resource_type)) == history.filter(
            |d: Denial| d.agent_type == agent_type && d.resource_type == resource_type,
        ).len(),
        denied_on(history, (agent_type, resource_type)).contains(action) <==> exists|i: int|
            0 <= i < history.len() && (#[trigger] history[i]).agent_type == agent_type
                && history[i].action == action && history[i].resource_type == resource_type,
    decreases history.len(),
{
    reveal(Seq::filter);
    if history.len() > 0 {
        let before = history.drop_last();
        let n = history.len() - 1;
        law_denials_are_counted_where_they_belong(before, agent_type, action, resource_type);
        lemma_last_denial(history);
        assert(history[n] == history.last());
        assert forall|i: int| 0 <= i < n implies #[trigger] before[i] == history[i] by {}
        if exists|i: int|
            0 <= i < before.len() && (#[trigger] before[i]).agent_type == agent_type
                && before[i].action == action && before[i].resource_type == resource_type {
            let i = choose|i: int|
                0 <= i < before.len() && (#[trigger] before[i]).agent_type == agent_type
                    && before[i].action == action && before[i].resource_type == resource_type;
            assert(history[i].agent_type == agent_type);
        }
        if exists|i: int|
            0 <= i < history.len() && (#[trigger] history[i]).agent_type == agent_type
                && history[i].action == action && history[i].resource_type == resource_type {
            let i = choose|i: int|
                0 <= i < history.len() && (#[trigger] history[i]).agent_type == agent_type
                    && history[i].action == action && history[i].resource_type == resource_type;
            if i < n {
                assert(before[i].agent_type == agent_type);
            }
        }
    }
}

/// A pattern tells when its action was first denied, when it was last denied, and on which
/// resources: `first` and `last` are the places of these denials in the history.
pub proof fn law_patterns_tell_first_and_last(
    history: Seq<Denial>,
    key: ActionKey,
    first: int,
    last: int,
    resource: Seq<char>,
)
    requires
        0 <= first <= last < history.len(),
        action_key(history[first]) == key,
        action_key(history[last]) == key,
        forall|j: int| 0 <= j < first ==> action_key(#[trigger] history[j]) != key,
        forall|j: int| last < j < history.len() ==> action_key(#[trigger] history[j]) != key,
    ensures
        patterns_after(history).dom().contains(key),
        patterns_after(history)[key].first_seen == history[first].timestamp,
        patterns_after(history)[key].last_seen == history[last].timestamp,
        patterns_after(history)[key].resource_ids.contains(resource) <==> exists|i: int|
            0 <= i < history.len() && action_key(#[trigger] history[i]) == key
                && history[i].resource_id == resource,
    decreases history.len(),
{
    let before = history.drop_last();
    let n = history.len() - 1;
    assert forall|i: int| 0 <= i < n implies #[trigger] before[i] == history[i] by {}
    if action_key(history[n]) != key {
        assert(last < n);
        assert forall|j: int| 0 <= j < first implies action_key(#[trigger] before[j]) != key by {
            assert(before[j] == history[j]);
        }
        assert forall|j: int| last < j < before.len() implies action_key(#[trigger] before[j])
            != key by {
            assert(before[j] == history[j]);
        }
        law_patterns_tell_first_and_last(before, key, first, last, resource);
        lemma_same_resources(history, key, resource);
    } else {
        assert(last == n);
        if first < n {
            let prior = lemma_last_place(before, key, first);
            assert forall|j: int| 0 <= j < first implies action_key(#[trigger] before[j])
                != key by {
                assert(before[j] == history[j]);
            }
            law_patterns_tell_first_and_last(before, key, first, prior, resource);
            lemma_same_resources(history, key, resource);
        } else {
            lemma_patterns_after(before);
            assert(!patterns_after(before).dom().contains(key)) by {
                assert forall|j: int| 0 <= j < before.len() implies action_key(
                    #[trigger] before[j],
                ) != key by {
                    assert(before[j] == history[j]);
                }
                lemma_no_pattern(before, key);
            }
            assert(action_key(history[n]) == key);
            if exists|i: int|
                0 <= i < history.len() && action_key(#[trigger] history[i]) == key
                    && history[i].resource_id == resource {
                let i = choose|i: int|
                    0 <= i < history.len() && action_key(#[trigger] history[i]) == key
                        && history[i].resource_id == resource;
                assert(i == n);
            }
        }
    }
}

proof fn lemma_no_pattern(history: Seq<Denial>, key: ActionKey)
    requires
        forall|j: int| 0 <= j < history.len() ==> action_key(#[trigger] history[j]) != key,
    ensures
        !patterns_after(history).dom().contains(key),
    decreases history.len(),
{
    if history.len() > 0 {
        let before = history.drop_last();
        assert(action_key(history[history.len() - 1]) != key);
        assert forall|j: int| 0 <= j < before.len() implies action_key(#[trigger] before[j])
            != key by {
            assert(before[j] == history[j]);
        }
        lemma_no_pattern(before, key);
    }
}

proof fn lemma_last_place(history: Seq<Denial>, key: ActionKey, first: int) -> (last: int)
    requires
        0 <= first < history.len(),
        action_key(history[first]) == key,
    ensures
        first <= last < history.len(),
        action_key(history[last]) == key,
        forall|j: int| last < j < history.len() ==> action_key(#[trigger] history[j]) != key,
    decreases history.len(),
{
    let n = history.len() - 1;
    if action_key(history[n]) == key {
        n
    } else {
        let before = history.drop_last();
        assert(before[first] == history[first]);
        let last = lemma_last_place(before, key, first);
        assert(before[last] == history[last]);
        assert forall|j: int| last < j < history.len() implies action_key(#[trigger] history[j])
            != key by {
            if j < n {
                assert(before[j] == history[j]);
            }
        }
        last
    }
}

proof fn lemma_same_resources(history: Seq<Denial>, key: ActionKey, resource: Seq<char>)
    requires
        history.len() > 0,
    ensures
        (exists|i: int|
            0 <= i < history.len() && action_key(#[trigger] history[i]) == key
                && history[i].resource_id == resource) <==> (exists|i: int|
            0 <= i < history.len() - 1 && action_key(#[trigger] history.drop_last()[i]) == key
                && history.drop_last()[i].resource_id == resource) || (action_key(history.last())
            == key && history.last().resource_id == resource),
{
    let before = history.drop_last();
    let n = history.len() - 1;
    if exists|i: int|
        0 <= i < history.len() && action_key(#[trigger] history[i]) == key
            && history[i].resource_id == resource {
        let i = choose|i: int|
            0 <= i < history.len() && action_key(#[trigger] history[i]) == key
                && history[i].resource_id == resource;
        if i < n {
            assert(action_key(before[i]) == key);
        }
    }
    if exists|i: int|
        0 <= i < n && action_key(#[trigger] before[i]) == key && before[i].resource_id
            == resource {
        let i = choose|i: int|
            0 <= i < n && action_key(#[trigger] before[i]) == key && before[i].resource_id
                == resource;
        assert(action_key(history[i]) == key);
    }
    assert(history[n] == history.last());
}

/// A suggestion for an action covers that action alone, one for a group all actions on its
/// type; both are for the agents that were denied, on any resource of the type and for
/// good, and tell how often they were denied.
pub proof fn law_suggestions_cover_what_was_denied(
    s: PolicySuggestion,
    key: ActionKey,
    count: nat,
    g: GroupModel,
)
    ensures
        is_suggestion(s, single_suggestion(key, count)) ==> {
            &&& s.matrix.action == ActionScope::ThisAction
            &&& !s.grouped
            &&& s.denial_count == count
            &&& option_text(s.matrix.agent_type_value) == key.0
            &&& s.matrix.principal == PrincipalScope::AgentsOfType <==> key.0 is Some
            &&& has_prefix(
                s.description@,
                key.1.0 + " denied "@ + decimal(count) + " times on "@ + key.1.1,
            )
        },
        is_suggestion(s, group_suggestion(g)) ==> {
            &&& s.matrix.action == ActionScope::AllActionsOnType
            &&& s.grouped
            &&& s.denial_count == g.total
            &&& option_text(s.matrix.agent_type_value) == g.agent_type
            &&& s.matrix.principal == PrincipalScope::AgentsOfType <==> g.agent_type is Some
            &&& has_prefix(
                s.description@,
                decimal(g.actions.len()) + " actions on "@ + g.resource_type + " denied "@
                    + decimal(g.total),
            )
        },
        is_suggestion(s, single_suggestion(key, count)) || is_suggestion(s, group_suggestion(g))
            ==> s.matrix.resource == ResourceScope::AnyOfType && s.matrix.duration
            == DurationScope::Always && s.matrix.role_value is None && s.matrix.session_id is None,
        single_suggestion(key, count).previewed_action == key.1.0,
        single_suggestion(key, count).resource_type == key.1.1,
        group_suggestion(g).previewed_action == seq!['*'],
        group_suggestion(g).resource_type == g.resource_type,
{
    reveal_strlit("*");
    assert("*"@ =~= seq!['*']);
    let single = single_suggestion(key, count).description;
    let head = key.1.0 + " denied "@ + decimal(count) + " times on "@ + key.1.1;
    assert(single.take(head.len() as int) =~= head);
    let grouped = group_suggestion(g).description;
    let front = decimal(g.actions.len()) + " actions on "@ + g.resource_type + " denied "@
        + decimal(g.total);
    assert(grouped.take(front.len() as int) =~= front);
}

/// A resource type is a group from so many actions on, however often each was denied; and
/// an action stands alone from so many denials on, where its type is no group.
pub proof fn law_thresholds_are_reached_not_passed(
    history: Seq<Denial>,
    key: ActionKey,
    often: nat,
    large: nat,
    g: GroupModel,
)
    ensures
        g.actions.len() == large ==> is_group(g, large),
        g.actions.len() + 1 == large ==> !is_group(g, large),
        denied_on(history, (key.0, key.1.1)).len() >= large ==> !stands_alone(
            history,
            key,
            often,
            large,
        ),
        denied_on(history, (key.0, key.1.1)).len() < large && denials_of(history, key) == often
            ==> stands_alone(history, key, often, large),
        denials_of(history, key) < often ==> !stands_alone(history, key, often, large),
{
}

} // verus!
