//! What an authorization decision is made on, and what it comes to.

use vstd::prelude::*;
use vstd::string::*;

use crate::json::field;
use crate::json::get_text;
use crate::json::json_wf;
use crate::json::member;
use crate::json::members_wf;
use crate::json::names;
use crate::json::text_field;
use crate::json::JsonMember;
use crate::json::JsonValue;
use crate::sorted::lemma_ascending_unique;
use crate::sorted::SortedMap;
use crate::sorted::SortedSet;

verus! {

/// Another entity whose status counts in the decision: its type, and the field
/// that holds its id.
pub struct ContextEntityDecl {
    pub name: String,
    pub entity_type: String,
    pub id_field: String,
}

/// The id of a context entity, where the fields give one.
pub open spec fn target_of(fields: JsonValue, decl: ContextEntityDecl) -> Option<Seq<char>> {
    match text_field(fields, decl.id_field@) {
        Some(id) => if id.len() > 0 {
            Some(id)
        } else {
            None
        },
        None => None,
    }
}

/// The id of a context entity, where the fields give one.
pub fn context_target(fields: &JsonValue, decl: &ContextEntityDecl) -> (r: Option<String>)
    requires
        json_wf(*fields),
    ensures
        r is Some == target_of(*fields, *decl) is Some,
        r matches Some(id) ==> target_of(*fields, *decl) == Some(id@),
{
    match get_text(fields, decl.id_field.as_str()) {
        Some(id) => if id.as_str().unicode_len() > 0 {
            Some(id)
        } else {
            None
        },
        None => None,
    }
}

/// The id of a context entity is the text under the field that its declaration names;
/// an empty one, and anything but a text, names none.
pub proof fn law_context_targets_are_the_named_ids(fields: JsonValue, decl: ContextEntityDecl)
    ensures
        field(fields, decl.id_field@) matches Some(JsonValue::Text(id)) ==> id@.len() > 0
            ==> target_of(fields, decl) == Some(id@),
        target_of(fields, decl) matches Some(id) ==> id.len() > 0 && (field(
            fields,
            decl.id_field@,
        ) matches Some(JsonValue::Text(t)) && t@ == id),
{
}

/// The status of a context entity.
pub struct ContextStatus {
    pub name: String,
    pub status: String,
}

/// The attribute under which a context entity's status stands.
pub open spec fn context_attr(name: Seq<char>) -> Seq<char> {
    "ctx_"@ + name + "_status"@
}

/// The status that stands under an attribute: the last one given.
pub open spec fn context_value(contexts: Seq<ContextStatus>, attr: Seq<char>) -> Option<Seq<char>>
    decreases contexts.len(),
{
    if contexts.len() == 0 {
        None
    } else if context_attr(contexts.last().name@) == attr {
        Some(contexts.last().status@)
    } else {
        context_value(contexts.drop_last(), attr)
    }
}

/// What the attributes are built from.
pub struct AttrSource {
    pub entity_id: Seq<char>,
    pub status: Seq<char>,
    pub fields: JsonValue,
    /// The field names that the server derives itself.
    pub derived: Set<Seq<char>>,
    pub contexts: Seq<ContextStatus>,
    pub has_spec: bool,
}

/// The value is a text.
pub open spec fn is_text(value: JsonValue, text: Seq<char>) -> bool {
    value matches JsonValue::Text(t) && t@ == text
}

/// The field of an attribute, where a field may give it.
pub open spec fn given_field(source: AttrSource, attr: Seq<char>) -> Option<JsonValue> {
    if source.derived.contains(attr) {
        None
    } else {
        field(source.fields, attr)
    }
}

/// The resource has the attribute.
pub open spec fn has_attr(source: AttrSource, attr: Seq<char>) -> bool {
    ||| attr == "has_spec"@
    ||| context_value(source.contexts, attr) is Some
    ||| attr == "status"@
    ||| attr == "Status"@
    ||| attr == "id"@
    ||| attr == "Id"@
    ||| given_field(source, attr) is Some
}

/// The value is the one that the attribute has. What the server knows wins over
/// what the fields say.
pub open spec fn is_attr_value(source: AttrSource, attr: Seq<char>, value: JsonValue) -> bool {
    if attr == "has_spec"@ {
        value == JsonValue::Bool(source.has_spec)
    } else if context_value(source.contexts, attr) is Some {
        is_text(value, context_value(source.contexts, attr)->0)
    } else if attr == "status"@ || attr == "Status"@ {
        is_text(value, source.status)
    } else if attr == "id"@ || attr == "Id"@ {
        is_text(value, source.entity_id)
    } else {
        given_field(source, attr) == Some(value)
    }
}

/// The attributes that the fields give.
fn field_attrs(fields: JsonValue, derived: &SortedSet<String>) -> (r: SortedMap<String, JsonValue>)
    requires
        json_wf(fields),
        derived.wf(),
    ensures
        r.wf(),
        forall|attr: Seq<char>| #[trigger]
            r@.dom().contains(attr) <==> field(fields, attr) is Some && !derived@.contains(attr),
        forall|attr: Seq<char>| #[trigger]
            r@.dom().contains(attr) ==> field(fields, attr) == Some(r@[attr]),
{
    let mut attrs: SortedMap<String, JsonValue> = SortedMap::new();
    match fields {
        JsonValue::Object(members) => {
            let ghost all = members@;
            let ghost order = names(all);
            let mut rest: Vec<JsonMember> = members;
            assert(all.take(all.len() as int) =~= all);
            while rest.len() > 0
                invariant
                    derived.wf(),
                    members_wf(all),
                    order == names(all),
                    attrs.wf(),
                    rest@.len() <= all.len(),
                    rest@ == all.take(rest@.len() as int),
                    forall|attr: Seq<char>| #[trigger]
                        attrs@.dom().contains(attr) <==> order.skip(rest@.len() as int).contains(
                            attr,
                        ) && !derived@.contains(attr),
                    forall|attr: Seq<char>| #[trigger]
                        attrs@.dom().contains(attr) ==> member(all, attr) == Some(attrs@[attr]),
                decreases rest@.len(),
            {
                let ghost n = rest@.len();
                let last = rest.pop();
                match last {
                    Some(m) => {
                        proof {
                            assert(m == all[n - 1]);
                            assert(order[n - 1] == m.name@);
                            assert(rest@ =~= all.take(n - 1));
                            lemma_ascending_unique::<String>(order, n - 1);
                            let short = order.skip(n as int);
                            let long = order.skip(n - 1);
                            assert forall|x: Seq<char>| #[trigger] long.contains(x) <==> x
                                == m.name@ || short.contains(x) by {
                                if short.contains(x) {
                                    let j = choose|j: int| 0 <= j < short.len() && short[j] == x;
                                    assert(long[j + 1] == x);
                                }
                                if long.contains(x) {
                                    let j = choose|j: int| 0 <= j < long.len() && long[j] == x;
                                    if j > 0 {
                                        assert(short[j - 1] == x);
                                    }
                                }
                                assert(long[0] == m.name@);
                            }
                        }
                        if !derived.contains(&m.name) {
                            let _ = attrs.insert(m.name, m.value);
                        }
                    },
                    None => {},
                }
            }
            proof {
                assert(order.skip(0) =~= order);
            }
            attrs
        },
        _ => attrs,
    }
}

/// The attributes of a resource. A client cannot pose as another entity, or in
/// another status, by fields of those names.
pub fn build_authz_resource_attrs(
    entity_id: &str,
    status: &str,
    fields: JsonValue,
    derived: &SortedSet<String>,
    contexts: &Vec<ContextStatus>,
    has_spec: bool,
) -> (r: SortedMap<String, JsonValue>)
    requires
        json_wf(fields),
        derived.wf(),
    ensures
        r.wf(),
        ({
            let source = AttrSource {
                entity_id: entity_id@,
                status: status@,
                fields,
                derived: derived@,
                contexts: contexts@,
                has_spec,
            };
            forall|attr: Seq<char>|
                {
                    &&& #[trigger] r@.dom().contains(attr) <==> has_attr(source, attr)
                    &&& r@.dom().contains(attr) ==> is_attr_value(source, attr, r@[attr])
                }
        }),
        forall|i: int|
            0 <= i < contexts@.len() && is_last_of_its_name(contexts@, i) ==> {
                let attr = "ctx_"@ + (#[trigger] contexts@[i]).name@ + "_status"@;
                r@.dom().contains(attr) && is_text(r@[attr], contexts@[i].status@)
            },
        r@.dom().contains("id"@) && is_text(r@["id"@], entity_id@),
        r@.dom().contains("Id"@) && is_text(r@["Id"@], entity_id@),
        r@.dom().contains("status"@) && is_text(r@["status"@], status@),
        r@.dom().contains("Status"@) && is_text(r@["Status"@], status@),
        r@.dom().contains("has_spec"@) && r@["has_spec"@] == JsonValue::Bool(has_spec),
{
    let r = build_attrs(entity_id, status, fields, derived, contexts, has_spec);
    proof {
        let source = AttrSource {
            entity_id: entity_id@,
            status: status@,
            fields,
            derived: derived@,
            contexts: contexts@,
            has_spec,
        };
        assert forall|i: int|
            0 <= i < contexts@.len() && is_last_of_its_name(contexts@, i) implies {
            let attr = "ctx_"@ + (#[trigger] contexts@[i]).name@ + "_status"@;
            r@.dom().contains(attr) && is_text(r@[attr], contexts@[i].status@)
        } by {
            let attr = "ctx_"@ + contexts@[i].name@ + "_status"@;
            assert(r@.dom().contains(attr) <==> has_attr(source, attr)) by {
                let _ = r@.dom().contains(attr);
            }
            law_contexts_give_their_status(source, i);
            law_attributes_are_told_by_their_source(source, attr, r@[attr], i);
        }
        assert(r@.dom().contains("id"@));
        assert(r@.dom().contains("Id"@));
        assert(r@.dom().contains("status"@));
        assert(r@.dom().contains("Status"@));
        assert(r@.dom().contains("has_spec"@));
        law_fields_cannot_forge_identity(source, "id"@, r@["id"@]);
        law_fields_cannot_forge_identity(source, "Id"@, r@["Id"@]);
        law_fields_cannot_forge_identity(source, "status"@, r@["status"@]);
        law_fields_cannot_forge_identity(source, "Status"@, r@["Status"@]);
    }
    r
}

fn build_attrs(
    entity_id: &str,
    status: &str,
    fields: JsonValue,
    derived: &SortedSet<String>,
    contexts: &Vec<ContextStatus>,
    has_spec: bool,
) -> (r: SortedMap<String, JsonValue>)
    requires
        json_wf(fields),
        derived.wf(),
    ensures
        r.wf(),
        ({
            let source = AttrSource {
                entity_id: entity_id@,
                status: status@,
                fields,
                derived: derived@,
                contexts: contexts@,
                has_spec,
            };
            forall|attr: Seq<char>|
                {
                    &&& #[trigger] r@.dom().contains(attr) <==> has_attr(source, attr)
                    &&& r@.dom().contains(attr) ==> is_attr_value(source, attr, r@[attr])
                }
        }),
{
    let ghost source = AttrSource {
        entity_id: entity_id@,
        status: status@,
        fields,
        derived: derived@,
        contexts: contexts@,
        has_spec,
    };
    let mut attrs = field_attrs(fields, derived);
    let _ = attrs.insert("id".to_owned(), JsonValue::Text(entity_id.to_owned()));
    let _ = attrs.insert("Id".to_owned(), JsonValue::Text(entity_id.to_owned()));
    let _ = attrs.insert("status".to_owned(), JsonValue::Text(status.to_owned()));
    let _ = attrs.insert("Status".to_owned(), JsonValue::Text(status.to_owned()));
    proof {
        reveal_strlit("id");
        reveal_strlit("Id");
        reveal_strlit("status");
        reveal_strlit("Status");
        assert("id"@.len() == 2 && "Id"@.len() == 2 && "status"@.len() == 6 && "Status"@.len() == 6);
        assert(contexts@.take(0) =~= Seq::<ContextStatus>::empty());
    }
    let ghost known = attrs@;
    let mut i: usize = 0;
    while i < contexts.len()
        invariant
            i <= contexts@.len(),
            attrs.wf(),
            forall|attr: Seq<char>| #[trigger]
                attrs@.dom().contains(attr) <==> known.dom().contains(attr) || context_value(
                    contexts@.take(i as int),
                    attr,
                ) is Some,
            forall|attr: Seq<char>| #[trigger]
                attrs@.dom().contains(attr) ==> match context_value(
                    contexts@.take(i as int),
                    attr,
                ) {
                    Some(text) => is_text(attrs@[attr], text),
                    None => attrs@[attr] == known[attr],
                },
        decreases contexts@.len() - i,
    {
        let mut name = "ctx_".to_owned();
        name.append(contexts[i].name.as_str());
        name.append("_status");
        proof {
            let long = contexts@.take(i + 1);
            assert(long.drop_last() =~= contexts@.take(i as int));
            assert(long.last() == contexts@[i as int]);
            assert(name@ =~= context_attr(contexts@[i as int].name@));
        }
        let _ = attrs.insert(name, JsonValue::Text(contexts[i].status.clone()));
        i += 1;
    }
    assert(contexts@.take(i as int) =~= contexts@);
    let _ = attrs.insert("has_spec".to_owned(), JsonValue::Bool(has_spec));
    attrs
}

/// No later context has the name of the one at place `i`.
pub open spec fn is_last_of_its_name(contexts: Seq<ContextStatus>, i: int) -> bool {
    forall|j: int| i < j < contexts.len() ==> (#[trigger] contexts[j]).name@ != contexts[i].name@
}

/// Different names give different attributes.
proof fn lemma_context_attrs_differ(a: Seq<char>, b: Seq<char>)
    requires
        context_attr(a) == context_attr(b),
    ensures
        a == b,
{
    reveal_strlit("ctx_");
    reveal_strlit("_status");
    let x = context_attr(a);
    let y = context_attr(b);
    assert(x.len() == a.len() + 11);
    assert(y.len() == b.len() + 11);
    assert(a =~= x.subrange(4, 4 + a.len() as int));
    assert(b =~= y.subrange(4, 4 + b.len() as int));
}

/// A context entity's status stands under the attribute of its name: the status of
/// the last one where several have that name.
pub proof fn law_contexts_give_their_status(source: AttrSource, i: int)
    requires
        0 <= i < source.contexts.len(),
        is_last_of_its_name(source.contexts, i),
    ensures
        context_value(source.contexts, "ctx_"@ + source.contexts[i].name@ + "_status"@) == Some(
            source.contexts[i].status@,
        ),
    decreases source.contexts.len(),
{
    let contexts = source.contexts;
    let attr = "ctx_"@ + contexts[i].name@ + "_status"@;
    if i < contexts.len() - 1 {
        let last = contexts[contexts.len() - 1];
        if context_attr(last.name@) == attr {
            lemma_context_attrs_differ(last.name@, contexts[i].name@);
        }
        let rest = contexts.drop_last();
        assert(rest[i] == contexts[i]);
        assert forall|j: int| i < j < rest.len() implies (#[trigger] rest[j]).name@
            != rest[i].name@ by {
            assert(rest[j] == contexts[j]);
        }
        law_contexts_give_their_status(AttrSource { contexts: rest, ..source }, i);
    }
}

/// An attribute is what its source says: the status of the context entity of that
/// name, the truth of there being a spec, the id and the status of the resource
/// itself, and the field of that name for any other.
pub proof fn law_attributes_are_told_by_their_source(
    source: AttrSource,
    attr: Seq<char>,
    value: JsonValue,
    i: int,
)
    requires
        is_attr_value(source, attr, value),
    ensures
        0 <= i < source.contexts.len() && is_last_of_its_name(source.contexts, i) && attr == "ctx_"@
            + source.contexts[i].name@ + "_status"@ ==> is_text(value, source.contexts[i].status@),
        attr == "has_spec"@ ==> value == JsonValue::Bool(source.has_spec),
        source.contexts.len() == 0 && attr != "has_spec"@ && attr != "id"@ && attr != "Id"@ && attr
            != "status"@ && attr != "Status"@ ==> field(source.fields, attr) == Some(value)
            && !source.derived.contains(attr),
{
    if 0 <= i < source.contexts.len() && is_last_of_its_name(source.contexts, i) && attr == "ctx_"@
        + source.contexts[i].name@ + "_status"@ {
        law_contexts_give_their_status(source, i);
        reveal_strlit("ctx_");
        reveal_strlit("has_spec");
        assert("has_spec"@[0] == 'h');
        assert(attr[0] == 'c');
    }
}

/// A field that the server does not derive is an attribute, and one that it derives
/// is none: no client can set it. Nothing else comes in but what the server knows.
pub proof fn law_derived_fields_are_kept_out(source: AttrSource, attr: Seq<char>)
    requires
        source.contexts.len() == 0,
        attr != "has_spec"@,
        attr != "id"@,
        attr != "Id"@,
        attr != "status"@,
        attr != "Status"@,
    ensures
        has_attr(source, attr) == (field(source.fields, attr) is Some && !source.derived.contains(
            attr,
        )),
{
}

/// Whatever the fields hold, the id and the status of a resource are its own.
pub proof fn law_fields_cannot_forge_identity(
    source: AttrSource,
    attr: Seq<char>,
    value: JsonValue,
)
    requires
        is_attr_value(source, attr, value),
        attr == "id"@ || attr == "Id"@ || attr == "status"@ || attr == "Status"@,
    ensures
        attr == "id"@ || attr == "Id"@ ==> is_text(value, source.entity_id),
        attr == "status"@ || attr == "Status"@ ==> is_text(value, source.status),
{
    reveal_strlit("id");
    reveal_strlit("Id");
    reveal_strlit("status");
    reveal_strlit("Status");
    reveal_strlit("has_spec");
    assert("has_spec"@.len() == 8);
    assert("id"@.len() == 2 && "Id"@.len() == 2 && "status"@.len() == 6 && "Status"@.len() == 6);
    lemma_no_context_attr(source.contexts, attr);
}

proof fn lemma_no_context_attr(contexts: Seq<ContextStatus>, attr: Seq<char>)
    requires
        attr == "id"@ || attr == "Id"@ || attr == "status"@ || attr == "Status"@,
    ensures
        context_value(contexts, attr) is None,
    decreases contexts.len(),
{
    if contexts.len() > 0 {
        reveal_strlit("id");
        reveal_strlit("Id");
        reveal_strlit("status");
        reveal_strlit("Status");
        reveal_strlit("ctx_");
        reveal_strlit("_status");
        let made = context_attr(contexts.last().name@);
        assert(made.len() >= 11);
        assert("id"@.len() == 2 && "Id"@.len() == 2 && "status"@.len() == 6 && "Status"@.len()
            == 6);
        lemma_no_context_attr(contexts.drop_last(), attr);
    }
}

// ---------------------------------------------------------------------------
// Decisions
// ---------------------------------------------------------------------------

/// Why a request was denied.
pub struct AuthzDenial {
    pub reason: String,
}

/// What the policies say.
pub enum AuthzDecision {
    Allow,
    Deny(AuthzDenial),
}

/// The decision as it is logged.
pub fn decision_label(decision: &AuthzDecision) -> (r: &'static str)
    ensures
        r@ == (match decision {
            AuthzDecision::Allow => "Allow"@,
            AuthzDecision::Deny(_) => "Deny"@,
        }),
{
    match decision {
        AuthzDecision::Allow => "Allow",
        AuthzDecision::Deny(_) => "Deny",
    }
}

/// The id of the resource that a decision is logged with, empty where the
/// attributes hold none.
pub fn decision_subject(attrs: &SortedMap<String, JsonValue>) -> (r: String)
    requires
        attrs.wf(),
    ensures
        r@ == (if attrs@.dom().contains("id"@) && attrs@["id"@] is Text {
            attrs@["id"@]->Text_0@
        } else {
            Seq::empty()
        }),
        !attrs@.dom().contains("id"@) ==> r@.len() == 0,
        attrs@.dom().contains("id"@) ==> (attrs@["id"@] matches JsonValue::Text(id) ==> r@ == id@),
{
    proof {
        reveal_strlit("");
        assert(""@ =~= Seq::<char>::empty());
    }
    match attrs.get(&"id".to_owned()) {
        Some(JsonValue::Text(id)) => id.clone(),
        _ => "".to_owned(),
    }
}

/// What a decision comes to: a request goes on exactly where it is allowed, and a
/// denial keeps its reason.
pub fn authorize_with_context(decision: AuthzDecision) -> (r: Result<(), AuthzDenial>)
    ensures
        match decision {
            AuthzDecision::Allow => r is Ok,
            AuthzDecision::Deny(denial) => r == Err::<(), AuthzDenial>(denial),
        },
{
    match decision {
        AuthzDecision::Allow => Ok(()),
        AuthzDecision::Deny(denial) => Err(denial),
    }
}

/// How long a decision took: no time where the clock went back or the span
/// cannot be counted.
pub fn decision_nanos(elapsed: Option<i64>) -> (r: u64)
    ensures
        r == (match elapsed {
            Some(n) => if n > 0 {
                n as int
            } else {
                0
            },
            None => 0,
        }),
        elapsed matches Some(n) ==> r >= n,
        r > 0 ==> elapsed is Some && r == elapsed->0,
{
    match elapsed {
        Some(n) => if n > 0 {
            n as u64
        } else {
            0
        },
        None => 0,
    }
}

} // verus!
