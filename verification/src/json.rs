//! Structured values: the fields of an entity and what is read from them.

use vstd::prelude::*;
use vstd::string::*;

use crate::sorted::ascending;
use crate::sorted::lemma_ascending_unique;
use crate::text::lemma_text_lt_irreflexive;
use crate::text::lemma_text_lt_total;
use crate::text::lemma_text_lt_transitive;
use crate::text::same_text;
use crate::text::text_less;
use crate::text::text_lt;

verus! {

/// A structured value. A number with a fraction or an exponent is kept as its
/// shortest decimal text, zero as `0.0`.
#[derive(Debug)]
pub enum JsonValue {
    Null,
    Bool(bool),
    Integer(i128),
    Real(String),
    Text(String),
    Array(Vec<JsonValue>),
    Object(Vec<JsonMember>),
}

/// One member of an object.
#[derive(Debug)]
pub struct JsonMember {
    pub name: String,
    pub value: JsonValue,
}

/// The member names of an object, in order.
pub open spec fn names(members: Seq<JsonMember>) -> Seq<Seq<char>> {
    members.map_values(|m: JsonMember| m.name@)
}

/// The members stand in ascending order of their names, so no name repeats.
pub open spec fn members_wf(members: Seq<JsonMember>) -> bool {
    ascending::<String>(names(members))
}

/// Every value among the members is well formed.
pub open spec fn values_wf(members: Seq<JsonMember>) -> bool {
    forall|i: int| 0 <= i < members.len() ==> json_wf((#[trigger] members[i]).value)
}

/// Every object inside the value has its members in order.
pub open spec fn json_wf(v: JsonValue) -> bool
    decreases v,
{
    match v {
        JsonValue::Array(items) => forall|i: int|
            #![trigger items@[i]]
            0 <= i < items@.len() ==> json_wf(items@[i]),
        JsonValue::Object(members) => members_wf(members@) && (forall|i: int|
            #![trigger members@[i]]
            0 <= i < members@.len() ==> json_wf(members@[i].value)),
        _ => true,
    }
}

/// The two values are equal: the same kind, and equal content throughout.
pub open spec fn same_json(a: JsonValue, b: JsonValue) -> bool
    decreases a,
{
    match (a, b) {
        (JsonValue::Null, JsonValue::Null) => true,
        (JsonValue::Bool(x), JsonValue::Bool(y)) => x == y,
        (JsonValue::Integer(x), JsonValue::Integer(y)) => x == y,
        (JsonValue::Real(x), JsonValue::Real(y)) => x@ == y@,
        (JsonValue::Text(x), JsonValue::Text(y)) => x@ == y@,
        (JsonValue::Array(x), JsonValue::Array(y)) => x@.len() == y@.len() && (forall|i: int|
            #![trigger x@[i]]
            0 <= i < x@.len() ==> same_json(x@[i], y@[i])),
        (JsonValue::Object(x), JsonValue::Object(y)) => x@.len() == y@.len() && (forall|i: int|
            #![trigger x@[i]]
            0 <= i < x@.len() ==> x@[i].name@ == y@[i].name@ && same_json(
                x@[i].value,
                y@[i].value,
            )),
        _ => false,
    }
}

/// Whether two values are equal.
pub fn json_equal(a: &JsonValue, b: &JsonValue) -> (r: bool)
    ensures
        r == same_json(*a, *b),
    decreases a,
{
    match (a, b) {
        (JsonValue::Null, JsonValue::Null) => true,
        (JsonValue::Bool(x), JsonValue::Bool(y)) => *x == *y,
        (JsonValue::Integer(x), JsonValue::Integer(y)) => *x == *y,
        (JsonValue::Real(x), JsonValue::Real(y)) => same_text(x.as_str(), y.as_str()),
        (JsonValue::Text(x), JsonValue::Text(y)) => same_text(x.as_str(), y.as_str()),
        (JsonValue::Array(x), JsonValue::Array(y)) => {
            if x.len() != y.len() {
                return false;
            }
            let mut i: usize = 0;
            while i < x.len()
                invariant
                    *a == JsonValue::Array(*x),
                    *b == JsonValue::Array(*y),
                    i <= x@.len() == y@.len(),
                    forall|j: int| #![trigger x@[j]] 0 <= j < i ==> same_json(x@[j], y@[j]),
                decreases x@.len() - i,
            {
                assert(decreases_to!(*a => a->Array_0));
                assert(decreases_to!(x => x@[i as int]));
                if !json_equal(&x[i], &y[i]) {
                    assert(!same_json(x@[i as int], y@[i as int]));
                    return false;
                }
                i += 1;
            }
            true
        },
        (JsonValue::Object(x), JsonValue::Object(y)) => {
            if x.len() != y.len() {
                return false;
            }
            let mut i: usize = 0;
            while i < x.len()
                invariant
                    *a == JsonValue::Object(*x),
                    *b == JsonValue::Object(*y),
                    i <= x@.len() == y@.len(),
                    forall|j: int|
                        #![trigger x@[j]]
                        0 <= j < i ==> x@[j].name@ == y@[j].name@ && same_json(
                            x@[j].value,
                            y@[j].value,
                        ),
                decreases x@.len() - i,
            {
                if !same_text(x[i].name.as_str(), y[i].name.as_str()) {
                    assert(x@[i as int].name@ != y@[i as int].name@);
                    return false;
                }
                assert(decreases_to!(*a => a->Object_0));
                assert(decreases_to!(x => x@[i as int]));
                assert(decreases_to!(x@[i as int] => x@[i as int].value));
                if !json_equal(&x[i].value, &y[i].value) {
                    assert(!same_json(x@[i as int].value, y@[i as int].value));
                    return false;
                }
                i += 1;
            }
            true
        },
        _ => false,
    }
}

/// A value equals itself.
pub proof fn law_json_equality_is_reflexive(v: JsonValue)
    ensures
        same_json(v, v),
    decreases v,
{
    match v {
        JsonValue::Array(items) => {
            assert forall|i: int| #![trigger items@[i]] 0 <= i < items@.len() implies same_json(
                items@[i],
                items@[i],
            ) by {
                law_json_equality_is_reflexive(items@[i]);
            }
        },
        JsonValue::Object(members) => {
            assert forall|i: int| #![trigger members@[i]] 0 <= i < members@.len() implies same_json(
                members@[i].value,
                members@[i].value,
            ) by {
                law_json_equality_is_reflexive(members@[i].value);
            }
        },
        _ => {},
    }
}

/// The value under `name` in an object's members.
pub open spec fn member(members: Seq<JsonMember>, name: Seq<char>) -> Option<JsonValue> {
    if names(members).contains(name) {
        Some(members[names(members).index_of(name)].value)
    } else {
        None
    }
}

/// The member `name` of a value; only an object has members.
pub open spec fn field(v: JsonValue, name: Seq<char>) -> Option<JsonValue> {
    match v {
        JsonValue::Object(members) => member(members@, name),
        _ => None,
    }
}

/// The text under `name`, where there is a text.
pub open spec fn text_field(v: JsonValue, name: Seq<char>) -> Option<Seq<char>> {
    match field(v, name) {
        Some(JsonValue::Text(t)) => Some(t@),
        _ => None,
    }
}

/// The truth value under `name`, where there is one.
pub open spec fn bool_field(v: JsonValue, name: Seq<char>) -> Option<bool> {
    match field(v, name) {
        Some(JsonValue::Bool(b)) => Some(b),
        _ => None,
    }
}

/// The value under `name` among the members of an object.
pub fn get_member<'a>(members: &'a Vec<JsonMember>, name: &str) -> (r: Option<&'a JsonValue>)
    requires
        members_wf(members@),
    ensures
        r is Some == member(members@, name@) is Some,
        r matches Some(v) ==> member(members@, name@) == Some(*v),
{
    let mut i: usize = 0;
    while i < members.len()
        invariant
            i <= members@.len(),
            members_wf(members@),
            forall|j: int| 0 <= j < i ==> #[trigger] names(members@)[j] != name@,
        decreases members@.len() - i,
    {
        assert(names(members@)[i as int] == members@[i as int].name@);
        if same_text(members[i].name.as_str(), name) {
            proof {
                lemma_ascending_unique::<String>(names(members@), i as int);
            }
            return Some(&members[i].value);
        }
        i += 1;
    }
    assert(!names(members@).contains(name@));
    None
}

/// The member `name` of a value.
pub fn get_field<'a>(v: &'a JsonValue, name: &str) -> (r: Option<&'a JsonValue>)
    requires
        json_wf(*v),
    ensures
        r is Some == field(*v, name@) is Some,
        r matches Some(m) ==> field(*v, name@) == Some(*m),
{
    match v {
        JsonValue::Object(members) => get_member(members, name),
        _ => None,
    }
}

/// The text under `name`, where there is a text.
pub fn get_text(v: &JsonValue, name: &str) -> (r: Option<String>)
    requires
        json_wf(*v),
    ensures
        r is Some == text_field(*v, name@) is Some,
        r matches Some(t) ==> text_field(*v, name@) == Some(t@),
{
    match get_field(v, name) {
        Some(JsonValue::Text(t)) => Some(t.clone()),
        _ => None,
    }
}

/// The truth value under `name`, where there is one.
pub fn get_bool(v: &JsonValue, name: &str) -> (r: Option<bool>)
    requires
        json_wf(*v),
    ensures
        r == bool_field(*v, name@),
{
    match get_field(v, name) {
        Some(JsonValue::Bool(b)) => Some(*b),
        _ => None,
    }
}

/// An object's members as a mathematical map.
pub open spec fn members_map(members: Seq<JsonMember>) -> Map<Seq<char>, JsonValue> {
    Map::new(
        |n: Seq<char>| names(members).contains(n),
        |n: Seq<char>| members[names(members).index_of(n)].value,
    )
}

/// Adds the member `name` unless one is there already.
pub fn insert_if_absent(members: &mut Vec<JsonMember>, name: &str, value: JsonValue)
    requires
        members_wf(old(members)@),
    ensures
        members_wf(final(members)@),
        names(old(members)@).contains(name@) ==> final(members)@ == old(members)@,
        !names(old(members)@).contains(name@) ==> members_map(final(members)@) == members_map(
            old(members)@,
        ).insert(name@, value),
        values_wf(old(members)@) && json_wf(value) ==> values_wf(final(members)@),
{
    let ghost before = members@;
    let mut at: usize = 0;
    while at < members.len() && text_less(members[at].name.as_str(), name)
        invariant
            at <= members@.len(),
            members@ == before,
            members_wf(before),
            forall|j: int| 0 <= j < at ==> text_lt(#[trigger] names(before)[j], name@),
        decreases members@.len() - at,
    {
        assert(names(before)[at as int] == before[at as int].name@);
        at += 1;
    }
    proof {
        if at < before.len() {
            assert(names(before)[at as int] == before[at as int].name@);
        }
    }
    if at < members.len() && same_text(members[at].name.as_str(), name) {
        assert(names(before)[at as int] == name@);
        return;
    }
    proof {
        if at < before.len() {
            if !text_lt(name@, names(before)[at as int]) {
                lemma_text_lt_total(names(before)[at as int], name@);
            }
        }
        if names(before).contains(name@) {
            let j = choose|j: int| 0 <= j < names(before).len() && names(before)[j] == name@;
            lemma_text_lt_irreflexive(name@);
            assert(at <= j);
            if at < j {
                assert(text_lt(names(before)[at as int], names(before)[j]));
                lemma_text_lt_transitive(name@, names(before)[at as int], name@);
            }
        }
    }
    members.insert(at, JsonMember { name: name.to_owned(), value });
    proof {
        let o = names(before);
        let n = names(members@);
        assert(n =~= o.insert(at as int, name@));
        assert forall|i: int, j: int| 0 <= i < j < n.len() implies text_lt(
            #[trigger] n[i],
            #[trigger] n[j],
        ) by {
            if j < at {
                assert(text_lt(o[i], o[j]));
            } else if j == at {
                assert(n[i] == o[i]);
            } else if i == at {
                if at < j - 1 {
                    assert(text_lt(o[at as int], o[j - 1]));
                    lemma_text_lt_transitive(name@, o[at as int], o[j - 1]);
                }
            } else if i < at {
                assert(text_lt(o[i], o[j - 1]));
            } else {
                assert(text_lt(o[i - 1], o[j - 1]));
            }
        }
        let got = members_map(members@);
        let want = members_map(before).insert(name@, value);
        assert forall|k: Seq<char>| got.dom().contains(k) == want.dom().contains(k) by {
            if n.contains(k) {
                let i = choose|i: int| 0 <= i < n.len() && n[i] == k;
                if i < at {
                    assert(o[i] == k);
                } else if i > at {
                    assert(o[i - 1] == k);
                }
            }
            if o.contains(k) {
                let i = choose|i: int| 0 <= i < o.len() && o[i] == k;
                if i < at {
                    assert(n[i] == k);
                } else {
                    assert(n[i + 1] == k);
                }
            }
            assert(n[at as int] == name@);
        }
        assert forall|k: Seq<char>| got.dom().contains(k) implies got[k] == want[k] by {
            let i = n.index_of(k);
            assert(n[i] == k);
            if i < at {
                lemma_ascending_unique::<String>(o, i);
            } else if i > at {
                lemma_ascending_unique::<String>(o, i - 1);
            }
            if k == name@ {
                lemma_ascending_unique::<String>(n, at as int);
            }
        }
        assert(got =~= want);
        assert forall|i: int|
            values_wf(before) && json_wf(value) && 0 <= i < members@.len() implies json_wf(
            (#[trigger] members@[i]).value,
        ) by {
            if i < at {
                assert(members@[i] == before[i]);
            } else if i > at {
                assert(members@[i] == before[i - 1]);
            }
        }
    }
}

/// Sets the member `name`, whether or not one is there already.
pub fn put_member(members: &mut Vec<JsonMember>, name: &str, value: JsonValue)
    requires
        members_wf(old(members)@),
    ensures
        members_wf(final(members)@),
        members_map(final(members)@) == members_map(old(members)@).insert(name@, value),
        values_wf(old(members)@) && json_wf(value) ==> values_wf(final(members)@),
{
    let ghost before = members@;
    let mut i: usize = 0;
    while i < members.len()
        invariant
            i <= members@.len(),
            members@ == before,
            before == old(members)@,
            members_wf(before),
            forall|j: int| 0 <= j < i ==> #[trigger] names(before)[j] != name@,
        decreases members@.len() - i,
    {
        assert(names(before)[i as int] == before[i as int].name@);
        if same_text(members[i].name.as_str(), name) {
            members.set(i, JsonMember { name: name.to_owned(), value });
            proof {
                let at = i as int;
                assert(names(members@) =~= names(before));
                lemma_ascending_unique::<String>(names(before), at);
                let got = members_map(members@);
                let want = members_map(before).insert(name@, value);
                assert(got.dom() =~= want.dom());
                assert forall|k: Seq<char>| #[trigger] got.dom().contains(k) implies got[k]
                    == want[k] by {
                    let place = names(before).index_of(k);
                    assert(names(before)[place] == k);
                }
                assert(got =~= want);
            }
            return;
        }
        i += 1;
    }
    insert_if_absent(members, name, value);
}

/// Copies a value.
pub fn copy_json(v: &JsonValue) -> (r: JsonValue)
    ensures
        same_json(r, *v),
        json_wf(*v) ==> json_wf(r),
    decreases v,
{
    match v {
        JsonValue::Null => JsonValue::Null,
        JsonValue::Bool(b) => JsonValue::Bool(*b),
        JsonValue::Integer(i) => JsonValue::Integer(*i),
        JsonValue::Real(t) => JsonValue::Real(t.clone()),
        JsonValue::Text(t) => JsonValue::Text(t.clone()),
        JsonValue::Array(items) => {
            let mut copy: Vec<JsonValue> = Vec::new();
            let mut i: usize = 0;
            while i < items.len()
                invariant
                    *v == JsonValue::Array(*items),
                    i <= items@.len(),
                    copy@.len() == i,
                    forall|j: int| #![trigger copy@[j]] 0 <= j < i ==> same_json(copy@[j], items@[j]),
                    json_wf(*v) ==> forall|j: int| 0 <= j < i ==> json_wf(#[trigger] copy@[j]),
                decreases items@.len() - i,
            {
                assert(decreases_to!(*v => v->Array_0));
                assert(decreases_to!(items => items@[i as int]));
                copy.push(copy_json(&items[i]));
                i += 1;
            }
            JsonValue::Array(copy)
        },
        JsonValue::Object(members) => {
            let mut copy: Vec<JsonMember> = Vec::new();
            let mut i: usize = 0;
            while i < members.len()
                invariant
                    *v == JsonValue::Object(*members),
                    i <= members@.len(),
                    copy@.len() == i,
                    forall|j: int|
                        #![trigger copy@[j]]
                        0 <= j < i ==> copy@[j].name@ == members@[j].name@ && same_json(
                            copy@[j].value,
                            members@[j].value,
                        ),
                    json_wf(*v) ==> forall|j: int|
                        0 <= j < i ==> json_wf((#[trigger] copy@[j]).value),
                decreases members@.len() - i,
            {
                assert(decreases_to!(*v => v->Object_0));
                assert(decreases_to!(members => members@[i as int]));
                assert(decreases_to!(members@[i as int] => members@[i as int].value));
                copy.push(
                    JsonMember {
                        name: members[i].name.clone(),
                        value: copy_json(&members[i].value),
                    },
                );
                i += 1;
            }
            assert(names(copy@) =~= names(members@));
            JsonValue::Object(copy)
        },
    }
}

/// Equality of values is symmetric.
pub proof fn law_json_equality_is_symmetric(a: JsonValue, b: JsonValue)
    requires
        same_json(a, b),
    ensures
        same_json(b, a),
    decreases a,
{
    match (a, b) {
        (JsonValue::Array(x), JsonValue::Array(y)) => {
            assert forall|i: int| #![trigger y@[i]] 0 <= i < y@.len() implies same_json(
                y@[i],
                x@[i],
            ) by {
                assert(same_json(x@[i], y@[i]));
                law_json_equality_is_symmetric(x@[i], y@[i]);
            }
        },
        (JsonValue::Object(x), JsonValue::Object(y)) => {
            assert forall|i: int| #![trigger y@[i]] 0 <= i < y@.len() implies y@[i].name@
                == x@[i].name@ && same_json(y@[i].value, x@[i].value) by {
                assert(same_json(x@[i].value, y@[i].value));
                law_json_equality_is_symmetric(x@[i].value, y@[i].value);
            }
        },
        _ => {},
    }
}

/// Equality of values is transitive.
pub proof fn law_json_equality_is_transitive(a: JsonValue, b: JsonValue, c: JsonValue)
    requires
        same_json(a, b),
        same_json(b, c),
    ensures
        same_json(a, c),
    decreases a,
{
    match (a, b, c) {
        (JsonValue::Array(x), JsonValue::Array(y), JsonValue::Array(z)) => {
            assert forall|i: int| #![trigger x@[i]] 0 <= i < x@.len() implies same_json(
                x@[i],
                z@[i],
            ) by {
                assert(same_json(x@[i], y@[i]));
                assert(same_json(y@[i], z@[i]));
                law_json_equality_is_transitive(x@[i], y@[i], z@[i]);
            }
        },
        (JsonValue::Object(x), JsonValue::Object(y), JsonValue::Object(z)) => {
            assert forall|i: int| #![trigger x@[i]] 0 <= i < x@.len() implies x@[i].name@
                == z@[i].name@ && same_json(x@[i].value, z@[i].value) by {
                assert(same_json(x@[i].value, y@[i].value));
                assert(same_json(y@[i].value, z@[i].value));
                law_json_equality_is_transitive(x@[i].value, y@[i].value, z@[i].value);
            }
        },
        _ => {},
    }
}

/// Equal objects have the same names, and equal values under each of them.
pub proof fn law_equal_values_have_equal_members(a: JsonValue, b: JsonValue, name: Seq<char>)
    requires
        same_json(a, b),
    ensures
        field(a, name) is Some == field(b, name) is Some,
        field(a, name) is Some ==> same_json(field(a, name)->0, field(b, name)->0),
        text_field(a, name) == text_field(b, name),
        bool_field(a, name) == bool_field(b, name),
{
    match (a, b) {
        (JsonValue::Object(x), JsonValue::Object(y)) => {
            assert(names(x@) =~= names(y@)) by {
                assert forall|i: int| 0 <= i < x@.len() implies names(x@)[i] == names(y@)[i] by {
                    assert(x@[i].name@ == y@[i].name@);
                }
            }
            if names(x@).contains(name) {
                let at = names(x@).index_of(name);
                assert(names(x@)[at] == name);
                assert(same_json(x@[at].value, y@[at].value));
            }
        },
        _ => {},
    }
}

/// Values are equal only where they are of one kind and hold the same.
pub proof fn law_equal_values_hold_the_same(a: JsonValue, b: JsonValue)
    requires
        same_json(a, b),
    ensures
        a is Null == b is Null,
        a is Object == b is Object,
        a matches JsonValue::Bool(x) ==> (b matches JsonValue::Bool(y) && x == y),
        a matches JsonValue::Integer(x) ==> (b matches JsonValue::Integer(y) && x == y),
        a matches JsonValue::Real(x) ==> (b matches JsonValue::Real(y) && x@ == y@),
        a matches JsonValue::Text(x) ==> (b matches JsonValue::Text(y) && x@ == y@),
        a matches JsonValue::Array(x) ==> (b matches JsonValue::Array(y) && x@.len() == y@.len()
            && forall|i: int| 0 <= i < x@.len() ==> same_json(#[trigger] x@[i], y@[i])),
{
}

/// A member of an object is found under its own name, and under no other.
pub proof fn law_members_are_found_by_name(members: Seq<JsonMember>, i: int, name: Seq<char>)
    requires
        members_wf(members),
        0 <= i < members.len(),
    ensures
        member(members, members[i].name@) == Some(members[i].value),
        member(members, name) is Some ==> exists|j: int|
            0 <= j < members.len() && (#[trigger] members[j]).name@ == name,
{
    assert(names(members)[i] == members[i].name@);
    lemma_ascending_unique::<String>(names(members), i);
    if names(members).contains(name) {
        let j = choose|j: int| 0 <= j < names(members).len() && names(members)[j] == name;
        assert(members[j].name@ == name);
    }
}

} // verus!
