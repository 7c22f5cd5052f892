//! The text keys under which actors, entities and types are held.

use vstd::prelude::*;
use vstd::string::*;

use crate::text::before_first;
use crate::text::find_char;
use crate::text::lemma_before_first;

verus! {

/// The key of an entity's actor, and of its journal.
pub open spec fn actor_key_of(
    tenant: Seq<char>,
    entity_type: Seq<char>,
    entity_id: Seq<char>,
) -> Seq<char> {
    tenant + ":"@ + entity_type + ":"@ + entity_id
}

/// The key under which the ids of a type are indexed.
pub open spec fn index_key_of(tenant: Seq<char>, entity_type: Seq<char>) -> Seq<char> {
    tenant + ":"@ + entity_type
}

/// The key of an entity's actor, and of its journal.
pub fn actor_key(tenant: &str, entity_type: &str, entity_id: &str) -> (r: String)
    ensures
        r@ == actor_key_of(tenant@, entity_type@, entity_id@),
{
    let mut key = tenant.to_owned();
    key.append(":");
    key.append(entity_type);
    key.append(":");
    key.append(entity_id);
    key
}

/// The key under which the ids of a type are indexed.
pub fn index_key(tenant: &str, entity_type: &str) -> (r: String)
    ensures
        r@ == index_key_of(tenant@, entity_type@),
{
    let mut key = tenant.to_owned();
    key.append(":");
    key.append(entity_type);
    key
}

/// The part of a key before its first colon, where it has one.
pub open spec fn key_head(key: Seq<char>) -> Option<Seq<char>> {
    if key.contains(':') {
        Some(before_first(key, ':'))
    } else {
        None
    }
}

/// The part of a key after its first colon.
pub open spec fn key_tail(key: Seq<char>) -> Seq<char> {
    key.skip(before_first(key, ':').len() as int + 1)
}

/// Splits a key at its first colon.
pub fn split_key<'a>(key: &'a str) -> (r: Option<(&'a str, &'a str)>)
    ensures
        r is Some == key_head(key@) is Some,
        r matches Some(p) ==> key_head(key@) == Some(p.0@) && p.1@ == key_tail(key@),
{
    match find_char(key, ':') {
        Some(i) => {
            let n: usize = key.unicode_len();
            let head = key.substring_char(0, i);
            let tail = key.substring_char(i + 1, n);
            proof {
                assert(head@ =~= key@.take(i as int));
                assert(tail@ =~= key@.skip(i + 1));
            }
            Some((head, tail))
        },
        None => None,
    }
}

/// The three parts of an actor key.
pub struct ActorKeyParts<'a> {
    pub tenant: &'a str,
    pub entity_type: &'a str,
    pub entity_id: &'a str,
}

/// The key has the three parts of an actor key; the last may hold colons.
pub open spec fn has_three_parts(key: Seq<char>) -> bool {
    key_head(key) is Some && key_head(key_tail(key)) is Some
}

/// Splits an actor key into tenant, type and id, where it has all three.
pub fn parse_actor_key<'a>(key: &'a str) -> (r: Option<ActorKeyParts<'a>>)
    ensures
        r is Some == has_three_parts(key@),
        r matches Some(p) ==> {
            &&& key_head(key@) == Some(p.tenant@)
            &&& key_head(key_tail(key@)) == Some(p.entity_type@)
            &&& p.entity_id@ == key_tail(key_tail(key@))
        },
{
    match split_key(key) {
        Some((tenant, rest)) => match split_key(rest) {
            Some((entity_type, entity_id)) => Some(
                ActorKeyParts { tenant, entity_type, entity_id },
            ),
            None => None,
        },
        None => None,
    }
}

/// Reading an actor key gives back the names that made it, whatever the id is,
/// as long as tenant and type hold no colon.
pub proof fn law_actor_keys_read_back(
    tenant: Seq<char>,
    entity_type: Seq<char>,
    entity_id: Seq<char>,
)
    requires
        !tenant.contains(':'),
        !entity_type.contains(':'),
    ensures
        ({
            let key = actor_key_of(tenant, entity_type, entity_id);
            &&& has_three_parts(key)
            &&& key_head(key) == Some(tenant)
            &&& key_head(key_tail(key)) == Some(entity_type)
            &&& key_tail(key_tail(key)) == entity_id
        }),
{
    reveal_strlit(":");
    let key = actor_key_of(tenant, entity_type, entity_id);
    let rest = entity_type + ":"@ + entity_id;
    assert(key =~= tenant + ":"@ + rest);
    assert(key[tenant.len() as int] == ':');
    assert forall|j: int| 0 <= j < tenant.len() implies #[trigger] key[j] != ':' by {
        assert(key[j] == tenant[j]);
    }
    lemma_before_first(key, ':', tenant.len() as int);
    assert(key.take(tenant.len() as int) =~= tenant);
    assert(key.skip(tenant.len() as int + 1) =~= rest);
    assert(rest[entity_type.len() as int] == ':');
    assert forall|j: int| 0 <= j < entity_type.len() implies #[trigger] rest[j] != ':' by {
        assert(rest[j] == entity_type[j]);
    }
    lemma_before_first(rest, ':', entity_type.len() as int);
    assert(rest.take(entity_type.len() as int) =~= entity_type);
    assert(rest.skip(entity_type.len() as int + 1) =~= entity_id);
}

/// Different entities have different keys, as long as tenants and types hold no
/// colon.
pub proof fn law_actor_keys_are_distinct(
    a: (Seq<char>, Seq<char>, Seq<char>),
    b: (Seq<char>, Seq<char>, Seq<char>),
)
    requires
        !a.0.contains(':'),
        !a.1.contains(':'),
        !b.0.contains(':'),
        !b.1.contains(':'),
        actor_key_of(a.0, a.1, a.2) == actor_key_of(b.0, b.1, b.2),
    ensures
        a == b,
{
    law_actor_keys_read_back(a.0, a.1, a.2);
    law_actor_keys_read_back(b.0, b.1, b.2);
}

/// The part before the first colon, the colon and the rest make up the key.
pub proof fn lemma_key_splits(key: Seq<char>)
    requires
        key.contains(':'),
    ensures
        key == before_first(key, ':') + ":"@ + key_tail(key),
{
    reveal_strlit(":");
    let i = first_colon(key, 0);
    lemma_first_colon(key, 0);
    lemma_before_first(key, ':', i);
    assert(key =~= key.take(i) + ":"@ + key.skip(i + 1));
}

/// The place of the first colon from `from` on, or the length of the key.
pub open spec fn first_colon(key: Seq<char>, from: int) -> int
    decreases key.len() - from,
{
    if from < 0 || from >= key.len() || key[from] == ':' {
        from
    } else {
        first_colon(key, from + 1)
    }
}

proof fn lemma_first_colon(key: Seq<char>, from: int)
    requires
        0 <= from <= key.len(),
    ensures
        from <= first_colon(key, from) <= key.len(),
        first_colon(key, from) < key.len() ==> key[first_colon(key, from)] == ':',
        forall|j: int| from <= j < first_colon(key, from) ==> #[trigger] key[j] != ':',
    decreases key.len() - from,
{
    if from < key.len() && key[from] != ':' {
        lemma_first_colon(key, from + 1);
    }
}

/// The three parts of an actor key make up that key again.
pub proof fn law_parsed_keys_are_rebuilt(key: Seq<char>)
    requires
        has_three_parts(key),
    ensures
        actor_key_of(key_head(key)->0, key_head(key_tail(key))->0, key_tail(key_tail(key))) == key,
{
    lemma_key_splits(key);
    lemma_key_splits(key_tail(key));
    let rest = key_tail(key);
    assert(key =~= before_first(key, ':') + ":"@ + before_first(rest, ':') + ":"@ + key_tail(rest));
}

/// An index key is the front of the keys of its entities and reads back as the tenant
/// and the type that made it, as long as the tenant holds no colon.
pub proof fn law_index_keys_read_back(
    tenant: Seq<char>,
    entity_type: Seq<char>,
    entity_id: Seq<char>,
)
    requires
        !tenant.contains(':'),
    ensures
        key_head(index_key_of(tenant, entity_type)) == Some(tenant),
        key_tail(index_key_of(tenant, entity_type)) == entity_type,
        actor_key_of(tenant, entity_type, entity_id) == index_key_of(tenant, entity_type)
            + seq![':'] + entity_id,
{
    reveal_strlit(":");
    let key = index_key_of(tenant, entity_type);
    assert(key[tenant.len() as int] == ':');
    assert forall|j: int| 0 <= j < tenant.len() implies #[trigger] key[j] != ':' by {
        assert(key[j] == tenant[j]);
    }
    lemma_before_first(key, ':', tenant.len() as int);
    assert(key.take(tenant.len() as int) =~= tenant);
    assert(key.skip(tenant.len() as int + 1) =~= entity_type);
    assert(actor_key_of(tenant, entity_type, entity_id) =~= key + seq![':'] + entity_id);
}

} // verus!
