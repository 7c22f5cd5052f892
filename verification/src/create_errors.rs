//! Why an entity could not be created.

use vstd::prelude::*;
use vstd::string::*;

use crate::directory::InitFailureKind;

verus! {

/// What an actor failed with.
#[derive(Debug)]
pub struct ActorError {
    /// The failure in words.
    pub message: String,
    /// Why the actor could not initialize, where that is what failed.
    pub init_failure: Option<InitFailureKind>,
    /// The same request may succeed later.
    pub transient: bool,
}

/// What a store refused a write for.
#[derive(Clone, Copy, PartialEq, Eq, Structural, Debug)]
pub enum StoreRefusal {
    /// Another entity holds a declared key.
    DeclaredKey,
    /// Another write came first.
    Concurrency,
    /// Anything else.
    Other,
}

/// What a store failed with.
#[derive(Debug)]
pub struct StoreError {
    /// The failure in words.
    pub message: String,
    pub refusal: StoreRefusal,
    /// The same write may succeed later.
    pub transient: bool,
}

/// Why an entity could not be created.
#[derive(Clone, Debug, PartialEq, Eq)]
pub enum EntityCreateError {
    /// Another entity of the same type holds a declared key. The same request
    /// fails in the same way every time.
    DeclaredKeyConflict { detail: String },
    /// Something that is needed was not there. The request is worth repeating.
    TransientDependency { detail: String },
    /// Anything else. Repeating the request does not help.
    Internal { detail: String },
}

/// The error in words.
pub open spec fn detail_of(error: EntityCreateError) -> String {
    match error {
        EntityCreateError::DeclaredKeyConflict { detail } => detail,
        EntityCreateError::TransientDependency { detail } => detail,
        EntityCreateError::Internal { detail } => detail,
    }
}

/// The stable label of an error.
pub open spec fn label_of(error: EntityCreateError) -> Seq<char> {
    match error {
        EntityCreateError::DeclaredKeyConflict { .. } => "declared_key_conflict"@,
        EntityCreateError::TransientDependency { .. } => "transient_dependency"@,
        EntityCreateError::Internal { .. } => "internal"@,
    }
}

/// A failure in its context.
pub open spec fn in_context(context: Seq<char>, message: Seq<char>) -> Seq<char> {
    context + ": "@ + message
}

/// A failure in its context.
pub fn context_text(context: &str, message: &str) -> (r: String)
    ensures
        r@ == in_context(context@, message@),
{
    let mut text = context.to_owned();
    text.append(": ");
    text.append(message);
    text
}

impl EntityCreateError {
    /// Classifies what an actor failed with. The words of the failure decide
    /// nothing.
    pub fn from_actor_error(err: &ActorError) -> (r: EntityCreateError)
        ensures
            detail_of(r)@ == err.message@,
            r is DeclaredKeyConflict == (err.init_failure == Some(InitFailureKind::Constraint)),
            r is TransientDependency == (err.init_failure == Some(
                InitFailureKind::TransientDependency,
            ) || (err.init_failure is None && err.transient)),
    {
        let detail = err.message.clone();
        match err.init_failure {
            Some(InitFailureKind::Constraint) => EntityCreateError::DeclaredKeyConflict { detail },
            Some(InitFailureKind::TransientDependency) => EntityCreateError::TransientDependency {
                detail,
            },
            Some(InitFailureKind::Defect) => EntityCreateError::Internal { detail },
            None => if err.transient {
                EntityCreateError::TransientDependency { detail }
            } else {
                EntityCreateError::Internal { detail }
            },
        }
    }

    /// Classifies what a store failed with. A key conflict speaks for itself;
    /// any other failure is told in its context.
    pub fn from_persistence_error(context: &str, err: &StoreError) -> (r: EntityCreateError)
        ensures
            r is DeclaredKeyConflict == (err.refusal == StoreRefusal::DeclaredKey),
            r is TransientDependency == (err.refusal != StoreRefusal::DeclaredKey
                && err.transient),
            detail_of(r)@ == if err.refusal == StoreRefusal::DeclaredKey {
                err.message@
            } else {
                in_context(context@, err.message@)
            },
    {
        if err.refusal == StoreRefusal::DeclaredKey {
            return EntityCreateError::DeclaredKeyConflict { detail: err.message.clone() };
        }
        let detail = context_text(context, err.message.as_str());
        if err.transient {
            EntityCreateError::TransientDependency { detail }
        } else {
            EntityCreateError::Internal { detail }
        }
    }

    /// The stable label for metrics and logs.
    pub fn metric_label(&self) -> (r: &'static str)
        ensures
            r@ == label_of(*self),
    {
        match self {
            EntityCreateError::DeclaredKeyConflict { .. } => "declared_key_conflict",
            EntityCreateError::TransientDependency { .. } => "transient_dependency",
            EntityCreateError::Internal { .. } => "internal",
        }
    }

    /// The error in words.
    pub fn message(&self) -> (r: String)
        ensures
            r@ == detail_of(*self)@,
    {
        match self {
            EntityCreateError::DeclaredKeyConflict { detail } => detail.clone(),
            EntityCreateError::TransientDependency { detail } => detail.clone(),
            EntityCreateError::Internal { detail } => detail.clone(),
        }
    }
}

impl From<EntityCreateError> for String {
    fn from(err: EntityCreateError) -> (r: String) {
        match err {
            EntityCreateError::DeclaredKeyConflict { detail } => detail,
            EntityCreateError::TransientDependency { detail } => detail,
            EntityCreateError::Internal { detail } => detail,
        }
    }
}

impl vstd::std_specs::convert::FromSpecImpl<EntityCreateError> for String {
    open spec fn obeys_from_spec() -> bool {
        true
    }

    open spec fn from_spec(err: EntityCreateError) -> String {
        detail_of(err)
    }
}

/// The three kinds of failure have three labels.
pub proof fn law_labels_tell_failures_apart(a: EntityCreateError, b: EntityCreateError)
    requires
        label_of(a) == label_of(b),
    ensures
        a is DeclaredKeyConflict == b is DeclaredKeyConflict,
        a is TransientDependency == b is TransientDependency,
        a is Internal == b is Internal,
{
    reveal_strlit("declared_key_conflict");
    reveal_strlit("transient_dependency");
    reveal_strlit("internal");
    assert("declared_key_conflict"@.len() == 21);
    assert("transient_dependency"@.len() == 20);
    assert("internal"@.len() == 8);
}

/// The labels are fixed words, one for each kind of failure.
pub proof fn law_labels_are_fixed_words(error: EntityCreateError)
    ensures
        error is DeclaredKeyConflict <==> label_of(error) == "declared_key_conflict"@,
        error is TransientDependency <==> label_of(error) == "transient_dependency"@,
        error is Internal <==> label_of(error) == "internal"@,
{
    reveal_strlit("declared_key_conflict");
    reveal_strlit("transient_dependency");
    reveal_strlit("internal");
    assert("declared_key_conflict"@[0] == 'd');
    assert("transient_dependency"@[0] == 't');
    assert("internal"@[0] == 'i');
}

/// A failure in its context begins with the context and ends in its own words, and an
/// error keeps the words that it was given, whatever its kind.
pub proof fn law_failures_keep_their_words(context: Seq<char>, message: Seq<char>, detail: String)
    ensures
        in_context(context, message).take(context.len() as int) == context,
        in_context(context, message).skip((context.len() + 2) as int) == message,
        in_context(context, message).subrange(context.len() as int, (context.len() + 2) as int) == seq![
            ':',
            ' ',
        ],
        detail_of(EntityCreateError::DeclaredKeyConflict { detail }) == detail,
        detail_of(EntityCreateError::TransientDependency { detail }) == detail,
        detail_of(EntityCreateError::Internal { detail }) == detail,
{
    reveal_strlit(": ");
    let text = in_context(context, message);
    assert(text.take(context.len() as int) =~= context);
    assert(text.skip((context.len() + 2) as int) =~= message);
    assert(text.subrange(context.len() as int, (context.len() + 2) as int) =~= seq![':', ' ']);
}

} // verus!
