//! Authorization decisions and references to the entities they are about.
use vstd::prelude::*;
use crate::text::concat;

verus! {

/// The outcome of an authorization request.
#[derive(Clone, Copy, Debug, PartialEq, Eq, Structural)]
pub enum Authorized {
    Allow,
    Deny,
}

impl Authorized {
    /// The outcome for a policy decision that allowed the request or not.
    pub fn from_allowed(allowed: bool) -> (r: Authorized)
        ensures
            r is Allow <==> allowed,
    {
        if allowed {
            Authorized::Allow
        } else {
            Authorized::Deny
        }
    }

    /// Whether the request was allowed.
    pub fn is_allowed(&self) -> (r: bool)
        ensures
            r <==> *self is Allow,
    {
        matches!(self, Authorized::Allow)
    }

    /// `Ok` when allowed; when denied, the error that the caller's error type
    /// makes of the denial.
    pub fn into_err<E: From<Authorized>>(self) -> (r: Result<(), E>)
        ensures
            r is Ok <==> self is Allow,
            r matches Err(e) ==> call_ensures(E::from, (Authorized::Deny,), e),
    {
        match self {
            Authorized::Allow => Ok(()),
            Authorized::Deny => Err(E::from(Authorized::Deny)),
        }
    }
}

/// A reference to an entity of some type, by its identifier.
#[derive(Clone, Debug, PartialEq, Eq, PartialOrd, Ord)]
pub struct AnyRef {
    kind: &'static str,
    id: String,
}

/// What a reference is, as plain values.
pub struct AnyRefView {
    pub kind: Seq<char>,
    pub id: Seq<char>,
}

impl View for AnyRef {
    type V = AnyRefView;

    closed spec fn view(&self) -> AnyRefView {
        AnyRefView { kind: self.kind@, id: self.id@ }
    }
}

impl AnyRef {
    /// A reference to the entity `id` of type `kind`.
    pub fn new(kind: &'static str, id: String) -> (r: AnyRef)
        ensures
            r@.kind == kind@,
            r@.id == id@,
    {
        AnyRef { kind, id }
    }

    /// The entity's type.
    pub fn type_(&self) -> (r: &str)
        ensures
            r@ == self@.kind,
    {
        self.kind
    }

    /// The entity's identifier.
    pub fn id(&self) -> (r: &str)
        ensures
            r@ == self@.id,
    {
        self.id.as_str()
    }
}

/// The name of the action type of an entity type: `<type>::Action`.
pub open spec fn action_kind(resource_type: Seq<char>) -> Seq<char> {
    resource_type + "::Action"@
}

/// The action type under which the actions on entities of `resource_type`
/// are declared.
pub fn action_type(resource_type: &str) -> (r: String)
    ensures
        r@ == action_kind(resource_type@),
{
    concat(resource_type, "::Action")
}

} // verus!
