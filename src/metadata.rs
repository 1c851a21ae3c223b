//! Who a request comes from, as the registry stores it with a subscription.
use vstd::prelude::*;

verus! {

/// The identifier of a dapp.
pub struct DappId(pub String);

/// Where a request comes from.
#[derive(Clone)]
pub enum Origin {
    /// An RPC transport, with a description of the caller.
    Rpc(String),
    /// An IPC connection, by its session.
    Ipc(String),
    /// A WebSocket connection, by its session.
    Ws(String),
    /// A signer connection, by its session.
    Signer(String),
    /// A dapp.
    Dapps(DappId),
    /// No known origin.
    Unknown,
}

/// Request metadata: its origin and, for requests that came over a
/// publish-subscribe transport, a handle on that session.
#[derive(Clone)]
pub struct Metadata<S> {
    pub origin: Origin,
    pub session: Option<S>,
}

/// Two origins are the same kind, with the same text.
pub open spec fn same_origin(a: Origin, b: Origin) -> bool {
    match (a, b) {
        (Origin::Rpc(x), Origin::Rpc(y)) => x@ == y@,
        (Origin::Ipc(x), Origin::Ipc(y)) => x@ == y@,
        (Origin::Ws(x), Origin::Ws(y)) => x@ == y@,
        (Origin::Signer(x), Origin::Signer(y)) => x@ == y@,
        (Origin::Dapps(x), Origin::Dapps(y)) => x.0@ == y.0@,
        (Origin::Unknown, Origin::Unknown) => true,
        _ => false,
    }
}

impl Clone for DappId {
    fn clone(&self) -> (r: Self)
        ensures
            r.0@ == self.0@,
    {
        DappId(self.0.clone())
    }
}

impl Default for DappId {
    fn default() -> (r: Self)
        ensures
            r.0@ == Seq::<char>::empty(),
    {
        DappId(String::new())
    }
}

impl Default for Origin {
    fn default() -> (r: Self)
        ensures
            r is Unknown,
    {
        Origin::Unknown
    }
}

impl PartialEq for Origin {
    fn eq(&self, other: &Origin) -> (r: bool) {
        match (self, other) {
            (Origin::Rpc(x), Origin::Rpc(y)) => *x == *y,
            (Origin::Ipc(x), Origin::Ipc(y)) => *x == *y,
            (Origin::Ws(x), Origin::Ws(y)) => *x == *y,
            (Origin::Signer(x), Origin::Signer(y)) => *x == *y,
            (Origin::Dapps(x), Origin::Dapps(y)) => x.0 == y.0,
            (Origin::Unknown, Origin::Unknown) => true,
            _ => false,
        }
    }
}

impl vstd::std_specs::cmp::PartialEqSpecImpl for Origin {
    open spec fn obeys_eq_spec() -> bool {
        true
    }

    open spec fn eq_spec(&self, other: &Origin) -> bool {
        same_origin(*self, *other)
    }
}

impl<S> Default for Metadata<S> {
    fn default() -> (r: Self)
        ensures
            r.origin is Unknown,
            r.session is None,
    {
        Metadata { origin: Origin::Unknown, session: None }
    }
}

/// Two metadata values are equal when their origins are: the session
/// handle plays no part.
impl<S> PartialEq for Metadata<S> {
    fn eq(&self, other: &Metadata<S>) -> (r: bool) {
        self.origin == other.origin
    }
}

impl<S> vstd::std_specs::cmp::PartialEqSpecImpl for Metadata<S> {
    open spec fn obeys_eq_spec() -> bool {
        true
    }

    open spec fn eq_spec(&self, other: &Metadata<S>) -> bool {
        same_origin(self.origin, other.origin)
    }
}

impl<S> Metadata<S> {
    /// The dapp the request comes from, or the default (empty) identifier
    /// when it does not come from a dapp.
    pub fn dapp_id(&self) -> (r: DappId)
        ensures
            match self.origin {
                Origin::Dapps(d) => r.0@ == d.0@,
                _ => r.0@ == Seq::<char>::empty(),
            },
    {
        match &self.origin {
            Origin::Dapps(d) => d.clone(),
            _ => DappId::default(),
        }
    }

    /// The publish-subscribe session of the request, if any.
    pub fn session(&self) -> (r: Option<&S>)
        ensures
            r is Some <==> self.session is Some,
            r matches Some(h) ==> *h == self.session->0,
    {
        self.session.as_ref()
    }
}

} // verus!
