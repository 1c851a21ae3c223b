//! The publish-subscribe entry points: subscribing to the result of a
//! method call, unsubscribing, and the tick pass that reports changes.
use vstd::prelude::*;
use crate::metadata::Metadata;
use crate::poll_manager::{PollManager, Subscription, without_id, tick_step};

verus! {

/// A subscription identifier as a transport presents it: a number, which is
/// what this registry hands out, or a string.
pub enum SubscriptionId {
    Number(u64),
    String(String),
}

/// The publish-subscribe service over a registry of subscriptions whose
/// metadata carries session handles of type `S` and whose delivery channels
/// have sending halves of type `T`.
pub struct PubSubClient<S, T> {
    poll_manager: PollManager<Metadata<S>, T>,
}

impl<S, T> PubSubClient<S, T> {
    pub closed spec fn registry(&self) -> PollManager<Metadata<S>, T> {
        self.poll_manager
    }

    pub open spec fn wf(&self) -> bool {
        self.registry().wf()
    }

    /// A service with no subscriptions.
    pub fn new() -> (r: Self)
        ensures
            r.wf(),
            r.registry().entries() == Seq::<Subscription<Metadata<S>, T>>::empty(),
            r.registry().next() == 0,
    {
        PubSubClient { poll_manager: PollManager::new() }
    }

    /// The registry behind the service.
    pub fn poll_manager(&self) -> (r: &PollManager<Metadata<S>, T>)
        ensures
            *r == self.registry(),
    {
        &self.poll_manager
    }

    /// Subscribes to the result of `method` on `params`, on behalf of the
    /// request described by `meta`, delivering through `sink`. The session
    /// handle is dropped from the stored metadata, so that the subscription
    /// does not keep the session alive. Returns the new identifier, or
    /// `None`, with nothing stored, once every identifier has been used.
    pub fn parity_subscribe(&mut self, meta: Metadata<S>, method: String, params: String, sink: T) -> (r: Option<u64>)
        requires
            old(self).wf(),
        ensures
            final(self).wf(),
            old(self).registry().next() == u64::MAX ==> r is None && *final(self) == *old(self),
            old(self).registry().next() < u64::MAX ==> {
                &&& r == Some(old(self).registry().next())
                &&& final(self).registry().next() == old(self).registry().next() + 1
                &&& final(self).registry().entries() == old(self).registry().entries().push(
                    (Subscription {
                        id: old(self).registry().next(),
                        meta: Metadata { origin: meta.origin, session: None },
                        method,
                        params,
                        last: None,
                        sink,
                    }),
                )
            },
    {
        if self.poll_manager.next_id() == u64::MAX {
            return None;
        }
        let stored = Metadata { origin: meta.origin, session: None };
        Some(self.poll_manager.subscribe(stored, method, params, sink))
    }

    /// Unsubscribes `id`, and says whether it was an active subscription. A
    /// string identifier names none of this registry's subscriptions.
    pub fn parity_unsubscribe(&mut self, id: &SubscriptionId) -> (r: bool)
        requires
            old(self).wf(),
        ensures
            final(self).wf(),
            final(self).registry().next() == old(self).registry().next(),
            match *id {
                SubscriptionId::Number(n) => {
                    &&& r == old(self).registry().contains(n)
                    &&& final(self).registry().entries() == without_id(
                        old(self).registry().entries(),
                        n,
                    )
                },
                SubscriptionId::String(_) => !r && *final(self) == *old(self),
            },
    {
        match id {
            SubscriptionId::Number(n) => self.poll_manager.unsubscribe(*n),
            SubscriptionId::String(_) => false,
        }
    }

    /// Reacts to a failed delivery for subscription `id`. A closed channel
    /// means nobody will ever read its values again, so the subscription is
    /// removed; any other failure leaves it active, to be tried again on
    /// later ticks. Says whether a subscription was removed.
    pub fn delivery_failed(&mut self, id: u64, channel_closed: bool) -> (r: bool)
        requires
            old(self).wf(),
        ensures
            final(self).wf(),
            final(self).registry().next() == old(self).registry().next(),
            channel_closed ==> {
                &&& r == old(self).registry().contains(id)
                &&& final(self).registry().entries() == without_id(
                    old(self).registry().entries(),
                    id,
                )
            },
            !channel_closed ==> !r && *final(self) == *old(self),
    {
        if channel_closed {
            self.poll_manager.unsubscribe(id)
        } else {
            false
        }
    }

    /// Takes in the evaluations of one tick pass and returns the values to
    /// deliver, each with its subscription's identifier.
    pub fn tick(&mut self, outcomes: &Vec<(u64, Option<String>)>) -> (r: Vec<(u64, String)>)
        requires
            old(self).wf(),
        ensures
            final(self).wf(),
            final(self).registry().next() == old(self).registry().next(),
            (final(self).registry().entries(), r@) == tick_step(
                old(self).registry().entries(),
                outcomes@,
            ),
    {
        self.poll_manager.tick(outcomes)
    }
}

} // verus!
