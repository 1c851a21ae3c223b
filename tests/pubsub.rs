use parity_rpc::metadata::{DappId, Metadata, Origin};
use parity_rpc::poll_manager::PollManager;
use parity_rpc::pubsub::{PubSubClient, SubscriptionId};

type Client = PubSubClient<u32, &'static str>;

fn meta() -> Metadata<u32> {
    Metadata { origin: Origin::Rpc("test".to_string()), session: Some(7) }
}

fn sub(c: &mut Client, method: &str, params: &str, sink: &'static str) -> u64 {
    c.parity_subscribe(meta(), method.to_string(), params.to_string(), sink).unwrap()
}

fn ok(id: u64, v: &str) -> (u64, Option<String>) {
    (id, Some(v.to_string()))
}

fn notes(v: &[(u64, &str)]) -> Vec<(u64, String)> {
    v.iter().map(|(i, s)| (*i, s.to_string())).collect()
}

#[test]
fn ids_are_distinct_across_subscribes_and_unsubscribes() {
    let mut c = Client::new();
    let a = sub(&mut c, "m", "[]", "a");
    let b = sub(&mut c, "m", "[]", "b");
    assert!(c.parity_unsubscribe(&SubscriptionId::Number(b)));
    let d = sub(&mut c, "m", "[]", "d");
    assert_eq!((a, b, d), (0, 1, 2));
}

#[test]
fn unsubscribe_twice() {
    let mut c = Client::new();
    let id = sub(&mut c, "m", "[]", "a");
    assert!(c.parity_unsubscribe(&SubscriptionId::Number(id)));
    assert!(!c.parity_unsubscribe(&SubscriptionId::Number(id)));
}

#[test]
fn unsubscribe_never_issued() {
    let mut c = Client::new();
    assert!(!c.parity_unsubscribe(&SubscriptionId::Number(0)));
    sub(&mut c, "m", "[]", "a");
    assert!(!c.parity_unsubscribe(&SubscriptionId::Number(5)));
    assert_eq!(c.poll_manager().subscriptions().len(), 1);
}

#[test]
fn string_id_is_not_found() {
    let mut c = Client::new();
    sub(&mut c, "m", "[]", "a");
    assert!(!c.parity_unsubscribe(&SubscriptionId::String("0".to_string())));
    assert_eq!(c.poll_manager().subscriptions().len(), 1);
}

#[test]
fn same_value_is_announced_once() {
    let mut c = Client::new();
    let id = sub(&mut c, "m", "[]", "a");
    assert_eq!(c.tick(&vec![ok(id, "1")]), notes(&[(0, "1")]));
    assert_eq!(c.tick(&vec![ok(id, "1")]), notes(&[]));
    assert_eq!(c.tick(&vec![ok(id, "1")]), notes(&[]));
}

#[test]
fn changed_value_is_announced() {
    let mut c = Client::new();
    let id = sub(&mut c, "m", "[]", "a");
    assert_eq!(c.tick(&vec![ok(id, "1")]), notes(&[(0, "1")]));
    assert_eq!(c.tick(&vec![ok(id, "2")]), notes(&[(0, "2")]));
    assert_eq!(c.tick(&vec![ok(id, "1")]), notes(&[(0, "1")]));
}

#[test]
fn failure_does_not_stop_the_pass() {
    let mut c = Client::new();
    let a = sub(&mut c, "m", "[]", "a");
    let b = sub(&mut c, "n", "[]", "b");
    assert_eq!(c.tick(&vec![ok(a, "1"), ok(b, "2")]), notes(&[(0, "1"), (1, "2")]));
    assert_eq!(c.tick(&vec![(a, None), ok(b, "3")]), notes(&[(1, "3")]));
    let subs = c.poll_manager().subscriptions();
    assert_eq!(subs[0].last, Some("1".to_string()));
    assert_eq!(subs[1].last, Some("3".to_string()));
}

#[test]
fn balance_scenario() {
    let mut c = Client::new();
    let id = sub(&mut c, "balance", "[\"0x01\"]", "a");
    assert_eq!(id, 0);
    assert_eq!(c.tick(&vec![ok(0, "100")]), notes(&[(0, "100")]));
    assert_eq!(c.tick(&vec![ok(0, "100")]), notes(&[]));
    assert_eq!(c.tick(&vec![ok(0, "150")]), notes(&[(0, "150")]));
    assert!(c.parity_unsubscribe(&SubscriptionId::Number(0)));
    assert_eq!(c.tick(&vec![ok(0, "200")]), notes(&[]));
    assert!(c.poll_manager().subscriptions().iter().all(|s| s.id != 0));
}

#[test]
fn identical_subscriptions_are_independent() {
    let mut c = Client::new();
    let a = sub(&mut c, "balance", "[1]", "a");
    let b = sub(&mut c, "balance", "[1]", "b");
    assert_ne!(a, b);
    assert_eq!(c.tick(&vec![ok(a, "5"), ok(b, "5")]), notes(&[(a, "5"), (b, "5")]));
    assert!(c.parity_unsubscribe(&SubscriptionId::Number(a)));
    assert_eq!(c.tick(&vec![ok(b, "6")]), notes(&[(b, "6")]));
}

#[test]
fn first_evaluation_failing_announces_nothing() {
    let mut c = Client::new();
    let id = sub(&mut c, "m", "[]", "a");
    assert_eq!(c.tick(&vec![(id, None)]), notes(&[]));
    assert_eq!(c.poll_manager().subscriptions()[0].last, None);
    assert_eq!(c.tick(&vec![ok(id, "x")]), notes(&[(0, "x")]));
}

#[test]
fn subscribe_drops_session_and_keeps_the_rest() {
    let mut c = Client::new();
    let id = sub(&mut c, "eth_getBalance", "[\"0xff\"]", "sink");
    let s = &c.poll_manager().subscriptions()[0];
    assert_eq!(s.id, id);
    assert!(s.meta.session.is_none());
    assert!(s.meta.origin == Origin::Rpc("test".to_string()));
    assert_eq!(s.method, "eth_getBalance");
    assert_eq!(s.params, "[\"0xff\"]");
    assert_eq!(s.sink, "sink");
    assert_eq!(s.last, None);
    assert_eq!(c.poll_manager().next_id(), 1);
}

#[test]
fn registry_record_direct() {
    let mut m: PollManager<(), u8> = PollManager::new();
    let id = m.subscribe((), "m".to_string(), "[]".to_string(), 0);
    assert_eq!(m.record(id, Some("a".to_string())), Some("a".to_string()));
    assert_eq!(m.record(id, Some("a".to_string())), None);
    assert_eq!(m.record(id + 1, Some("b".to_string())), None);
    assert_eq!(m.record(id, None), None);
    assert!(m.unsubscribe(id));
    assert_eq!(m.record(id, Some("b".to_string())), None);
    assert!(m.subscriptions().is_empty());
}

#[test]
fn dapp_id_of_origins() {
    let d = Metadata::<u32> { origin: Origin::Dapps(DappId("wallet".to_string())), session: None };
    assert_eq!(d.dapp_id().0, "wallet");
    let r = Metadata::<u32> { origin: Origin::Rpc("x".to_string()), session: None };
    assert_eq!(r.dapp_id().0, "");
    assert_eq!(Metadata::<u32>::default().dapp_id().0, "");
}

#[test]
fn metadata_equality_ignores_session() {
    let a = Metadata { origin: Origin::Ws("s1".to_string()), session: Some(1u32) };
    let b = Metadata { origin: Origin::Ws("s1".to_string()), session: None };
    let c = Metadata { origin: Origin::Ws("s2".to_string()), session: Some(1u32) };
    let d = Metadata { origin: Origin::Ipc("s1".to_string()), session: Some(1u32) };
    assert!(a == b);
    assert!(a != c);
    assert!(a != d);
    assert_eq!(a.session(), Some(&1));
    assert_eq!(b.session(), None);
}

#[test]
fn closed_channel_removes_subscription() {
    let mut c = Client::new();
    let a = sub(&mut c, "m", "[]", "a");
    let b = sub(&mut c, "m", "[]", "b");
    assert!(!c.delivery_failed(a, false));
    assert_eq!(c.poll_manager().subscriptions().len(), 2);
    assert!(c.delivery_failed(a, true));
    assert!(!c.delivery_failed(a, true));
    assert_eq!(c.poll_manager().subscriptions().len(), 1);
    assert_eq!(c.poll_manager().subscriptions()[0].id, b);
    assert_eq!(c.tick(&vec![ok(a, "1"), ok(b, "1")]), notes(&[(b, "1")]));
}
