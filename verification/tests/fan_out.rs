use line_relay::broadcast::{deliver, relay, Delivery};
use line_relay::identity::Identity;
use line_relay::registry::Registry;
use std::cell::RefCell;

struct Mailbox {
    received: RefCell<Vec<String>>,
    broken: bool,
}

fn sound() -> Mailbox {
    Mailbox { received: RefCell::new(Vec::new()), broken: false }
}

fn broken() -> Mailbox {
    Mailbox { received: RefCell::new(Vec::new()), broken: true }
}

fn put(d: &Delivery<Mailbox>) -> bool {
    if d.to.handle.broken {
        false
    } else {
        d.to.handle.received.borrow_mut().push(d.line.clone());
        true
    }
}

fn id(label: &str) -> Identity {
    Identity::new(label.to_string())
}

fn inbox(registry: &Registry<Mailbox>, slot: usize) -> Vec<String> {
    registry.snapshot_for_broadcast()[slot].handle.received.borrow().clone()
}

fn addressed(plan: &Vec<Delivery<u32>>) -> Vec<(String, u32, String)> {
    plan.iter().map(|d| (d.to.identity.label().to_string(), d.to.handle, d.line.clone())).collect()
}

#[test]
fn relay_reaches_every_other_session_once() {
    let mut registry: Registry<u32> = Registry::new();
    registry.register(id("A"), 1);
    registry.register(id("B"), 2);
    registry.register(id("C"), 3);
    registry.register(id("D"), 4);
    let plan = relay(registry.snapshot_for_broadcast(), &id("B"), "hello");
    assert_eq!(
        addressed(&plan),
        vec![
            ("A".to_string(), 1, "B: hello".to_string()),
            ("C".to_string(), 3, "B: hello".to_string()),
            ("D".to_string(), 4, "B: hello".to_string()),
        ]
    );
}

#[test]
fn relay_from_each_of_five_sessions_gives_four_copies() {
    let names = ["s0", "s1", "s2", "s3", "s4"];
    let mut registry: Registry<u32> = Registry::new();
    for (k, name) in names.iter().enumerate() {
        registry.register(id(name), k as u32);
    }
    for sender in names {
        let plan = relay(registry.snapshot_for_broadcast(), &id(sender), "text");
        assert_eq!(plan.len(), 4);
        for name in names {
            let copies = plan.iter().filter(|d| d.to.identity.label() == name).count();
            assert_eq!(copies, if name == sender { 0 } else { 1 });
        }
        for d in plan.iter() {
            assert_eq!(d.line, format!("{}: text", sender));
        }
    }
}

#[test]
fn relay_never_echoes_to_the_sender() {
    let mut registry: Registry<u32> = Registry::new();
    registry.register(id("A"), 1);
    let plan = relay(registry.snapshot_for_broadcast(), &id("A"), "anyone?");
    assert!(plan.is_empty());
    registry.register(id("B"), 2);
    let plan = relay(registry.snapshot_for_broadcast(), &id("A"), "anyone?");
    assert_eq!(addressed(&plan), vec![("B".to_string(), 2, "A: anyone?".to_string())]);
}

#[test]
fn relay_in_an_empty_registry_reaches_nobody() {
    let registry: Registry<u32> = Registry::new();
    let plan = relay(registry.snapshot_for_broadcast(), &id("A"), "hello");
    assert!(plan.is_empty());
}

#[test]
fn relay_from_a_session_without_record_reaches_all() {
    let mut registry: Registry<u32> = Registry::new();
    registry.register(id("A"), 1);
    registry.register(id("B"), 2);
    let plan = relay(registry.snapshot_for_broadcast(), &id("X"), "hi");
    assert_eq!(
        addressed(&plan),
        vec![("A".to_string(), 1, "X: hi".to_string()), ("B".to_string(), 2, "X: hi".to_string())]
    );
}

#[test]
fn relay_skips_every_record_of_the_sender() {
    let mut registry: Registry<u32> = Registry::new();
    registry.register(id("A"), 1);
    registry.register(id("B"), 2);
    registry.register(id("A"), 3);
    let plan = relay(registry.snapshot_for_broadcast(), &id("A"), "hi");
    assert_eq!(addressed(&plan), vec![("B".to_string(), 2, "A: hi".to_string())]);
    let plan = relay(registry.snapshot_for_broadcast(), &id("B"), "hi");
    assert_eq!(
        addressed(&plan),
        vec![("A".to_string(), 1, "B: hi".to_string()), ("A".to_string(), 3, "B: hi".to_string())]
    );
}

#[test]
fn relay_of_an_empty_text() {
    let mut registry: Registry<u32> = Registry::new();
    registry.register(id("A"), 1);
    registry.register(id("B"), 2);
    let plan = relay(registry.snapshot_for_broadcast(), &id("A"), "");
    assert_eq!(addressed(&plan), vec![("B".to_string(), 2, "A: ".to_string())]);
}

#[test]
fn relay_does_not_change_the_registry() {
    let mut registry: Registry<u32> = Registry::new();
    registry.register(id("A"), 1);
    registry.register(id("B"), 2);
    let _ = relay(registry.snapshot_for_broadcast(), &id("A"), "one");
    let _ = relay(registry.snapshot_for_broadcast(), &id("B"), "two");
    assert_eq!(registry.len(), 2);
    assert!(registry.contains(&id("A")));
    assert!(registry.contains(&id("B")));
}

#[test]
fn deliver_writes_each_delivery_once() {
    let mut registry: Registry<Mailbox> = Registry::new();
    registry.register(id("A"), sound());
    registry.register(id("B"), sound());
    registry.register(id("C"), sound());
    let plan = relay(registry.snapshot_for_broadcast(), &id("A"), "hello");
    let outcomes = deliver(&plan, put);
    assert_eq!(outcomes, vec![true, true]);
    assert_eq!(inbox(&registry, 0), Vec::<String>::new());
    assert_eq!(inbox(&registry, 1), vec!["A: hello"]);
    assert_eq!(inbox(&registry, 2), vec!["A: hello"]);
}

#[test]
fn deliver_goes_on_after_a_failed_write() {
    let mut registry: Registry<Mailbox> = Registry::new();
    registry.register(id("A"), sound());
    registry.register(id("B"), broken());
    registry.register(id("C"), sound());
    registry.register(id("D"), broken());
    registry.register(id("E"), sound());
    let plan = relay(registry.snapshot_for_broadcast(), &id("A"), "still here");
    let outcomes = deliver(&plan, put);
    assert_eq!(outcomes, vec![false, true, false, true]);
    assert_eq!(inbox(&registry, 2), vec!["A: still here"]);
    assert_eq!(inbox(&registry, 4), vec!["A: still here"]);
    assert_eq!(inbox(&registry, 1), Vec::<String>::new());
    assert_eq!(inbox(&registry, 3), Vec::<String>::new());
    assert_eq!(registry.len(), 5);
    assert!(registry.contains(&id("B")));
}

#[test]
fn deliver_where_every_write_fails() {
    let mut registry: Registry<Mailbox> = Registry::new();
    registry.register(id("A"), sound());
    registry.register(id("B"), broken());
    registry.register(id("C"), broken());
    let plan = relay(registry.snapshot_for_broadcast(), &id("A"), "x");
    let outcomes = deliver(&plan, put);
    assert_eq!(outcomes, vec![false, false]);
}

#[test]
fn deliver_of_nothing() {
    let plan: Vec<Delivery<Mailbox>> = Vec::new();
    let outcomes = deliver(&plan, put);
    assert!(outcomes.is_empty());
}

#[test]
fn lines_of_one_sender_arrive_in_the_order_sent() {
    let mut registry: Registry<Mailbox> = Registry::new();
    registry.register(id("A"), sound());
    registry.register(id("B"), sound());
    for text in ["one", "two", "three"] {
        let plan = relay(registry.snapshot_for_broadcast(), &id("A"), text);
        let _ = deliver(&plan, put);
    }
    assert_eq!(inbox(&registry, 1), vec!["A: one", "A: two", "A: three"]);
}
