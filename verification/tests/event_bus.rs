use std::any::TypeId;
use std::sync::{
    atomic::{AtomicUsize, Ordering},
    Arc,
};

use forge::event_bus::{EventBus, EventListener};

#[derive(Debug)]
struct TestEvent {
    value: usize,
}

#[derive(Debug)]
struct OtherEvent;

struct StoreValue(Arc<AtomicUsize>);

impl EventListener<TestEvent> for StoreValue {
    fn on_event(&self, event: &TestEvent) {
        self.0.store(event.value, Ordering::SeqCst);
    }
}

struct CountCalls(Arc<AtomicUsize>);

impl EventListener<TestEvent> for CountCalls {
    fn on_event(&self, _: &TestEvent) {
        self.0.fetch_add(1, Ordering::SeqCst);
    }
}

impl EventListener<OtherEvent> for CountCalls {
    fn on_event(&self, _: &OtherEvent) {
        self.0.fetch_add(1, Ordering::SeqCst);
    }
}

struct Nothing;

#[test]
fn publishes_event_to_listener() {
    let mut bus = EventBus::new();
    let received = Arc::new(AtomicUsize::new(0));

    bus.subscribe(TypeId::of::<TestEvent>(), StoreValue(Arc::clone(&received)));

    bus.publish(&TypeId::of::<TestEvent>(), &TestEvent { value: 42 });

    assert_eq!(received.load(Ordering::SeqCst), 42);
}

#[test]
fn supports_multiple_listeners() {
    let mut bus = EventBus::new();
    let calls = Arc::new(AtomicUsize::new(0));

    for _ in 0..2 {
        bus.subscribe(TypeId::of::<TestEvent>(), CountCalls(Arc::clone(&calls)));
    }

    bus.publish(&TypeId::of::<TestEvent>(), &TestEvent { value: 42 });

    assert_eq!(calls.load(Ordering::SeqCst), 2);
}

#[test]
fn does_not_notify_other_event_types() {
    let mut bus = EventBus::new();
    let calls = Arc::new(AtomicUsize::new(0));

    bus.subscribe(TypeId::of::<OtherEvent>(), CountCalls(Arc::clone(&calls)));

    bus.publish(&TypeId::of::<TestEvent>(), &TestEvent { value: 42 });

    assert_eq!(calls.load(Ordering::SeqCst), 0);
}

#[test]
fn exposes_listener_count() {
    let mut bus = EventBus::new();

    bus.subscribe(TypeId::of::<TestEvent>(), Nothing);

    assert_eq!(bus.listener_count(&TypeId::of::<TestEvent>()), 1);
    assert_eq!(bus.listener_count(&TypeId::of::<OtherEvent>()), 0);
    assert!(bus.has_listeners(&TypeId::of::<TestEvent>()));
    assert!(!bus.has_listeners(&TypeId::of::<OtherEvent>()));
}

#[test]
fn listeners_are_kept_in_subscription_order() {
    let mut bus: EventBus<u32> = EventBus::new();
    bus.subscribe(TypeId::of::<TestEvent>(), 1);
    bus.subscribe(TypeId::of::<OtherEvent>(), 2);
    bus.subscribe(TypeId::of::<TestEvent>(), 3);

    assert_eq!(bus.listeners_for(&TypeId::of::<TestEvent>()), &[1, 3]);
    assert_eq!(bus.listeners_for(&TypeId::of::<OtherEvent>()), &[2]);
    assert!(bus.listeners_for(&TypeId::of::<u8>()).is_empty());
}

#[test]
fn default_bus_has_no_listeners() {
    let bus: EventBus<u32> = EventBus::default();
    assert_eq!(bus.listener_count(&TypeId::of::<TestEvent>()), 0);
    assert!(!bus.has_listeners(&TypeId::of::<OtherEvent>()));
}
