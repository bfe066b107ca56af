use porygon::event::{EventKind, EventRegistry};

#[test]
fn new_registry_has_no_handlers() {
    let registry: EventRegistry<&'static str> = EventRegistry::new();
    assert!(registry.handlers(EventKind::Ready).is_empty());
}

#[test]
fn handlers_stand_in_the_order_of_registration() {
    let mut registry = EventRegistry::new();
    registry.add(EventKind::Ready, "first");
    registry.add(EventKind::Ready, "second");
    registry.add(EventKind::Ready, "first");
    assert_eq!(*registry.handlers(EventKind::Ready), vec!["first", "second", "first"]);
}
