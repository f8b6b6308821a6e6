use way_cooler::{first_failure, SignalBus};

#[test]
fn connect_then_emit_runs_callback_once() {
    let mut bus = SignalBus::new();
    let foo = String::from("foo");
    bus.connect(foo.clone(), 5);
    assert_eq!(bus.emit(&foo), vec![5]);
}

#[test]
fn two_connections_run_in_connection_order() {
    let mut bus = SignalBus::new();
    let foo = String::from("foo");
    bus.connect(foo.clone(), 9);
    bus.connect(String::from("bar"), 4);
    bus.connect(foo.clone(), 3);
    assert_eq!(bus.emit(&foo), vec![9, 3]);
    assert_eq!(bus.emit(&String::from("bar")), vec![4]);
    assert_eq!(bus.emit(&String::from("baz")), Vec::<u64>::new());
}

#[test]
fn disconnect_removes_by_identity() {
    let mut bus = SignalBus::new();
    let foo = String::from("foo");
    let a = bus.connect(foo.clone(), 1);
    let b = bus.connect(foo.clone(), 1);
    assert_ne!(a, b);
    assert!(bus.disconnect(a));
    assert_eq!(bus.emit(&foo), vec![1]);
    assert!(!bus.disconnect(a));
    assert!(bus.disconnect(b));
    assert_eq!(bus.emit(&foo), Vec::<u64>::new());
}

#[test]
fn disconnect_callback_removes_earliest() {
    let mut bus = SignalBus::new();
    let foo = String::from("foo");
    bus.connect(foo.clone(), 1);
    bus.connect(foo.clone(), 2);
    bus.connect(foo.clone(), 1);
    assert!(bus.disconnect_callback(&foo, 1));
    assert_eq!(bus.emit(&foo), vec![2, 1]);
    assert!(!bus.disconnect_callback(&String::from("bar"), 2));
}

#[test]
fn first_failure_is_reported() {
    assert_eq!(first_failure(&vec![true, false, true, false]), Some(1));
    assert_eq!(first_failure(&vec![true, true]), None);
    assert_eq!(first_failure(&vec![]), None);
    assert_eq!(first_failure(&vec![false]), Some(0));
}
