use way_cooler::{
    AccessError, Drawin, DrawinArgs, Handle, ObjectError, ObjectArena, PropertyError, Runtime, Value,
};

fn args(width: i32, height: i32) -> DrawinArgs {
    DrawinArgs { x: Some(0), y: Some(0), width: Some(width), height: Some(height), visible: None }
}

#[test]
fn constructing_n_drawins_lists_n() {
    let mut rt = Runtime::new();
    for i in 0..4 {
        rt.construct_drawin(&args(10 + i, 10));
    }
    assert_eq!(rt.drawins().live_count(), 4);
}

#[test]
fn collecting_removes_exactly_one_entry() {
    let mut rt = Runtime::new();
    let a = rt.construct_drawin(&args(10, 10));
    let b = rt.construct_drawin(&args(20, 10));
    let c = rt.construct_drawin(&args(30, 10));
    assert_eq!(rt.collect_drawin(b), Ok(()));
    assert_eq!(rt.drawins().live_count(), 2);
    assert_eq!(rt.drawins().live_handles(), vec![a, c]);
    assert_eq!(rt.collect_drawin(b), Err(ObjectError::StaleHandle));
    assert_eq!(rt.drawins().live_count(), 2);
}

#[test]
fn properties_through_handles() {
    let mut rt = Runtime::new();
    let h = rt.construct_drawin(&args(100, 50));
    let width = String::from("width");
    assert_eq!(rt.write_drawin_property(h, &width, Value::Integer(200)), Ok(()));
    assert_eq!(rt.read_drawin_property(h, &width), Ok(Value::Integer(200)));
    assert_eq!(
        rt.write_drawin_property(h, &String::from("bogus"), Value::Integer(1)),
        Err(AccessError::Property(PropertyError::UnknownProperty))
    );
    let wrong = Handle { class: h.class + 1, index: h.index };
    assert_eq!(
        rt.read_drawin_property(wrong, &width),
        Err(AccessError::Object(ObjectError::TypeMismatch))
    );
    rt.collect_drawin(h).unwrap();
    assert_eq!(
        rt.read_drawin_property(h, &width),
        Err(AccessError::Object(ObjectError::StaleHandle))
    );
}

#[test]
fn frame_presents_mapped_drawins_only() {
    let mut rt = Runtime::new();
    let a = rt.construct_drawin(&args(10, 10));
    let _b = rt.construct_drawin(&args(20, 10));
    rt.write_drawin_property(a, &String::from("visible"), Value::Boolean(true)).unwrap();
    let frame = rt.frame();
    assert_eq!(frame.len(), 2);
    assert_eq!(frame[0].unwrap().width, 10);
    assert_eq!(frame[1], None);
}

#[test]
fn global_signals() {
    let mut rt = Runtime::new();
    let s = String::from("refresh");
    rt.connect_global_signal(s.clone(), 1);
    rt.connect_global_signal(s.clone(), 2);
    assert_eq!(rt.emit_global_signal(&s), vec![1, 2]);
    assert_eq!(rt.classes().len(), 1);
}

#[test]
fn borrowed_state_refuses_second_borrow() {
    let mut store: ObjectArena<Drawin> = ObjectArena::new(3);
    let h = store.insert(Drawin::new(&args(5, 5)));
    let d = store.take(h).ok().unwrap();
    assert!(matches!(store.take(h), Err(ObjectError::BorrowConflict)));
    assert!(matches!(store.get(h), Err(ObjectError::BorrowConflict)));
    assert!(matches!(store.collect(h), Err(ObjectError::BorrowConflict)));
    store.restore(h, d);
    assert_eq!(store.get(h).ok().unwrap().get_width(), 5);
    assert_eq!(store.cast(h), Ok(()));
    assert!(matches!(store.collect(h), Ok(_)));
    assert_eq!(store.live_count(), 0);
    assert_eq!(store.cast(h), Err(ObjectError::StaleHandle));
}

#[test]
fn refresh_replaces_runtime_when_pending() {
    let mut rt = Runtime::new();
    rt.construct_drawin(&args(10, 10));
    let mut pending = false;
    assert!(!way_cooler::refresh_awesome(&mut rt, &mut pending));
    assert_eq!(rt.drawins().live_count(), 1);
    pending = true;
    assert!(way_cooler::refresh_awesome(&mut rt, &mut pending));
    assert!(!pending);
    assert_eq!(rt.drawins().live_count(), 0);
    assert_eq!(rt.classes().len(), 1);
}
