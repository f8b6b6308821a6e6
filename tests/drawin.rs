use way_cooler::{Area, Drawin, DrawinArgs, GeometryArgs, Origin, PropertyError, Size, Struts, Value};

fn area(x: i32, y: i32, width: i32, height: i32) -> Area {
    Area::new(Origin { x, y }, Size { width, height })
}

fn args(x: i32, y: i32, width: i32, height: i32) -> DrawinArgs {
    DrawinArgs { x: Some(x), y: Some(y), width: Some(width), height: Some(height), visible: None }
}

fn no_args() -> DrawinArgs {
    DrawinArgs { x: None, y: None, width: None, height: None, visible: None }
}

#[test]
fn new_without_arguments_is_unmapped_at_default_geometry() {
    let d = Drawin::new(&no_args());
    assert!(!d.get_visible());
    assert_eq!(d.get_geometry(), area(0, 0, 1, 1));
    assert!(d.geometry_dirty());
    assert_eq!(d.surface(), None);
    assert_eq!(d.syncs(), 0);
    assert_eq!(d.texture(), None);
}

#[test]
fn new_applies_arguments_in_order() {
    let d = Drawin::new(&args(3, 4, 100, 50));
    assert_eq!(d.get_geometry(), area(3, 4, 100, 50));
    assert!(!d.geometry_dirty());
    assert_eq!(d.drawable().geometry(), area(3, 4, 100, 50));
    let s = d.surface().unwrap();
    assert_eq!((s.width, s.height), (100, 50));
    assert_eq!(d.surface(), d.drawable().surface());
    assert_eq!(d.syncs(), 4);
    assert!(!d.get_visible());
}

#[test]
fn new_drops_nonpositive_size_arguments() {
    let d = Drawin::new(&args(0, 0, 0, -3));
    assert_eq!(d.get_geometry(), area(0, 0, 1, 1));
}

#[test]
fn new_with_visible_maps() {
    let mut a = args(0, 0, 20, 10);
    a.visible = Some(true);
    let d = Drawin::new(&a);
    assert!(d.get_visible());
    assert_eq!(d.syncs(), 5);
}

#[test]
fn resize_keeps_size_on_nonpositive_width_and_height() {
    let mut d = Drawin::new(&args(0, 0, 100, 50));
    d.resize(area(10, 20, 0, -5));
    assert_eq!(d.get_geometry(), area(10, 20, 100, 50));
    assert!(!d.geometry_dirty());
}

#[test]
fn resize_takes_positive_size_and_regenerates_drawable() {
    let mut d = Drawin::new(&args(0, 0, 100, 50));
    let before = d.drawable().regenerations();
    d.resize(area(1, 2, 30, 40));
    assert_eq!(d.get_geometry(), area(1, 2, 30, 40));
    assert_eq!(d.drawable().regenerations(), before + 1);
    assert_eq!(d.drawable().geometry(), area(1, 2, 30, 40));
    let s = d.surface().unwrap();
    assert_eq!(s.serial, before + 1);
    assert_eq!((s.width, s.height), (30, 40));
}

#[test]
fn resize_resynchronizes_while_unmapped() {
    let mut d = Drawin::new(&no_args());
    d.resize(area(0, 0, 5, 6));
    assert!(!d.get_visible());
    assert_eq!(d.syncs(), 1);
    assert_eq!(d.drawable().geometry(), area(0, 0, 5, 6));
}

#[test]
fn mapping_resynchronizes_once() {
    let mut d = Drawin::new(&args(0, 0, 100, 50));
    let s0 = d.syncs();
    d.set_visible(true);
    assert!(d.get_visible());
    assert_eq!(d.syncs(), s0 + 1);
    d.set_visible(true);
    assert_eq!(d.syncs(), s0 + 1);
    d.set_width(70);
    assert_eq!(d.syncs(), s0 + 2);
    d.set_visible(true);
    assert_eq!(d.syncs(), s0 + 2);
}

#[test]
fn mapping_a_fresh_drawin_draws_it() {
    let mut d = Drawin::new(&no_args());
    d.set_visible(true);
    assert!(!d.geometry_dirty());
    assert_eq!(d.drawable().regenerations(), 1);
    assert_eq!(d.surface().unwrap().width, 1);
}

#[test]
fn unmapping_does_not_resynchronize() {
    let mut d = Drawin::new(&args(0, 0, 100, 50));
    d.set_visible(true);
    let s = d.syncs();
    d.set_visible(false);
    assert!(!d.get_visible());
    assert_eq!(d.syncs(), s);
}

#[test]
fn width_round_trip() {
    let mut d = Drawin::new(&args(0, 0, 100, 50));
    let width = String::from("width");
    assert_eq!(d.set_property(&width, Value::Integer(200)), Ok(()));
    assert_eq!(d.get_property(&width), Ok(Value::Integer(200)));
    assert_eq!(d.set_property(&width, Value::Integer(-1)), Ok(()));
    assert_eq!(d.get_property(&width), Ok(Value::Integer(200)));
}

#[test]
fn height_round_trip() {
    let mut d = Drawin::new(&args(0, 0, 100, 50));
    d.set_height(80);
    assert_eq!(d.get_height(), 80);
    d.set_height(0);
    assert_eq!(d.get_height(), 80);
}

#[test]
fn origin_setters_move_the_drawin() {
    let mut d = Drawin::new(&args(0, 0, 100, 50));
    d.set_x(-7);
    d.set_y(9);
    assert_eq!((d.get_x(), d.get_y()), (-7, 9));
    assert_eq!((d.get_width(), d.get_height()), (100, 50));
}

#[test]
fn geometry_with_origin_only_keeps_size() {
    let mut d = Drawin::new(&args(0, 0, 100, 50));
    let r = d.geometry(Some(GeometryArgs { x: Some(10), y: Some(10), width: None, height: None }));
    assert_eq!(r, area(10, 10, 100, 50));
}

#[test]
fn geometry_with_nonpositive_size_keeps_size() {
    let mut d = Drawin::new(&args(0, 0, 100, 50));
    let r = d.geometry(Some(GeometryArgs { x: Some(10), y: Some(10), width: Some(0), height: Some(-2) }));
    assert_eq!(r, area(10, 10, 100, 50));
}

#[test]
fn geometry_without_table_reads() {
    let mut d = Drawin::new(&args(1, 2, 3, 4));
    let s = d.syncs();
    assert_eq!(d.geometry(None), area(1, 2, 3, 4));
    assert_eq!(d.syncs(), s);
}

#[test]
fn struts_are_zero() {
    let d = Drawin::new(&no_args());
    assert_eq!(d.struts(), Struts { left: 0, right: 0, top: 0, bottom: 0 });
}

#[test]
fn unknown_and_mistyped_properties_are_refused() {
    let mut d = Drawin::new(&args(0, 0, 100, 50));
    assert_eq!(d.get_property(&String::from("Width")), Err(PropertyError::UnknownProperty));
    assert_eq!(
        d.set_property(&String::from("ontop"), Value::Boolean(true)),
        Err(PropertyError::UnknownProperty)
    );
    assert_eq!(
        d.set_property(&String::from("visible"), Value::Integer(1)),
        Err(PropertyError::TypeMismatch)
    );
    assert_eq!(
        d.set_property(&String::from("x"), Value::Boolean(true)),
        Err(PropertyError::TypeMismatch)
    );
    assert_eq!(d.get_geometry(), area(0, 0, 100, 50));
}

#[test]
fn visible_property_maps() {
    let mut d = Drawin::new(&args(0, 0, 100, 50));
    let visible = String::from("visible");
    assert_eq!(d.get_property(&visible), Ok(Value::Boolean(false)));
    assert_eq!(d.set_property(&visible, Value::Boolean(true)), Ok(()));
    assert_eq!(d.get_property(&visible), Ok(Value::Boolean(true)));
    assert_eq!(d.get_property(&String::from("y")), Ok(Value::Integer(0)));
}

#[test]
fn texture_is_kept() {
    let mut d = Drawin::new(&no_args());
    d.set_texture(Some(7));
    assert_eq!(d.texture(), Some(7));
}

#[test]
fn drawin_signals_run_in_connection_order() {
    let mut d = Drawin::new(&no_args());
    let foo = String::from("foo");
    d.connect_signal(foo.clone(), 1);
    d.connect_signal(foo.clone(), 2);
    assert_eq!(d.emit_signal(&foo), vec![1, 2]);
    assert!(d.disconnect_signal(&foo, 1));
    assert_eq!(d.emit_signal(&foo), vec![2]);
    assert!(!d.disconnect_signal(&foo, 1));
}
