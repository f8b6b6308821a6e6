use way_cooler::{init, ClassError, ClassRegistry, PropertyDescriptor, PropertyError};

#[test]
fn registering_a_class_twice_fails() {
    let mut registry = ClassRegistry::new();
    assert_eq!(init(&mut registry), Ok(0));
    assert_eq!(init(&mut registry), Err(ClassError::DuplicateClass));
    assert_eq!(registry.len(), 1);
}

#[test]
fn define_refuses_a_taken_name() {
    let mut registry = ClassRegistry::new();
    let class = registry.define(String::from("button")).ok().unwrap().build();
    assert_eq!(registry.register(class), Ok(0));
    assert!(matches!(registry.define(String::from("button")), Err(ClassError::DuplicateClass)));
    assert!(registry.define(String::from("Button")).is_ok());
    let again = ClassRegistry::new().define(String::from("button")).ok().unwrap().build();
    assert_eq!(registry.register(again), Err(ClassError::DuplicateClass));
}

#[test]
fn drawin_class_declares_its_properties() {
    let mut registry = ClassRegistry::new();
    let id = init(&mut registry).unwrap();
    let class = registry.get(id).unwrap();
    assert_eq!(class.name(), "drawin");
    assert_eq!(class.property_count(), 5);
    assert_eq!(class.read_target(&String::from("x")), Ok(0));
    assert_eq!(class.read_target(&String::from("visible")), Ok(4));
    assert_eq!(class.write_target(&String::from("height")), Ok(3));
    assert_eq!(class.read_target(&String::from("ontop")), Err(PropertyError::UnknownProperty));
    assert!(registry.get(id + 1).is_none());
}

#[test]
fn duplicate_property_is_refused() {
    let registry = ClassRegistry::new();
    let b = registry.define(String::from("tag")).ok().unwrap();
    let b = b.property(PropertyDescriptor::new(String::from("name"), true, true)).ok().unwrap();
    let r = b.property(PropertyDescriptor::new(String::from("name"), false, false));
    assert!(matches!(r, Err(ClassError::DuplicateProperty)));
}

#[test]
fn read_only_property_refuses_writes() {
    let registry = ClassRegistry::new();
    let b = registry.define(String::from("screen")).ok().unwrap();
    let b = b.property(PropertyDescriptor::new(String::from("index"), false, false)).ok().unwrap();
    let b = b.property(PropertyDescriptor::new(String::from("label"), true, true)).ok().unwrap();
    let class = b.method(String::from("connect_signal")).build();
    assert_eq!(class.read_target(&String::from("index")), Ok(0));
    assert_eq!(class.write_target(&String::from("index")), Err(PropertyError::ReadOnly));
    assert_eq!(class.write_target(&String::from("label")), Ok(1));
    assert_eq!(class.write_target(&String::from("nope")), Err(PropertyError::UnknownProperty));
}
