use jaeb::deps::{required_or_missing, Dep, Deps};
use jaeb::error::EventBusError;

struct Foo(u32);
struct Bar;
#[derive(Debug)]
struct Baz;
struct Num(u32);
struct A(u32);
struct B(&'static str);

#[test]
fn insert_and_get() {
    let deps = Deps::new().insert(Foo(42));
    assert_eq!(deps.get::<Foo>().expect("Foo present").0, 42);
}

#[test]
fn get_missing_returns_none() {
    let deps = Deps::new();
    assert!(deps.get::<Bar>().is_none());
}

#[test]
fn insert_overwrites_same_type() {
    let deps = Deps::new().insert(Num(1)).insert(Num(2));
    assert_eq!(deps.get::<Num>().expect("Num present").0, 2);
}

#[test]
fn multiple_types_independent() {
    let deps = Deps::new().insert(A(10)).insert(B("hello"));
    assert_eq!(deps.get::<A>().unwrap().0, 10);
    assert_eq!(deps.get::<B>().unwrap().0, "hello");
}

#[test]
fn dep_deref() {
    let d = Dep(99u32);
    assert_eq!(*d, 99u32);
}

#[test]
fn get_required_missing_is_missing_dependency() {
    let deps = Deps::new().insert(Foo(1));
    match deps.get_required::<Baz>() {
        Err(EventBusError::MissingDependency(text)) => assert!(!text.is_empty()),
        other => panic!("expected MissingDependency, got {:?}", other.map(|_| ())),
    }
}

#[test]
fn get_required_present_returns_value() {
    let deps = Deps::new().insert(Foo(7));
    assert_eq!(deps.get_required::<Foo>().expect("Foo present").0, 7);
}

#[test]
fn default_deps_hold_nothing() {
    let deps = Deps::default();
    assert!(deps.get::<Foo>().is_none());
}

#[test]
fn required_or_missing_passes_value_through() {
    let v = 5u8;
    assert_eq!(required_or_missing(Some(&v), "u8".to_string()), Ok(&5u8));
}

#[test]
fn required_or_missing_names_missing_type() {
    let r: Result<&u8, EventBusError> = required_or_missing(None, "my::Type".to_string());
    assert_eq!(r, Err(EventBusError::MissingDependency("my::Type".to_string())));
}
