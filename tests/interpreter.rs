use artichoke_backend::{Artichoke, Value, OBJECT_CLASS};

#[test]
fn open_close() {
    let interp = Artichoke::new();
    drop(interp);
}

#[test]
fn heap_handles_index_their_arenas() {
    let mut interp = Artichoke::new();
    let foo = interp.define_class("Foo");
    assert_eq!(foo, 2);
    let a = interp.new_object(OBJECT_CLASS);
    let b = interp.new_object(foo);
    assert_eq!(a, Value::Object(0));
    assert_eq!(b, Value::Object(1));
    assert_eq!(interp.object_at(1).class, foo);
    assert_eq!(interp.object_at(1).backing, None);
    let s = interp.new_string(String::from("x"));
    assert_eq!(s, Value::String(0));
    assert_eq!(interp.string_at(0), "x");
    assert!(interp.valid_handle(s));
    assert!(!interp.valid_handle(Value::Array(0)));
    assert!(interp.valid_handle(Value::Nil));
}
