use artichoke_backend::{Artichoke, Convert, Error, Ruby, Rust, TryConvert, Value, OBJECT_CLASS};

#[test]
fn fail_convert() {
    let mut interp = Artichoke::new();
    // a value that can't be converted to a sequence
    let value = interp.new_object(OBJECT_CLASS);
    let expected = Error {
        from: Ruby::Object,
        to: Rust::Vec,
    };
    let result = <Vec<bool>>::try_convert(&interp, value).map(|_| ());
    assert_eq!(result, Err(expected));
}

#[test]
fn bool_vec_length_is_kept() {
    for v in [vec![], vec![true], vec![false, true, true, false, false]] {
        let mut interp = Artichoke::new();
        let value = Value::convert(&mut interp, v.clone());
        let Value::Array(id) = value else {
            panic!("not an array: {:?}", value)
        };
        assert_eq!(interp.array_items(id).len(), v.len());
    }
}

#[test]
fn bool_vec_round_trip() {
    for v in [vec![], vec![false], vec![true, false, true, true]] {
        let mut interp = Artichoke::new();
        let value = Value::convert(&mut interp, v.clone());
        assert_eq!(<Vec<bool>>::try_convert(&interp, value), Ok(v));
    }
}

#[test]
fn bool_vec_elements_are_runtime_booleans() {
    let mut interp = Artichoke::new();
    let value = Value::convert(&mut interp, vec![true, false]);
    assert_eq!(value, Value::Array(0));
    assert_eq!(interp.array_items(0), &vec![Value::Bool(true), Value::Bool(false)]);
}

#[test]
fn option_bool_vec_round_trip() {
    let v = vec![Some(true), None, Some(false), None];
    let mut interp = Artichoke::new();
    let value = Value::convert(&mut interp, v.clone());
    let Value::Array(id) = value else {
        panic!("not an array: {:?}", value)
    };
    assert_eq!(
        interp.array_items(id),
        &vec![Value::Bool(true), Value::Nil, Value::Bool(false), Value::Nil]
    );
    assert_eq!(<Vec<Option<bool>>>::try_convert(&interp, value), Ok(v));
}

#[test]
fn non_array_to_sequence_is_a_mismatch() {
    let mut interp = Artichoke::new();
    let s = interp.new_string(String::from("abc"));
    assert_eq!(
        <Vec<bool>>::try_convert(&interp, Value::Nil),
        Err(Error { from: Ruby::Nil, to: Rust::Vec })
    );
    assert_eq!(
        <Vec<Option<bool>>>::try_convert(&interp, Value::Fixnum(3)),
        Err(Error { from: Ruby::Fixnum, to: Rust::Vec })
    );
    assert_eq!(
        <Vec<String>>::try_convert(&interp, s),
        Err(Error { from: Ruby::String, to: Rust::Vec })
    );
    assert_eq!(
        <Vec<Value>>::try_convert(&interp, Value::Bool(true)),
        Err(Error { from: Ruby::Bool, to: Rust::Vec })
    );
}

#[test]
fn first_element_error_is_passed_on_unchanged() {
    let mut interp = Artichoke::new();
    let s = interp.new_string(String::from("no"));
    let value = Value::convert(
        &mut interp,
        vec![Value::Bool(true), Value::Fixnum(1), s, Value::Nil],
    );
    assert_eq!(
        <Vec<bool>>::try_convert(&interp, value),
        Err(Error { from: Ruby::Fixnum, to: Rust::Bool })
    );
    let value = Value::convert(&mut interp, vec![Value::Nil, s, Value::Fixnum(1)]);
    assert_eq!(
        <Vec<Option<bool>>>::try_convert(&interp, value),
        Err(Error { from: Ruby::String, to: Rust::Bool })
    );
    let value = Value::convert(&mut interp, vec![s, Value::Bool(false)]);
    assert_eq!(
        <Vec<String>>::try_convert(&interp, value),
        Err(Error { from: Ruby::Bool, to: Rust::String })
    );
}

#[test]
fn scalar_conversions() {
    let mut interp = Artichoke::new();
    let t = Value::convert(&mut interp, true);
    assert_eq!(t, Value::Bool(true));
    assert_eq!(bool::try_convert(&interp, t), Ok(true));
    assert_eq!(
        bool::try_convert(&interp, Value::Nil),
        Err(Error { from: Ruby::Nil, to: Rust::Bool })
    );
    let n = Value::convert(&mut interp, -42i64);
    assert_eq!(n, Value::Fixnum(-42));
    assert_eq!(i64::try_convert(&interp, n), Ok(-42));
    assert_eq!(
        i64::try_convert(&interp, Value::Bool(false)),
        Err(Error { from: Ruby::Bool, to: Rust::SignedInt })
    );
    let s = Value::convert(&mut interp, String::from("héllo"));
    assert_eq!(String::try_convert(&interp, s), Ok(String::from("héllo")));
    assert_eq!(
        String::try_convert(&interp, Value::Fixnum(0)),
        Err(Error { from: Ruby::Fixnum, to: Rust::String })
    );
}

#[test]
fn optional_scalar_conversions() {
    let mut interp = Artichoke::new();
    assert_eq!(Value::convert(&mut interp, None::<bool>), Value::Nil);
    assert_eq!(Value::convert(&mut interp, Some(false)), Value::Bool(false));
    assert_eq!(<Option<bool>>::try_convert(&interp, Value::Nil), Ok(None));
    assert_eq!(<Option<bool>>::try_convert(&interp, Value::Bool(true)), Ok(Some(true)));
    // the error names the element type, not the optional one
    assert_eq!(
        <Option<bool>>::try_convert(&interp, Value::Fixnum(1)),
        Err(Error { from: Ruby::Fixnum, to: Rust::Bool })
    );
}

#[test]
fn string_vec_round_trip() {
    let mut interp = Artichoke::new();
    let v = vec![String::from("a"), String::from(""), String::from("a")];
    let value = Value::convert(&mut interp, v.clone());
    assert_eq!(<Vec<String>>::try_convert(&interp, value), Ok(v));
    let empty = Value::convert(&mut interp, Vec::<String>::new());
    assert_eq!(<Vec<String>>::try_convert(&interp, empty), Ok(vec![]));
}

#[test]
fn foreign_handles_become_nil_in_a_new_array() {
    let mut interp = Artichoke::new();
    let value = Value::convert(&mut interp, vec![Value::Fixnum(7), Value::Array(5)]);
    assert_eq!(
        <Vec<Value>>::try_convert(&interp, value),
        Ok(vec![Value::Fixnum(7), Value::Nil])
    );
}
