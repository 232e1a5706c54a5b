use artichoke_backend::matchdata::names::{method, Error};
use artichoke_backend::{
    Artichoke, ExtractionError, MatchData, Regex, Regexp, TryConvert, Value, MATCH_DATA_CLASS,
    OBJECT_CLASS,
};

fn match_data(pattern: &str, names: &[Option<&str>]) -> MatchData {
    MatchData {
        regexp: Regexp {
            pattern: String::from(pattern),
            regex: Some(Regex {
                capture_names: names.iter().map(|n| n.map(String::from)).collect(),
            }),
        },
    }
}

fn names_of(interp: &mut Artichoke, data: MatchData) -> Result<Vec<String>, Error> {
    let value = interp.new_match_data(data);
    let result = method(interp, &value)?;
    Ok(<Vec<String>>::try_convert(interp, result).expect("array of strings"))
}

#[test]
fn names_dedup_in_first_seen_order() {
    let mut interp = Artichoke::new();
    let data = match_data(
        "(?<a>)(?<b>)(?<a>)",
        &[None, Some("a"), Some("b"), Some("a")],
    );
    assert_eq!(names_of(&mut interp, data), Ok(vec![String::from("a"), String::from("b")]));
}

#[test]
fn names_of_unnamed_groups_is_empty() {
    let mut interp = Artichoke::new();
    let data = match_data("(a)(b)", &[None, None, None]);
    assert_eq!(names_of(&mut interp, data), Ok(vec![]));
}

#[test]
fn names_of_date_pattern() {
    let mut interp = Artichoke::new();
    let data = match_data(
        r"(?<year>\d+)-(?<month>\d+)-(?<year>\d+)",
        &[None, Some("year"), Some("month"), Some("year")],
    );
    assert_eq!(
        names_of(&mut interp, data),
        Ok(vec![String::from("year"), String::from("month")])
    );
}

#[test]
fn names_skip_unnamed_between_named() {
    let mut interp = Artichoke::new();
    let data = match_data(
        "(x)(?<b>.)(y)(?<a>.)(?<b>.)",
        &[None, None, Some("b"), None, Some("a"), Some("b")],
    );
    assert_eq!(names_of(&mut interp, data), Ok(vec![String::from("b"), String::from("a")]));
}

#[test]
fn names_on_unrelated_receiver_is_fatal() {
    let mut interp = Artichoke::new();
    let foo = interp.define_class("Foo");
    let obj = interp.new_object(foo);
    assert_eq!(method(&mut interp, &obj), Err(Error::Fatal));
    let plain = interp.new_object(OBJECT_CLASS);
    assert_eq!(method(&mut interp, &plain), Err(Error::Fatal));
    assert_eq!(method(&mut interp, &Value::Nil), Err(Error::Fatal));
    let s = interp.new_string(String::from("MatchData"));
    assert_eq!(method(&mut interp, &s), Err(Error::Fatal));
}

#[test]
fn names_without_backing_or_compiled_pattern_is_fatal() {
    let mut interp = Artichoke::new();
    let bare = interp.new_object(MATCH_DATA_CLASS);
    assert_eq!(method(&mut interp, &bare), Err(Error::Fatal));
    let uncompiled = MatchData {
        regexp: Regexp {
            pattern: String::from("(?<a>"),
            regex: None,
        },
    };
    assert_eq!(names_of(&mut interp, uncompiled), Err(Error::Fatal));
}

#[test]
fn extraction_checks_class_then_backing() {
    let mut interp = Artichoke::new();
    let obj = interp.new_object(OBJECT_CLASS);
    assert!(matches!(
        MatchData::try_from_ruby(&interp, &obj),
        Err(ExtractionError::WrongClass)
    ));
    assert!(matches!(
        MatchData::try_from_ruby(&interp, &Value::Bool(true)),
        Err(ExtractionError::WrongClass)
    ));
    let bare = interp.new_object(MATCH_DATA_CLASS);
    assert!(matches!(
        MatchData::try_from_ruby(&interp, &bare),
        Err(ExtractionError::MissingBacking)
    ));
    let value = interp.new_match_data(match_data("(?<z>)", &[None, Some("z")]));
    let data = MatchData::try_from_ruby(&interp, &value).expect("backed");
    assert_eq!(data.regexp.pattern, "(?<z>)");
}
