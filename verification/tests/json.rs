use piotr::json::JsonValue;

#[test]
fn members_are_found_by_key() {
    let j = JsonValue::object()
        .with("a", JsonValue::integer(-3))
        .with("b", JsonValue::singleton(JsonValue::text("t")));
    assert_eq!(j.get("a").unwrap().as_i64(), Some(-3));
    assert_eq!(j.get("b").unwrap().first().unwrap().as_str(), Some("t"));
    assert!(j.get("c").is_none());
    assert!(JsonValue::Null.get("a").is_none());
    assert_eq!(JsonValue::Null.with("a", JsonValue::Null), JsonValue::Null);
    assert_eq!(JsonValue::integer(7), JsonValue::Unsigned(7));
}

#[test]
fn values_of_another_sort_give_nothing() {
    assert!(JsonValue::List(vec![]).first().is_none());
    assert!(JsonValue::text("x").first().is_none());
    assert!(JsonValue::Bool(true).as_str().is_none());
    assert!(JsonValue::Unsigned(u64::MAX).as_i64().is_none());
    assert_eq!(JsonValue::Unsigned(i64::MAX as u64).as_i64(), Some(i64::MAX));
    assert!(JsonValue::Real(0).as_i64().is_none());
}
