use impostor::asserts::predicate::{Number, Predicate};
use impostor::decimal::Decimal;
use impostor::json::Json;

fn whole(value: i64) -> Json {
    Json::Integer(value)
}

fn fraction(value: &str) -> Json {
    Json::Float(Decimal::parse(value).unwrap())
}

fn text(value: &str) -> Json {
    Json::String(value.to_string())
}

fn operand(value: &str) -> Number {
    Number::Float(Decimal::parse(value).unwrap())
}

#[test]
fn test_apply_equal() {
    let predicate = Predicate::Equal(text("test"));
    let against = &text("test");

    assert!(predicate.apply(against));

    let predicate = Predicate::Equal(whole(42));
    assert!(!predicate.apply(against));

    let predicate = Predicate::Equal(Json::Bool(true));
    assert!(!predicate.apply(against));

    let predicate = Predicate::Equal(Json::Null);
    assert!(!predicate.apply(against));

    let predicate = Predicate::Equal(text("not_test"));
    assert!(!predicate.apply(against));
}

#[test]
fn test_apply_not_equal() {
    let predicate = Predicate::NotEqual(text("test"));
    let against = &text("other");

    assert!(predicate.apply(against));

    let predicate = Predicate::NotEqual(whole(42));
    assert!(predicate.apply(against));

    let predicate = Predicate::NotEqual(Json::Bool(true));
    assert!(predicate.apply(against));

    let predicate = Predicate::NotEqual(Json::Null);
    assert!(predicate.apply(against));

    let predicate = Predicate::NotEqual(text("not_test"));
    assert!(predicate.apply(against));
}

#[test]
fn test_apply_greater_than() {
    let predicate = Predicate::GreaterThan(Number::Integer(10));
    let against = &whole(15);

    assert!(predicate.apply(against));

    let predicate = Predicate::GreaterThan(Number::Integer(10));
    let against = &whole(5);

    assert!(!predicate.apply(against));
}

#[test]
fn test_apply_greater_than_or_equal() {
    let predicate = Predicate::GreaterThanOrEqual(Number::Integer(10));
    let against = &whole(10);

    assert!(predicate.apply(against));

    let predicate = Predicate::GreaterThanOrEqual(Number::Integer(10));
    let against = &whole(5);

    assert!(!predicate.apply(against));
}

#[test]
fn test_apply_less_than() {
    let predicate = Predicate::LessThan(Number::Integer(10));
    let against = &whole(5);

    assert!(predicate.apply(against));

    let predicate = Predicate::LessThan(Number::Integer(10));
    let against = &whole(15);

    assert!(!predicate.apply(against));
}

#[test]
fn test_apply_less_than_or_equal() {
    let predicate = Predicate::LessThanOrEqual(Number::Integer(10));
    let against = &whole(10);

    assert!(predicate.apply(against));
}

#[test]
fn test_apply_greater_than_float_vs_integer() {
    let predicate = Predicate::GreaterThan(operand("10.5"));
    let against = &whole(15);

    assert!(predicate.apply(against));

    let predicate = Predicate::GreaterThan(operand("10.5"));
    let against = &whole(5);

    assert!(!predicate.apply(against));
}

#[test]
fn test_apply_greater_than_or_equal_float_vs_integer() {
    let predicate = Predicate::GreaterThanOrEqual(operand("10.5"));
    let against = &whole(10);

    assert!(predicate.apply(against));

    let predicate = Predicate::GreaterThanOrEqual(operand("10.5"));
    let against = &whole(5);

    assert!(!predicate.apply(against));
}

#[test]
fn test_apply_less_than_float_vs_integer() {
    let predicate = Predicate::LessThan(operand("10.5"));
    let against = &whole(5);

    assert!(predicate.apply(against));

    let predicate = Predicate::LessThan(operand("10.5"));
    let against = &whole(15);

    assert!(!predicate.apply(against));
}

#[test]
fn test_apply_less_than_or_equal_float_vs_integer() {
    let predicate = Predicate::LessThanOrEqual(operand("10.5"));
    let against = &whole(10);

    assert!(predicate.apply(against));
}

#[test]
fn test_apply_greater_than_integer_vs_float() {
    let predicate = Predicate::GreaterThan(Number::Integer(10));
    let against = &fraction("10.5");

    assert!(predicate.apply(against));

    let predicate = Predicate::GreaterThan(Number::Integer(10));
    let against = &fraction("5.5");

    assert!(!predicate.apply(against));
}

#[test]
fn test_apply_greater_than_or_equal_integer_vs_float() {
    let predicate = Predicate::GreaterThanOrEqual(Number::Integer(10));
    let against = &fraction("10.5");

    assert!(predicate.apply(against));

    let predicate = Predicate::GreaterThanOrEqual(Number::Integer(10));
    let against = &fraction("5.5");

    assert!(!predicate.apply(against));
}

#[test]
fn test_apply_less_than_integer_vs_float() {
    let predicate = Predicate::LessThan(Number::Integer(10));
    let against = &fraction("5.5");

    assert!(predicate.apply(against));

    let predicate = Predicate::LessThan(Number::Integer(10));
    let against = &fraction("15.5");

    assert!(!predicate.apply(against));
}

#[test]
fn test_apply_less_than_or_equal_integer_vs_float() {
    let predicate = Predicate::LessThanOrEqual(Number::Integer(10));
    let against = &fraction("10.5");

    assert!(predicate.apply(against));
}

#[test]
fn test_apply_start_with() {
    let predicate = Predicate::StartWith("test".to_string());
    let against = &text("test value");

    assert!(predicate.apply(against));
    assert!(!predicate.apply(&text("value test")));
}

#[test]
fn test_apply_end_with() {
    let predicate = Predicate::EndWith("test".to_string());
    let against = &text("value test");

    assert!(predicate.apply(against));
    assert!(!predicate.apply(&text("test value")));
}

#[test]
fn test_apply_contain() {
    let predicate = Predicate::Contain("test".to_string());
    let against = &text("value with test");

    assert!(predicate.apply(against));
    assert!(!predicate.apply(&text("value without")));
}

#[test]
fn test_apply_include() {
    let predicate = Predicate::Include(text("test"));
    let against = &Json::Array(vec![text("test"), text("other")]);

    assert!(predicate.apply(against));
    assert!(!predicate.apply(&Json::Array(vec![text("other")])));
}

#[test]
fn test_apply_match() {
    let predicate = Predicate::Match("^test$".to_string());
    let against = &text("test");

    assert!(predicate.apply(against));
    assert!(!predicate.apply(&text("other")));
}

#[test]
fn test_apply_is_integer() {
    let predicate = Predicate::IsInteger;
    let against = &whole(42);

    assert!(predicate.apply(against));
    assert!(!predicate.apply(&fraction("3.14")));
}

#[test]
fn test_apply_is_float() {
    let predicate = Predicate::IsFloat;
    let against = &fraction("3.14");

    assert!(predicate.apply(against));
    assert!(!predicate.apply(&whole(42)));
}

#[test]
fn test_apply_is_boolean() {
    let predicate = Predicate::IsBoolean;
    let against = &Json::Bool(true);

    assert!(predicate.apply(against));
    assert!(!predicate.apply(&whole(42)));
}

#[test]
fn test_apply_is_string() {
    let predicate = Predicate::IsString;
    let against = &text("test");

    assert!(predicate.apply(against));
    assert!(!predicate.apply(&whole(42)));
}

#[test]
fn test_apply_is_collection() {
    let predicate = Predicate::IsCollection;
    let against = &Json::Array(vec![text("test"), text("other")]);

    assert!(predicate.apply(against));
    assert!(!predicate.apply(&whole(42)));
}

#[test]
fn test_apply_exist() {
    let predicate = Predicate::Exist;
    let against = &whole(42);

    assert!(predicate.apply(against));
    assert!(!predicate.apply(&Json::Null));
}

#[test]
fn test_apply_is_empty() {
    let predicate = Predicate::IsEmpty;
    let against = &Json::Array(vec![]);

    assert!(predicate.apply(against));
    assert!(!predicate.apply(&Json::Array(vec![whole(1), whole(2), whole(3)])));

    assert!(predicate.apply(against));
    assert!(!predicate.apply(&Json::Null));
}

#[test]
fn numeric_table_at_boundary_values() {
    // Operand 10 against 10.5, 10.0 and 9.5; operand 10.5 against 10 and 11.
    assert!(Predicate::GreaterThan(Number::Integer(10)).apply(&fraction("10.5")));
    assert!(!Predicate::GreaterThan(Number::Integer(10)).apply(&fraction("10.0")));
    assert!(!Predicate::GreaterThan(operand("10.5")).apply(&whole(11)));
    assert!(Predicate::GreaterThan(operand("10.5")).apply(&whole(12)));
    assert!(Predicate::GreaterThan(operand("10.25")).apply(&fraction("10.5")));
    assert!(!Predicate::GreaterThan(operand("10.5")).apply(&fraction("10.5")));

    assert!(Predicate::GreaterThanOrEqual(operand("10.5")).apply(&whole(10)));
    assert!(!Predicate::GreaterThanOrEqual(operand("10.5")).apply(&whole(9)));
    assert!(Predicate::GreaterThanOrEqual(Number::Integer(10)).apply(&fraction("10.0")));
    assert!(!Predicate::GreaterThanOrEqual(Number::Integer(10)).apply(&fraction("9.5")));
    assert!(Predicate::GreaterThanOrEqual(operand("10.5")).apply(&fraction("10.5")));

    assert!(!Predicate::LessThan(Number::Integer(10)).apply(&fraction("10.0")));
    assert!(Predicate::LessThan(Number::Integer(10)).apply(&fraction("9.5")));
    assert!(!Predicate::LessThan(Number::Integer(10)).apply(&fraction("10.5")));
    assert!(Predicate::LessThan(operand("10.5")).apply(&whole(10)));
    assert!(!Predicate::LessThan(operand("10.5")).apply(&whole(11)));
    assert!(Predicate::LessThan(operand("10.5")).apply(&fraction("10.25")));

    assert!(Predicate::LessThanOrEqual(operand("10.5")).apply(&whole(10)));
    assert!(Predicate::LessThanOrEqual(operand("10.5")).apply(&whole(11)));
    assert!(!Predicate::LessThanOrEqual(operand("10.5")).apply(&whole(12)));
    assert!(Predicate::LessThanOrEqual(Number::Integer(10)).apply(&fraction("10.5")));
    assert!(!Predicate::LessThanOrEqual(Number::Integer(10)).apply(&fraction("11.0")));
    assert!(Predicate::LessThanOrEqual(operand("10.5")).apply(&fraction("10.5")));
}

#[test]
fn negative_fractions_round_towards_the_right_side() {
    // floor(-0.5) is -1 and ceil(-0.5) is 0.
    assert!(Predicate::LessThan(Number::Integer(0)).apply(&fraction("-0.5")));
    assert!(!Predicate::LessThan(Number::Integer(-1)).apply(&fraction("-0.5")));
    assert!(Predicate::GreaterThan(Number::Integer(-1)).apply(&fraction("-0.5")));
    assert!(!Predicate::GreaterThan(Number::Integer(0)).apply(&fraction("-0.5")));
    assert!(Predicate::GreaterThan(operand("-1.5")).apply(&fraction("-0.5")));
}

#[test]
fn fractions_beyond_the_integers_are_compared_exactly() {
    let huge = fraction("99999999999999999999.5");
    assert!(Predicate::GreaterThan(Number::Integer(i64::MAX)).apply(&huge));
    assert!(!Predicate::LessThan(Number::Integer(i64::MAX)).apply(&huge));
    let tiny = fraction("-99999999999999999999.5");
    assert!(Predicate::LessThan(Number::Integer(i64::MIN)).apply(&tiny));
    assert!(!Predicate::GreaterThanOrEqual(Number::Integer(i64::MIN)).apply(&tiny));
}

#[test]
fn ordering_predicates_are_false_of_what_is_no_number() {
    for subject in [text("12"), Json::Null, Json::Bool(true), Json::Array(vec![whole(12)])] {
        assert!(!Predicate::GreaterThan(Number::Integer(10)).apply(&subject));
        assert!(!Predicate::GreaterThanOrEqual(Number::Integer(10)).apply(&subject));
        assert!(!Predicate::LessThan(operand("10.5")).apply(&subject));
        assert!(!Predicate::LessThanOrEqual(operand("10.5")).apply(&subject));
        assert!(!Predicate::LessThan(Number::BigInteger("99999999999999999999".to_string()))
            .apply(&subject));
    }
}

#[test]
fn equality_tells_kinds_apart() {
    assert!(!Predicate::Equal(text("1")).apply(&whole(1)));
    assert!(!Predicate::Equal(whole(1)).apply(&fraction("1.0")));
    assert!(Predicate::Equal(fraction("1.50")).apply(&fraction("1.5")));
    assert!(Predicate::Equal(fraction("-0.0")).apply(&fraction("0.0")));
    let object = || Json::Object(vec![("a".to_string(), Json::Array(vec![whole(1), Json::Null]))]);
    assert!(Predicate::Equal(object()).apply(&object()));
    assert!(Predicate::NotEqual(object()).apply(&Json::Object(vec![])));
}

#[test]
fn include_looks_at_elements_and_keys() {
    let object = Json::Object(vec![("a".to_string(), whole(1)), ("b".to_string(), whole(2))]);
    assert!(Predicate::Include(text("b")).apply(&object));
    assert!(!Predicate::Include(text("c")).apply(&object));
    assert!(!Predicate::Include(whole(1)).apply(&object));
    assert!(!Predicate::Include(text("a")).apply(&text("a")));
    assert!(Predicate::Include(whole(2)).apply(&Json::Array(vec![whole(1), whole(2)])));
}

#[test]
fn is_empty_holds_of_empty_collections_only() {
    assert!(Predicate::IsEmpty.apply(&Json::Object(vec![])));
    assert!(!Predicate::IsEmpty.apply(&Json::Object(vec![("a".to_string(), Json::Null)])));
    assert!(!Predicate::IsEmpty.apply(&text("")));
    assert!(Predicate::IsCollection.apply(&Json::Object(vec![])));
}

#[test]
fn match_searches_anywhere_and_rejects_bad_patterns() {
    assert!(Predicate::Match("b+c".to_string()).apply(&text("aabbbcc")));
    assert!(!Predicate::Match("^b+c".to_string()).apply(&text("aabbbcc")));
    assert!(!Predicate::Match("(".to_string()).apply(&text("(")));
    assert!(!Predicate::Match("1".to_string()).apply(&whole(1)));
}

#[test]
fn string_relations_need_a_string() {
    assert!(Predicate::StartWith("".to_string()).apply(&text("abc")));
    assert!(Predicate::Contain("".to_string()).apply(&text("")));
    assert!(Predicate::EndWith("abc".to_string()).apply(&text("abc")));
    assert!(!Predicate::EndWith("abcd".to_string()).apply(&text("abc")));
    assert!(!Predicate::StartWith("1".to_string()).apply(&whole(1)));
    assert!(!Predicate::Contain("a".to_string()).apply(&Json::Array(vec![text("a")])));
}
