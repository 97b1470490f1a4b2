use impostor::possibly_trim_surrounding_quotes;

#[test]
fn test_trim_quotes_for_single_quotes() {
    let result = possibly_trim_surrounding_quotes("'foo'".to_string());
    assert_eq!(result, "foo".to_string());
}

#[test]
fn test_trim_quotes_for_double_quotes() {
    let result = possibly_trim_surrounding_quotes("\"foo\"".to_string());
    assert_eq!(result, "foo".to_string());
}

#[test]
fn test_trim_quotes_for_backticks() {
    let result = possibly_trim_surrounding_quotes("`foo`".to_string());
    assert_eq!(result, "foo".to_string());
}

#[test]
fn test_trim_quotes_for_no_quotes() {
    let result = possibly_trim_surrounding_quotes("foo".to_string());
    assert_eq!(result, "foo".to_string());
}
