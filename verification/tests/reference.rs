//! Tests of validated type references.

use baproto::syntax::reference::{Reference, ReferenceError};

#[test]
fn test_reference_valid_absolute() {
    let result = Reference::try_new_absolute(vec!["foo"], "Bar");
    assert!(result.is_ok());
    let r = result.unwrap();
    assert!(r.is_absolute());
    assert_eq!(r.name(), "Bar");
    assert_eq!(r.to_string(), ".foo.Bar");
}
#[test]
fn test_reference_valid_absolute_nested() {
    let result = Reference::try_new_absolute(vec!["foo", "bar"], "Baz");
    assert!(result.is_ok());
    assert_eq!(result.unwrap().to_string(), ".foo.bar.Baz");
}
#[test]
fn test_reference_valid_relative() {
    let result = Reference::try_new_relative(Vec::<&str>::new(), "Foo");
    assert!(result.is_ok());
    let r = result.unwrap();
    assert!(!r.is_absolute());
    assert_eq!(r.name(), "Foo");
    assert_eq!(r.to_string(), "Foo");
}
#[test]
fn test_reference_valid_relative_with_path() {
    let result = Reference::try_new_relative(vec!["foo"], "Bar");
    assert!(result.is_ok());
    assert_eq!(result.unwrap().to_string(), "foo.Bar");
}
#[test]
fn test_reference_rejects_empty_name() {
    let result = Reference::try_new_absolute(Vec::<&str>::new(), "");
    assert_eq!(result.unwrap_err(), ReferenceError::EmptyName);
}
#[test]
fn test_reference_rejects_invalid_name_chars() {
    let result = Reference::try_new_absolute(Vec::<&str>::new(), "Invalid-Name");
    assert!(matches!(
        result,
        Err(ReferenceError::InvalidNameCharacters(_))
    ));
}
#[test]
fn test_reference_rejects_invalid_name_chars_dot() {
    let result = Reference::try_new_relative(Vec::<&str>::new(), "Invalid.Name");
    assert!(matches!(
        result,
        Err(ReferenceError::InvalidNameCharacters(_))
    ));
}
#[test]
fn test_reference_rejects_invalid_path_segment() {
    let result = Reference::try_new_absolute(vec!["invalid.path".to_string()], "Name");
    assert!(matches!(
        result,
        Err(ReferenceError::InvalidPathCharacters(_))
    ));
}
#[test]
fn test_reference_allows_underscores() {
    let result = Reference::try_new_absolute(vec!["foo_bar".to_string()], "Baz_Qux");
    assert!(result.is_ok());
}
#[test]
fn test_reference_allows_alphanumeric() {
    let result = Reference::try_new_absolute(vec!["foo123".to_string()], "Bar456");
    assert!(result.is_ok());
}
