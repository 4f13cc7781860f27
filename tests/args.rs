use filer::args::{validate_extension, validate_replace};

#[test]
fn valid_extension() {
    assert_eq!(
        Err("Please exclude the '.' character from that start of your extension.".to_owned()),
        validate_extension(".txt")
    );

    assert_eq!(Ok("txt".to_owned()), validate_extension("txt"));
}

#[test]
fn valid_replace() {
    assert_eq!(
        Err("The \"->\" delimiter is missing. Use as such: \"old->new\"".to_owned()),
        validate_replace("from to")
    );

    assert_eq!(Ok("from->to".to_owned()), validate_replace("from->to"));
}

#[test]
fn empty_extension_is_accepted() {
    assert_eq!(Ok(String::new()), validate_extension(""));
}

#[test]
fn replace_with_arrow_at_the_end_is_accepted() {
    assert_eq!(Ok("a->".to_owned()), validate_replace("a->"));
    assert!(validate_replace("a-").is_err());
    assert!(validate_replace(">-").is_err());
}
