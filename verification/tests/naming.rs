use kopium::uppercase_first_letter;

#[test]
fn capitalizes_first_ascii_letter() {
    assert_eq!(uppercase_first_letter("foo"), "Foo");
    assert_eq!(uppercase_first_letter("fooBar"), "FooBar");
    assert_eq!(uppercase_first_letter("x"), "X");
}

#[test]
fn leaves_non_lowercase_starts_alone() {
    assert_eq!(uppercase_first_letter("Foo"), "Foo");
    assert_eq!(uppercase_first_letter("9lives"), "9lives");
    assert_eq!(uppercase_first_letter("_tmp"), "_tmp");
}

#[test]
fn empty_stays_empty() {
    assert_eq!(uppercase_first_letter(""), "");
}
