use posix_portable_filename::{InvalidFilename, PortableFilename};

#[test]
fn valid_filenames() {
    let cases = [
        "foo",
        "foo_bar",
        "foo-bar",
        "foo.bar",
        "FooBar123",
        "_leading_underscore",
        ".hidden",
        "a",
        "...",
        "0",
        "123",
        "a.b.c.d",
    ];
    for case in cases {
        assert!(
            PortableFilename::new(case).is_ok(),
            "should accept: {}",
            case
        );
    }
}

#[test]
fn empty_rejected() {
    let err = PortableFilename::new("").unwrap_err();
    assert_eq!(err.reason(), "cannot be empty");
}

#[test]
fn dot_dotdot_rejected() {
    assert!(PortableFilename::new(".").is_err());
    assert!(PortableFilename::new("..").is_err());
}

#[test]
fn leading_hyphen_rejected() {
    let cases = ["-foo", "-", "--flag", "-rf"];
    for case in cases {
        let err = PortableFilename::new(case).unwrap_err();
        assert_eq!(err.reason(), "cannot start with '-'", "for input: {}", case);
    }
}

#[test]
fn non_portable_chars_rejected() {
    let cases = [
        ("foo/bar", "path separator"),
        ("foo bar", "space"),
        ("foo*", "asterisk"),
        ("foo?bar", "question mark"),
        ("foo:bar", "colon"),
        ("foo\0bar", "null"),
        ("café", "non-ASCII"),
        ("foo\nbar", "newline"),
        ("foo\\bar", "backslash"),
        ("foo<bar", "less than"),
        ("foo>bar", "greater than"),
        ("foo|bar", "pipe"),
        ("foo\"bar", "quote"),
        ("foo'bar", "apostrophe"),
        ("foo`bar", "backtick"),
        ("foo!bar", "exclamation"),
        ("foo@bar", "at sign"),
        ("foo#bar", "hash"),
        ("foo$bar", "dollar"),
        ("foo%bar", "percent"),
        ("foo^bar", "caret"),
        ("foo&bar", "ampersand"),
        ("foo(bar", "open paren"),
        ("foo)bar", "close paren"),
        ("foo=bar", "equals"),
        ("foo+bar", "plus"),
        ("foo[bar", "open bracket"),
        ("foo]bar", "close bracket"),
        ("foo{bar", "open brace"),
        ("foo}bar", "close brace"),
        ("foo;bar", "semicolon"),
        ("foo,bar", "comma"),
        ("foo~bar", "tilde"),
    ];
    for (case, desc) in cases {
        assert!(
            PortableFilename::new(case).is_err(),
            "should reject {} ({})",
            case,
            desc
        );
    }
}

#[test]
fn max_length_enforced() {
    let long = "a".repeat(255);
    assert!(PortableFilename::new(&long).is_ok());

    let too_long = "a".repeat(256);
    let err = PortableFilename::new(&too_long).unwrap_err();
    assert_eq!(err.reason(), "exceeds 255 bytes");
}

#[test]
fn error_display() {
    let err = PortableFilename::new("").unwrap_err();
    assert_eq!(
        err.to_string(),
        "invalid portable filename: cannot be empty"
    );
}

#[test]
fn from_str_works() {
    let name: PortableFilename = "test.txt".parse().unwrap();
    assert_eq!(name.as_str(), "test.txt");
}

#[test]
fn try_from_works() {
    let name = PortableFilename::try_from("test.txt").unwrap();
    assert_eq!(name.as_str(), "test.txt");

    let name = PortableFilename::try_from(String::from("test.txt")).unwrap();
    assert_eq!(name.as_str(), "test.txt");
}

#[test]
fn into_string_works() {
    let name = PortableFilename::new("test.txt").unwrap();
    let s: String = name.into();
    assert_eq!(s, "test.txt");
}

#[test]
fn as_path_works() {
    let name = PortableFilename::new("test.txt").unwrap();
    let path: &std::path::Path = name.as_ref();
    assert_eq!(path, std::path::Path::new("test.txt"));
}

#[test]
fn deref_works() {
    let name = PortableFilename::new("test.txt").unwrap();
    assert!(name.ends_with(".txt"));
    assert_eq!(name.len(), 8);
}

#[test]
fn ordering_works() {
    let a = PortableFilename::new("aaa").unwrap();
    let b = PortableFilename::new("bbb").unwrap();
    assert!(a < b);
}

#[test]
fn borrow_enables_hashmap_lookup() {
    let mut map: std::collections::HashMap<PortableFilename, i32> = std::collections::HashMap::new();
    let key = PortableFilename::new("config.txt").unwrap();
    map.insert(key, 42);

    // Look up using &str via Borrow<str>
    assert_eq!(map.get("config.txt"), Some(&42));
}

fn reason_of(s: &str) -> &'static str {
    let err: InvalidFilename = PortableFilename::new(s).unwrap_err();
    err.reason()
}

#[test]
fn each_rejection_has_its_reason() {
    assert_eq!(reason_of(""), "cannot be empty");
    assert_eq!(reason_of(&"b".repeat(300)), "exceeds 255 bytes");
    assert_eq!(reason_of("."), "cannot be '.' or '..'");
    assert_eq!(reason_of(".."), "cannot be '.' or '..'");
    assert_eq!(reason_of("-x"), "cannot start with '-'");
    assert_eq!(reason_of("x y"), "contains non-portable characters");
}

#[test]
fn each_rejection_has_its_message() {
    let message = |s: &str| PortableFilename::new(s).unwrap_err().to_string();
    assert_eq!(message("a".repeat(256).as_str()), "invalid portable filename: exceeds 255 bytes");
    assert_eq!(message(".."), "invalid portable filename: cannot be '.' or '..'");
    assert_eq!(message("-a"), "invalid portable filename: cannot start with '-'");
    assert_eq!(message("a/b"), "invalid portable filename: contains non-portable characters");
}

#[test]
fn length_limit_counts_bytes_not_characters() {
    // 'é' takes two bytes in UTF-8: 128 of them are 128 characters but 256 bytes.
    assert_eq!(reason_of(&"é".repeat(128)), "exceeds 255 bytes");
    // A short non-ASCII name is refused for its characters, not its length.
    assert_eq!(reason_of("é"), "contains non-portable characters");
}

#[test]
fn first_broken_rule_is_reported() {
    // Too long and starting with a hyphen: the length is checked first.
    assert_eq!(reason_of(&"-".repeat(256)), "exceeds 255 bytes");
    // A leading hyphen followed by a non-portable character.
    assert_eq!(reason_of("-é"), "cannot start with '-'");
    // A non-portable first character, then a hyphen.
    assert_eq!(reason_of("é-"), "contains non-portable characters");
    // "..." is neither reserved name, and made of portable characters.
    assert!(PortableFilename::new("...").is_ok());
    // A hyphen is allowed anywhere but first.
    assert!(PortableFilename::new(".-").is_ok());
    assert!(PortableFilename::new("a-").is_ok());
}
