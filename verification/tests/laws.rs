use posix_portable_filename::PortableFilename;

#[test]
fn accepted_name_is_kept_as_given() {
    for s in ["a", "My_File-2.tar.gz", "...", ".a", "Z9"] {
        let name = PortableFilename::new(s).unwrap();
        assert_eq!(name.as_str(), s);
        assert_eq!(name.clone().into_inner(), s);
        let back: String = name.into();
        assert_eq!(back, s);
    }
}

#[test]
fn revalidating_a_name_succeeds() {
    let name = PortableFilename::new("report.v2").unwrap();
    let again = PortableFilename::new(name.as_str()).unwrap();
    assert_eq!(again, name);
}

#[test]
fn every_way_in_agrees_with_new() {
    for s in ["ok.txt", "", "-x", "..", "a b"] {
        let by_new = PortableFilename::new(s).map_err(|e| e.reason());
        let by_parse = s.parse::<PortableFilename>().map_err(|e| e.reason());
        let by_str = PortableFilename::try_from(s).map_err(|e| e.reason());
        let by_string = PortableFilename::try_from(s.to_string()).map_err(|e| e.reason());
        assert_eq!(by_new, by_parse);
        assert_eq!(by_new, by_str);
        assert_eq!(by_new, by_string);
    }
}

#[test]
fn names_are_ascii_with_one_byte_per_character() {
    let name = PortableFilename::new(&"x".repeat(255)).unwrap();
    assert!(name.is_ascii());
    assert_eq!(name.len(), name.chars().count());
}

#[test]
fn names_order_as_their_strings() {
    let name = |s: &str| PortableFilename::new(s).unwrap();
    assert!(name("B") < name("a"));
    assert!(name("a") < name("aa"));
    assert!(name("Z9") < name("Za"));
    assert!(name(".x") < name("0"));
    assert_eq!(name("abc").partial_cmp(&name("abc")), Some(std::cmp::Ordering::Equal));
    assert_eq!(name("b").cmp(&name("a")), std::cmp::Ordering::Greater);
}

#[test]
fn path_buf_holds_the_name() {
    let name = PortableFilename::new("notes.md").unwrap();
    let path: std::path::PathBuf = name.into();
    assert_eq!(path, std::path::PathBuf::from("notes.md"));
}

#[test]
fn error_debug_shows_the_reason() {
    let err = PortableFilename::new("").unwrap_err();
    assert_eq!(format!("{:?}", err), "InvalidFilename { reason: \"cannot be empty\" }");
}
