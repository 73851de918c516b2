use cargo_tag::errors::OpError;
use cargo_tag::manifest::from_text;
use cargo_tag::version::Version;

fn sample() -> String {
    "[package]\nname = \"demo\"\nversion = \"1.2.3\"\nedition = \"2021\"\n\n[dependencies]\nserde = { version = \"1\" }\n".to_string()
}

#[test]
fn open_reads_version() {
    let m = from_text(sample()).unwrap();
    assert_eq!(m.current_version(), Version { major: 1, minor: 2, patch: 3 });
    assert_eq!(m.version_field_text(), "1.2.3");
}

#[test]
fn write_version_rewrites_only_the_value() {
    let m = from_text(sample()).unwrap();
    let new = m.write_version(&Version { major: 1, minor: 2, patch: 4 });
    let expected = "[package]\nname = \"demo\"\nversion = \"1.2.4\"\nedition = \"2021\"\n\n[dependencies]\nserde = { version = \"1\" }\n";
    assert_eq!(new, expected);
}

#[test]
fn write_version_preserves_unrelated_fields_byte_for_byte() {
    let m = from_text(sample()).unwrap();
    let new = m.write_version(&Version { major: 2, minor: 0, patch: 0 });
    let old = sample();
    let before_value = "[package]\nname = \"demo\"\nversion = \"";
    let after_value = "\"\nedition = \"2021\"\n\n[dependencies]\nserde = { version = \"1\" }\n";
    assert!(old.starts_with(before_value) && old.ends_with(after_value));
    assert!(new.starts_with(before_value) && new.ends_with(after_value));
    assert_eq!(&new[before_value.len()..new.len() - after_value.len()], "2.0.0");
}

#[test]
fn missing_version_field() {
    let text = "[package]\nname = \"demo\"\nedition = \"2021\"\n".to_string();
    assert_eq!(from_text(text).err(), Some(OpError::MissingVersionField));
}

#[test]
fn missing_version_field_in_empty_text() {
    assert_eq!(from_text(String::new()).err(), Some(OpError::MissingVersionField));
}

#[test]
fn unterminated_value_is_manifest_parse_error() {
    let text = "[package]\nversion = \"1.2.3".to_string();
    assert_eq!(from_text(text).err(), Some(OpError::ManifestParseError));
}

#[test]
fn non_version_value_is_parse_error() {
    let text = "[package]\nversion = \"abc\"\n".to_string();
    assert_eq!(from_text(text).err(), Some(OpError::ParseError));
}

#[test]
fn version_key_inside_a_line_is_not_a_field() {
    let text = "[dependencies]\nserde = { version = \"1.0.0\" }\n".to_string();
    assert_eq!(from_text(text).err(), Some(OpError::MissingVersionField));
}

#[test]
fn value_at_end_of_text_without_trailing_newline() {
    let m = from_text("version = \"7.8.9\"".to_string()).unwrap();
    assert_eq!(m.current_version(), Version { major: 7, minor: 8, patch: 9 });
    let new = m.write_version(&Version { major: 7, minor: 8, patch: 10 });
    assert_eq!(new, "version = \"7.8.10\"");
}

#[test]
fn first_version_line_wins() {
    let text = "version = \"3.4.5\"\nversion = \"9.9.9\"\n".to_string();
    let m = from_text(text).unwrap();
    assert_eq!(m.current_version(), Version { major: 3, minor: 4, patch: 5 });
    let new = m.write_version(&Version { major: 3, minor: 4, patch: 6 });
    assert_eq!(new, "version = \"3.4.6\"\nversion = \"9.9.9\"\n");
}
