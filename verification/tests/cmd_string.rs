use cmd_lib::cmd_string::CmdString;

#[test]
fn default_is_empty() {
    assert_eq!(CmdString::default().as_str(), "");
    assert_eq!(CmdString::default().into_string(), "");
}

#[test]
fn append_puts_the_value_at_the_end() {
    let s = CmdString::default().append("/tmp").append("/").append("file");
    assert_eq!(s.as_str(), "/tmp/file");
    assert_eq!(s.into_string(), "/tmp/file");
}

#[test]
fn from_takes_the_text() {
    let s = CmdString::from("a b").append("").append(" c");
    assert_eq!(s.as_str(), "a b c");
    assert_eq!(s.0, "a b c");
}
