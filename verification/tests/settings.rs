use cmd_lib::settings::{debug_enabled, pipefail_enabled, setting_text, DEBUG_VAR, PIPEFAIL_VAR};

#[test]
fn debug_is_off_unless_the_variable_reads_one() {
    assert!(!debug_enabled(None));
    assert!(debug_enabled(Some("1")));
    assert!(!debug_enabled(Some("0")));
    assert!(!debug_enabled(Some("")));
    assert!(!debug_enabled(Some("true")));
}

#[test]
fn pipefail_is_on_unless_the_variable_reads_zero() {
    assert!(pipefail_enabled(None));
    assert!(pipefail_enabled(Some("1")));
    assert!(!pipefail_enabled(Some("0")));
    assert!(pipefail_enabled(Some("")));
    assert!(pipefail_enabled(Some("false")));
}

#[test]
fn a_stored_setting_reads_back() {
    assert_eq!(setting_text(true), "1");
    assert_eq!(setting_text(false), "0");
    for enable in [true, false] {
        assert_eq!(debug_enabled(Some(setting_text(enable))), enable);
        assert_eq!(pipefail_enabled(Some(setting_text(enable))), enable);
    }
}

#[test]
fn variables_have_their_names() {
    assert_eq!(DEBUG_VAR, "CMD_LIB_DEBUG");
    assert_eq!(PIPEFAIL_VAR, "CMD_LIB_PIPEFAIL");
}
