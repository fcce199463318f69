//! The two settings that a program may change while it runs. Each lives in a
//! variable of the process environment, which the driver reads when it needs
//! the setting; here is how a value is read and written.

use vstd::prelude::*;

verus! {

/// The variable that holds the debug setting.
pub const DEBUG_VAR: &'static str = "CMD_LIB_DEBUG";

/// The variable that holds the pipefail setting.
pub const PIPEFAIL_VAR: &'static str = "CMD_LIB_PIPEFAIL";

/// The text of `value`, if there is one.
pub open spec fn setting_view(value: Option<&str>) -> Option<Seq<char>> {
    match value {
        Some(v) => Some(v@),
        None => None,
    }
}

/// The debug setting that a variable's value stands for: on only where the
/// variable reads `1`.
pub open spec fn debug_setting(value: Option<Seq<char>>) -> bool {
    value == Some("1"@)
}

/// The pipefail setting that a variable's value stands for: on, but where
/// the variable reads `0`.
pub open spec fn pipefail_setting(value: Option<Seq<char>>) -> bool {
    value != Some("0"@)
}

/// The value that stands for a setting switched on or off.
pub open spec fn setting_value(enable: bool) -> Seq<char> {
    if enable {
        "1"@
    } else {
        "0"@
    }
}

/// Whether each chain's text is logged before the chain is run. `value` is
/// the value of the debug variable, `None` where it is not set.
pub fn debug_enabled(value: Option<&str>) -> (r: bool)
    ensures
        r == debug_setting(setting_view(value)),
{
    match value {
        Some(v) => v.eq("1"),
        None => false,
    }
}

/// Whether the first failing stage fails its chain. `value` is the value of
/// the pipefail variable, `None` where it is not set.
pub fn pipefail_enabled(value: Option<&str>) -> (r: bool)
    ensures
        r == pipefail_setting(setting_view(value)),
{
    match value {
        Some(v) => !v.eq("0"),
        None => true,
    }
}

/// The value to store in a setting's variable: `1` to switch it on, `0` to
/// switch it off.
pub fn setting_text(enable: bool) -> (r: &'static str)
    ensures
        r@ == setting_value(enable),
{
    if enable {
        "1"
    } else {
        "0"
    }
}

/// A setting that was stored reads back as it was stored; one that was
/// never stored reads as off for debug and as on for pipefail.
pub proof fn lemma_setting_round_trip(enable: bool)
    ensures
        debug_setting(Some(setting_value(enable))) == enable,
        pipefail_setting(Some(setting_value(enable))) == enable,
        !debug_setting(None),
        pipefail_setting(None),
{
    reveal_strlit("1");
    reveal_strlit("0");
    assert("1"@.len() == 1 && "0"@.len() == 1);
    assert("1"@[0] == '1' && "0"@[0] == '0');
}

} // verus!
