//! IME on/off control as the Windows CLI and daemon offer it: `ime get`,
//! `ime on`, `ime off`, `ime toggle`.

use vstd::prelude::*;

use crate::error::{platform_error, ErrorModel, ImSwitchError};

verus! {

/// An IME action.
#[derive(Debug, Clone, Copy, PartialEq, Eq, Structural)]
pub enum ImeAction {
    /// Get the current IME state
    Get,
    /// Turn on the IME
    On,
    /// Turn off the IME
    Off,
    /// Toggle the IME state
    Toggle,
}

/// The action an `ime` request's argument names.
pub open spec fn spec_dispatch_ime(action: Seq<char>) -> Result<ImeAction, ErrorModel> {
    if action == "get"@ {
        Ok(ImeAction::Get)
    } else if action == "on"@ {
        Ok(ImeAction::On)
    } else if action == "off"@ {
        Ok(ImeAction::Off)
    } else if action == "toggle"@ {
        Ok(ImeAction::Toggle)
    } else {
        Err(ErrorModel::Platform("unknown ime action: "@ + action))
    }
}

/// The action an `ime` request's argument names.
pub fn dispatch_ime(action: &str) -> (r: Result<ImeAction, ImSwitchError>)
    ensures
        match r {
            Ok(a) => spec_dispatch_ime(action@) == Ok::<ImeAction, ErrorModel>(a),
            Err(e) => spec_dispatch_ime(action@) == Err::<ImeAction, ErrorModel>(e@),
        },
{
    if crate::text::same_text(action, "get") {
        Ok(ImeAction::Get)
    } else if crate::text::same_text(action, "on") {
        Ok(ImeAction::On)
    } else if crate::text::same_text(action, "off") {
        Ok(ImeAction::Off)
    } else if crate::text::same_text(action, "toggle") {
        Ok(ImeAction::Toggle)
    } else {
        Err(platform_error("unknown ime action: ", action))
    }
}

/// The line printed for an IME state: `on` or `off`.
pub open spec fn state_line(open: bool) -> Seq<char> {
    if open {
        "on\n"@
    } else {
        "off\n"@
    }
}

/// The line printed for an IME state: `on` or `off`.
pub fn ime_state_line(open: bool) -> (s: String)
    ensures
        s@ == state_line(open),
{
    if open {
        "on\n".to_owned()
    } else {
        "off\n".to_owned()
    }
}

} // verus!
