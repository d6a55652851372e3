//! Linux: input methods through fcitx5 (D-Bus) or ibus (its CLI), whichever
//! the session runs.

pub mod fcitx5;
pub mod ibus;

use vstd::prelude::*;

use crate::error::{ErrorModel, ImSwitchError};
use crate::text::{contains_text, has_infix};

verus! {

/// An input method framework.
#[derive(Debug, Clone, Copy, PartialEq, Eq, Structural)]
pub enum ImFramework {
    Fcitx5,
    Ibus,
}

/// The next thing framework detection does.
#[derive(Debug, PartialEq, Eq, Structural)]
pub enum DetectStep {
    /// Check whether the fcitx5 D-Bus service answers.
    ProbeFcitx5,
    /// Check whether the ibus command answers.
    ProbeIbus,
    /// Detection is over: the framework found, if any.
    Detected(Option<ImFramework>),
}

/// The framework that an `XMODIFIERS` value (e.g. `@im=fcitx`) names.
pub open spec fn env_framework(xmodifiers: Seq<char>) -> Option<ImFramework> {
    if has_infix(xmodifiers, "fcitx"@) {
        Some(ImFramework::Fcitx5)
    } else if has_infix(xmodifiers, "ibus"@) {
        Some(ImFramework::Ibus)
    } else {
        None
    }
}

/// Framework detection, given `XMODIFIERS` and the probes run so far: the
/// environment decides first, then fcitx5 is probed, then ibus.
pub open spec fn spec_detect_step(
    xmodifiers: Option<Seq<char>>,
    fcitx5_ok: Option<bool>,
    ibus_ok: Option<bool>,
) -> DetectStep {
    let env = match xmodifiers {
        Some(x) => env_framework(x),
        None => None,
    };
    if env is Some {
        DetectStep::Detected(env)
    } else {
        match fcitx5_ok {
            None => DetectStep::ProbeFcitx5,
            Some(true) => DetectStep::Detected(Some(ImFramework::Fcitx5)),
            Some(false) => match ibus_ok {
                None => DetectStep::ProbeIbus,
                Some(true) => DetectStep::Detected(Some(ImFramework::Ibus)),
                Some(false) => DetectStep::Detected(None),
            },
        }
    }
}

/// The next step of framework detection. `xmodifiers` is the value of the
/// `XMODIFIERS` environment variable, if set; `fcitx5_ok` and `ibus_ok` are
/// the outcomes of the probes run so far.
pub fn next_detect_step(xmodifiers: Option<&str>, fcitx5_ok: Option<bool>, ibus_ok: Option<bool>) -> (s:
    DetectStep)
    ensures
        s == spec_detect_step(
            match xmodifiers {
                Some(x) => Some(x@),
                None => None,
            },
            fcitx5_ok,
            ibus_ok,
        ),
{
    if let Some(x) = xmodifiers {
        if contains_text(x, "fcitx") {
            return DetectStep::Detected(Some(ImFramework::Fcitx5));
        }
        if contains_text(x, "ibus") {
            return DetectStep::Detected(Some(ImFramework::Ibus));
        }
    }
    match fcitx5_ok {
        None => DetectStep::ProbeFcitx5,
        Some(true) => DetectStep::Detected(Some(ImFramework::Fcitx5)),
        Some(false) => match ibus_ok {
            None => DetectStep::ProbeIbus,
            Some(true) => DetectStep::Detected(Some(ImFramework::Ibus)),
            Some(false) => DetectStep::Detected(None),
        },
    }
}

/// The text of the error when no framework was detected.
pub open spec fn no_framework_text() -> Seq<char> {
    "no supported input method framework detected (fcitx5 or ibus)"@
}

/// The framework to use, given the outcome of detection.
pub fn get_framework(detected: Option<ImFramework>) -> (r: Result<ImFramework, ImSwitchError>)
    ensures
        match detected {
            Some(f) => r == Ok::<ImFramework, ImSwitchError>(f),
            None => r matches Err(e) && e@ == ErrorModel::Platform(no_framework_text()),
        },
{
    match detected {
        Some(f) => Ok(f),
        None => Err(
            ImSwitchError::Platform(
                "no supported input method framework detected (fcitx5 or ibus)".to_owned(),
            ),
        ),
    }
}

/// Detection needs at most the two probes: once both outcomes are known,
/// it is over.
pub proof fn law_detection_ends(xmodifiers: Option<Seq<char>>, fcitx5_ok: bool, ibus_ok: bool)
    ensures
        spec_detect_step(xmodifiers, Some(fcitx5_ok), Some(ibus_ok)) is Detected,
{
}

} // verus!
