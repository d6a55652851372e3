use fcitx5_dbus::zbus;
use im_switch::linux::fcitx5::{bus_result, method_names};
use im_switch::linux::ibus::{engine_list_outcome, engine_query_outcome, engine_switch_outcome, CommandOutput};
use im_switch::linux::{get_framework, next_detect_step, DetectStep, ImFramework};

#[test]
fn environment_decides_first() {
    assert_eq!(
        next_detect_step(Some("@im=fcitx"), None, None),
        DetectStep::Detected(Some(ImFramework::Fcitx5))
    );
    assert_eq!(
        next_detect_step(Some("@im=ibus"), Some(true), None),
        DetectStep::Detected(Some(ImFramework::Ibus))
    );
}

#[test]
fn probes_run_in_order() {
    assert_eq!(next_detect_step(None, None, None), DetectStep::ProbeFcitx5);
    assert_eq!(next_detect_step(Some("@im=none"), None, None), DetectStep::ProbeFcitx5);
    assert_eq!(
        next_detect_step(None, Some(true), None),
        DetectStep::Detected(Some(ImFramework::Fcitx5))
    );
    assert_eq!(next_detect_step(None, Some(false), None), DetectStep::ProbeIbus);
    assert_eq!(
        next_detect_step(None, Some(false), Some(true)),
        DetectStep::Detected(Some(ImFramework::Ibus))
    );
    assert_eq!(next_detect_step(None, Some(false), Some(false)), DetectStep::Detected(None));
}

#[test]
fn missing_framework_is_an_error() {
    assert_eq!(get_framework(Some(ImFramework::Ibus)).unwrap(), ImFramework::Ibus);
    let e = get_framework(None).unwrap_err();
    assert_eq!(
        e.message(),
        "no supported input method framework detected (fcitx5 or ibus)"
    );
}

#[test]
fn ibus_query_trims_output() {
    let run = Ok(CommandOutput { success: true, stdout: b"xkb:us::eng\n".to_vec(), stderr: vec![] });
    assert_eq!(engine_query_outcome(run).unwrap(), "xkb:us::eng");
}

#[test]
fn ibus_query_failures() {
    let run = Ok(CommandOutput { success: false, stdout: vec![], stderr: b"no daemon".to_vec() });
    assert_eq!(
        engine_query_outcome(run).unwrap_err().message(),
        "ibus: engine query failed: no daemon"
    );
    let run = Err("No such file or directory (os error 2)".to_string());
    assert_eq!(
        engine_query_outcome(run).unwrap_err().message(),
        "ibus: failed to run command: No such file or directory (os error 2)"
    );
    let run = Ok(CommandOutput { success: false, stdout: vec![], stderr: vec![0xff, b'x'] });
    assert_eq!(
        engine_query_outcome(run).unwrap_err().message(),
        "ibus: engine query failed: \u{fffd}x"
    );
}

#[test]
fn ibus_switch_outcomes() {
    let ok = Ok(CommandOutput { success: true, stdout: vec![], stderr: vec![] });
    assert!(engine_switch_outcome(ok).is_ok());
    let bad = Ok(CommandOutput { success: false, stdout: vec![], stderr: b"unknown engine".to_vec() });
    assert_eq!(
        engine_switch_outcome(bad).unwrap_err().message(),
        "ibus: failed to set engine: unknown engine"
    );
}

#[test]
fn bus_errors_carry_context() {
    let r: Result<String, zbus::Error> = Err(zbus::Error::Unsupported);
    assert_eq!(
        bus_result(r, "fcitx5: failed to get input method: ").unwrap_err().message(),
        "fcitx5: failed to get input method: Connection support is lacking"
    );
    let r: Result<u8, zbus::Error> = Ok(7);
    assert_eq!(bus_result(r, "x: ").unwrap(), 7);
}

#[test]
fn method_names_keep_order() {
    let entry = |n: &str| {
        (n.to_string(), "Unique".to_string(), "".to_string(), "".to_string(), "".to_string(), "".to_string(), false)
    };
    assert_eq!(
        method_names(vec![entry("keyboard-us"), entry("mozc")]),
        vec!["keyboard-us".to_string(), "mozc".to_string()]
    );
    assert!(method_names(vec![]).is_empty());
}

#[test]
fn fcitx5_without_bus_reports_platform_error() {
    // With no reachable fcitx5 service the backend fails with a fcitx5 error.
    if let Err(e) = im_switch::linux::fcitx5::get_input_method() {
        assert!(e.message().starts_with("fcitx5: "));
    }
}

#[test]
fn ibus_list_reads_names() {
    let run = Ok(CommandOutput { success: true, stdout: b"xkb:us::eng\nmozc-jp\n\n".to_vec(), stderr: vec![] });
    assert_eq!(engine_list_outcome(run).unwrap(), vec!["xkb:us::eng".to_string(), "mozc-jp".to_string()]);
    let bad = Ok(CommandOutput { success: false, stdout: vec![], stderr: b"boom".to_vec() });
    assert_eq!(engine_list_outcome(bad).unwrap_err().message(), "ibus: failed to list engines: boom");
}
