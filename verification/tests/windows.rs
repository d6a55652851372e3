use im_switch::cli::windows::{dispatch_ime, ime_state_line, ImeAction};
use im_switch::windows::{klid_of_layout, klids_of_layouts, layout_name};

#[test]
fn standard_layout_klid_is_language_id() {
    assert_eq!(klid_of_layout(0x0409_0409), "00000409");
    assert_eq!(klid_of_layout(0x0411_0411), "00000411");
}

#[test]
fn special_layout_klid_is_full_value() {
    assert_eq!(klid_of_layout(0xE001_0411), "E0010411");
    assert_eq!(klid_of_layout(0xF002_0409), "F0020409");
    assert_eq!(
        klids_of_layouts(&[0x0409_0409, 0xE001_0411]),
        vec!["00000409".to_string(), "E0010411".to_string()]
    );
}

#[test]
fn layout_name_stops_at_nul() {
    assert_eq!(layout_name(b"00000409\0"), "00000409");
    assert_eq!(layout_name(b"0409\0\0\0\0\0"), "0409");
    assert_eq!(layout_name(b"00000411"), "00000411");
    assert_eq!(layout_name(b"\0abc"), "");
}

#[test]
fn ime_actions_parse() {
    assert_eq!(dispatch_ime("get").unwrap(), ImeAction::Get);
    assert_eq!(dispatch_ime("on").unwrap(), ImeAction::On);
    assert_eq!(dispatch_ime("off").unwrap(), ImeAction::Off);
    assert_eq!(dispatch_ime("toggle").unwrap(), ImeAction::Toggle);
    assert_eq!(dispatch_ime("flip").unwrap_err().message(), "unknown ime action: flip");
}

#[test]
fn ime_state_lines() {
    assert_eq!(ime_state_line(true), "on\n");
    assert_eq!(ime_state_line(false), "off\n");
}
