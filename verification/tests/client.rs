use im_switch::cli::client::{
    default_addr, interpret, request_line, resolve_addr, EXIT_OP_FAILED, EXIT_TRANSPORT,
};

#[test]
fn resolve_addr_variants() {
    assert_eq!(resolve_addr(""), "127.0.0.1:7691");
    assert_eq!(resolve_addr("9000"), "127.0.0.1:9000");
    assert_eq!(resolve_addr("192.168.0.5:7000"), "192.168.0.5:7000");
    assert_eq!(resolve_addr("myhost"), "myhost:7691");
    assert_eq!(default_addr(), "127.0.0.1:7691");
}

#[test]
fn interpret_ok_with_payload() {
    assert_eq!(
        interpret("ok\noff\n"),
        (0, "off\n".to_string(), String::new())
    );
}

#[test]
fn interpret_ok_empty() {
    assert_eq!(interpret("ok\n"), (0, String::new(), String::new()));
}

#[test]
fn interpret_err_maps_to_one() {
    let (code, out, err) = interpret("err: unknown command: bogus\n");
    assert_eq!(code, EXIT_OP_FAILED);
    assert!(out.is_empty());
    assert_eq!(err, "Error: unknown command: bogus\n");
}

#[test]
fn interpret_malformed_is_transport() {
    assert_eq!(
        interpret(""),
        (EXIT_TRANSPORT, String::new(), String::new())
    );
}

#[test]
fn interpret_unknown_first_line_is_transport() {
    assert_eq!(
        interpret("hello\nworld\n"),
        (EXIT_TRANSPORT, String::new(), String::new())
    );
    assert_eq!(interpret("ok"), (EXIT_TRANSPORT, String::new(), String::new()));
    assert_eq!(interpret("okay\n"), (EXIT_TRANSPORT, String::new(), String::new()));
}

#[test]
fn interpret_keeps_multiline_payload() {
    assert_eq!(
        interpret("ok\nfcitx-keyboard-us\nmozc\n"),
        (0, "fcitx-keyboard-us\nmozc\n".to_string(), String::new())
    );
}

#[test]
fn interpret_only_reads_first_line_of_error() {
    assert_eq!(
        interpret("err: first\nsecond\n"),
        (EXIT_OP_FAILED, String::new(), "Error: first\n".to_string())
    );
}

#[test]
fn resolve_addr_edge_cases() {
    assert_eq!(resolve_addr("[::1]:80"), "[::1]:80");
    assert_eq!(resolve_addr("0"), "127.0.0.1:0");
    assert_eq!(resolve_addr("90a"), "90a:7691");
    assert_eq!(resolve_addr("８０"), "８０:7691");
}

#[test]
fn resolve_addr_is_idempotent() {
    for v in ["", "9000", "myhost", "10.0.0.1:1", "localhost"] {
        let once = resolve_addr(v);
        assert_eq!(resolve_addr(&once), once);
        assert!(once.contains(':'));
    }
}

#[test]
fn request_line_joins_with_spaces() {
    assert_eq!(request_line(&["ime".to_string(), "off".to_string()]), "ime off");
    assert_eq!(request_line(&["get".to_string()]), "get");
    assert_eq!(request_line(&[]), "");
}
