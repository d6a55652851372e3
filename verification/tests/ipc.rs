use im_switch::cli::client::{interpret, request_line, EXIT_OP_FAILED};
use im_switch::cli::ipc::{
    answer_without_backend, bind_address, dispatch_line, ends_session, payload, request_text,
    response_text, Outcome,
    Request, DEFAULT_PORT,
};
use im_switch::ImSwitchError;

#[test]
fn dispatch_unknown_is_error() {
    assert!(dispatch_line("nope").is_err());
}

#[test]
fn ime_is_unsupported_off_windows() {
    let err = dispatch_line("ime off").unwrap_err();
    assert!(err.message().contains("only supported on Windows"));
}

#[test]
fn dispatch_known_requests() {
    assert!(matches!(dispatch_line("get"), Ok(Request::Get)));
    assert!(matches!(dispatch_line("list"), Ok(Request::List)));
    assert!(matches!(dispatch_line("ping"), Ok(Request::Ping)));
    assert!(matches!(dispatch_line("shutdown"), Ok(Request::Shutdown)));
    match dispatch_line("set  mozc ") {
        Ok(Request::Switch(im)) => assert_eq!(im, "mozc"),
        other => panic!("unexpected {other:?}"),
    }
}

#[test]
fn dispatch_unknown_message_names_the_line() {
    let err = dispatch_line("get now").unwrap_err();
    assert_eq!(err.message(), "unknown command: get now");
    let err = dispatch_line("set").unwrap_err();
    assert_eq!(err.message(), "unknown command: set");
    let err = dispatch_line("ime").unwrap_err();
    assert_eq!(err.message(), "ime control is only supported on Windows");
}

#[test]
fn request_text_trims_and_skips_blank() {
    assert_eq!(request_text("  get \r\n"), Some("get".to_string()));
    assert_eq!(request_text("\n"), None);
    assert_eq!(request_text(""), None);
    assert_eq!(request_text("\u{3000}list\u{a0}"), Some("list".to_string()));
}

#[test]
fn payloads_match_cli_output() {
    assert_eq!(payload(&Outcome::Current("mozc".to_string())), "mozc\n");
    assert_eq!(
        payload(&Outcome::Methods(vec!["a".to_string(), "b".to_string()])),
        "a\nb\n"
    );
    assert_eq!(payload(&Outcome::Methods(vec![])), "");
    assert_eq!(payload(&Outcome::Done), "");
}

#[test]
fn response_text_formats_both_cases() {
    assert_eq!(
        response_text(&Ok(Outcome::Current("keyboard-us".to_string()))),
        "ok\nkeyboard-us\n"
    );
    assert_eq!(response_text(&Ok(Outcome::Done)), "ok\n");
    assert_eq!(
        response_text(&Err(ImSwitchError::Platform("unknown command: x".to_string()))),
        "err: unknown command: x\n"
    );
    assert_eq!(
        response_text(&Err(ImSwitchError::UnsupportedPlatform)),
        "err: unsupported platform\n"
    );
    assert_eq!(
        response_text(&Err(ImSwitchError::Io("broken pipe".to_string()))),
        "err: IO error: broken pipe\n"
    );
    assert_eq!(
        response_text(&Err(ImSwitchError::InputMethodNotFound("xx".to_string()))),
        "err: input method not found: xx\n"
    );
}

#[test]
fn response_round_trips_through_client() {
    let ok = response_text(&Ok(Outcome::Methods(vec!["us".to_string(), "mozc".to_string()])));
    assert_eq!(interpret(&ok), (0, "us\nmozc\n".to_string(), String::new()));
    let err = response_text(&Err(ImSwitchError::UnsupportedPlatform));
    assert_eq!(
        interpret(&err),
        (EXIT_OP_FAILED, String::new(), "Error: unsupported platform\n".to_string())
    );
}

#[test]
fn forwarded_request_reaches_daemon_intact() {
    let args = vec!["set".to_string(), "keyboard-de".to_string()];
    let sent = format!("{}\n", request_line(&args));
    let line = request_text(&sent).unwrap();
    match dispatch_line(&line) {
        Ok(Request::Switch(im)) => assert_eq!(im, "keyboard-de"),
        other => panic!("unexpected {other:?}"),
    }
}

#[test]
fn only_shutdown_ends_session() {
    assert!(ends_session(&Request::Shutdown));
    assert!(!ends_session(&Request::Ping));
    assert!(!ends_session(&Request::Get));
}

#[test]
fn bind_address_accepts_loopback_only() {
    assert_eq!(bind_address("127.0.0.1", DEFAULT_PORT).unwrap(), "127.0.0.1:7691");
    assert_eq!(bind_address("127.1.2.255", 80).unwrap(), "127.1.2.255:80");
    assert_eq!(bind_address("localhost", 1).unwrap(), "localhost:1");
    assert_eq!(bind_address("LOCALHOST", 7691).unwrap(), "LOCALHOST:7691");
    assert_eq!(bind_address("LocalHost", 2).unwrap(), "LocalHost:2");
    assert_eq!(bind_address("[::1]", 9).unwrap(), "[::1]:9");
    for bad in ["0.0.0.0", "192.168.0.5", "127.0.0", "127.0.0.1.1", "127.0.0.256", "127.00.0.1", "", "example.com", "localhosts", "locaIhost"] {
        let e = bind_address(bad, 7691).unwrap_err();
        assert_eq!(e.message(), format!("refusing to serve on non-loopback address: {bad}"));
    }
}

#[test]
fn ping_and_shutdown_need_no_backend() {
    for line in ["ping", "shutdown"] {
        let req = dispatch_line(line).unwrap();
        let outcome = answer_without_backend(&req).unwrap();
        assert!(matches!(outcome, Outcome::Done));
        assert_eq!(response_text(&Ok(outcome)), "ok\n");
    }
    for line in ["get", "list", "set mozc"] {
        assert!(answer_without_backend(&dispatch_line(line).unwrap()).is_none());
    }
}
