use line_relay::client::outgoing;
use line_relay::text::is_exit_line;

#[test]
fn typed_line_is_sent_trimmed() {
    let out = outgoing("hello\n");
    assert_eq!(out.line, "hello");
    assert!(!out.last);
    let out = outgoing("  two words \r\n");
    assert_eq!(out.line, "two words");
    assert!(!out.last);
}

#[test]
fn typed_exit_is_sent_as_the_bare_keyword() {
    for input in ["exit\n", "EXIT\n", "  ExIt  \n", "exit"] {
        let out = outgoing(input);
        assert_eq!(out.line, "exit", "{:?}", input);
        assert!(out.last, "{:?}", input);
    }
}

#[test]
fn empty_input_is_sent_as_an_empty_line() {
    let out = outgoing("\n");
    assert_eq!(out.line, "");
    assert!(!out.last);
    let out = outgoing("");
    assert_eq!(out.line, "");
    assert!(!out.last);
}

#[test]
fn relay_ends_the_session_exactly_when_the_client_stops() {
    for input in ["exit\n", " Exit ", "exit now\n", "hello\n", "\n", "e x i t", "EXIT\t\n"] {
        let out = outgoing(input);
        assert_eq!(is_exit_line(&out.line), out.last, "{:?}", input);
    }
}
