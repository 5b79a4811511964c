use worker_bridge::handshake::line_signals_ready;

#[test]
fn accepts_the_bare_token() {
    assert!(line_signals_ready("READY"));
}

#[test]
fn accepts_trailing_newline_and_whitespace() {
    assert!(line_signals_ready("READY\n"));
    assert!(line_signals_ready("READY\r\n"));
    assert!(line_signals_ready("READY \t \n"));
}

#[test]
fn rejects_other_content() {
    assert!(!line_signals_ready(""));
    assert!(!line_signals_ready("\n"));
    assert!(!line_signals_ready("ready"));
    assert!(!line_signals_ready("READY!"));
    assert!(!line_signals_ready("READY extra\n"));
    assert!(!line_signals_ready("NOT READY\n"));
}

#[test]
fn rejects_leading_whitespace() {
    assert!(!line_signals_ready(" READY\n"));
    assert!(!line_signals_ready("\tREADY"));
}
