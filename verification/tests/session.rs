use mpv_rc::command::CommandMessage;
use mpv_rc::session::{ReadOutcome, Session, WriteOutcome};

#[test]
fn new_session_has_neutral_status_and_path_title() {
    let s = Session::new("mpv\\default".into());
    assert_eq!(s.title(), "mpv\\default");
    assert_eq!(s.status(), "Status");
}

#[test]
fn wire_line_is_one_json_line() {
    let msg = CommandMessage::new(vec!["show-text".into(), "hi".into()]);
    let line = Session::wire_line(&msg);
    assert_eq!(line, b"{\"command\":[\"show-text\",\"hi\"]}\n".to_vec());
}

#[test]
fn wire_line_escapes_tokens() {
    let msg = CommandMessage::new(vec!["show-text".into(), "a\"b\\c".into()]);
    let line = Session::wire_line(&msg);
    assert_eq!(
        String::from_utf8(line).unwrap(),
        "{\"command\":[\"show-text\",\"a\\\"b\\\\c\"]}\n"
    );
}

#[test]
fn poll_with_no_data_keeps_status_across_repeated_calls() {
    let mut s = Session::new("p".into());
    s.poll(ReadOutcome::Data(b"playing".to_vec()));
    assert_eq!(s.status(), "playing");
    s.poll(ReadOutcome::NoData);
    assert_eq!(s.status(), "playing");
    s.poll(ReadOutcome::NoData);
    s.poll(ReadOutcome::NoData);
    assert_eq!(s.status(), "playing");
}

#[test]
fn poll_after_broken_pipe_behaves_like_idle() {
    let mut s = Session::new("p".into());
    s.poll(ReadOutcome::Data(b"last words".to_vec()));
    s.poll(ReadOutcome::BrokenPipe);
    assert_eq!(s.status(), "last words");
    s.poll(ReadOutcome::NoData);
    assert_eq!(s.status(), "last words");
    s.poll(ReadOutcome::BrokenPipe);
    assert_eq!(s.status(), "last words");
}

#[test]
fn poll_with_data_replaces_status_verbatim() {
    let mut s = Session::new("p".into());
    s.poll(ReadOutcome::Data(b"{\"event\":\"pause\"}\n".to_vec()));
    assert_eq!(s.status(), "{\"event\":\"pause\"}\n");
}

#[test]
fn poll_with_empty_data_keeps_status() {
    let mut s = Session::new("p".into());
    s.poll(ReadOutcome::Data(Vec::new()));
    assert_eq!(s.status(), "Status");
}

#[test]
fn poll_with_invalid_utf8_notes_encoding_error() {
    let mut s = Session::new("p".into());
    s.poll(ReadOutcome::Data(vec![0xff, 0xfe, 0x20]));
    assert_eq!(s.status(), "invalid utf8");
}

#[test]
fn poll_failure_is_recorded() {
    let mut s = Session::new("p".into());
    s.poll(ReadOutcome::Failed("Os { code: 5 }".into()));
    assert_eq!(s.status(), "can't read: Os { code: 5 }");
}

#[test]
fn send_then_poll_in_same_tick_leaves_status_unchanged() {
    let mut s = Session::new("p".into());
    s.poll(ReadOutcome::Data(b"ready".to_vec()));
    let msg = CommandMessage::new(vec!["show-text".into(), "hi".into()]);
    let _line = Session::wire_line(&msg);
    s.note_send(WriteOutcome::Done);
    s.poll(ReadOutcome::NoData);
    assert_eq!(s.status(), "ready");
}

#[test]
fn failed_send_is_recorded_and_session_stays_usable() {
    let mut s = Session::new("p".into());
    s.note_send(WriteOutcome::Failed("broken pipe (os error 32)".into()));
    assert_eq!(s.status(), "broken pipe (os error 32)");
    s.poll(ReadOutcome::Data(b"back again".to_vec()));
    assert_eq!(s.status(), "back again");
    assert_eq!(s.title(), "p");
}
