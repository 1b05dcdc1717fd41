use mpv_rc::command::Command;

fn tokens_of(c: &Command) -> Vec<String> {
    c.encode().tokens().clone()
}

#[test]
fn new_command_has_default_tokens() {
    let c = Command::new();
    assert_eq!(tokens_of(&c), vec!["show-text".to_string(), "from mpv-rc".to_string()]);
    assert_eq!(c.given_title(), "");
    assert_eq!(c.active_count(), 2);
}

#[test]
fn default_matches_new() {
    let c: Command = Default::default();
    assert_eq!(tokens_of(&c), vec!["show-text".to_string(), "from mpv-rc".to_string()]);
}

#[test]
fn title_joins_active_tokens_when_explicit_title_empty() {
    let c = Command::from_record(String::new(), vec!["seek".into(), "10".into()]);
    assert_eq!(c.title(), "seek 10");
}

#[test]
fn title_prefers_explicit_title() {
    let mut c = Command::from_record(String::new(), vec!["seek".into(), "10".into()]);
    c.set_title("Jump".into());
    assert_eq!(c.title(), "Jump");
}

#[test]
fn title_of_default_command() {
    let c = Command::new();
    assert_eq!(c.title(), "show-text from mpv-rc");
}

#[test]
fn add_appends_empty_slot() {
    let mut c = Command::from_record(String::new(), vec!["a".into()]);
    c.add();
    assert_eq!(tokens_of(&c), vec!["a".to_string(), String::new()]);
    assert_eq!(c.active_count(), 2);
}

#[test]
fn del_shrinks_active_length() {
    let mut c = Command::from_record(String::new(), vec!["a".into(), "b".into()]);
    c.del();
    assert_eq!(tokens_of(&c), vec!["a".to_string()]);
}

#[test]
fn del_is_noop_at_one_token() {
    let mut c = Command::from_record(String::new(), vec!["stop".into()]);
    c.del();
    assert_eq!(tokens_of(&c), vec!["stop".to_string()]);
    c.del();
    assert_eq!(tokens_of(&c), vec!["stop".to_string()]);
}

#[test]
fn add_after_del_restores_stored_token() {
    let mut c = Command::from_record(String::new(), vec!["a".into(), "b".into()]);
    c.del();
    assert_eq!(tokens_of(&c), vec!["a".to_string()]);
    c.add();
    assert_eq!(tokens_of(&c), vec!["a".to_string(), "b".to_string()]);
}

#[test]
fn encode_length_tracks_active_count_through_grow_shrink_grow() {
    let mut c = Command::from_record(String::new(), vec!["x".into(), "y".into()]);
    c.add();
    assert_eq!(c.encode().tokens().len(), 3);
    c.del();
    c.del();
    assert_eq!(c.encode().tokens().len(), 1);
    c.add();
    assert_eq!(c.encode().tokens().len(), 2);
    assert_eq!(c.encode().tokens().len(), c.active_count());
}

#[test]
fn encode_never_leaks_deallocated_slots() {
    let mut c = Command::from_record(String::new(), vec!["a".into(), "secret".into()]);
    c.del();
    let tokens = tokens_of(&c);
    assert_eq!(tokens, vec!["a".to_string()]);
    assert!(!tokens.iter().any(|t| t == "secret"));
}

#[test]
fn set_token_changes_one_slot() {
    let mut c = Command::from_record(String::new(), vec!["cycle".into(), "sub".into()]);
    c.set_token(1, "audio".into());
    assert_eq!(tokens_of(&c), vec!["cycle".to_string(), "audio".to_string()]);
    assert_eq!(c.token(0), "cycle");
    assert_eq!(c.token(1), "audio");
}

#[test]
fn id_is_stable_across_calls_and_renames() {
    let mut c = Command::new();
    let before = c.id();
    c.set_title("renamed".into());
    c.add();
    c.del();
    assert_eq!(c.id(), before);
}
