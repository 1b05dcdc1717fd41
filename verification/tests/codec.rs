use mpv_rc::codec::{commands_from_json, commands_to_json, PersistenceError};
use mpv_rc::command::Command;

fn roundtrip(cmds: &Vec<Command>) -> Vec<Command> {
    let bytes = commands_to_json(cmds);
    commands_from_json(bytes.as_slice()).expect("written document must load")
}

fn tokens_of(c: &Command) -> Vec<String> {
    c.encode().tokens().clone()
}

#[test]
fn empty_list_round_trips() {
    let cmds: Vec<Command> = Vec::new();
    assert_eq!(commands_to_json(&cmds), b"[]");
    assert_eq!(roundtrip(&cmds).len(), 0);
}

#[test]
fn written_document_is_compact_json() {
    let cmds = vec![Command::from_record("T".into(), vec!["a".into(), "b".into()])];
    let bytes = commands_to_json(&cmds);
    assert_eq!(
        String::from_utf8(bytes).unwrap(),
        r#"[{"title":"T","cmds":["a","b"]}]"#
    );
}

#[test]
fn round_trip_keeps_titles_and_tokens() {
    let cmds = vec![
        Command::from_record("Subtitle+".into(), vec!["cycle".into(), "sub".into()]),
        Command::from_record(String::new(), vec!["seek".into(), "10".into()]),
        Command::new(),
    ];
    let back = roundtrip(&cmds);
    assert_eq!(back.len(), cmds.len());
    for (a, b) in cmds.iter().zip(back.iter()) {
        assert_eq!(a.title(), b.title());
        assert_eq!(tokens_of(a), tokens_of(b));
    }
}

#[test]
fn round_trip_keeps_strings_needing_escapes() {
    let tricky = vec![
        "quote \" here".to_string(),
        "back \\ slash".to_string(),
        "line\nbreak\ttab".to_string(),
        "nul\u{0}byte".to_string(),
    ];
    let cmds = vec![Command::from_record("a\"b\\c\nd".into(), tricky.clone())];
    let back = roundtrip(&cmds);
    assert_eq!(back[0].given_title(), "a\"b\\c\nd");
    assert_eq!(tokens_of(&back[0]), tricky);
}

#[test]
fn round_trip_keeps_multibyte_text() {
    let cmds = vec![Command::from_record(
        "héllo 🎉".into(),
        vec!["show-text".into(), "日本語テキスト".into(), "émoji 😀".into()],
    )];
    let back = roundtrip(&cmds);
    assert_eq!(back[0].title(), "héllo 🎉");
    assert_eq!(tokens_of(&back[0]), tokens_of(&cmds[0]));
}

#[test]
fn loaded_record_gets_fresh_active_length() {
    let back = commands_from_json(br#"[{"title":"","cmds":["stop"]}]"#).unwrap();
    assert_eq!(back.len(), 1);
    assert_eq!(back[0].title(), "stop");
    assert_eq!(tokens_of(&back[0]), vec!["stop".to_string()]);
    assert_eq!(back[0].active_count(), 1);
}

#[test]
fn load_tolerates_whitespace() {
    let back = commands_from_json(
        b" [ { \"title\" : \"T\" ,\n\t\"cmds\" : [ \"a\" , \"b\" ] } ] \n",
    )
    .unwrap();
    assert_eq!(back[0].title(), "T");
    assert_eq!(tokens_of(&back[0]), vec!["a".to_string(), "b".to_string()]);
}

#[test]
fn load_tolerates_member_order_and_unknown_keys() {
    let back = commands_from_json(
        br#"[{"color":[1,{"z":null},true],"cmds":["s"],"note":"x","off":false,"title":"T","n":-1.5e3}]"#,
    )
    .unwrap();
    assert_eq!(back[0].title(), "T");
    assert_eq!(tokens_of(&back[0]), vec!["s".to_string()]);
}

#[test]
fn later_duplicate_member_wins() {
    let back =
        commands_from_json(br#"[{"title":"a","cmds":["x"],"title":"b"}]"#).unwrap();
    assert_eq!(back[0].title(), "b");
}

#[test]
fn missing_members_get_defaults() {
    let back = commands_from_json(b"[{}]").unwrap();
    assert_eq!(back.len(), 1);
    assert_eq!(back[0].given_title(), "");
    assert_eq!(back[0].active_count(), 0);
    assert_eq!(tokens_of(&back[0]), Vec::<String>::new());
}

#[test]
fn load_handles_unicode_escapes() {
    let back = commands_from_json(br#"[{"title":"\u0041\u00e9","cmds":["\ud83d\ude00"]}]"#)
        .unwrap();
    assert_eq!(back[0].title(), "Aé");
    assert_eq!(tokens_of(&back[0]), vec!["😀".to_string()]);
}

#[test]
fn load_handles_simple_escapes() {
    let back =
        commands_from_json(br#"[{"title":"a\nb\t\/\"\\","cmds":["\b\f\r"]}]"#).unwrap();
    assert_eq!(back[0].given_title(), "a\nb\t/\"\\");
    assert_eq!(tokens_of(&back[0]), vec!["\u{8}\u{c}\r".to_string()]);
}

#[test]
fn malformed_documents_are_rejected() {
    let bad: Vec<&[u8]> = vec![
        b"",
        b"   ",
        b"{}",
        b"[",
        b"[{]",
        b"[{}",
        b"[{},]",
        b"[{}]x",
        br#"[{"title":5}]"#,
        br#"[{"cmds":"x"}]"#,
        br#"[{"cmds":[5]}]"#,
        br#"[{"title":"\ud800"}]"#,
        br#"[{"title":"\uzzzz"}]"#,
        br#"[{"title":"a}]"#,
        b"[\"x\"]",
    ];
    for doc in bad {
        assert!(
            matches!(commands_from_json(doc), Err(PersistenceError::Malformed)),
            "accepted: {:?}",
            String::from_utf8_lossy(doc)
        );
    }
}

#[test]
fn invalid_utf8_inside_string_is_rejected() {
    let mut doc: Vec<u8> = Vec::new();
    doc.extend_from_slice(br#"[{"title":""#);
    doc.push(0xff);
    doc.extend_from_slice(br#""}]"#);
    assert!(matches!(
        commands_from_json(doc.as_slice()),
        Err(PersistenceError::Malformed)
    ));
}

#[test]
fn raw_control_byte_inside_string_is_rejected() {
    assert!(matches!(
        commands_from_json(b"[{\"title\":\"a\nb\"}]"),
        Err(PersistenceError::Malformed)
    ));
}

#[test]
fn written_document_is_valid_json_for_other_readers() {
    let cmds = vec![Command::from_record(
        "mixed \" title\n".into(),
        vec!["cycle".into(), "süb 😀".into()],
    )];
    let bytes = commands_to_json(&cmds);
    let v: serde_json::Value = serde_json::from_slice(&bytes).unwrap();
    let arr = v.as_array().unwrap();
    assert_eq!(arr.len(), 1);
    assert_eq!(arr[0]["title"].as_str().unwrap(), "mixed \" title\n");
    let cmds_back: Vec<&str> = arr[0]["cmds"]
        .as_array()
        .unwrap()
        .iter()
        .map(|x| x.as_str().unwrap())
        .collect();
    assert_eq!(cmds_back, vec!["cycle", "süb 😀"]);
}

#[test]
fn documents_written_by_other_writers_load() {
    let mut rec = serde_json::Map::new();
    rec.insert("title".to_string(), serde_json::Value::String("T\n".to_string()));
    rec.insert(
        "cmds".to_string(),
        serde_json::Value::Array(vec![
            serde_json::Value::String("a".to_string()),
            serde_json::Value::String("ß".to_string()),
        ]),
    );
    let doc = serde_json::Value::Array(vec![serde_json::Value::Object(rec)]);
    let pretty = serde_json::to_string_pretty(&doc).unwrap();
    let back = commands_from_json(pretty.as_bytes()).unwrap();
    assert_eq!(back[0].given_title(), "T\n");
    assert_eq!(tokens_of(&back[0]), vec!["a".to_string(), "ß".to_string()]);
}

#[test]
fn describe_names_the_failure() {
    assert_eq!(PersistenceError::Malformed.describe(), "can't decode");
    assert_eq!(
        PersistenceError::File("gone".to_string()).describe(),
        "can't use file: gone"
    );
}
