use serde_json::Value;
use sts2_rs::logger::{entry_line, log_file_name, EntryKind, GameLogger, LogEntry};
use sts2_rs::protocol::{ArgValue, Command};

fn object(members: Vec<(&str, Value)>) -> Value {
    let mut m = serde_json::Map::new();
    for (k, v) in members {
        m.insert(k.to_string(), v);
    }
    Value::Object(m)
}

#[test]
fn test_game_logger_jsonl() {
    let name = log_file_name("20250101_120000", "Ironclad", "test_seed");
    assert_eq!(name, "20250101_120000_Ironclad_test_seed.jsonl");
    let mut logger = GameLogger::new(Some(format!("/tmp/logs/{}", name)), true);

    let state_val = object(vec![
        ("msg_type", Value::from("state")),
        ("player", object(vec![("hp", Value::from(80)), ("energy", Value::from(3))])),
    ]);
    let action_val = object(vec![("cmd", Value::from("action")), ("action", Value::from("end_turn"))]);

    let mut content = String::new();
    let state = logger.log_state().unwrap();
    content.push_str(&entry_line(state, "2025-01-01T12:00:00+00:00", &serde_json::to_string(&state_val).unwrap()));
    content.push('\n');
    let action = logger.log_action().unwrap();
    content.push_str(&entry_line(action, "2025-01-01T12:00:01+00:00", &serde_json::to_string(&action_val).unwrap()));
    content.push('\n');

    assert_eq!(state, LogEntry { step: 1, kind: EntryKind::State });
    assert_eq!(action, LogEntry { step: 1, kind: EntryKind::Action });
    assert!(content.contains("\"type\":\"state\""));
    assert!(content.contains("\"type\":\"action\""));

    let log_path = logger.path().unwrap();
    assert!(log_path.ends_with("_Ironclad_test_seed.jsonl"));
}

#[test]
fn test_protocol_command_serialization() {
    let play = Command::play_card(0, Some(1));
    let json = play.to_json();
    assert!(json.contains("play_card"));
    assert!(json.contains("\"card_index\":0"));
    assert!(json.contains("\"target_index\":1"));

    let end_turn = Command::end_turn();
    let json = end_turn.to_json();
    assert!(json.contains("end_turn"));
}

#[test]
fn log_lines_match_the_json_writer() {
    let data = object(vec![("cmd", Value::from("action")), ("action", Value::from("end_turn"))]);
    let data_json = serde_json::to_string(&data).unwrap();
    let ts = "2025-01-01T12:00:00.123+00:00";
    let line = entry_line(LogEntry { step: 12, kind: EntryKind::Action }, ts, &data_json);
    let expected = object(vec![
        ("step", Value::from(12)),
        ("ts", Value::from(ts)),
        ("type", Value::from("action")),
        ("data", data),
    ]);
    assert_eq!(line, serde_json::to_string(&expected).unwrap());
    assert_eq!(
        line,
        "{\"data\":{\"action\":\"end_turn\",\"cmd\":\"action\"},\"step\":12,\"ts\":\"2025-01-01T12:00:00.123+00:00\",\"type\":\"action\"}"
    );
}

#[test]
fn log_line_escapes_the_timestamp() {
    let line = entry_line(LogEntry { step: 0, kind: EntryKind::State }, "a\"b\\c\n\u{1}", "null");
    assert_eq!(line, "{\"data\":null,\"step\":0,\"ts\":\"a\\\"b\\\\c\\n\\u0001\",\"type\":\"state\"}");
    let parsed: Value = serde_json::from_str(&line).unwrap();
    assert_eq!(parsed["ts"], Value::from("a\"b\\c\n\u{1}"));
}

#[test]
fn command_wire_texts() {
    assert_eq!(Command::play_card(0, Some(1)).to_json(), "{\"cmd\":\"action\",\"action\":\"play_card\",\"args\":{\"card_index\":0,\"target_index\":1}}");
    assert_eq!(Command::end_turn().to_json(), "{\"cmd\":\"action\",\"action\":\"end_turn\"}");
    assert_eq!(Command::GetMap.to_json(), "{\"cmd\":\"get_map\"}");
    let start = Command::StartRun { character: "Ironclad".to_string(), ascension: -3, seed: None, lang: "en".to_string() };
    assert_eq!(start.to_json(), "{\"cmd\":\"start_run\",\"character\":\"Ironclad\",\"ascension\":-3,\"lang\":\"en\"}");
    let start = Command::StartRun { character: "Ironclad".to_string(), ascension: 20, seed: Some("AB/1".to_string()), lang: "zh".to_string() };
    assert_eq!(start.to_json(), "{\"cmd\":\"start_run\",\"character\":\"Ironclad\",\"ascension\":20,\"seed\":\"AB/1\",\"lang\":\"zh\"}");
    let load = Command::LoadSave { path: Some("s.json".to_string()), json: None, lang: "en".to_string() };
    assert_eq!(load.to_json(), "{\"cmd\":\"load_save\",\"path\":\"s.json\",\"lang\":\"en\"}");
    assert_eq!(Command::Quit { path: None }.to_json(), "{\"cmd\":\"quit\"}");
    let args = vec![
        ("n".to_string(), ArgValue::Int(i64::MIN)),
        ("s".to_string(), ArgValue::Str("x\"y".to_string())),
        ("j".to_string(), ArgValue::Json("[1,2]".to_string())),
    ];
    let cmd = Command::action("mixed", Some(args));
    assert_eq!(
        cmd.to_json(),
        "{\"cmd\":\"action\",\"action\":\"mixed\",\"args\":{\"n\":-9223372036854775808,\"s\":\"x\\\"y\",\"j\":[1,2]}}"
    );
    let parsed: Value = serde_json::from_str(&cmd.to_json()).unwrap();
    assert_eq!(parsed["args"]["s"], Value::from("x\"y"));
}
