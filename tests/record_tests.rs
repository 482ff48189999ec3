use base64::engine::general_purpose::URL_SAFE_NO_PAD;
use base64::Engine;
use leadr_api::cursor::{decode_game_cursor, encode_game_cursor, encode_score_cursor, GameCursor, ScoreCursor};
use serde_json::Value;

fn record_text(token: &str) -> String {
    String::from_utf8(URL_SAFE_NO_PAD.decode(token).unwrap()).unwrap()
}

#[test]
fn score_record_matches_serde_json_writer() {
    for (id, value) in [
        (123i64, "1000.5".to_string()),
        (-42, "tab\there \"quoted\" back\\slash".to_string()),
        (0, "\u{0}\u{1f}\u{7f}ünïcødé🚀".to_string()),
    ] {
        let token = encode_score_cursor(&ScoreCursor { id, sort_value: value.clone() }).unwrap();
        let mut expected = serde_json::Map::new();
        expected.insert("id".to_string(), Value::from(id));
        expected.insert("sort_value".to_string(), Value::from(value));
        assert_eq!(record_text(&token), serde_json::to_string(&Value::Object(expected)).unwrap());
    }
}

#[test]
fn game_record_reads_as_json_object() {
    let cursor = GameCursor {
        hex_id: "abc123".to_string(),
        created_at: "2024-06-01T10:20:30.123456789+00:00".to_string(),
    };
    let token = encode_game_cursor(&cursor).unwrap();
    let parsed: Value = serde_json::from_str(&record_text(&token)).unwrap();
    assert_eq!(parsed["hex_id"], Value::from("abc123"));
    assert_eq!(parsed["created_at"], Value::from("2024-06-01T10:20:30.123456789+00:00"));
    let text = serde_json::to_string(&Value::from(cursor.hex_id.clone())).unwrap();
    assert!(record_text(&token).starts_with(&format!("{{\"hex_id\":{}", text)));
    let back = decode_game_cursor(&token).unwrap();
    assert_eq!(back.created_at, cursor.created_at);
}
