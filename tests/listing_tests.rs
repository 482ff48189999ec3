use base64::engine::general_purpose::URL_SAFE_NO_PAD;
use base64::Engine;
use leadr_api::auth::{authorize, AuthFailure};
use leadr_api::cursor::{
    decode_game_cursor, decode_score_cursor, encode_game_cursor, encode_score_cursor, GameCursor,
    ScoreCursor,
};
use leadr_api::error::ApiError;
use leadr_api::models::{Game, Score};
use leadr_api::pagination::{PaginationParams, ScoreSortField, ScoreSortParams, SortOrder};
use leadr_api::repository::{require_affected, require_found, GameRepository, ScoreRepository};

fn score_row(id: i64, score_val_text: &str) -> Score {
    Score {
        id,
        game_hex_id: "abc123".to_string(),
        score: score_val_text.to_string(),
        score_val_text: score_val_text.to_string(),
        user_name: format!("player{}", id),
        user_id: format!("id{}", id),
        extra: None,
        submitted_at: "2024-05-01T12:00:00+00:00".to_string(),
        deleted_at: None,
    }
}

fn game_row(hex_id: &str, created_at: &str) -> Game {
    Game {
        id: 1,
        hex_id: hex_id.to_string(),
        name: "Game".to_string(),
        description: None,
        created_at: created_at.to_string(),
        updated_at: created_at.to_string(),
        deleted_at: None,
    }
}

#[test]
fn thirty_scores_in_two_pages() {
    let sort = ScoreSortParams::new(Some(ScoreSortField::Score), Some(SortOrder::Descending));
    let rows: Vec<Score> = (1..=30).map(|i| score_row(i, &format!("{}", 3000 - 10 * i))).collect();

    let first = ScoreRepository::plan_list_by_game(
        "abc123",
        &PaginationParams::new(None, Some(25)),
        &sort,
    )
    .unwrap();
    assert_eq!(first.limit, 25);
    assert_eq!(first.fetch_limit, 26);
    assert!(first.after.is_none());
    assert_eq!(
        first.sql,
        "SELECT id, game_hex_id, score, score_val, user_name, user_id, extra, submitted_at, deleted_at FROM score WHERE deleted_at IS NULL AND game_hex_id = ?1 ORDER BY score_val DESC, id LIMIT ?2"
    );

    let page1 = ScoreRepository::page_from_rows(rows[0..26].to_vec(), first.limit, None, &sort);
    assert_eq!(page1.data.len(), 25);
    assert!(page1.has_more);
    assert_eq!(page1.data[24].id, 25);
    let next = page1.next_cursor.clone().unwrap();
    let decoded = decode_score_cursor(&next).unwrap();
    assert_eq!(decoded.id, 25);
    assert_eq!(decoded.sort_value, "2750");

    let second = ScoreRepository::plan_list_by_game(
        "abc123",
        &PaginationParams::new(Some(next.clone()), Some(25)),
        &sort,
    )
    .unwrap();
    let after = second.after.clone().unwrap();
    assert_eq!(after.id, 25);
    assert_eq!(after.sort_value, "2750");
    assert_eq!(
        second.sql,
        "SELECT id, game_hex_id, score, score_val, user_name, user_id, extra, submitted_at, deleted_at FROM score WHERE deleted_at IS NULL AND game_hex_id = ?1 AND (score_val < ?2 OR (score_val = ?2 AND id > ?3)) ORDER BY score_val DESC, id LIMIT ?4"
    );

    let page2 =
        ScoreRepository::page_from_rows(rows[25..30].to_vec(), second.limit, Some(next.clone()), &sort);
    assert_eq!(page2.data.len(), 5);
    assert!(!page2.has_more);
    assert_eq!(page2.next_cursor, None);
    assert_eq!(page2.current_cursor, Some(next));
    assert_eq!(page2.data[0].id, 26);
}

#[test]
fn has_more_at_exact_and_one_over() {
    let sort = ScoreSortParams::new(None, None);
    let exact: Vec<Score> = (1..=3).map(|i| score_row(i, "10")).collect();
    let page = ScoreRepository::page_from_rows(exact, 3, None, &sort);
    assert!(!page.has_more);
    assert_eq!(page.next_cursor, None);
    assert_eq!(page.total_returned, 3);

    let over: Vec<Score> = (1..=4).map(|i| score_row(i, "10")).collect();
    let page = ScoreRepository::page_from_rows(over, 3, None, &sort);
    assert!(page.has_more);
    assert_eq!(page.total_returned, 3);
    let cursor = decode_score_cursor(&page.next_cursor.unwrap()).unwrap();
    assert_eq!(cursor.id, 3);
}

#[test]
fn ties_resume_by_ascending_id_in_both_directions() {
    for order in [SortOrder::Ascending, SortOrder::Descending] {
        let sort = ScoreSortParams::new(Some(ScoreSortField::Score), Some(order));
        let clause = sort.to_sql_keyset_clause();
        assert!(clause.ends_with("OR (score_val = ?2 AND id > ?3)"));
        let tied = vec![score_row(1, "500"), score_row(2, "500")];
        let page = ScoreRepository::page_from_rows(tied, 1, None, &sort);
        assert_eq!(page.data[0].id, 1);
        let cursor = decode_score_cursor(&page.next_cursor.unwrap()).unwrap();
        assert_eq!(cursor.id, 1);
        assert_eq!(cursor.sort_value, "500");
    }
    let asc = ScoreSortParams::new(Some(ScoreSortField::Date), Some(SortOrder::Ascending));
    assert_eq!(
        asc.to_sql_keyset_clause(),
        "submitted_at > ?2 OR (submitted_at = ?2 AND id > ?3)"
    );
}

#[test]
fn limit_clamping() {
    assert_eq!(PaginationParams::new(None, Some(0)).get_limit(), 100);
    assert_eq!(PaginationParams::new(None, Some(1000)).get_limit(), 100);
    assert_eq!(PaginationParams::new(None, None).get_limit(), 25);
    assert_eq!(PaginationParams::new(None, Some(1)).get_limit(), 1);
    assert_eq!(PaginationParams::new(None, Some(100)).get_limit(), 100);
    assert_eq!(PaginationParams::new(None, Some(101)).get_limit(), 100);
}

#[test]
fn game_listing_plans() {
    let start = GameRepository::plan_list(&PaginationParams::new(None, Some(10))).unwrap();
    assert!(start.after.is_none());
    assert_eq!(start.fetch_limit, 11);
    assert!(start.sql.ends_with("ORDER BY created_at DESC, hex_id DESC LIMIT ?1"));

    let token = encode_game_cursor(&GameCursor {
        hex_id: "abc123".to_string(),
        created_at: "2024-01-02T03:04:05.5+01:00".to_string(),
    })
    .unwrap();
    let resumed = GameRepository::plan_list(&PaginationParams::new(Some(token), None)).unwrap();
    let after = resumed.after.unwrap();
    assert_eq!(after.hex_id, "abc123");
    assert_eq!(after.created_secs, 1704161045);
    assert_eq!(after.created_nanos, 500_000_000);
    assert_eq!(resumed.limit, 25);
    assert!(resumed.sql.contains("AND (created_at, hex_id) < (?1, ?2)"));
}

#[test]
fn game_listing_rejects_bad_cursors() {
    let bad = GameRepository::plan_list(&PaginationParams::new(Some("invalid_cursor".to_string()), None));
    assert!(matches!(bad, Err(ApiError::ValidationError(_))));

    let token = encode_game_cursor(&GameCursor {
        hex_id: "abc123".to_string(),
        created_at: "yesterday".to_string(),
    })
    .unwrap();
    let bad_date = GameRepository::plan_list(&PaginationParams::new(Some(token), None));
    assert!(matches!(bad_date, Err(ApiError::ValidationError(m)) if m == "Invalid cursor date"));
}

#[test]
fn game_page_cursor_points_at_last_kept_game() {
    let rows = vec![
        game_row("cccccc", "2024-03-03T00:00:00+00:00"),
        game_row("bbbbbb", "2024-02-02T00:00:00+00:00"),
        game_row("aaaaaa", "2024-01-01T00:00:00+00:00"),
    ];
    let page = GameRepository::page_from_rows(rows, 2, None);
    assert!(page.has_more);
    let cursor = decode_game_cursor(&page.next_cursor.unwrap()).unwrap();
    assert_eq!(cursor.hex_id, "bbbbbb");
    assert_eq!(cursor.created_at, "2024-02-02T00:00:00+00:00");
}

#[test]
fn score_listing_rejects_bad_input() {
    let sort = ScoreSortParams::new(None, None);
    let bad_hex = ScoreRepository::plan_list_by_game("ABC", &PaginationParams::new(None, None), &sort);
    assert!(matches!(bad_hex, Err(ApiError::ValidationError(_))));
    let bad_cursor = ScoreRepository::plan_list_by_game(
        "abc123",
        &PaginationParams::new(Some("invalid_cursor".to_string()), None),
        &sort,
    );
    assert!(matches!(bad_cursor, Err(ApiError::ValidationError(_))));
}

#[test]
fn cursor_tokens_are_base64_of_compact_json() {
    let score = encode_score_cursor(&ScoreCursor { id: 123, sort_value: "1000.5".to_string() }).unwrap();
    assert_eq!(score, URL_SAFE_NO_PAD.encode(br#"{"id":123,"sort_value":"1000.5"}"#));
    let game = encode_game_cursor(&GameCursor {
        hex_id: "abc123".to_string(),
        created_at: "2024-01-01T00:00:00+00:00".to_string(),
    })
    .unwrap();
    assert_eq!(
        game,
        URL_SAFE_NO_PAD.encode(br#"{"hex_id":"abc123","created_at":"2024-01-01T00:00:00+00:00"}"#)
    );
    assert!(!game.contains('='));
}

#[test]
fn cursor_escapes_round_trip() {
    let value = "a\"b\\c\nd\u{1}é\u{7f}/".to_string();
    let token = encode_score_cursor(&ScoreCursor { id: i64::MIN, sort_value: value.clone() }).unwrap();
    let bytes = URL_SAFE_NO_PAD.decode(&token).unwrap();
    assert_eq!(
        String::from_utf8(bytes).unwrap(),
        "{\"id\":-9223372036854775808,\"sort_value\":\"a\\\"b\\\\c\\nd\\u0001é\u{7f}/\"}"
    );
    let back = decode_score_cursor(&token).unwrap();
    assert_eq!(back.id, i64::MIN);
    assert_eq!(back.sort_value, value);
    let max = encode_score_cursor(&ScoreCursor { id: i64::MAX, sort_value: String::new() }).unwrap();
    assert_eq!(decode_score_cursor(&max).unwrap().id, i64::MAX);
}

#[test]
fn cursor_decoding_rejects_non_canonical_records() {
    for text in [
        r#"{"id": 123,"sort_value":"x"}"#,
        r#"{"id":0123,"sort_value":"x"}"#,
        r#"{"id":-0,"sort_value":"x"}"#,
        r#"{"id":9223372036854775808,"sort_value":"x"}"#,
        r#"{"id":1,"sort_value":"x"} "#,
        r#"{"sort_value":"x","id":1}"#,
        r#"{"id":1,"sort_value":"\u0041"}"#,
        r#"{"id":1,"sort_value":"\u000a"}"#,
    ] {
        assert!(decode_score_cursor(&URL_SAFE_NO_PAD.encode(text)).is_err(), "{}", text);
    }
    let invalid_utf8 = URL_SAFE_NO_PAD.encode(b"{\"hex_id\":\"\xff\",\"created_at\":\"x\"}");
    assert!(decode_game_cursor(&invalid_utf8).is_err());
    let padded = format!("{}=", URL_SAFE_NO_PAD.encode(br#"{"id":1,"sort_value":"x"}"#));
    assert!(decode_score_cursor(&padded).is_err());
}

#[test]
fn error_status_and_messages() {
    assert_eq!(ApiError::NotFound.status_code(), 404);
    assert_eq!(ApiError::Database("disk".to_string()).status_code(), 500);
    assert_eq!(ApiError::Database("disk".to_string()).public_message(), "Internal server error");
    assert_eq!(ApiError::ValidationError("bad".to_string()).status_code(), 422);
    assert_eq!(ApiError::InvalidParameter("p".to_string()).status_code(), 400);
    assert_eq!(ApiError::BadRequest("b".to_string()).public_message(), "b");
    assert_eq!(ApiError::InternalServerError.status_code(), 500);
    assert!(matches!(ApiError::from("m".to_string()), ApiError::ValidationError(m) if m == "m"));
}

#[test]
fn soft_delete_and_lookup_outcomes() {
    assert!(matches!(require_affected(0), Err(ApiError::NotFound)));
    assert!(require_affected(1).is_ok());
    assert!(matches!(require_found::<i64>(None), Err(ApiError::NotFound)));
    assert_eq!(require_found(Some(7)).unwrap(), 7);
    assert!(matches!(GameRepository::check_hex_id("abc12"), Err(ApiError::InvalidParameter(_))));
}

#[test]
fn sort_keys_from_request_text() {
    assert_eq!(ScoreSortField::from_key("score"), Some(ScoreSortField::Score));
    assert_eq!(ScoreSortField::from_key("date"), Some(ScoreSortField::Date));
    assert_eq!(ScoreSortField::from_key("user_name"), Some(ScoreSortField::UserName));
    assert_eq!(ScoreSortField::from_key("invalid_field"), None);
    assert_eq!(SortOrder::from_key("asc"), Some(SortOrder::Ascending));
    assert_eq!(SortOrder::from_key("desc"), Some(SortOrder::Descending));
    assert_eq!(SortOrder::from_key("invalid_order"), None);
}

#[test]
fn validation_of_writes() {
    assert!(ScoreRepository::validate_submission("Player", "id123").is_ok());
    assert!(matches!(
        ScoreRepository::validate_submission("", "id123"),
        Err(ApiError::ValidationError(_))
    ));
    assert!(ScoreRepository::validate_changes(&None, &None).is_ok());
    assert!(ScoreRepository::validate_changes(&Some(" ".to_string()), &None).is_err());
    let update = leadr_api::models::UpdateGame { name: Some(String::new()), description: None };
    assert!(matches!(
        GameRepository::validate_update("abc123", &update),
        Err(ApiError::ValidationError(_))
    ));
    assert!(matches!(
        GameRepository::validate_update("bad", &update),
        Err(ApiError::InvalidParameter(_))
    ));
}

#[test]
fn page_size_from_configured_text() {
    assert_eq!(PaginationParams::page_size_from_setting(None), 25);
    assert_eq!(PaginationParams::page_size_from_setting(Some("50")), 50);
    assert_eq!(PaginationParams::page_size_from_setting(Some("200")), 100);
    assert_eq!(PaginationParams::page_size_from_setting(Some("0")), 1);
    assert_eq!(PaginationParams::page_size_from_setting(Some("invalid")), 25);
    assert_eq!(PaginationParams::page_size_from_parsed(Some(7)), 7);
}

#[test]
fn request_authorization() {
    assert_eq!(authorize(None, Some("k")), Err(AuthFailure::NotConfigured));
    assert_eq!(authorize(Some("key".to_string()), None), Err(AuthFailure::Unauthorized));
    assert_eq!(authorize(Some("key".to_string()), Some("nope")), Err(AuthFailure::Unauthorized));
    assert_eq!(authorize(Some("key".to_string()), Some("key")), Ok(()));
    assert_eq!(AuthFailure::NotConfigured.status_code(), 500);
    assert_eq!(AuthFailure::Unauthorized.status_code(), 401);
}
