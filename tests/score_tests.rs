use leadr_api::models::Score;

fn test_score() -> Score {
    Score {
        id: 0,
        game_hex_id: "abc123".to_string(),
        score: "1000".to_string(),
        score_val_text: "1000.5".to_string(),
        user_name: "TestPlayer".to_string(),
        user_id: "player123".to_string(),
        extra: Some("{\"level\":5,\"time\":120.5}".to_string()),
        submitted_at: "2024-01-01T00:00:00+00:00".to_string(),
        deleted_at: None,
    }
}

#[test]
fn score_tests_test_is_deleted_false_by_default() {
    let score = test_score();
    assert!(!score.is_deleted());
}

#[test]
fn score_tests_test_soft_delete() {
    let mut score = test_score();

    score.soft_delete();

    assert!(score.is_deleted());
    assert!(score.deleted_at.is_some());
}

#[test]
fn score_tests_test_restore_from_soft_delete() {
    let mut score = test_score();

    score.soft_delete();
    assert!(score.is_deleted());

    score.restore();

    assert!(!score.is_deleted());
    assert!(score.deleted_at.is_none());
}

#[test]
fn test_validate_user_name_valid() {
    assert!(Score::validate_user_name("ValidName").is_ok());
    assert!(Score::validate_user_name("Player123").is_ok());
    assert!(Score::validate_user_name("A").is_ok());
}

#[test]
fn test_validate_user_name_empty() {
    assert!(Score::validate_user_name("").is_err());
    assert!(Score::validate_user_name("   ").is_err());
}

#[test]
fn test_validate_user_name_too_long() {
    let long_name = "a".repeat(101);
    assert!(Score::validate_user_name(&long_name).is_err());
}

#[test]
fn test_validate_user_name_max_length() {
    let max_name = "a".repeat(100);
    assert!(Score::validate_user_name(&max_name).is_ok());
}

#[test]
fn test_validate_user_id_valid() {
    assert!(Score::validate_user_id("valid_id").is_ok());
    assert!(Score::validate_user_id("user123").is_ok());
    assert!(Score::validate_user_id("x").is_ok());
}

#[test]
fn test_validate_user_id_empty() {
    assert!(Score::validate_user_id("").is_err());
    assert!(Score::validate_user_id("   ").is_err());
}

#[test]
fn test_validate_user_id_too_long() {
    let long_id = "a".repeat(256);
    assert!(Score::validate_user_id(&long_id).is_err());
}

#[test]
fn test_validate_user_id_max_length() {
    let max_id = "a".repeat(255);
    assert!(Score::validate_user_id(&max_id).is_ok());
}

#[test]
fn user_field_messages() {
    assert_eq!(Score::validate_user_name(" "), Err("User name cannot be empty".to_string()));
    assert_eq!(
        Score::validate_user_name(&"a".repeat(101)),
        Err("User name cannot exceed 100 characters".to_string())
    );
    assert_eq!(Score::validate_user_id("\n"), Err("User ID cannot be empty".to_string()));
    assert_eq!(
        Score::validate_user_id(&"a".repeat(256)),
        Err("User ID cannot exceed 255 characters".to_string())
    );
}
