use leadr_api::models::{Game, UpdateGame};

#[test]
fn test_generate_hex_id_format() {
    let hex_id = Game::generate_hex_id();
    assert_eq!(hex_id.len(), 6);
    assert!(hex_id.chars().all(|c| c.is_ascii_hexdigit()));
}

#[test]
fn test_generate_hex_id_uniqueness() {
    let id1 = Game::generate_hex_id();
    let id2 = Game::generate_hex_id();
    assert_ne!(id1, id2);
}

#[test]
fn test_new_game_creation() {
    let name = "Test Game".to_string();
    let description = Some("A test game".to_string());

    let game = Game::new(name.clone(), description.clone());

    assert_eq!(game.id, 0);
    assert_eq!(game.name, name);
    assert_eq!(game.description, description);
    assert_eq!(game.hex_id.len(), 6);
    assert!(game.hex_id.chars().all(|c| c.is_ascii_hexdigit()));
    assert!(!game.is_deleted());
    assert_eq!(game.created_at, game.updated_at);
}

#[test]
fn test_new_game_without_description() {
    let name = "Test Game".to_string();

    let game = Game::new(name.clone(), None);

    assert_eq!(game.name, name);
    assert_eq!(game.description, None);
    assert!(!game.is_deleted());
}

#[test]
fn game_tests_test_is_deleted_false_by_default() {
    let game = Game::new("Test".to_string(), None);
    assert!(!game.is_deleted());
}

#[test]
fn test_update_description_only() {
    let mut game = Game::new("Name".to_string(), Some("Original Desc".to_string()));
    let original_name = game.name.clone();

    let update = UpdateGame {
        name: None,
        description: Some("Updated Description".to_string()),
    };

    game.update(update);

    assert_eq!(game.name, original_name);
    assert_eq!(game.description, Some("Updated Description".to_string()));
}

#[test]
fn test_update_both_fields() {
    let mut game = Game::new("Original".to_string(), Some("Original Desc".to_string()));

    let update = UpdateGame {
        name: Some("New Name".to_string()),
        description: Some("New Description".to_string()),
    };

    game.update(update);

    assert_eq!(game.name, "New Name");
    assert_eq!(game.description, Some("New Description".to_string()));
}

#[test]
fn test_validate_hex_id_valid() {
    assert!(Game::validate_hex_id("abc123").is_ok());
    assert!(Game::validate_hex_id("000000").is_ok());
    assert!(Game::validate_hex_id("ffffff").is_ok());
    assert!(Game::validate_hex_id("a1b2c3").is_ok());
}

#[test]
fn test_validate_hex_id_invalid_length() {
    assert!(Game::validate_hex_id("abc12").is_err());
    assert!(Game::validate_hex_id("abc1234").is_err());
    assert!(Game::validate_hex_id("").is_err());
}

#[test]
fn test_validate_hex_id_invalid_characters() {
    assert!(Game::validate_hex_id("abc@yz").is_err());
    assert!(Game::validate_hex_id("ABC123").is_err());
    assert!(Game::validate_hex_id("123-45").is_err());
    assert!(Game::validate_hex_id("12 345").is_err());
}

#[test]
fn test_validate_name_valid() {
    assert!(Game::validate_name("Valid Game").is_ok());
    assert!(Game::validate_name("A").is_ok());
    assert!(Game::validate_name(&"a".repeat(255)).is_ok());
}

#[test]
fn test_validate_name_empty() {
    assert!(Game::validate_name("").is_err());
    assert!(Game::validate_name("   ").is_err());
}

#[test]
fn test_validate_name_too_long() {
    assert!(Game::validate_name(&"a".repeat(256)).is_err());
}

#[test]
fn game_soft_delete_hides_and_restore_shows() {
    let mut game = Game::new("Test".to_string(), None);
    game.soft_delete();
    assert!(game.is_deleted());
    assert_eq!(game.deleted_at, Some(game.updated_at.clone()));
    game.restore();
    assert!(!game.is_deleted());
    assert!(game.deleted_at.is_none());
}

#[test]
fn update_without_changes_keeps_fields() {
    let mut game = Game::new("Original".to_string(), Some("Desc".to_string()));
    game.update(UpdateGame { name: None, description: None });
    assert_eq!(game.name, "Original");
    assert_eq!(game.description, Some("Desc".to_string()));
}

#[test]
fn normalize_hex_id_lowercases() {
    assert_eq!(Game::normalize_and_validate_hex_id("ABC123"), Ok("abc123".to_string()));
    assert_eq!(Game::normalize_and_validate_hex_id("aBz9Q0"), Ok("abz9q0".to_string()));
}

#[test]
fn normalize_hex_id_rejects() {
    assert_eq!(
        Game::normalize_and_validate_hex_id("abc12"),
        Err("Hex ID must be exactly 6 characters".to_string())
    );
    assert!(Game::normalize_and_validate_hex_id("ab-123").is_err());
}

#[test]
fn validate_hex_id_messages() {
    assert_eq!(
        Game::validate_hex_id("abc12"),
        Err("Hex ID must be exactly 6 characters".to_string())
    );
    assert_eq!(
        Game::validate_hex_id("ABC123"),
        Err("Hex ID must contain only lowercase alphanumeric characters (0-9, a-z)".to_string())
    );
    assert!(Game::validate_hex_id("zzzzzz").is_ok());
}

#[test]
fn validate_name_counts_bytes_and_unicode_space() {
    assert_eq!(
        Game::validate_name("\t\n \u{3000}"),
        Err("Game name cannot be empty".to_string())
    );
    assert_eq!(
        Game::validate_name(&"é".repeat(128)),
        Err("Game name cannot exceed 255 characters".to_string())
    );
    assert!(Game::validate_name(&"é".repeat(127)).is_ok());
}

#[test]
fn hex_id_spells_drawn_digits() {
    assert_eq!(Game::hex_id_from_digits(&vec![0, 1, 10, 15, 9, 12]), "01af9c");
    assert_eq!(Game::hex_id_from_digits(&vec![15, 15, 15, 15, 15, 15]), "ffffff");
}
