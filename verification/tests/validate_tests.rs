use ai_flashcards::parse::AIGeneratedCard;
use ai_flashcards::parse::CardType;
use ai_flashcards::validate::validate_card;
use ai_flashcards::validate::IssueSeverity;

#[test]
fn test_valid_basic_card() {
    let card = AIGeneratedCard {
        card_type: CardType::Basic,
        front: "What is Rust?".to_string(),
        back: "A programming language".to_string(),
        suggested_tags: vec!["programming".to_string()],
    };

    let result = validate_card(&card);
    assert!(result.is_valid);
    assert!(result.issues.is_empty());
}

#[test]
fn test_empty_front_invalid() {
    let card = AIGeneratedCard {
        card_type: CardType::Basic,
        front: "".to_string(),
        back: "Answer".to_string(),
        suggested_tags: vec![],
    };

    let result = validate_card(&card);
    assert!(!result.is_valid);
    assert!(result
        .issues
        .iter()
        .any(|i| i.message.contains("Front field is empty")));
}

#[test]
fn test_empty_back_invalid_for_basic() {
    let card = AIGeneratedCard {
        card_type: CardType::Basic,
        front: "Question".to_string(),
        back: "".to_string(),
        suggested_tags: vec![],
    };

    let result = validate_card(&card);
    assert!(!result.is_valid);
}

#[test]
fn test_empty_back_valid_for_cloze() {
    let card = AIGeneratedCard {
        card_type: CardType::Cloze,
        front: "The {{c1::sun}} rises in the east".to_string(),
        back: "".to_string(),
        suggested_tags: vec![],
    };

    let result = validate_card(&card);
    assert!(result.is_valid);
}

#[test]
fn test_cloze_without_deletion_invalid() {
    let card = AIGeneratedCard {
        card_type: CardType::Cloze,
        front: "No cloze deletion here".to_string(),
        back: "".to_string(),
        suggested_tags: vec![],
    };

    let result = validate_card(&card);
    assert!(!result.is_valid);
    assert!(result
        .issues
        .iter()
        .any(|i| i.message.contains("missing valid cloze deletion")));
}

#[test]
fn test_html_sanitization() {
    let card = AIGeneratedCard {
        card_type: CardType::Basic,
        front: "<script>alert('xss')</script>What is Rust?".to_string(),
        back: "A <b>safe</b> language".to_string(),
        suggested_tags: vec![],
    };

    let result = validate_card(&card);
    assert!(result.is_valid);
    let sanitized = result.sanitized_card.unwrap();
    assert!(!sanitized.front.contains("<script>"));
    assert!(sanitized.back.contains("<b>"));
}

#[test]
fn test_tag_sanitization() {
    let card = AIGeneratedCard {
        card_type: CardType::Basic,
        front: "Q".to_string(),
        back: "A".to_string(),
        suggested_tags: vec![
            "  spaces  ".to_string(),
            "special!@#chars".to_string(),
            "valid_tag".to_string(),
        ],
    };

    let result = validate_card(&card);
    assert!(result.is_valid);
    let sanitized = result.sanitized_card.unwrap();
    assert_eq!(sanitized.suggested_tags[0], "spaces");
    assert_eq!(sanitized.suggested_tags[1], "specialchars");
    assert_eq!(sanitized.suggested_tags[2], "valid_tag");
}

#[test]
fn test_whitespace_only_front_invalid() {
    let card = AIGeneratedCard {
        card_type: CardType::Basic,
        front: "   \t\n ".to_string(),
        back: "Answer".to_string(),
        suggested_tags: vec![],
    };

    let result = validate_card(&card);
    assert!(!result.is_valid);
    assert_eq!(result.issues.len(), 1);
    assert_eq!(result.issues[0].severity, IssueSeverity::Error);
    assert_eq!(result.issues[0].message, "Front field is empty");
}

#[test]
fn test_front_too_long_message() {
    let card = AIGeneratedCard {
        card_type: CardType::Basic,
        front: "x".repeat(100001),
        back: "Answer".to_string(),
        suggested_tags: vec![],
    };

    let result = validate_card(&card);
    assert!(!result.is_valid);
    assert_eq!(result.issues.len(), 1);
    assert_eq!(
        result.issues[0].message,
        "Front field exceeds maximum length (100001 > 100000)"
    );
}

#[test]
fn test_back_too_long_invalid() {
    let card = AIGeneratedCard {
        card_type: CardType::Basic,
        front: "Q".to_string(),
        back: "y".repeat(100001),
        suggested_tags: vec![],
    };

    let result = validate_card(&card);
    assert!(!result.is_valid);
    assert_eq!(
        result.issues[0].message,
        "Back field exceeds maximum length (100001 > 100000)"
    );
}

#[test]
fn test_cloze_needs_digits() {
    let card = AIGeneratedCard {
        card_type: CardType::Cloze,
        front: "Broken {{c::thing}} here".to_string(),
        back: "".to_string(),
        suggested_tags: vec![],
    };

    let result = validate_card(&card);
    assert!(!result.is_valid);
}

#[test]
fn test_cloze_body_may_not_span_lines() {
    let card = AIGeneratedCard {
        card_type: CardType::Cloze,
        front: "Broken {{c1::first\nsecond}} here".to_string(),
        back: "".to_string(),
        suggested_tags: vec![],
    };

    let result = validate_card(&card);
    assert!(!result.is_valid);
}

#[test]
fn test_sanitization_reports_info_issue() {
    let card = AIGeneratedCard {
        card_type: CardType::Basic,
        front: "<script>x</script>Q".to_string(),
        back: "A".to_string(),
        suggested_tags: vec![],
    };

    let result = validate_card(&card);
    assert!(result.is_valid);
    assert_eq!(result.issues.len(), 1);
    assert_eq!(result.issues[0].severity, IssueSeverity::Info);
    assert_eq!(result.issues[0].message, "HTML was sanitized for security");
}

#[test]
fn test_empty_tag_dropped_after_sanitization() {
    let card = AIGeneratedCard {
        card_type: CardType::Basic,
        front: "Q".to_string(),
        back: "A".to_string(),
        suggested_tags: vec!["!!!".to_string(), "keep:me".to_string()],
    };

    let result = validate_card(&card);
    assert!(result.is_valid);
    let sanitized = result.sanitized_card.unwrap();
    assert_eq!(sanitized.suggested_tags, vec!["keep:me"]);
}

#[test]
fn test_sanitize_tag_idempotent() {
    let once = ai_flashcards::validate::sanitize_tag("  spaced out!! tag  ");
    let twice = ai_flashcards::validate::sanitize_tag(&once);
    assert_eq!(once, "spaced_out_tag");
    assert_eq!(twice, once);
}
