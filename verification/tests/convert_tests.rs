use ai_flashcards::convert::batch_convert;
use ai_flashcards::convert::to_foreign_note;
use ai_flashcards::convert::ConvertConfig;
use ai_flashcards::convert::NameOrId;
use ai_flashcards::parse::AIGeneratedCard;
use ai_flashcards::parse::CardType;

#[test]
fn test_convert_basic_card() {
    let card = AIGeneratedCard {
        card_type: CardType::Basic,
        front: "What is Rust?".to_string(),
        back: "A programming language".to_string(),
        suggested_tags: vec!["programming".to_string()],
    };

    let config = ConvertConfig::default();
    let note = to_foreign_note(&card, &config);

    assert_eq!(note.notetype, NameOrId::Name("Basic".to_string()));
    assert_eq!(note.fields.len(), 2);
    assert_eq!(note.fields[0], Some("What is Rust?".to_string()));
    assert_eq!(note.fields[1], Some("A programming language".to_string()));
    assert!(note
        .tags
        .as_ref()
        .unwrap()
        .contains(&"ai-generated".to_string()));
    assert!(note
        .tags
        .as_ref()
        .unwrap()
        .contains(&"programming".to_string()));
}

#[test]
fn test_convert_cloze_card() {
    let card = AIGeneratedCard {
        card_type: CardType::Cloze,
        front: "The {{c1::mitochondria}} is the powerhouse".to_string(),
        back: "".to_string(),
        suggested_tags: vec![],
    };

    let config = ConvertConfig::default();
    let note = to_foreign_note(&card, &config);

    assert_eq!(note.notetype, NameOrId::Name("Cloze".to_string()));
    assert!(note.fields[0].as_ref().unwrap().contains("{{c1::"));
}

#[test]
fn test_convert_with_source_tag() {
    let card = AIGeneratedCard {
        card_type: CardType::Basic,
        front: "Q".to_string(),
        back: "A".to_string(),
        suggested_tags: vec![],
    };

    let config = ConvertConfig {
        source_name: Some("chapter 1.pdf".to_string()),
        ..Default::default()
    };
    let note = to_foreign_note(&card, &config);

    assert!(note
        .tags
        .as_ref()
        .unwrap()
        .iter()
        .any(|t| t.starts_with("source::")));
}

#[test]
fn test_batch_convert() {
    let cards = vec![
        AIGeneratedCard {
            card_type: CardType::Basic,
            front: "Q1".to_string(),
            back: "A1".to_string(),
            suggested_tags: vec![],
        },
        AIGeneratedCard {
            card_type: CardType::Basic,
            front: "Q2".to_string(),
            back: "A2".to_string(),
            suggested_tags: vec![],
        },
    ];

    let config = ConvertConfig::default();
    let notes = batch_convert(&cards, &config);

    assert_eq!(notes.len(), 2);
}

#[test]
fn test_convert_basic_reversed_notetype() {
    let card = AIGeneratedCard {
        card_type: CardType::BasicReversed,
        front: "Q".to_string(),
        back: "A".to_string(),
        suggested_tags: vec![],
    };

    let config = ConvertConfig::default();
    let note = to_foreign_note(&card, &config);
    assert_eq!(
        note.notetype,
        NameOrId::Name("Basic (and reversed card)".to_string())
    );
    assert_eq!(note.fields.len(), 2);
    assert!(note.cards.is_empty());
}

#[test]
fn test_convert_guid_shape() {
    let card = AIGeneratedCard {
        card_type: CardType::Basic,
        front: "Q".to_string(),
        back: "A".to_string(),
        suggested_tags: vec![],
    };

    let config = ConvertConfig::default();
    let note = to_foreign_note(&card, &config);
    assert_eq!(note.guid.chars().count(), 10);
    assert!(note.guid.chars().all(|c| c.is_ascii_alphanumeric()));
}

#[test]
fn test_convert_source_tag_sanitized() {
    let card = AIGeneratedCard {
        card_type: CardType::Basic,
        front: "Q".to_string(),
        back: "A".to_string(),
        suggested_tags: vec!["own-tag".to_string()],
    };

    let config = ConvertConfig {
        source_name: Some("chapter 1.pdf".to_string()),
        ..Default::default()
    };
    let note = to_foreign_note(&card, &config);
    let tags = note.tags.unwrap();
    assert_eq!(tags[0], "ai-generated");
    assert_eq!(tags[1], "source::chapter_1_pdf");
    assert_eq!(tags[2], "own-tag");
}

#[test]
fn test_convert_deck_by_id() {
    let card = AIGeneratedCard {
        card_type: CardType::Basic,
        front: "Q".to_string(),
        back: "A".to_string(),
        suggested_tags: vec![],
    };

    let config = ConvertConfig {
        target_deck: NameOrId::Id(42),
        auto_tags: vec![],
        source_name: None,
    };
    let note = to_foreign_note(&card, &config);
    assert_eq!(note.deck, NameOrId::Id(42));
    assert_eq!(note.tags, Some(vec![]));
}
