use ai_flashcards::convert::NameOrId;
use ai_flashcards::parse::CardType;
use ai_flashcards::session::card_type_from_wire;
use ai_flashcards::session::load_session;
use ai_flashcards::session::new_session_snapshot;
use ai_flashcards::session::notetype_lookup_name;
use ai_flashcards::session::plan_import_note;
use ai_flashcards::session::render_session;
use ai_flashcards::session::status_from_wire;
use ai_flashcards::session::CardStatus;
use ai_flashcards::session::ImportTally;
use ai_flashcards::session::ReviewedCard;
use ai_flashcards::session::SessionLoadOutcome;

fn sample_cards() -> Vec<ReviewedCard> {
    vec![
        ReviewedCard {
            id: "card-1".to_string(),
            card_type: CardType::Basic,
            front: "What is \"Rust\"?\nReally.".to_string(),
            back: "A language \\ more".to_string(),
            suggested_tags: vec!["programming".to_string(), "rust".to_string()],
            status: CardStatus::Approved,
        },
        ReviewedCard {
            id: "card-2".to_string(),
            card_type: CardType::Cloze,
            front: "The {{c1::sun}} rises".to_string(),
            back: "".to_string(),
            suggested_tags: vec![],
            status: CardStatus::Rejected,
        },
        ReviewedCard {
            id: "card-3".to_string(),
            card_type: CardType::BasicReversed,
            front: "Q3".to_string(),
            back: "A3".to_string(),
            suggested_tags: vec!["t".to_string()],
            status: CardStatus::Pending,
        },
    ]
}

#[test]
fn test_session_round_trip() {
    let now: i64 = 1700000000;
    let snap = new_session_snapshot(
        "chapter 1.pdf".to_string(),
        "Some source text with \"quotes\" and\nnewlines\ttabs".to_string(),
        sample_cards(),
        now,
    );
    let text = render_session(&snap);
    match load_session(Some(text.as_str()), now) {
        SessionLoadOutcome::Session(restored) => {
            assert_eq!(restored.version, snap.version);
            assert_eq!(restored.created_timestamp, now);
            assert_eq!(restored.source_name, snap.source_name);
            assert_eq!(restored.source_text, snap.source_text);
            assert_eq!(restored.cards, snap.cards);
        }
        other => panic!("expected a session, got {:?}", other),
    }
}

#[test]
fn test_session_load_absent() {
    match load_session(None, 1700000000) {
        SessionLoadOutcome::NoSession => {}
        other => panic!("expected no session, got {:?}", other),
    }
}

#[test]
fn test_session_expired() {
    let created: i64 = 1700000000;
    let snap = new_session_snapshot("src".to_string(), "text".to_string(), vec![], created);
    let text = render_session(&snap);
    let eight_days: i64 = 8 * 24 * 60 * 60;
    match load_session(Some(text.as_str()), created + eight_days) {
        SessionLoadOutcome::Invalidate => {}
        other => panic!("expected invalidation, got {:?}", other),
    }
}

#[test]
fn test_session_just_under_max_age_loads() {
    let created: i64 = 1700000000;
    let snap = new_session_snapshot("src".to_string(), "text".to_string(), vec![], created);
    let text = render_session(&snap);
    let almost: i64 = 7 * 24 * 60 * 60;
    match load_session(Some(text.as_str()), created + almost) {
        SessionLoadOutcome::Session(_) => {}
        other => panic!("expected a session, got {:?}", other),
    }
}

#[test]
fn test_session_version_mismatch() {
    let json = r#"{"version":2,"created_timestamp":1700000000,"source_name":"s","source_text":"t","cards":[]}"#;
    match load_session(Some(json), 1700000000) {
        SessionLoadOutcome::Invalidate => {}
        other => panic!("expected invalidation, got {:?}", other),
    }
}

#[test]
fn test_session_corrupt_content() {
    match load_session(Some("not json at all"), 1700000000) {
        SessionLoadOutcome::Corrupt(_) => {}
        other => panic!("expected corrupt, got {:?}", other),
    }
    match load_session(Some(r#"{"version":1}"#), 1700000000) {
        SessionLoadOutcome::Corrupt(_) => {}
        other => panic!("expected corrupt, got {:?}", other),
    }
}

#[test]
fn test_session_preserves_status_values() {
    let now: i64 = 1700000000;
    let snap = new_session_snapshot("n".to_string(), "t".to_string(), sample_cards(), now);
    let text = render_session(&snap);
    match load_session(Some(text.as_str()), now) {
        SessionLoadOutcome::Session(restored) => {
            assert_eq!(restored.cards[0].status, CardStatus::Approved);
            assert_eq!(restored.cards[1].status, CardStatus::Rejected);
            assert_eq!(restored.cards[2].status, CardStatus::Pending);
        }
        other => panic!("expected a session, got {:?}", other),
    }
}

#[test]
fn test_wire_fallbacks() {
    assert_eq!(status_from_wire("approved"), CardStatus::Approved);
    assert_eq!(status_from_wire("unknown"), CardStatus::Pending);
    assert_eq!(card_type_from_wire("basic_reversed"), CardType::BasicReversed);
    assert_eq!(card_type_from_wire("mystery"), CardType::Basic);
}

#[test]
fn test_plan_import_note_only_approved() {
    let cards = sample_cards();
    let extra = vec!["extra".to_string()];
    let approved = plan_import_note(&cards[0], 7, &extra).expect("approved card imports");
    assert_eq!(approved.guid, "");
    assert_eq!(approved.deck, NameOrId::Id(7));
    assert_eq!(
        approved.tags,
        Some(vec![
            "ai-generated".to_string(),
            "extra".to_string(),
            "programming".to_string(),
            "rust".to_string()
        ])
    );
    assert!(plan_import_note(&cards[1], 7, &extra).is_none());
    assert!(plan_import_note(&cards[2], 7, &extra).is_none());
}

#[test]
fn test_import_tally() {
    let mut tally = ImportTally::new();
    tally.record("a", Ok(false));
    tally.record("b", Ok(true));
    tally.record("c", Ok(false));
    tally.record("d", Err("no such notetype".to_string()));
    assert_eq!(tally.imported, 2);
    assert_eq!(tally.duplicate, 1);
    assert_eq!(tally.errors.len(), 1);
    assert_eq!(
        tally.errors[0],
        "Failed to import card 'd': no such notetype"
    );
}

#[test]
fn test_notetype_lookup_name() {
    assert_eq!(notetype_lookup_name(&NameOrId::Name("Basic".to_string())), "Basic");
    assert_eq!(notetype_lookup_name(&NameOrId::Id(123)), "123");
    assert_eq!(notetype_lookup_name(&NameOrId::Id(-5)), "-5");
}

#[test]
fn test_control_characters_round_trip() {
    let now: i64 = 1700000000;
    let card = ReviewedCard {
        id: "c".to_string(),
        card_type: CardType::Basic,
        front: "bell \u{0007} and unit sep \u{001f}".to_string(),
        back: "ok".to_string(),
        suggested_tags: vec![],
        status: CardStatus::Pending,
    };
    let snap = new_session_snapshot("n".to_string(), "t".to_string(), vec![card], now);
    let text = render_session(&snap);
    match load_session(Some(text.as_str()), now) {
        SessionLoadOutcome::Session(restored) => {
            assert_eq!(restored.cards, snap.cards);
        }
        other => panic!("expected a session, got {:?}", other),
    }
}
