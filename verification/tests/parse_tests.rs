use ai_flashcards::parse::parse_openai_response;
use ai_flashcards::parse::CardType;

#[test]
fn test_parse_basic_response() {
    let json = r#"{
            "cards": [
                {
                    "type": "basic",
                    "front": "What is Rust?",
                    "back": "A systems programming language",
                    "suggested_tags": ["programming", "rust"]
                }
            ]
        }"#;

    let cards = parse_openai_response(json).unwrap();
    assert_eq!(cards.len(), 1);
    assert_eq!(cards[0].card_type, CardType::Basic);
    assert_eq!(cards[0].front, "What is Rust?");
    assert_eq!(cards[0].back, "A systems programming language");
    assert_eq!(cards[0].suggested_tags, vec!["programming", "rust"]);
}

#[test]
fn test_parse_cloze_response() {
    let json = r#"{
            "cards": [
                {
                    "type": "cloze",
                    "front": "The {{c1::mitochondria}} is the powerhouse of the cell",
                    "back": "",
                    "suggested_tags": ["biology"]
                }
            ]
        }"#;

    let cards = parse_openai_response(json).unwrap();
    assert_eq!(cards.len(), 1);
    assert_eq!(cards[0].card_type, CardType::Cloze);
    assert!(cards[0].front.contains("{{c1::"));
}

#[test]
fn test_parse_multiple_cards() {
    let json = r#"{
            "cards": [
                {"type": "basic", "front": "Q1", "back": "A1"},
                {"type": "basic_reversed", "front": "Q2", "back": "A2"},
                {"type": "cloze", "front": "{{c1::test}}", "back": ""}
            ]
        }"#;

    let cards = parse_openai_response(json).unwrap();
    assert_eq!(cards.len(), 3);
    assert_eq!(cards[0].card_type, CardType::Basic);
    assert_eq!(cards[1].card_type, CardType::BasicReversed);
    assert_eq!(cards[2].card_type, CardType::Cloze);
}

#[test]
fn test_parse_unknown_type_defaults_to_basic() {
    let json = r#"{
            "cards": [
                {"type": "unknown_type", "front": "Q", "back": "A"}
            ]
        }"#;

    let cards = parse_openai_response(json).unwrap();
    assert_eq!(cards[0].card_type, CardType::Basic);
}

#[test]
fn test_parse_empty_cards_error() {
    let json = r#"{"cards": []}"#;
    assert!(parse_openai_response(json).is_err());
}

#[test]
fn test_parse_invalid_json_error() {
    let json = "not valid json";
    assert!(parse_openai_response(json).is_err());
}

#[test]
fn test_parse_wrapped_json() {
    let json =
        r#"Here is the response: {"cards": [{"type": "basic", "front": "Q", "back": "A"}]}"#;
    let cards = parse_openai_response(json).unwrap();
    assert_eq!(cards.len(), 1);
}

#[test]
fn test_parse_type_case_insensitive() {
    let json = r#"{"cards": [{"type": "CLOZE", "front": "{{c1::x}}"}]}"#;
    let cards = parse_openai_response(json).unwrap();
    assert_eq!(cards[0].card_type, CardType::Cloze);
}

#[test]
fn test_parse_back_defaults_to_empty() {
    let json = r#"{"cards": [{"type": "basic", "front": "Q"}]}"#;
    let cards = parse_openai_response(json).unwrap();
    assert_eq!(cards[0].back, "");
    assert!(cards[0].suggested_tags.is_empty());
}

#[test]
fn test_parse_mistyped_front_is_error() {
    let json = r#"{"cards": [{"type": "basic", "front": 7, "back": "A"}]}"#;
    assert!(parse_openai_response(json).is_err());
}

#[test]
fn test_parse_wrapped_json_with_suffix_prose() {
    let json = r#"Sure! {"cards": [{"type": "basic", "front": "Q", "back": "A"}]} Hope that helps."#;
    let cards = parse_openai_response(json).unwrap();
    assert_eq!(cards.len(), 1);
    assert_eq!(cards[0].front, "Q");
}

#[test]
fn test_parse_braces_out_of_order_is_error() {
    let json = "} no payload here {";
    assert!(parse_openai_response(json).is_err());
}

#[test]
fn test_from_str_keywords() {
    assert_eq!(CardType::from_str("basic"), CardType::Basic);
    assert_eq!(CardType::from_str("Basic_Reversed"), CardType::BasicReversed);
    assert_eq!(CardType::from_str("cloze"), CardType::Cloze);
    assert_eq!(CardType::from_str("something else"), CardType::Basic);
}
