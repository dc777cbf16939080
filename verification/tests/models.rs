use vocab::models::{AppConfig, LearnMode};

#[test]
fn mode_names() {
    assert_eq!(LearnMode::Flashcard.to_str(), "flashcard");
    assert_eq!(LearnMode::Quiz.to_str(), "quiz");
}

#[test]
fn mode_from_name() {
    assert_eq!(LearnMode::from_str("quiz"), LearnMode::Quiz);
    assert_eq!(LearnMode::from_str("flashcard"), LearnMode::Flashcard);
    assert_eq!(LearnMode::from_str("QUIZ"), LearnMode::Flashcard);
    assert_eq!(LearnMode::from_str(""), LearnMode::Flashcard);
}

#[test]
fn mode_name_round_trip() {
    for m in [LearnMode::Flashcard, LearnMode::Quiz] {
        assert_eq!(LearnMode::from_str(m.to_str()), m);
    }
}

#[test]
fn config_defaults_to_light() {
    assert!(!AppConfig::default().dark_mode);
}
