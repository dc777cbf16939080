use vstd::prelude::*;

verus! {

/// A word bank: a named list of words.
#[derive(Debug, Clone)]
pub struct Bank {
    pub name: String,
    pub count: i32,
    pub created_at: i64,
    pub updated_at: i64,
}

/// One word of a bank with its definition and study marks.
#[derive(Debug, Clone)]
pub struct Word {
    pub id: i64,
    pub bank_name: String,
    pub word: String,
    pub definition: String,
    pub is_starred: bool,
    pub wrong_count: i32,
}

/// A finished study session as it is recorded.
#[derive(Debug, Clone)]
pub struct Session {
    pub id: i64,
    pub bank_name: String,
    pub mode: String,
    pub total: i32,
    pub remembered: i32,
    pub forgotten: i32,
    pub accuracy: i32,
    pub duration: i32,
    pub date: i64,
}

/// A card shown while studying: one side asked, the other revealed.
#[derive(Debug, Clone)]
pub struct Card {
    pub id: i64,
    pub front: String,
    pub back: String,
    pub is_starred: bool,
}

/// How a study session presents its cards.
#[derive(Debug, Clone, Copy, PartialEq, Eq, Structural)]
pub enum LearnMode {
    Flashcard,
    Quiz,
}

/// The name under which a mode is recorded.
pub open spec fn mode_name(m: LearnMode) -> Seq<char> {
    match m {
        LearnMode::Flashcard => "flashcard"@,
        LearnMode::Quiz => "quiz"@,
    }
}

/// The mode that a recorded name stands for; any unknown name means flashcards.
pub open spec fn mode_of_name(s: Seq<char>) -> LearnMode {
    if s == "quiz"@ {
        LearnMode::Quiz
    } else {
        LearnMode::Flashcard
    }
}

impl LearnMode {
    /// The name under which this mode is recorded.
    pub fn to_str(&self) -> (r: &'static str)
        ensures
            r@ == mode_name(*self),
    {
        match self {
            LearnMode::Flashcard => "flashcard",
            LearnMode::Quiz => "quiz",
        }
    }

    /// The mode that a recorded name stands for.
    pub fn from_str(s: &str) -> (r: Self)
        ensures
            r == mode_of_name(s@),
    {
        if crate::text::same_text(s, "quiz") {
            LearnMode::Quiz
        } else {
            LearnMode::Flashcard
        }
    }
}

/// Reading back the name of a mode gives the mode again.
pub proof fn law_mode_name_round_trip(m: LearnMode)
    ensures
        mode_of_name(mode_name(m)) == m,
{
    reveal_strlit("quiz");
    reveal_strlit("flashcard");
    if m == LearnMode::Flashcard {
        assert(mode_name(m).len() != "quiz"@.len());
    }
}

/// Which side of a word is asked first.
#[derive(Debug, Clone, Copy, PartialEq, Eq, Structural)]
pub enum Direction {
    WordFirst,
    DefFirst,
}

/// One answer offered by a quiz question.
#[derive(Debug, Clone)]
pub struct QuizOption {
    pub text: String,
    pub is_correct: bool,
}

/// What a finished study session is reported as.
#[derive(Debug, Clone)]
pub struct SessionResult {
    pub bank_name: String,
    pub mode: LearnMode,
    pub total: i32,
    pub remembered: i32,
    pub forgotten: i32,
    pub accuracy: i32,
    pub duration: i64,
    pub avg_time: i64,
}

/// A word and its definition read from an imported text.
#[derive(Debug, Clone)]
pub struct ParsedWord {
    pub word: String,
    pub definition: String,
}

/// The user's settings.
#[derive(Debug, Clone)]
pub struct AppConfig {
    pub dark_mode: bool,
}

impl Default for AppConfig {
    fn default() -> (r: Self)
        ensures
            !r.dark_mode,
    {
        AppConfig { dark_mode: false }
    }
}

/// A paused study session as it is kept between runs.
#[derive(Debug, Clone)]
pub struct SavedSession {
    pub bank_name: String,
    pub remembered: i32,
    pub index: i32,
    pub total: i32,
    pub direction: String,
    pub mode: String,
    pub elapsed: i64,
    pub forgotten: i32,
}

/// The pages of the main screen.
#[derive(Debug, Clone, Copy, PartialEq, Eq, Structural)]
pub enum Tab {
    Banks,
    Learn,
    Stats,
}

} // verus!
