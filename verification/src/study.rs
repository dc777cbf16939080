use vstd::prelude::*;

use crate::models::{
    mode_name, Card, Direction, LearnMode, SavedSession, Session, SessionResult, Word,
};
use crate::quiz::{make_quiz, quiz_fits, QuizState};
use crate::shuffle::{lemma_same_elements, shuffle, thread_rng};
use crate::text::same_text;

verus! {

/// A study session in progress.
pub struct LearnState {
    pub bank_name: String,
    pub cards: Vec<Card>,
    pub index: usize,
    pub remembered: i32,
    pub forgotten: i32,
    pub total_cards: usize,
    pub mode: LearnMode,
    pub direction: Direction,
    pub active: bool,
    pub flipped: bool,
    pub answered: bool,
}

/// The card that a word gives when studied in direction `dir`.
pub open spec fn card_of(w: Word, dir: Direction) -> Card {
    Card {
        id: w.id,
        front: if dir == Direction::WordFirst { w.word } else { w.definition },
        back: if dir == Direction::WordFirst { w.definition } else { w.word },
        is_starred: w.is_starred,
    }
}

/// The cards that a list of words gives, in order.
pub open spec fn cards_of(words: Seq<Word>, dir: Direction) -> Seq<Card> {
    words.map_values(|w: Word| card_of(w, dir))
}

/// The card that a word gives in a round of starred words.
pub open spec fn starred_card(w: Word) -> Card {
    Card { id: w.id, front: w.word, back: w.definition, is_starred: true }
}

/// The cards of the words in `words`, asked in direction `dir`.
pub fn cards_for(words: &Vec<Word>, dir: Direction) -> (r: Vec<Card>)
    ensures
        r@ == cards_of(words@, dir),
{
    let mut r: Vec<Card> = Vec::new();
    let mut i: usize = 0;
    while i < words.len()
        invariant
            i <= words.len(),
            r@ == cards_of(words@.take(i as int), dir),
        decreases words.len() - i,
    {
        let w = &words[i];
        let word_first = dir == Direction::WordFirst;
        let card = Card {
            id: w.id,
            front: if word_first { w.word.clone() } else { w.definition.clone() },
            back: if word_first { w.definition.clone() } else { w.word.clone() },
            is_starred: w.is_starred,
        };
        r.push(card);
        assert(words@.take(i + 1) =~= words@.take(i as int).push(words@[i as int]));
        assert(cards_of(words@.take(i + 1), dir) =~= cards_of(words@.take(i as int), dir).push(
            card_of(words@[i as int], dir),
        ));
        i += 1;
    }
    assert(words@.take(words.len() as int) =~= words@);
    r
}

/// The cards of a round of starred words.
pub fn starred_cards(words: &Vec<Word>) -> (r: Vec<Card>)
    ensures
        r@ == words@.map_values(|w: Word| starred_card(w)),
{
    let mut r: Vec<Card> = Vec::new();
    let mut i: usize = 0;
    while i < words.len()
        invariant
            i <= words.len(),
            r@ == words@.take(i as int).map_values(|w: Word| starred_card(w)),
        decreases words.len() - i,
    {
        let w = &words[i];
        let card = Card {
            id: w.id,
            front: w.word.clone(),
            back: w.definition.clone(),
            is_starred: true,
        };
        r.push(card);
        assert(words@.take(i + 1) =~= words@.take(i as int).push(words@[i as int]));
        assert(words@.take(i + 1).map_values(|w: Word| starred_card(w)) =~= words@.take(
            i as int,
        ).map_values(|w: Word| starred_card(w)).push(starred_card(words@[i as int])));
        i += 1;
    }
    assert(words@.take(words.len() as int) =~= words@);
    r
}

/// The state of studying: the session in progress, a paused one, the
/// question asked, and the report of the last finished one.
pub struct Study {
    pub learn: Option<LearnState>,
    pub paused: Option<LearnState>,
    pub quiz: Option<QuizState>,
    pub result: Option<SessionResult>,
}

/// Why a study session could not start.
#[derive(Debug, Clone, Copy, PartialEq, Eq, Structural)]
pub enum StartError {
    BankEmpty,
    NoStarred,
    NoWrong,
    BankGone,
}

/// The message shown for a start error.
pub open spec fn start_error_text(e: StartError) -> Seq<char> {
    match e {
        StartError::BankEmpty => "Bank is empty"@,
        StartError::NoStarred => "No starred words"@,
        StartError::NoWrong => "No wrong words"@,
        StartError::BankGone => "Bank gone"@,
    }
}

impl StartError {
    /// The message shown for this error.
    pub fn message(&self) -> (r: &'static str)
        ensures
            r@ == start_error_text(*self),
    {
        match self {
            StartError::BankEmpty => "Bank is empty",
            StartError::NoStarred => "No starred words",
            StartError::NoWrong => "No wrong words",
            StartError::BankGone => "Bank gone",
        }
    }
}

/// What an answer asks to be recorded: a word whose wrong count grows, and the
/// session record when the answer finished the session.
pub struct Answered {
    pub missed_word: Option<i64>,
    pub record: Option<Session>,
}

/// Which screen shows.
#[derive(Debug, Clone, Copy, PartialEq, Eq, Structural)]
pub enum Screen {
    Studying,
    Paused,
    Finished,
    Browsing,
}

/// The bank name of a round of starred words.
pub open spec fn starred_bank() -> Seq<char> {
    "Starred"@
}

/// The bank name of a round of wrongly answered words.
pub open spec fn wrong_bank() -> Seq<char> {
    "Wrong"@
}

/// `l` is a session that has just started on bank `bank` with the cards
/// `cards`, in some order.
pub open spec fn is_fresh(
    l: LearnState,
    bank: Seq<char>,
    cards: Seq<Card>,
    mode: LearnMode,
    dir: Direction,
) -> bool {
    &&& l.bank_name@ == bank
    &&& l.cards@.to_multiset() == cards.to_multiset()
    &&& l.index == 0
    &&& l.remembered == 0
    &&& l.forgotten == 0
    &&& l.total_cards == cards.len()
    &&& l.mode == mode
    &&& l.direction == dir
    &&& l.active
    &&& !l.flipped
    &&& !l.answered
}

/// `l` with one more card counted as remembered (`ok`) or forgotten.
pub open spec fn counted(l: LearnState, ok: bool) -> LearnState {
    if ok {
        LearnState { remembered: (l.remembered + 1) as i32, ..l }
    } else {
        LearnState { forgotten: (l.forgotten + 1) as i32, ..l }
    }
}

/// The counter that an answer adds to has room for one more.
pub open spec fn can_count(l: LearnState, ok: bool) -> bool {
    if ok {
        l.remembered < i32::MAX
    } else {
        l.forgotten < i32::MAX
    }
}

/// `l` moved on to its next card, shown front side up.
pub open spec fn advanced(l: LearnState) -> LearnState {
    LearnState { index: (l.index + 1) as usize, flipped: false, ..l }
}

/// Integer division rounded toward zero, as Rust divides.
pub open spec fn quot(a: int, b: int) -> int {
    if a >= 0 {
        a / b
    } else {
        -((-a) / b)
    }
}

/// The accuracy of a session in percent: remembered cards per card, rounded
/// toward zero; 0 for a session without cards.
pub open spec fn accuracy_of(remembered: i32, total: usize) -> int {
    if total > 0 {
        quot(remembered * 100, (total as i32) as int)
    } else {
        0
    }
}

/// The average time spent per card; 0 for a session without cards.
pub open spec fn average_of(duration: i64, total: usize) -> int {
    if total > 0 {
        quot(duration as int, (total as i64) as int)
    } else {
        0
    }
}

/// Finishing `l` after `elapsed` seconds computes without overflow or
/// division by zero.
pub open spec fn finish_ok(l: LearnState, elapsed: i64) -> bool {
    l.total_cards > 0 ==> {
        &&& i32::MIN <= l.remembered * 100 <= i32::MAX
        &&& (l.total_cards as i32) != 0
        &&& !(l.remembered * 100 == i32::MIN && (l.total_cards as i32) == -1)
        &&& (l.total_cards as i64) != 0
        &&& !(elapsed == i64::MIN && (l.total_cards as i64) == -1)
    }
}

/// The report of session `l` finished after `elapsed` seconds.
pub open spec fn result_of(l: LearnState, elapsed: i64) -> SessionResult {
    SessionResult {
        bank_name: l.bank_name,
        mode: l.mode,
        total: l.total_cards as i32,
        remembered: l.remembered,
        forgotten: l.forgotten,
        accuracy: accuracy_of(l.remembered, l.total_cards) as i32,
        duration: elapsed,
        avg_time: average_of(elapsed, l.total_cards) as i64,
    }
}

/// `s` records session `l`, finished after `elapsed` seconds at time `now`.
pub open spec fn is_record_of(s: Session, l: LearnState, elapsed: i64, now: i64) -> bool {
    &&& s.id == 0
    &&& s.bank_name == l.bank_name
    &&& s.mode@ == mode_name(l.mode)
    &&& s.total == l.total_cards as i32
    &&& s.remembered == l.remembered
    &&& s.forgotten == l.forgotten
    &&& s.accuracy == accuracy_of(l.remembered, l.total_cards) as i32
    &&& s.duration == elapsed as i32
    &&& s.date == now
}

/// `s` after the session `l` finished after `elapsed` seconds.
pub open spec fn finished(s: Study, l: LearnState, elapsed: i64) -> Study {
    Study { learn: None, result: Some(result_of(l, elapsed)), ..s }
}

/// `s` with its running session paused.
pub open spec fn paused_study(s: Study) -> Study {
    Study { learn: None, paused: s.learn, ..s }
}

/// `s` with its paused session running again.
pub open spec fn continued_study(s: Study) -> Study {
    Study { learn: s.paused, paused: None, ..s }
}

/// An answer to the question of `s` is ignored: no question is open, it is
/// answered already, or no session runs.
pub open spec fn answer_ignored(s: Study) -> bool {
    match (s.quiz, s.learn) {
        (Some(q), Some(l)) => q.answered || !l.active,
        _ => true,
    }
}

/// `s` after its question is answered with option `idx`, `elapsed` seconds
/// into the session: the question is marked answered, the card is counted,
/// and after the last card the session finishes.
pub open spec fn quiz_answered(s: Study, idx: usize, elapsed: i64) -> Study {
    match (s.quiz, s.learn) {
        (Some(q), Some(l)) => if q.answered || !l.active {
            s
        } else {
            let c = chosen_correct(q, idx);
            let q2 = QuizState { selected: idx as i32, answered: true, correct: c, ..q };
            if l.index + 1 >= l.total_cards {
                finished(Study { quiz: Some(q2), ..s }, counted(l, c), elapsed)
            } else {
                Study { learn: Some(counted(l, c)), quiz: Some(q2), ..s }
            }
        },
        _ => s,
    }
}

/// Answering the current card of `l` computes without overflow.
pub open spec fn answer_ok(l: LearnState, ok: bool, elapsed: i64) -> bool {
    &&& l.index < usize::MAX
    &&& can_count(l, ok)
    &&& l.index + 1 >= l.total_cards ==> finish_ok(counted(l, ok), elapsed)
}

/// The word to count as missed when the current card of `l` is answered.
pub open spec fn missed_word(l: LearnState, ok: bool) -> Option<i64> {
    if !ok && l.index < l.cards.len() {
        Some(l.cards@[l.index as int].id)
    } else {
        None
    }
}

/// Whether the chosen option `idx` of `q` is the correct one.
pub open spec fn chosen_correct(q: QuizState, idx: usize) -> bool {
    idx < q.options.len() && q.options@[idx as int].is_correct
}

/// The name under which a direction is kept in a saved session.
pub open spec fn direction_name(d: Direction) -> Seq<char> {
    match d {
        Direction::DefFirst => "DEF_FIRST"@,
        Direction::WordFirst => "WORD_FIRST"@,
    }
}

/// The direction that a kept name stands for; anything unknown means word first.
pub open spec fn direction_of_name(s: Seq<char>) -> Direction {
    if s == "DEF_FIRST"@ {
        Direction::DefFirst
    } else {
        Direction::WordFirst
    }
}

/// The name under which a mode is kept in a saved session.
pub open spec fn saved_mode_name(m: LearnMode) -> Seq<char> {
    match m {
        LearnMode::Quiz => "QUIZ"@,
        LearnMode::Flashcard => "FLASHCARD"@,
    }
}

/// The mode that a kept name stands for; anything unknown means flashcards.
pub open spec fn saved_mode_of(s: Seq<char>) -> LearnMode {
    if s == "QUIZ"@ {
        LearnMode::Quiz
    } else {
        LearnMode::Flashcard
    }
}

/// Session `l` is worth keeping: it is running, has begun, and is not a
/// round of starred or wrong words.
pub open spec fn savable(l: LearnState) -> bool {
    l.active && l.index != 0 && l.bank_name@ != starred_bank() && l.bank_name@ != wrong_bank()
}

/// `s` keeps session `l` after `elapsed` milliseconds.
pub open spec fn is_saved_of(s: SavedSession, l: LearnState, elapsed: i64) -> bool {
    &&& s.bank_name == l.bank_name
    &&& s.remembered == l.remembered
    &&& s.index == l.index as i32
    &&& s.total == l.total_cards as i32
    &&& s.direction@ == direction_name(l.direction)
    &&& s.mode@ == saved_mode_name(l.mode)
    &&& s.elapsed == elapsed
    &&& s.forgotten == l.forgotten
}

/// `l` is the session `s` resumed with the words `words` of its bank.
pub open spec fn is_resumed(l: LearnState, s: SavedSession, words: Seq<Word>) -> bool {
    &&& l.bank_name == s.bank_name
    &&& l.cards@ == cards_of(words, direction_of_name(s.direction@))
    &&& l.index == s.index as usize
    &&& l.remembered == s.remembered
    &&& l.forgotten == s.forgotten
    &&& l.total_cards == s.total as usize
    &&& l.mode == saved_mode_of(s.mode@)
    &&& l.direction == direction_of_name(s.direction@)
    &&& l.active
    &&& !l.flipped
    &&& !l.answered
}

/// What `save_of` gives for session `l`: kept only when it is worth keeping.
pub open spec fn saved_ok(r: Option<SavedSession>, l: LearnState, elapsed: i64) -> bool {
    match r {
        Some(s) => savable(l) && is_saved_of(s, l, elapsed),
        None => !savable(l),
    }
}

/// The session to keep for `l` after `elapsed` milliseconds, if it is worth keeping.
pub fn save_of(l: &LearnState, elapsed: i64) -> (r: Option<SavedSession>)
    ensures
        saved_ok(r, *l, elapsed),
{
    if !l.active || l.index == 0 || same_text(l.bank_name.as_str(), "Starred") || same_text(
        l.bank_name.as_str(),
        "Wrong",
    ) {
        return None;
    }
    let direction = if l.direction == Direction::DefFirst {
        String::from_str("DEF_FIRST")
    } else {
        String::from_str("WORD_FIRST")
    };
    let mode = if l.mode == LearnMode::Quiz {
        String::from_str("QUIZ")
    } else {
        String::from_str("FLASHCARD")
    };
    Some(
        SavedSession {
            bank_name: l.bank_name.clone(),
            remembered: l.remembered,
            index: #[verifier::truncate] (l.index as i32),
            total: #[verifier::truncate] (l.total_cards as i32),
            direction,
            mode,
            elapsed,
            forgotten: l.forgotten,
        },
    )
}

/// The report and the record of session `l`, finished after `elapsed`
/// seconds at time `now`.
pub fn close(l: LearnState, elapsed: i64, now: i64) -> (r: (SessionResult, Session))
    requires
        finish_ok(l, elapsed),
    ensures
        r.0 == result_of(l, elapsed),
        is_record_of(r.1, l, elapsed, now),
{
    let acc: i32 = if l.total_cards > 0 {
        l.remembered * 100 / (#[verifier::truncate] (l.total_cards as i32))
    } else {
        0
    };
    let avg: i64 = if l.total_cards > 0 {
        elapsed / (#[verifier::truncate] (l.total_cards as i64))
    } else {
        0
    };
    let result = SessionResult {
        bank_name: l.bank_name.clone(),
        mode: l.mode,
        total: #[verifier::truncate] (l.total_cards as i32),
        remembered: l.remembered,
        forgotten: l.forgotten,
        accuracy: acc,
        duration: elapsed,
        avg_time: avg,
    };
    let record = Session {
        id: 0,
        bank_name: l.bank_name,
        mode: String::from_str(l.mode.to_str()),
        total: #[verifier::truncate] (l.total_cards as i32),
        remembered: l.remembered,
        forgotten: l.forgotten,
        accuracy: acc,
        duration: #[verifier::truncate] (elapsed as i32),
        date: now,
    };
    (result, record)
}

impl Study {
    /// Nothing in progress, nothing paused, nothing to report.
    pub fn new() -> (r: Self)
        ensures
            r.learn is None,
            r.paused is None,
            r.quiz is None,
            r.result is None,
    {
        Study { learn: None, paused: None, quiz: None, result: None }
    }

    /// Which screen shows: the running session, the paused one, the report
    /// of the finished one, or else the main pages.
    pub fn screen(&self) -> (r: Screen)
        ensures
            r == (if self.learn matches Some(l) && l.active {
                Screen::Studying
            } else if self.paused is Some {
                Screen::Paused
            } else if self.result is Some {
                Screen::Finished
            } else {
                Screen::Browsing
            }),
    {
        let active = match &self.learn {
            Some(l) => l.active,
            None => false,
        };
        if active {
            Screen::Studying
        } else if self.paused.is_some() {
            Screen::Paused
        } else if self.result.is_some() {
            Screen::Finished
        } else {
            Screen::Browsing
        }
    }

    /// Whether the running session shows flash cards (also when none runs).
    pub fn shows_flashcard(&self) -> (r: bool)
        ensures
            r == (match self.learn {
                Some(l) => l.mode == LearnMode::Flashcard,
                None => true,
            }),
    {
        match &self.learn {
            Some(l) => l.mode == LearnMode::Flashcard,
            None => true,
        }
    }

    /// Asks a new question for the current card of the running session.
    /// Nothing changes when no session runs or it has no card there.
    pub fn gen_quiz(&mut self)
        ensures
            final(self).learn == old(self).learn,
            final(self).paused == old(self).paused,
            final(self).result == old(self).result,
            match old(self).learn {
                Some(l) => if l.active && l.index < l.cards.len() {
                    final(self).quiz matches Some(q) && quiz_fits(q, l)
                } else {
                    final(self).quiz == old(self).quiz
                },
                None => final(self).quiz == old(self).quiz,
            },
    {
        let q = match &self.learn {
            Some(l) => make_quiz(l),
            None => None,
        };
        match q {
            Some(q) => {
                self.quiz = Some(q);
            },
            None => {},
        }
    }

    /// Starts studying `bank` with its words `words`, in a random order, asked
    /// in direction `dir`; a quiz asks its first question at once. Fails, and
    /// changes nothing, when the bank has no words.
    pub fn start_learn(&mut self, bank: &str, words: &Vec<Word>, mode: LearnMode, dir: Direction) -> (r: Result<(), StartError>)
        ensures
            r is Err <==> words.len() == 0,
            r is Err ==> r == Err::<(), StartError>(StartError::BankEmpty) && *final(self) == *old(self),
            r is Ok ==> {
                &&& final(self).learn matches Some(l) && is_fresh(l, bank@, cards_of(words@, dir), mode, dir)
                &&& final(self).paused is None
                &&& final(self).result == old(self).result
                &&& mode == LearnMode::Quiz ==> (final(self).quiz matches Some(q) && quiz_fits(q, final(self).learn.unwrap()))
                &&& mode == LearnMode::Flashcard ==> final(self).quiz is None
            },
    {
        if words.len() == 0 {
            return Err(StartError::BankEmpty);
        }
        let mut cards = cards_for(words, dir);
        let mut rng = thread_rng();
        shuffle(&mut cards, &mut rng);
        proof {
            lemma_same_elements(cards_of(words@, dir), cards@);
        }
        let total_cards = cards.len();
        self.learn = Some(
            LearnState {
                bank_name: String::from_str(bank),
                cards,
                index: 0,
                remembered: 0,
                forgotten: 0,
                total_cards,
                mode,
                direction: dir,
                active: true,
                flipped: false,
                answered: false,
            },
        );
        self.paused = None;
        if mode == LearnMode::Quiz {
            self.gen_quiz();
        } else {
            self.quiz = None;
        }
        Ok(())
    }

    /// Starts a flash-card round of the starred words `words`, in a random
    /// order. Fails, and changes nothing, when there are none.
    pub fn start_starred(&mut self, words: &Vec<Word>) -> (r: Result<(), StartError>)
        ensures
            r is Err <==> words.len() == 0,
            r is Err ==> r == Err::<(), StartError>(StartError::NoStarred) && *final(self) == *old(self),
            r is Ok ==> {
                &&& final(self).learn matches Some(l) && is_fresh(
                    l,
                    starred_bank(),
                    words@.map_values(|w: Word| starred_card(w)),
                    LearnMode::Flashcard,
                    Direction::WordFirst,
                )
                &&& final(self).paused is None
                &&& final(self).quiz is None
                &&& final(self).result == old(self).result
            },
    {
        if words.len() == 0 {
            return Err(StartError::NoStarred);
        }
        let mut cards = starred_cards(words);
        let mut rng = thread_rng();
        shuffle(&mut cards, &mut rng);
        proof {
            lemma_same_elements(words@.map_values(|w: Word| starred_card(w)), cards@);
        }
        let total_cards = cards.len();
        self.learn = Some(
            LearnState {
                bank_name: String::from_str("Starred"),
                cards,
                index: 0,
                remembered: 0,
                forgotten: 0,
                total_cards,
                mode: LearnMode::Flashcard,
                direction: Direction::WordFirst,
                active: true,
                flipped: false,
                answered: false,
            },
        );
        self.paused = None;
        self.quiz = None;
        Ok(())
    }

    /// Starts a flash-card round of the wrongly answered words `words`, in a
    /// random order. Fails, and changes nothing, when there are none.
    pub fn start_wrong(&mut self, words: &Vec<Word>) -> (r: Result<(), StartError>)
        ensures
            r is Err <==> words.len() == 0,
            r is Err ==> r == Err::<(), StartError>(StartError::NoWrong) && *final(self) == *old(self),
            r is Ok ==> {
                &&& final(self).learn matches Some(l) && is_fresh(
                    l,
                    wrong_bank(),
                    cards_of(words@, Direction::WordFirst),
                    LearnMode::Flashcard,
                    Direction::WordFirst,
                )
                &&& final(self).paused is None
                &&& final(self).quiz is None
                &&& final(self).result == old(self).result
            },
    {
        if words.len() == 0 {
            return Err(StartError::NoWrong);
        }
        let mut cards = cards_for(words, Direction::WordFirst);
        let mut rng = thread_rng();
        shuffle(&mut cards, &mut rng);
        proof {
            lemma_same_elements(cards_of(words@, Direction::WordFirst), cards@);
        }
        let total_cards = cards.len();
        self.learn = Some(
            LearnState {
                bank_name: String::from_str("Wrong"),
                cards,
                index: 0,
                remembered: 0,
                forgotten: 0,
                total_cards,
                mode: LearnMode::Flashcard,
                direction: Direction::WordFirst,
                active: true,
                flipped: false,
                answered: false,
            },
        );
        self.paused = None;
        self.quiz = None;
        Ok(())
    }

    /// Ends the running session after `elapsed` seconds at time `now`: its
    /// report becomes the result, and its record is returned to be stored.
    /// Nothing happens when no session runs.
    pub fn finish(&mut self, elapsed: i64, now: i64) -> (r: Option<Session>)
        requires
            old(self).learn matches Some(l) ==> finish_ok(l, elapsed),
        ensures
            match old(self).learn {
                Some(l) => {
                    &&& *final(self) == finished(*old(self), l, elapsed)
                    &&& r matches Some(s) && is_record_of(s, l, elapsed, now)
                },
                None => *final(self) == *old(self) && r is None,
            },
    {
        match self.learn.take() {
            Some(l) => {
                let (res, record) = close(l, elapsed, now);
                self.result = Some(res);
                Some(record)
            },
            None => None,
        }
    }

    /// Whether answering the current card (as remembered when `ok`) at
    /// `elapsed` seconds computes without overflow; the answer methods need it.
    pub fn answer_is_safe(&self, ok: bool, elapsed: i64) -> (r: bool)
        ensures
            r == (self.learn matches Some(l) ==> (l.active ==> answer_ok(l, ok, elapsed))),
    {
        match &self.learn {
            Some(l) => {
                if !l.active {
                    return true;
                }
                if l.index == usize::MAX {
                    return false;
                }
                if ok && l.remembered == i32::MAX {
                    return false;
                }
                if !ok && l.forgotten == i32::MAX {
                    return false;
                }
                if l.index + 1 >= l.total_cards && l.total_cards > 0 {
                    let rem: i64 = if ok {
                        l.remembered as i64 + 1
                    } else {
                        l.remembered as i64
                    };
                    let scaled: i64 = rem * 100;
                    let t32: i32 = #[verifier::truncate] (l.total_cards as i32);
                    let t64: i64 = #[verifier::truncate] (l.total_cards as i64);
                    if scaled < i32::MIN as i64 || scaled > i32::MAX as i64 {
                        return false;
                    }
                    if t32 == 0 || (scaled == i32::MIN as i64 && t32 == -1) {
                        return false;
                    }
                    if t64 == 0 || (elapsed == i64::MIN && t64 == -1) {
                        return false;
                    }
                }
                true
            },
            None => true,
        }
    }

    /// Answers the current flash card as remembered (`ok`) or forgotten,
    /// `elapsed` seconds into the session at time `now`. The card is counted;
    /// a forgotten card's word is returned to have its wrong count raised.
    /// After the last card the session finishes and its record is returned;
    /// otherwise the next card shows, front side up. Nothing happens when no
    /// session runs.
    pub fn answer_card(&mut self, ok: bool, elapsed: i64, now: i64) -> (r: Answered)
        requires
            old(self).learn matches Some(l) ==> (l.active ==> answer_ok(l, ok, elapsed)),
        ensures
            match old(self).learn {
                Some(l) => if !l.active {
                    *final(self) == *old(self) && r.missed_word is None && r.record is None
                } else {
                    &&& r.missed_word == missed_word(l, ok)
                    &&& if l.index + 1 >= l.total_cards {
                        &&& *final(self) == finished(*old(self), counted(l, ok), elapsed)
                        &&& r.record matches Some(s) && is_record_of(s, counted(l, ok), elapsed, now)
                    } else {
                        &&& *final(self) == Study { learn: Some(advanced(counted(l, ok))), ..*old(self) }
                        &&& r.record is None
                    }
                },
                None => *final(self) == *old(self) && r.missed_word is None && r.record is None,
            },
    {
        let mut l = match self.learn.take() {
            Some(l) => l,
            None => {
                return Answered { missed_word: None, record: None };
            },
        };
        if !l.active {
            self.learn = Some(l);
            return Answered { missed_word: None, record: None };
        }
        let missed = if !ok && l.index < l.cards.len() {
            Some(l.cards[l.index].id)
        } else {
            None
        };
        let last = l.index + 1 >= l.total_cards;
        if ok {
            l.remembered = l.remembered + 1;
        } else {
            l.forgotten = l.forgotten + 1;
        }
        if last {
            let (res, record) = close(l, elapsed, now);
            self.result = Some(res);
            Answered { missed_word: missed, record: Some(record) }
        } else {
            l.index = l.index + 1;
            l.flipped = false;
            self.learn = Some(l);
            Answered { missed_word: missed, record: None }
        }
    }

    /// Whether answering the question with option `idx` at `elapsed` seconds
    /// computes without overflow; `answer_quiz` needs it.
    pub fn quiz_answer_is_safe(&self, idx: usize, elapsed: i64) -> (r: bool)
        ensures
            r == (match (self.quiz, self.learn) {
                (Some(q), Some(l)) => !q.answered && l.active ==> answer_ok(l, chosen_correct(q, idx), elapsed),
                _ => true,
            }),
    {
        match &self.quiz {
            Some(q) => {
                if q.answered {
                    return true;
                }
                let c = idx < q.options.len() && q.options[idx].is_correct;
                self.answer_is_safe(c, elapsed)
            },
            None => true,
        }
    }

    /// Answers the question with option `idx`, `elapsed` seconds into the
    /// session at time `now`. The question is marked answered, and right when
    /// the option is the correct one; the card is counted as remembered or
    /// forgotten, and a wrong answer returns the card's word to have its wrong
    /// count raised. After the last card the session finishes and its record
    /// is returned. Nothing happens when no question is open or no session runs.
    pub fn answer_quiz(&mut self, idx: usize, elapsed: i64, now: i64) -> (r: Answered)
        requires
            match (old(self).quiz, old(self).learn) {
                (Some(q), Some(l)) => !q.answered && l.active ==> answer_ok(l, chosen_correct(q, idx), elapsed),
                _ => true,
            },
        ensures
            *final(self) == quiz_answered(*old(self), idx, elapsed),
            answer_ignored(*old(self)) ==> r.missed_word is None && r.record is None,
            match (old(self).quiz, old(self).learn) {
                (Some(q), Some(l)) => if q.answered || !l.active {
                    *final(self) == *old(self) && r.missed_word is None && r.record is None
                } else {
                    let c = chosen_correct(q, idx);
                    let q2 = QuizState { selected: idx as i32, answered: true, correct: c, ..q };
                    &&& r.missed_word == missed_word(l, c)
                    &&& if l.index + 1 >= l.total_cards {
                        &&& *final(self) == finished(Study { quiz: Some(q2), ..*old(self) }, counted(l, c), elapsed)
                        &&& r.record matches Some(s) && is_record_of(s, counted(l, c), elapsed, now)
                    } else {
                        &&& *final(self) == Study { learn: Some(counted(l, c)), quiz: Some(q2), ..*old(self) }
                        &&& r.record is None
                    }
                },
                _ => *final(self) == *old(self) && r.missed_word is None && r.record is None,
            },
    {
        let mut q = match self.quiz.take() {
            Some(q) => q,
            None => {
                return Answered { missed_word: None, record: None };
            },
        };
        if q.answered {
            self.quiz = Some(q);
            return Answered { missed_word: None, record: None };
        }
        let mut l = match self.learn.take() {
            Some(l) => l,
            None => {
                self.quiz = Some(q);
                return Answered { missed_word: None, record: None };
            },
        };
        if !l.active {
            self.learn = Some(l);
            self.quiz = Some(q);
            return Answered { missed_word: None, record: None };
        }
        let c = idx < q.options.len() && q.options[idx].is_correct;
        let missed = if !c && l.index < l.cards.len() {
            Some(l.cards[l.index].id)
        } else {
            None
        };
        let last = l.index + 1 >= l.total_cards;
        q.selected = #[verifier::truncate] (idx as i32);
        q.answered = true;
        q.correct = c;
        self.quiz = Some(q);
        if c {
            l.remembered = l.remembered + 1;
        } else {
            l.forgotten = l.forgotten + 1;
        }
        if last {
            let (res, record) = close(l, elapsed, now);
            self.result = Some(res);
            Answered { missed_word: missed, record: Some(record) }
        } else {
            self.learn = Some(l);
            Answered { missed_word: missed, record: None }
        }
    }

    /// Moves a running quiz on to its next card and asks its question; nothing
    /// happens on the last card or when no session runs.
    pub fn next_quiz(&mut self)
        requires
            old(self).learn matches Some(l) ==> (l.active ==> l.index < usize::MAX),
        ensures
            match old(self).learn {
                Some(l) => if l.active && l.index + 1 < l.total_cards {
                    let l2 = LearnState { index: (l.index + 1) as usize, ..l };
                    &&& final(self).learn == Some(l2)
                    &&& final(self).paused == old(self).paused
                    &&& final(self).result == old(self).result
                    &&& if l2.index < l2.cards.len() {
                        final(self).quiz matches Some(q) && quiz_fits(q, l2)
                    } else {
                        final(self).quiz == old(self).quiz
                    }
                } else {
                    *final(self) == *old(self)
                },
                None => *final(self) == *old(self),
            },
    {
        let mut l = match self.learn.take() {
            Some(l) => l,
            None => {
                return;
            },
        };
        if l.active && l.index + 1 < l.total_cards {
            l.index = l.index + 1;
            self.learn = Some(l);
            self.gen_quiz();
        } else {
            self.learn = Some(l);
        }
    }

    /// Turns the current card over.
    pub fn flip(&mut self)
        ensures
            match old(self).learn {
                Some(l) => *final(self) == Study { learn: Some(LearnState { flipped: true, ..l }), ..*old(self) },
                None => *final(self) == *old(self),
            },
    {
        match self.learn.take() {
            Some(mut l) => {
                l.flipped = true;
                self.learn = Some(l);
            },
            None => {},
        }
    }

    /// Drops the running and paused sessions, the question and the report.
    pub fn quit(&mut self)
        ensures
            final(self).learn is None,
            final(self).paused is None,
            final(self).quiz is None,
            final(self).result is None,
    {
        self.learn = None;
        self.paused = None;
        self.quiz = None;
        self.result = None;
    }

    /// Pauses the running session, `elapsed` milliseconds into it, and returns
    /// it to be kept when it is worth keeping.
    pub fn pause(&mut self, elapsed: i64) -> (r: Option<SavedSession>)
        ensures
            *final(self) == paused_study(*old(self)),
            match old(self).learn {
                Some(l) => saved_ok(r, l, elapsed),
                None => (r is None),
            },
    {
        let saved = match &self.learn {
            Some(l) => save_of(l, elapsed),
            None => None,
        };
        self.paused = self.learn.take();
        saved
    }

    /// Continues the paused session.
    pub fn cont(&mut self)
        ensures
            *final(self) == continued_study(*old(self)),
    {
        self.learn = self.paused.take();
    }

    /// Ends studying, returning the running or else the paused session, after
    /// `elapsed` milliseconds, to be kept when it is worth keeping.
    pub fn save_quit(&mut self, elapsed: i64) -> (r: Option<SavedSession>)
        ensures
            final(self).learn is None,
            final(self).paused is None,
            final(self).quiz is None,
            final(self).result is None,
            match (old(self).learn, old(self).paused) {
                (Some(l), _) => saved_ok(r, l, elapsed),
                (None, Some(p)) => saved_ok(r, p, elapsed),
                (None, None) => (r is None),
            },
    {
        let saved = match &self.learn {
            Some(l) => save_of(l, elapsed),
            None => match &self.paused {
                Some(p) => save_of(p, elapsed),
                None => None,
            },
        };
        self.quit();
        saved
    }

    /// Resumes the kept session `s` with the words `words` of its bank, in
    /// their order; a quiz asks its question at once. Fails, and changes
    /// nothing, when the bank has no words any more.
    pub fn resume(&mut self, s: SavedSession, words: &Vec<Word>) -> (r: Result<(), StartError>)
        ensures
            r is Err <==> words.len() == 0,
            r is Err ==> r == Err::<(), StartError>(StartError::BankGone) && *final(self) == *old(self),
            r is Ok ==> {
                &&& final(self).learn matches Some(l) && is_resumed(l, s, words@)
                &&& final(self).paused is None
                &&& final(self).result == old(self).result
                &&& if saved_mode_of(s.mode@) == LearnMode::Quiz && (s.index as usize) < words.len() {
                    final(self).quiz matches Some(q) && quiz_fits(q, final(self).learn.unwrap())
                } else {
                    final(self).quiz == old(self).quiz
                }
            },
    {
        if words.len() == 0 {
            return Err(StartError::BankGone);
        }
        let dir = if same_text(s.direction.as_str(), "DEF_FIRST") {
            Direction::DefFirst
        } else {
            Direction::WordFirst
        };
        let mode = if same_text(s.mode.as_str(), "QUIZ") {
            LearnMode::Quiz
        } else {
            LearnMode::Flashcard
        };
        let cards = cards_for(words, dir);
        self.learn = Some(
            LearnState {
                bank_name: s.bank_name,
                cards,
                index: #[verifier::truncate] (s.index as usize),
                remembered: s.remembered,
                forgotten: s.forgotten,
                total_cards: #[verifier::truncate] (s.total as usize),
                mode,
                direction: dir,
                active: true,
                flipped: false,
                answered: false,
            },
        );
        self.paused = None;
        if mode == LearnMode::Quiz {
            self.gen_quiz();
        }
        Ok(())
    }
}

impl LearnState {
    /// Whether a card follows the current one.
    pub fn has_next(&self) -> (r: bool)
        requires
            self.index < usize::MAX,
        ensures
            r == (self.index + 1 < self.total_cards),
    {
        self.index + 1 < self.total_cards
    }
}

/// What "again" on the report of a finished session starts.
#[derive(Debug, Clone, Copy, PartialEq, Eq, Structural)]
pub enum Again {
    /// A new round of the starred words.
    Starred,
    /// A new round of the wrongly answered words.
    Wrong,
    /// A new session on the same bank.
    SameBank,
}

/// What "again" starts after a session on bank `bank`.
pub fn again_target(bank: &str) -> (r: Again)
    ensures
        r == (if bank@ == starred_bank() {
            Again::Starred
        } else if bank@ == wrong_bank() {
            Again::Wrong
        } else {
            Again::SameBank
        }),
{
    if same_text(bank, "Starred") {
        Again::Starred
    } else if same_text(bank, "Wrong") {
        Again::Wrong
    } else {
        Again::SameBank
    }
}

/// The title of the report of a session in mode `m`.
pub open spec fn report_title(m: LearnMode) -> Seq<char> {
    match m {
        LearnMode::Quiz => "Quiz Complete!"@,
        LearnMode::Flashcard => "Session Complete!"@,
    }
}

/// The label of mode `m` on a report.
pub open spec fn mode_label(m: LearnMode) -> Seq<char> {
    match m {
        LearnMode::Quiz => "Quiz"@,
        LearnMode::Flashcard => "Flashcard"@,
    }
}

impl SessionResult {
    /// The title of this report.
    pub fn title(&self) -> (r: &'static str)
        ensures
            r@ == report_title(self.mode),
    {
        match self.mode {
            LearnMode::Quiz => "Quiz Complete!",
            LearnMode::Flashcard => "Session Complete!",
        }
    }

    /// The label of this report's mode.
    pub fn mode_label(&self) -> (r: &'static str)
        ensures
            r@ == mode_label(self.mode),
    {
        match self.mode {
            LearnMode::Quiz => "Quiz",
            LearnMode::Flashcard => "Flashcard",
        }
    }
}

/// A round of starred words puts each word on the front of its card and the
/// word's own definition on its back, in the order of the words: the same
/// card as in a word-first round, marked as starred.
pub proof fn law_starred_cards_show_word_then_definition(words: Seq<Word>)
    ensures
        forall|i: int|
            #![trigger words[i]]
            0 <= i < words.len() ==> {
                let c = words.map_values(|w: Word| starred_card(w))[i];
                &&& c.id == words[i].id
                &&& c.front == words[i].word
                &&& c.back == words[i].definition
                &&& c.is_starred
                &&& c.front == cards_of(words, Direction::WordFirst)[i].front
                &&& c.back == cards_of(words, Direction::WordFirst)[i].back
            },
{
}

/// The report of a finished session gives the session's own counts, and its
/// accuracy is the share of remembered cards in whole percent; the record
/// kept of the session agrees with the report.
pub proof fn law_report_counts(l: LearnState, elapsed: i64, now: i64, s: Session)
    ensures
        result_of(l, elapsed).remembered == l.remembered,
        result_of(l, elapsed).forgotten == l.forgotten,
        result_of(l, elapsed).total == l.total_cards as i32,
        0 < l.total_cards <= i32::MAX && 0 <= l.remembered && l.remembered * 100 <= i32::MAX
            ==> result_of(l, elapsed).accuracy == (result_of(l, elapsed).remembered * 100) / (
        result_of(l, elapsed).total as int),
        is_record_of(s, l, elapsed, now) ==> {
            &&& s.remembered == result_of(l, elapsed).remembered
            &&& s.forgotten == result_of(l, elapsed).forgotten
            &&& s.accuracy == result_of(l, elapsed).accuracy
            &&& s.total == result_of(l, elapsed).total
        },
{
    if 0 < l.total_cards <= i32::MAX && 0 <= l.remembered && l.remembered * 100 <= i32::MAX {
        let a: int = l.remembered * 100;
        let b: int = l.total_cards as int;
        assert((l.total_cards as i32) as int == b);
        assert(0 <= a / b <= a) by (nonlinear_arith)
            requires
                a >= 0,
                b >= 1,
        ;
        assert(accuracy_of(l.remembered, l.total_cards) == a / b);
    }
}

/// Pausing and then continuing gives back the running session unchanged,
/// with its question and report; nothing is left paused.
pub proof fn law_pause_then_continue(s: Study)
    ensures
        continued_study(paused_study(s)) == (Study { paused: None, ..s }),
        s.paused is None ==> continued_study(paused_study(s)) == s,
{
}

/// Reading back the kept name of a direction gives the direction again.
pub proof fn lemma_direction_name_round_trip(d: Direction)
    ensures
        direction_of_name(direction_name(d)) == d,
{
    reveal_strlit("DEF_FIRST");
    reveal_strlit("WORD_FIRST");
    if d == Direction::WordFirst {
        assert(direction_name(d)[0] != "DEF_FIRST"@[0]);
    }
}

/// Reading back the kept name of a mode gives the mode again.
pub proof fn lemma_saved_mode_round_trip(m: LearnMode)
    ensures
        saved_mode_of(saved_mode_name(m)) == m,
{
    reveal_strlit("QUIZ");
    reveal_strlit("FLASHCARD");
    if m == LearnMode::Flashcard {
        assert(saved_mode_name(m).len() != "QUIZ"@.len());
    }
}

/// A session kept and then resumed is where it was: same bank, position,
/// counts, size, mode and direction, running with the cards of its bank's
/// words in the same direction. (Position and size are kept as `i32`, so this
/// holds for sessions of at most `i32::MAX` cards.)
pub proof fn law_save_then_resume(
    l: LearnState,
    kept: SavedSession,
    elapsed: i64,
    words: Seq<Word>,
    back: LearnState,
)
    requires
        l.index <= i32::MAX,
        l.total_cards <= i32::MAX,
        is_saved_of(kept, l, elapsed),
        is_resumed(back, kept, words),
    ensures
        back.bank_name == l.bank_name,
        back.index == l.index,
        back.remembered == l.remembered,
        back.forgotten == l.forgotten,
        back.total_cards == l.total_cards,
        back.mode == l.mode,
        back.direction == l.direction,
        back.cards@ == cards_of(words, l.direction),
        back.active,
        !back.flipped,
{
    lemma_direction_name_round_trip(l.direction);
    lemma_saved_mode_round_trip(l.mode);
    assert((l.index as i32) as usize == l.index);
    assert((l.total_cards as i32) as usize == l.total_cards);
}

/// Every answer counts its card exactly once: as remembered or as forgotten.
pub proof fn law_answer_counts_once(l: LearnState, ok: bool)
    requires
        can_count(l, ok),
    ensures
        counted(l, ok).remembered + counted(l, ok).forgotten == l.remembered + l.forgotten + 1,
        ok ==> counted(l, ok).remembered == l.remembered + 1,
        !ok ==> counted(l, ok).forgotten == l.forgotten + 1,
{
}

/// The accuracy of a session lies between 0 and 100 when no more cards were
/// remembered than the session has.
pub proof fn law_accuracy_is_a_percentage(remembered: i32, total: usize)
    requires
        0 <= remembered <= total,
        total <= i32::MAX,
    ensures
        0 <= accuracy_of(remembered, total) <= 100,
{
    if total > 0 {
        let a = remembered * 100;
        let b = (total as i32) as int;
        assert(b == total);
        assert(0 <= a <= 100 * b);
        assert(0 <= a / b <= 100) by (nonlinear_arith)
            requires
                0 <= a <= 100 * b,
                b > 0,
        ;
    }
}

/// A question is answered once: after an answer, any further answer, with
/// any option at any time, is ignored, changes nothing and records nothing.
pub proof fn law_quiz_answered_once(s: Study, idx: usize, elapsed: i64, j: usize, later: i64)
    ensures
        answer_ignored(quiz_answered(s, idx, elapsed)),
        quiz_answered(quiz_answered(s, idx, elapsed), j, later) == quiz_answered(s, idx, elapsed),
{
}

} // verus!
