use vocab::models::{Direction, LearnMode, SavedSession, Word};
use vocab::quiz::{option_look, OptionLook};
use vocab::study::{again_target, Again, Screen, StartError, Study};

fn word(id: i64, w: &str, d: &str) -> Word {
    Word {
        id,
        bank_name: "B".to_string(),
        word: w.to_string(),
        definition: d.to_string(),
        is_starred: false,
        wrong_count: 0,
    }
}

fn words(n: i64) -> Vec<Word> {
    (1..=n).map(|i| word(i, &format!("w{}", i), &format!("d{}", i))).collect()
}

fn sorted_ids(study: &Study) -> Vec<i64> {
    let mut ids: Vec<i64> = study.learn.as_ref().unwrap().cards.iter().map(|c| c.id).collect();
    ids.sort();
    ids
}

#[test]
fn start_refuses_an_empty_bank() {
    let mut s = Study::new();
    let r = s.start_learn("B", &vec![], LearnMode::Flashcard, Direction::WordFirst);
    assert_eq!(r, Err(StartError::BankEmpty));
    assert_eq!(StartError::BankEmpty.message(), "Bank is empty");
    assert!(s.learn.is_none());
    assert_eq!(s.screen(), Screen::Browsing);
}

#[test]
fn start_holds_every_word_once() {
    let mut s = Study::new();
    s.start_learn("B", &words(5), LearnMode::Flashcard, Direction::WordFirst).unwrap();
    let l = s.learn.as_ref().unwrap();
    assert_eq!(l.bank_name, "B");
    assert_eq!(l.total_cards, 5);
    assert_eq!(l.index, 0);
    assert_eq!(l.remembered, 0);
    assert!(l.active && !l.flipped);
    assert_eq!(sorted_ids(&s), vec![1, 2, 3, 4, 5]);
    for c in &l.cards {
        assert_eq!(c.front, format!("w{}", c.id));
        assert_eq!(c.back, format!("d{}", c.id));
    }
    assert!(s.quiz.is_none());
    assert_eq!(s.screen(), Screen::Studying);
    assert!(s.shows_flashcard());
}

#[test]
fn definition_first_swaps_the_sides() {
    let mut s = Study::new();
    s.start_learn("B", &words(3), LearnMode::Flashcard, Direction::DefFirst).unwrap();
    for c in &s.learn.as_ref().unwrap().cards {
        assert_eq!(c.front, format!("d{}", c.id));
        assert_eq!(c.back, format!("w{}", c.id));
    }
}

#[test]
fn start_shuffles_the_cards() {
    let ws = words(10);
    let mut reordered = false;
    for _ in 0..20 {
        let mut s = Study::new();
        s.start_learn("B", &ws, LearnMode::Flashcard, Direction::WordFirst).unwrap();
        let ids: Vec<i64> = s.learn.as_ref().unwrap().cards.iter().map(|c| c.id).collect();
        if ids != (1..=10).collect::<Vec<i64>>() {
            reordered = true;
        }
    }
    assert!(reordered);
}

#[test]
fn quiz_question_has_one_right_answer() {
    for _ in 0..10 {
        let mut s = Study::new();
        s.start_learn("B", &words(6), LearnMode::Quiz, Direction::WordFirst).unwrap();
        assert!(!s.shows_flashcard());
        let l = s.learn.as_ref().unwrap();
        let card = &l.cards[0];
        let q = s.quiz.as_ref().unwrap();
        assert_eq!(q.question, card.front);
        assert_eq!(q.selected, -1);
        assert!(!q.answered);
        assert_eq!(q.options.len(), 4);
        let right: Vec<_> = q.options.iter().filter(|o| o.is_correct).collect();
        assert_eq!(right.len(), 1);
        assert_eq!(right[0].text, card.back);
        let mut wrong: Vec<&String> = q.options.iter().filter(|o| !o.is_correct).map(|o| &o.text).collect();
        for t in &wrong {
            assert!(l.cards[1..].iter().any(|c| &&c.back == t));
        }
        wrong.sort();
        wrong.dedup();
        assert_eq!(wrong.len(), 3);
    }
}

#[test]
fn quiz_offers_fewer_options_for_few_distinct_backs() {
    let ws = vec![word(1, "a", "same"), word(2, "b", "same"), word(3, "c", "same")];
    let mut s = Study::new();
    s.start_learn("B", &ws, LearnMode::Quiz, Direction::WordFirst).unwrap();
    let q = s.quiz.as_ref().unwrap();
    assert_eq!(q.options.len(), 2);
    assert_eq!(q.options.iter().filter(|o| o.is_correct).count(), 1);
    assert!(q.options.iter().all(|o| o.text == "same"));

    let mut one = Study::new();
    one.start_learn("B", &words(1), LearnMode::Quiz, Direction::WordFirst).unwrap();
    let q = one.quiz.as_ref().unwrap();
    assert_eq!(q.options.len(), 1);
    assert!(q.options[0].is_correct);
}

#[test]
fn flash_cards_count_answers_and_finish() {
    let mut s = Study::new();
    s.start_learn("B", &words(3), LearnMode::Flashcard, Direction::WordFirst).unwrap();
    s.flip();
    assert!(s.learn.as_ref().unwrap().flipped);
    let first = s.learn.as_ref().unwrap().cards[0].id;
    let a = s.answer_card(true, 5, 100);
    assert_eq!(a.missed_word, None);
    assert!(a.record.is_none());
    let l = s.learn.as_ref().unwrap();
    assert_eq!((l.index, l.remembered, l.forgotten, l.flipped), (1, 1, 0, false));
    let second = l.cards[1].id;
    let a = s.answer_card(false, 7, 100);
    assert_eq!(a.missed_word, Some(second));
    assert_ne!(first, second);
    let a = s.answer_card(true, 10, 1234);
    assert!(s.learn.is_none());
    let rec = a.record.unwrap();
    assert_eq!(rec.id, 0);
    assert_eq!(rec.bank_name, "B");
    assert_eq!(rec.mode, "flashcard");
    assert_eq!((rec.total, rec.remembered, rec.forgotten), (3, 2, 1));
    assert_eq!(rec.accuracy, 66);
    assert_eq!(rec.duration, 10);
    assert_eq!(rec.date, 1234);
    let res = s.result.as_ref().unwrap();
    assert_eq!(res.accuracy, 66);
    assert_eq!(res.avg_time, 3);
    assert_eq!(res.duration, 10);
    assert_eq!(res.title(), "Session Complete!");
    assert_eq!(res.mode_label(), "Flashcard");
    assert_eq!(s.screen(), Screen::Finished);
}

#[test]
fn answering_without_a_session_does_nothing() {
    let mut s = Study::new();
    let a = s.answer_card(false, 1, 1);
    assert!(a.missed_word.is_none() && a.record.is_none());
    let a = s.answer_quiz(0, 1, 1);
    assert!(a.missed_word.is_none() && a.record.is_none());
    assert!(s.finish(1, 1).is_none());
}

#[test]
fn quiz_answers_count_and_wait_for_next() {
    let mut s = Study::new();
    s.start_learn("Q", &words(4), LearnMode::Quiz, Direction::WordFirst).unwrap();
    let right = s.quiz.as_ref().unwrap().options.iter().position(|o| o.is_correct).unwrap();
    let a = s.answer_quiz(right, 2, 9);
    assert!(a.missed_word.is_none() && a.record.is_none());
    let q = s.quiz.as_ref().unwrap();
    assert!(q.answered && q.correct);
    assert_eq!(q.selected, right as i32);
    assert_eq!(s.learn.as_ref().unwrap().index, 0);
    assert_eq!(s.learn.as_ref().unwrap().remembered, 1);
    // A second answer to the same question is ignored.
    s.answer_quiz(right, 2, 9);
    assert_eq!(s.learn.as_ref().unwrap().remembered, 1);
    s.next_quiz();
    assert_eq!(s.learn.as_ref().unwrap().index, 1);
    let card = s.learn.as_ref().unwrap().cards[1].id;
    assert!(!s.quiz.as_ref().unwrap().answered);
    let a = s.answer_quiz(99, 3, 9);
    assert_eq!(a.missed_word, Some(card));
    assert!(!s.quiz.as_ref().unwrap().correct);
    assert_eq!(s.learn.as_ref().unwrap().forgotten, 1);
}

#[test]
fn quiz_finishes_on_last_card() {
    let mut s = Study::new();
    s.start_learn("Q", &words(2), LearnMode::Quiz, Direction::WordFirst).unwrap();
    s.answer_quiz(99, 1, 1);
    s.next_quiz();
    let right = s.quiz.as_ref().unwrap().options.iter().position(|o| o.is_correct).unwrap();
    let a = s.answer_quiz(right, 8, 50);
    let rec = a.record.unwrap();
    assert_eq!(rec.mode, "quiz");
    assert_eq!(rec.accuracy, 50);
    assert!(s.learn.is_none());
    assert_eq!(s.result.as_ref().unwrap().title(), "Quiz Complete!");
    assert_eq!(s.result.as_ref().unwrap().avg_time, 4);
    // Next does nothing once finished.
    s.next_quiz();
    assert!(s.learn.is_none());
}

#[test]
fn pause_then_continue_restores_the_session() {
    let mut s = Study::new();
    s.start_learn("B", &words(3), LearnMode::Flashcard, Direction::WordFirst).unwrap();
    s.answer_card(true, 1, 1);
    let ids: Vec<i64> = s.learn.as_ref().unwrap().cards.iter().map(|c| c.id).collect();
    let kept = s.pause(1500).unwrap();
    assert_eq!(s.screen(), Screen::Paused);
    assert!(s.learn.is_none());
    assert_eq!(kept.bank_name, "B");
    assert_eq!((kept.index, kept.total, kept.remembered, kept.forgotten), (1, 3, 1, 0));
    assert_eq!(kept.direction, "WORD_FIRST");
    assert_eq!(kept.mode, "FLASHCARD");
    assert_eq!(kept.elapsed, 1500);
    s.cont();
    assert!(s.paused.is_none());
    let l = s.learn.as_ref().unwrap();
    assert_eq!(l.index, 1);
    assert_eq!(l.cards.iter().map(|c| c.id).collect::<Vec<_>>(), ids);
}

#[test]
fn sessions_not_worth_keeping() {
    let mut s = Study::new();
    s.start_learn("B", &words(3), LearnMode::Flashcard, Direction::WordFirst).unwrap();
    assert!(s.pause(10).is_none());
    let mut st = Study::new();
    let mut ws = words(3);
    for w in &mut ws {
        w.is_starred = true;
    }
    st.start_starred(&ws).unwrap();
    assert_eq!(st.learn.as_ref().unwrap().bank_name, "Starred");
    st.answer_card(true, 1, 1);
    assert!(st.pause(10).is_none());
    let mut sw = Study::new();
    sw.start_wrong(&words(3)).unwrap();
    assert_eq!(sw.learn.as_ref().unwrap().bank_name, "Wrong");
    sw.answer_card(true, 1, 1);
    assert!(sw.save_quit(10).is_none());
}

#[test]
fn reviews_refuse_empty_lists() {
    let mut s = Study::new();
    assert_eq!(s.start_starred(&vec![]), Err(StartError::NoStarred));
    assert_eq!(s.start_wrong(&vec![]), Err(StartError::NoWrong));
    assert_eq!(StartError::NoStarred.message(), "No starred words");
    assert_eq!(StartError::NoWrong.message(), "No wrong words");
    assert_eq!(StartError::BankGone.message(), "Bank gone");
}

#[test]
fn starred_review_marks_every_card() {
    let mut s = Study::new();
    s.start_starred(&words(2)).unwrap();
    let l = s.learn.as_ref().unwrap();
    assert!(l.cards.iter().all(|c| c.is_starred));
    assert_eq!(l.mode, LearnMode::Flashcard);
    assert!(s.quiz.is_none());
}

#[test]
fn save_and_quit_keeps_the_paused_session() {
    let mut s = Study::new();
    s.start_learn("B", &words(4), LearnMode::Quiz, Direction::DefFirst).unwrap();
    s.answer_quiz(0, 1, 1);
    s.next_quiz();
    s.pause(0);
    let kept = s.save_quit(4200).unwrap();
    assert_eq!(kept.direction, "DEF_FIRST");
    assert_eq!(kept.mode, "QUIZ");
    assert_eq!(kept.index, 1);
    assert_eq!(kept.elapsed, 4200);
    assert!(s.learn.is_none() && s.paused.is_none() && s.quiz.is_none() && s.result.is_none());
}

#[test]
fn resume_restores_a_kept_session() {
    let kept = SavedSession {
        bank_name: "B".to_string(),
        remembered: 2,
        index: 3,
        total: 5,
        direction: "DEF_FIRST".to_string(),
        mode: "QUIZ".to_string(),
        elapsed: 60000,
        forgotten: 1,
    };
    let mut s = Study::new();
    s.resume(kept, &words(5)).unwrap();
    let l = s.learn.as_ref().unwrap();
    assert_eq!((l.index, l.total_cards, l.remembered, l.forgotten), (3, 5, 2, 1));
    assert_eq!(l.mode, LearnMode::Quiz);
    assert_eq!(l.direction, Direction::DefFirst);
    assert_eq!(l.cards.iter().map(|c| c.id).collect::<Vec<_>>(), vec![1, 2, 3, 4, 5]);
    assert_eq!(l.cards[0].front, "d1");
    assert_eq!(s.quiz.as_ref().unwrap().question, "d4");
}

#[test]
fn save_then_resume_round_trip() {
    let mut s = Study::new();
    s.start_learn("B", &words(4), LearnMode::Flashcard, Direction::DefFirst).unwrap();
    s.answer_card(false, 1, 1);
    s.answer_card(true, 2, 2);
    let kept = s.pause(99).unwrap();
    let mut t = Study::new();
    t.resume(kept, &words(4)).unwrap();
    let l = t.learn.as_ref().unwrap();
    assert_eq!((l.index, l.total_cards, l.remembered, l.forgotten), (2, 4, 1, 1));
    assert_eq!(l.direction, Direction::DefFirst);
    assert_eq!(l.mode, LearnMode::Flashcard);
    assert_eq!(l.bank_name, "B");
}

#[test]
fn resume_refuses_a_bank_that_is_gone() {
    let kept = SavedSession {
        bank_name: "B".to_string(),
        remembered: 0,
        index: 1,
        total: 2,
        direction: "WORD_FIRST".to_string(),
        mode: "FLASHCARD".to_string(),
        elapsed: 0,
        forgotten: 0,
    };
    let mut s = Study::new();
    assert_eq!(s.resume(kept, &vec![]), Err(StartError::BankGone));
    assert!(s.learn.is_none());
}

#[test]
fn unknown_saved_names_mean_defaults() {
    let kept = SavedSession {
        bank_name: "B".to_string(),
        remembered: 0,
        index: 0,
        total: 2,
        direction: "sideways".to_string(),
        mode: "quiz".to_string(),
        elapsed: 0,
        forgotten: 0,
    };
    let mut s = Study::new();
    s.resume(kept, &words(2)).unwrap();
    let l = s.learn.as_ref().unwrap();
    assert_eq!(l.direction, Direction::WordFirst);
    assert_eq!(l.mode, LearnMode::Flashcard);
}

#[test]
fn finishing_an_empty_session_reports_zero() {
    let kept = SavedSession {
        bank_name: "B".to_string(),
        remembered: 0,
        index: 0,
        total: 0,
        direction: "WORD_FIRST".to_string(),
        mode: "FLASHCARD".to_string(),
        elapsed: 0,
        forgotten: 0,
    };
    let mut s = Study::new();
    s.resume(kept, &words(2)).unwrap();
    let rec = s.finish(30, 7).unwrap();
    assert_eq!(rec.accuracy, 0);
    assert_eq!(s.result.as_ref().unwrap().avg_time, 0);
}

#[test]
fn unsafe_answers_are_detected() {
    let kept = SavedSession {
        bank_name: "B".to_string(),
        remembered: i32::MAX,
        index: 0,
        total: 2,
        direction: "WORD_FIRST".to_string(),
        mode: "FLASHCARD".to_string(),
        elapsed: 0,
        forgotten: 0,
    };
    let mut s = Study::new();
    s.resume(kept, &words(2)).unwrap();
    assert!(!s.answer_is_safe(true, 0));
    assert!(s.answer_is_safe(false, 0));
}

#[test]
fn quit_clears_everything() {
    let mut s = Study::new();
    s.start_learn("B", &words(2), LearnMode::Quiz, Direction::WordFirst).unwrap();
    s.quit();
    assert!(s.learn.is_none() && s.paused.is_none() && s.quiz.is_none() && s.result.is_none());
}

#[test]
fn again_targets() {
    assert_eq!(again_target("Starred"), Again::Starred);
    assert_eq!(again_target("Wrong"), Again::Wrong);
    assert_eq!(again_target("Verbs"), Again::SameBank);
}

#[test]
fn option_looks() {
    let mut s = Study::new();
    s.start_learn("B", &words(4), LearnMode::Quiz, Direction::WordFirst).unwrap();
    let q = s.quiz.clone().unwrap();
    assert!((0..q.options.len()).all(|i| option_look(&q, i) == OptionLook::Plain));
    let right = q.options.iter().position(|o| o.is_correct).unwrap();
    let wrong = (right + 1) % q.options.len();
    s.answer_quiz(wrong, 1, 1);
    let q = s.quiz.clone().unwrap();
    assert_eq!(option_look(&q, right), OptionLook::Right);
    assert_eq!(option_look(&q, wrong), OptionLook::Chosen);
}

#[test]
fn second_quiz_answer_with_another_option_changes_nothing() {
    let mut s = Study::new();
    s.start_learn("Q", &words(4), LearnMode::Quiz, Direction::WordFirst).unwrap();
    let right = s.quiz.as_ref().unwrap().options.iter().position(|o| o.is_correct).unwrap();
    let wrong = (right + 1) % s.quiz.as_ref().unwrap().options.len();
    s.answer_quiz(wrong, 2, 9);
    let l = s.learn.as_ref().unwrap();
    let before = (l.index, l.remembered, l.forgotten);
    let q = s.quiz.as_ref().unwrap();
    let q_before = (q.selected, q.answered, q.correct);
    let a = s.answer_quiz(right, 5, 9);
    assert!(a.missed_word.is_none() && a.record.is_none());
    let l = s.learn.as_ref().unwrap();
    assert_eq!((l.index, l.remembered, l.forgotten), before);
    let q = s.quiz.as_ref().unwrap();
    assert_eq!((q.selected, q.answered, q.correct), q_before);
    assert_eq!(before, (0, 0, 1));
}
