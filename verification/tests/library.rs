use vocab::library::{
    add_miss, clear_misses, edited_word, entry_text, first_bank_name, import_bank, move_words,
    new_word, recount_bank, rename_target, renamed_bank, search_step, selection_after_delete,
    selection_after_import, selection_after_rename, toggle_starred, ImportError, SearchStep,
};
use vocab::models::{Bank, Word};

fn bank(name: &str, created: i64) -> Bank {
    Bank { name: name.to_string(), count: 3, created_at: created, updated_at: created }
}

fn word(id: i64, b: &str) -> Word {
    Word {
        id,
        bank_name: b.to_string(),
        word: format!("w{}", id),
        definition: format!("d{}", id),
        is_starred: id % 2 == 0,
        wrong_count: id as i32,
    }
}

#[test]
fn first_bank() {
    assert_eq!(first_bank_name(&vec![]), "");
    assert_eq!(first_bank_name(&vec![bank("A", 1), bank("B", 2)]), "A");
}

#[test]
fn import_builds_bank_and_words() {
    let (b, ws) = import_bank("Verbs", "run - to move\nnothing here\neat: to consume", 77).unwrap();
    assert_eq!(b.name, "Verbs");
    assert_eq!(b.count, 2);
    assert_eq!((b.created_at, b.updated_at), (77, 77));
    assert_eq!(ws.len(), 2);
    assert_eq!(ws[0].word, "run");
    assert_eq!(ws[0].definition, "to move");
    assert_eq!(ws[1].word, "eat");
    assert_eq!(ws[1].definition, "to consume");
    for w in &ws {
        assert_eq!(w.id, 0);
        assert_eq!(w.bank_name, "Verbs");
        assert!(!w.is_starred);
        assert_eq!(w.wrong_count, 0);
    }
}

#[test]
fn import_refuses_text_without_entries() {
    let e = import_bank("X", "no separators here\n\n", 0).unwrap_err();
    assert_eq!(e, ImportError::NoEntries);
    assert_eq!(e.message(), "No valid entries found");
}

#[test]
fn selections() {
    assert_eq!(selection_after_import("", "New"), "New");
    assert_eq!(selection_after_import("Old", "New"), "Old");
    let left = vec![bank("C", 1)];
    assert_eq!(selection_after_delete("A", "A", &left), "C");
    assert_eq!(selection_after_delete("A", "A", &vec![]), "");
    assert_eq!(selection_after_delete("B", "A", &left), "B");
    let n = "Z".to_string();
    assert_eq!(selection_after_rename("A", "A", &n), "Z");
    assert_eq!(selection_after_rename("B", "A", &n), "B");
}

#[test]
fn search_steps() {
    assert_eq!(search_step("ab", "ab", "B"), SearchStep::Unchanged);
    assert_eq!(search_step("ab", "a", ""), SearchStep::Clear);
    assert_eq!(search_step("", "a", "B"), SearchStep::AllWords);
    assert_eq!(search_step("abc", "ab", "B"), SearchStep::Matching);
}

#[test]
fn star_toggles_back() {
    let w = word(1, "B");
    let once = toggle_starred(w.clone());
    assert!(once.is_starred);
    assert_eq!(once.word, "w1");
    let twice = toggle_starred(once);
    assert_eq!(twice.is_starred, w.is_starred);
    assert_eq!(twice.wrong_count, w.wrong_count);
}

#[test]
fn misses() {
    let w = add_miss(word(3, "B"));
    assert_eq!(w.wrong_count, 4);
    assert_eq!(clear_misses(w).wrong_count, 0);
}

#[test]
fn recount() {
    let old = bank("A", 5);
    let b = recount_bank("A", 9, Some(&old), 50);
    assert_eq!((b.count, b.created_at, b.updated_at), (9, 5, 50));
    let b = recount_bank("A", 2, None, 50);
    assert_eq!((b.count, b.created_at, b.updated_at), (2, 50, 50));
    assert_eq!(b.name, "A");
}

#[test]
fn entries_typed_in_dialogs() {
    assert_eq!(entry_text("  cat ", " pet\t"), Some(("cat".to_string(), "pet".to_string())));
    assert_eq!(entry_text("   ", "pet"), None);
    assert_eq!(entry_text("cat", ""), None);
    let e = word(4, "B");
    let w = edited_word(&e, "x".to_string(), "y".to_string());
    assert_eq!((w.id, w.bank_name.as_str(), w.word.as_str(), w.definition.as_str()), (4, "B", "x", "y"));
    assert_eq!((w.is_starred, w.wrong_count), (true, 4));
    let n = new_word("B", "p".to_string(), "q".to_string());
    assert_eq!((n.id, n.is_starred, n.wrong_count), (0, false, 0));
    assert_eq!(n.bank_name, "B");
}

#[test]
fn renaming() {
    assert_eq!(rename_target("A", "  B  "), Some("B".to_string()));
    assert_eq!(rename_target("A", " A "), None);
    assert_eq!(rename_target("A", "   "), None);
    let b = renamed_bank(&bank("A", 3), &"B".to_string(), 9);
    assert_eq!((b.name.as_str(), b.count, b.created_at, b.updated_at), ("B", 3, 3, 9));
    let moved = move_words(&vec![word(1, "A"), word(2, "A")], &"B".to_string());
    assert_eq!(moved.len(), 2);
    assert!(moved.iter().all(|w| w.bank_name == "B"));
    assert_eq!(moved[1].id, 2);
    assert_eq!(moved[1].word, "w2");
    assert!(moved[1].is_starred);
}
