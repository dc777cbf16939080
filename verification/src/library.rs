use vstd::prelude::*;

use crate::models::{Bank, Word};
use crate::parser::{parse_text, parse_txt};
use crate::text::{same_text, trim, trim_text};

verus! {

/// The name of the first bank, or the empty name when there is none.
pub fn first_bank_name(banks: &Vec<Bank>) -> (r: String)
    ensures
        r@ == (if banks.len() > 0 { banks@[0].name@ } else { Seq::<char>::empty() }),
{
    if banks.len() > 0 {
        banks[0].name.clone()
    } else {
        String::new()
    }
}

/// Why an import was refused.
#[derive(Debug, Clone, Copy, PartialEq, Eq, Structural)]
pub enum ImportError {
    NoEntries,
}

impl ImportError {
    /// The message shown for this error.
    pub fn message(&self) -> (r: &'static str)
        ensures
            r@ == "No valid entries found"@,
    {
        "No valid entries found"
    }
}

/// The bank `name` and its words as imported from `text` at time `now`: one
/// word, neither starred nor missed, per entry of the text, and the bank
/// counting them. Refused when the text holds no entry.
pub fn import_bank(name: &str, text: &str, now: i64) -> (r: Result<(Bank, Vec<Word>), ImportError>)
    ensures
        r is Err <==> parse_text(text@).len() == 0,
        r matches Ok((b, ws)) ==> {
            let es = parse_text(text@);
            &&& b.name@ == name@
            &&& b.count == es.len() as i32
            &&& b.created_at == now
            &&& b.updated_at == now
            &&& ws.len() == es.len()
            &&& forall|i: int|
                0 <= i < ws.len() ==> {
                    &&& (#[trigger] ws@[i]).id == 0
                    &&& ws@[i].bank_name@ == name@
                    &&& ws@[i].word@ == es[i].0
                    &&& ws@[i].definition@ == es[i].1
                    &&& !ws@[i].is_starred
                    &&& ws@[i].wrong_count == 0
                }
        },
{
    let parsed = parse_txt(text);
    if parsed.len() == 0 {
        return Err(ImportError::NoEntries);
    }
    let ghost es = parse_text(text@);
    let mut ws: Vec<Word> = Vec::new();
    let mut i: usize = 0;
    while i < parsed.len()
        invariant
            i <= parsed.len(),
            crate::parser::entries_match(parsed@, es),
            ws.len() == i,
            forall|k: int|
                0 <= k < i ==> {
                    &&& (#[trigger] ws@[k]).id == 0
                    &&& ws@[k].bank_name@ == name@
                    &&& ws@[k].word@ == es[k].0
                    &&& ws@[k].definition@ == es[k].1
                    &&& !ws@[k].is_starred
                    &&& ws@[k].wrong_count == 0
                },
        decreases parsed.len() - i,
    {
        let p = &parsed[i];
        assert(p.word@ == es[i as int].0);
        ws.push(
            Word {
                id: 0,
                bank_name: String::from_str(name),
                word: p.word.clone(),
                definition: p.definition.clone(),
                is_starred: false,
                wrong_count: 0,
            },
        );
        i += 1;
    }
    let bank = Bank {
        name: String::from_str(name),
        count: #[verifier::truncate] (parsed.len() as i32),
        created_at: now,
        updated_at: now,
    };
    Ok((bank, ws))
}

/// The bank selected after importing `name`: the imported one when none was
/// selected.
pub fn selection_after_import(selected: &str, name: &str) -> (r: String)
    ensures
        r@ == (if selected@.len() == 0 { name@ } else { selected@ }),
{
    if selected.unicode_len() == 0 {
        String::from_str(name)
    } else {
        String::from_str(selected)
    }
}

/// The bank selected after deleting `deleted`, given the banks left: the first
/// of them when the deleted one was selected.
pub fn selection_after_delete(selected: &str, deleted: &str, banks: &Vec<Bank>) -> (r: String)
    ensures
        r@ == (if selected@ == deleted@ {
            if banks.len() > 0 { banks@[0].name@ } else { Seq::<char>::empty() }
        } else {
            selected@
        }),
{
    if same_text(selected, deleted) {
        first_bank_name(banks)
    } else {
        String::from_str(selected)
    }
}

/// What a change of the search text asks for.
#[derive(Debug, Clone, Copy, PartialEq, Eq, Structural)]
pub enum SearchStep {
    /// The text did not change: keep the list.
    Unchanged,
    /// No bank is open: empty the list.
    Clear,
    /// The text is empty: list all words of the bank.
    AllWords,
    /// List the words of the bank that match the text.
    Matching,
}

/// What a search for `query`, after `previous`, in the open bank `bank` asks for.
pub fn search_step(query: &str, previous: &str, bank: &str) -> (r: SearchStep)
    ensures
        r == (if query@ == previous@ {
            SearchStep::Unchanged
        } else if bank@.len() == 0 {
            SearchStep::Clear
        } else if query@.len() == 0 {
            SearchStep::AllWords
        } else {
            SearchStep::Matching
        }),
{
    if same_text(query, previous) {
        SearchStep::Unchanged
    } else if bank.unicode_len() == 0 {
        SearchStep::Clear
    } else if query.unicode_len() == 0 {
        SearchStep::AllWords
    } else {
        SearchStep::Matching
    }
}

/// `w` with its star turned on or off.
pub open spec fn star_toggled(w: Word) -> Word {
    Word { is_starred: !w.is_starred, ..w }
}

/// The word `w` with its star turned on or off.
pub fn toggle_starred(w: Word) -> (r: Word)
    ensures
        r == star_toggled(w),
{
    Word { is_starred: !w.is_starred, ..w }
}

/// Turning a star on or off twice leaves the word as it was.
pub proof fn law_toggle_twice(w: Word)
    ensures
        star_toggled(star_toggled(w)) == w,
{
}

/// The word `w` answered wrongly once more.
pub fn add_miss(w: Word) -> (r: Word)
    requires
        w.wrong_count < i32::MAX,
    ensures
        r == (Word { wrong_count: (w.wrong_count + 1) as i32, ..w }),
{
    let n = w.wrong_count + 1;
    Word { wrong_count: n, ..w }
}

/// The word `w` with its wrong answers forgotten.
pub fn clear_misses(w: Word) -> (r: Word)
    ensures
        r == (Word { wrong_count: 0, ..w }),
{
    Word { wrong_count: 0, ..w }
}

/// Bank `name` recounted to `count` words at time `now`, keeping its creation
/// time when it exists already.
pub fn recount_bank(name: &str, count: usize, existing: Option<&Bank>, now: i64) -> (r: Bank)
    ensures
        r.name@ == name@,
        r.count == count as i32,
        r.created_at == (match existing {
            Some(b) => b.created_at,
            None => now,
        }),
        r.updated_at == now,
{
    let created_at = match existing {
        Some(b) => b.created_at,
        None => now,
    };
    Bank {
        name: String::from_str(name),
        count: #[verifier::truncate] (count as i32),
        created_at,
        updated_at: now,
    }
}

/// The word and definition typed in a word dialog, trimmed; `None` when
/// either is blank.
pub fn entry_text(word: &str, definition: &str) -> (r: Option<(String, String)>)
    ensures
        r is Some <==> trim(word@).len() > 0 && trim(definition@).len() > 0,
        r matches Some((w, d)) ==> w@ == trim(word@) && d@ == trim(definition@),
{
    let w = trim_text(word);
    let d = trim_text(definition);
    if w.as_str().unicode_len() > 0 && d.as_str().unicode_len() > 0 {
        Some((w, d))
    } else {
        None
    }
}

/// The word `e` edited to read `word` with definition `definition`.
pub fn edited_word(e: &Word, word: String, definition: String) -> (r: Word)
    ensures
        r == (Word { word, definition, bank_name: e.bank_name, ..*e }),
{
    Word {
        id: e.id,
        bank_name: e.bank_name.clone(),
        word,
        definition,
        is_starred: e.is_starred,
        wrong_count: e.wrong_count,
    }
}

/// A new word of bank `bank`, neither starred nor missed.
pub fn new_word(bank: &str, word: String, definition: String) -> (r: Word)
    ensures
        r.id == 0,
        r.bank_name@ == bank@,
        r.word == word,
        r.definition == definition,
        !r.is_starred,
        r.wrong_count == 0,
{
    Word {
        id: 0,
        bank_name: String::from_str(bank),
        word,
        definition,
        is_starred: false,
        wrong_count: 0,
    }
}

/// The new name typed for bank `old`, trimmed; `None` when it is blank or
/// the same name.
pub fn rename_target(old: &str, typed: &str) -> (r: Option<String>)
    ensures
        r is Some <==> trim(typed@).len() > 0 && trim(typed@) != old@,
        r matches Some(n) ==> n@ == trim(typed@),
{
    let n = trim_text(typed);
    if n.as_str().unicode_len() > 0 && !same_text(n.as_str(), old) {
        Some(n)
    } else {
        None
    }
}

/// Bank `b` under the name `name`, updated at time `now`.
pub fn renamed_bank(b: &Bank, name: &String, now: i64) -> (r: Bank)
    ensures
        r == (Bank { name: *name, updated_at: now, ..*b }),
{
    Bank { name: name.clone(), count: b.count, created_at: b.created_at, updated_at: now }
}

/// `w` moved to the bank `name`.
pub open spec fn moved(w: Word, name: String) -> Word {
    Word { bank_name: name, ..w }
}

/// The words `words` moved to the bank `name`, otherwise unchanged.
pub fn move_words(words: &Vec<Word>, name: &String) -> (r: Vec<Word>)
    ensures
        r@ == words@.map_values(|w: Word| moved(w, *name)),
{
    let mut r: Vec<Word> = Vec::new();
    let mut i: usize = 0;
    while i < words.len()
        invariant
            i <= words.len(),
            r@ == words@.take(i as int).map_values(|w: Word| moved(w, *name)),
        decreases words.len() - i,
    {
        let w = &words[i];
        r.push(
            Word {
                id: w.id,
                bank_name: name.clone(),
                word: w.word.clone(),
                definition: w.definition.clone(),
                is_starred: w.is_starred,
                wrong_count: w.wrong_count,
            },
        );
        assert(words@.take(i + 1) =~= words@.take(i as int).push(words@[i as int]));
        assert(words@.take(i + 1).map_values(|w: Word| moved(w, *name)) =~= words@.take(
            i as int,
        ).map_values(|w: Word| moved(w, *name)).push(moved(words@[i as int], *name)));
        i += 1;
    }
    assert(words@.take(words.len() as int) =~= words@);
    r
}

/// The bank selected after renaming `old` to `name`.
pub fn selection_after_rename(selected: &str, old: &str, name: &String) -> (r: String)
    ensures
        r@ == (if selected@ == old@ { name@ } else { selected@ }),
{
    if same_text(selected, old) {
        name.clone()
    } else {
        String::from_str(selected)
    }
}

} // verus!
