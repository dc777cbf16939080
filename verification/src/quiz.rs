use vstd::prelude::*;

use crate::models::{Card, QuizOption};
use crate::shuffle::{lemma_same_elements, shuffle, thread_rng};
use crate::study::LearnState;

verus! {

/// The multiple-choice question asked for the current card.
#[derive(Clone)]
pub struct QuizState {
    pub question: String,
    pub options: Vec<QuizOption>,
    pub selected: i32,
    pub answered: bool,
    pub correct: bool,
}

/// The texts on the backs of the cards other than the current one.
pub open spec fn other_backs(l: LearnState) -> Set<Seq<char>> {
    Set::new(|t: Seq<char>| has_back(l.cards@, l.cards.len() as int, l.index as int, t))
}

/// How many wrong answers a question offers: three, or fewer when the other
/// cards have fewer distinct backs.
pub open spec fn wrong_option_count(l: LearnState) -> int {
    if other_backs(l).len() < 3 {
        other_backs(l).len() as int
    } else {
        3
    }
}

/// `q` is a fresh question for the current card of `l`: it asks the card's
/// front; exactly one option is correct and it shows the card's back; the
/// other options show distinct texts from the backs of the other cards, as
/// many of them as `wrong_option_count` says.
pub open spec fn quiz_fits(q: QuizState, l: LearnState) -> bool {
    let card = l.cards@[l.index as int];
    let opts = q.options@;
    &&& q.question == card.front
    &&& q.selected == -1
    &&& !q.answered
    &&& !q.correct
    &&& opts.len() == wrong_option_count(l) + 1
    &&& exists|c: int| 0 <= c < opts.len() && #[trigger] opts[c].is_correct && opts[c].text == card.back
    &&& forall|i: int, j: int|
        0 <= i < opts.len() && 0 <= j < opts.len() && #[trigger] opts[i].is_correct
            && #[trigger] opts[j].is_correct ==> i == j
    &&& forall|i: int|
        0 <= i < opts.len() && !#[trigger] opts[i].is_correct ==> other_backs(l).contains(
            opts[i].text@,
        )
    &&& forall|i: int, j: int|
        0 <= i < j < opts.len() && !#[trigger] opts[i].is_correct && !#[trigger] opts[j].is_correct
            ==> opts[i].text@ != opts[j].text@
}

/// The texts `v` hold pairwise different characters.
pub open spec fn distinct_texts(v: Seq<String>) -> bool {
    forall|i: int, j: int| 0 <= i < j < v.len() ==> #[trigger] v[i]@ != #[trigger] v[j]@
}

/// Some text of `v` holds the characters `t`.
pub open spec fn has_text(v: Seq<String>, t: Seq<char>) -> bool {
    exists|k: int| 0 <= k < v.len() && #[trigger] v[k]@ == t
}

/// Some card of `cards[..upto]` other than `skip` has the back `t`.
pub open spec fn has_back(cards: Seq<Card>, upto: int, skip: int, t: Seq<char>) -> bool {
    exists|k: int| 0 <= k < upto && k != skip && #[trigger] cards[k].back@ == t
}

/// Whether some text of `v` holds the same characters as `t`.
fn holds_text(v: &Vec<String>, t: &String) -> (r: bool)
    ensures
        r == has_text(v@, t@),
{
    let mut k: usize = 0;
    while k < v.len()
        invariant
            k <= v.len(),
            forall|m: int| 0 <= m < k ==> #[trigger] v@[m]@ != t@,
        decreases v.len() - k,
    {
        if v[k] == *t {
            return true;
        }
        k += 1;
    }
    false
}

/// One text for each distinct back among the cards other than `idx`.
fn distinct_other_backs(cards: &Vec<Card>, idx: usize) -> (r: Vec<String>)
    ensures
        distinct_texts(r@),
        forall|t: Seq<char>| #[trigger] has_text(r@, t) <==> has_back(cards@, cards.len() as int, idx as int, t),
{
    let mut r: Vec<String> = Vec::new();
    let mut j: usize = 0;
    while j < cards.len()
        invariant
            j <= cards.len(),
            distinct_texts(r@),
            forall|t: Seq<char>| #[trigger] has_text(r@, t) <==> has_back(cards@, j as int, idx as int, t),
        decreases cards.len() - j,
    {
        let ghost old_r = r@;
        if j != idx {
            let b = &cards[j].back;
            if !holds_text(&r, b) {
                r.push(b.clone());
                assert forall|t: Seq<char>| #[trigger] has_text(r@, t) <==> has_back(cards@, j + 1, idx as int, t) by {
                    if has_text(r@, t) {
                        let k = choose|k: int| 0 <= k < r.len() && #[trigger] r@[k]@ == t;
                        if k < old_r.len() {
                            assert(old_r[k]@ == t);
                            assert(has_text(old_r, t));
                        } else {
                            assert(cards@[j as int].back@ == t);
                        }
                    }
                    if has_back(cards@, j + 1, idx as int, t) {
                        let k = choose|k: int| 0 <= k < j + 1 && k != idx && #[trigger] cards@[k].back@ == t;
                        if k < j {
                            assert(has_back(cards@, j as int, idx as int, t));
                            assert(has_text(old_r, t));
                            let m = choose|m: int| 0 <= m < old_r.len() && #[trigger] old_r[m]@ == t;
                            assert(r@[m] == old_r[m]);
                        } else {
                            assert(r@[old_r.len() as int]@ == t);
                        }
                    }
                }
            } else {
                assert forall|t: Seq<char>| #[trigger] has_text(r@, t) <==> has_back(cards@, j + 1, idx as int, t) by {
                    if has_text(r@, t) {
                        assert(has_back(cards@, j as int, idx as int, t));
                        let k = choose|k: int| 0 <= k < j && k != idx && #[trigger] cards@[k].back@ == t;
                        assert(cards@[k].back@ == t);
                    }
                    if has_back(cards@, j + 1, idx as int, t) {
                        let k = choose|k: int| 0 <= k < j + 1 && k != idx && #[trigger] cards@[k].back@ == t;
                        if k < j {
                            assert(has_back(cards@, j as int, idx as int, t));
                        } else {
                            assert(has_text(r@, cards@[j as int].back@));
                        }
                    }
                }
            }
        } else {
            assert forall|t: Seq<char>| #[trigger] has_text(r@, t) <==> has_back(cards@, j + 1, idx as int, t) by {
                if has_text(r@, t) {
                    assert(has_back(cards@, j as int, idx as int, t));
                    let k = choose|k: int| 0 <= k < j && k != idx && #[trigger] cards@[k].back@ == t;
                    assert(cards@[k].back@ == t);
                }
                if has_back(cards@, j + 1, idx as int, t) {
                    let k = choose|k: int| 0 <= k < j + 1 && k != idx && #[trigger] cards@[k].back@ == t;
                    assert(k < j);
                    assert(has_back(cards@, j as int, idx as int, t));
                }
            }
        }
        j += 1;
    }
    r
}

/// Reordering texts keeps them distinct and keeps which texts occur.
proof fn lemma_texts_reordered(a: Seq<String>, b: Seq<String>)
    requires
        a.to_multiset() == b.to_multiset(),
        distinct_texts(a),
    ensures
        b.len() == a.len(),
        distinct_texts(b),
        forall|t: Seq<char>| #[trigger] has_text(b, t) <==> has_text(a, t),
{
    assert(a.no_duplicates()) by {
        assert forall|i: int, j: int| 0 <= i < a.len() && 0 <= j < a.len() && i != j implies a[i]
            != a[j] by {
            if i < j {
                assert(a[i]@ != a[j]@);
            } else {
                assert(a[j]@ != a[i]@);
            }
        }
    }
    lemma_same_elements(a, b);
    assert forall|i: int, j: int| 0 <= i < j < b.len() implies #[trigger] b[i]@ != #[trigger] b[j]@ by {
        assert(a.contains(b[i]));
        assert(a.contains(b[j]));
        let p = choose|p: int| 0 <= p < a.len() && a[p] == b[i];
        let q = choose|q: int| 0 <= q < a.len() && a[q] == b[j];
        assert(b[i] != b[j]);
        if p < q {
            assert(a[p]@ != a[q]@);
        } else {
            assert(a[q]@ != a[p]@);
        }
    }
    assert forall|t: Seq<char>| #[trigger] has_text(b, t) <==> has_text(a, t) by {
        if has_text(b, t) {
            let k = choose|k: int| 0 <= k < b.len() && #[trigger] b[k]@ == t;
            assert(a.contains(b[k]));
            let p = choose|p: int| 0 <= p < a.len() && a[p] == b[k];
            assert(a[p]@ == t);
        }
        if has_text(a, t) {
            let k = choose|k: int| 0 <= k < a.len() && #[trigger] a[k]@ == t;
            assert(b.contains(a[k]));
            let p = choose|p: int| 0 <= p < b.len() && b[p] == a[k];
            assert(b[p]@ == t);
        }
    }
}

/// Reordering the options of a question keeps one correct option, and keeps
/// the wrong ones distinct and drawn from `allowed`.
proof fn lemma_options_reordered(
    pre: Seq<QuizOption>,
    opts: Seq<QuizOption>,
    m: int,
    allowed: Set<Seq<char>>,
)
    requires
        pre.to_multiset() == opts.to_multiset(),
        0 <= m,
        pre.len() == m + 1,
        pre[m].is_correct,
        forall|k: int| 0 <= k < m ==> !(#[trigger] pre[k]).is_correct && allowed.contains(pre[k].text@),
        forall|i: int, j: int| 0 <= i < j < m ==> #[trigger] pre[i].text@ != #[trigger] pre[j].text@,
    ensures
        opts.len() == m + 1,
        exists|c: int| 0 <= c < opts.len() && opts[c] == pre[m],
        forall|i: int, j: int|
            0 <= i < opts.len() && 0 <= j < opts.len() && #[trigger] opts[i].is_correct
                && #[trigger] opts[j].is_correct ==> i == j,
        forall|i: int|
            0 <= i < opts.len() && !#[trigger] opts[i].is_correct ==> allowed.contains(opts[i].text@),
        forall|i: int, j: int|
            0 <= i < j < opts.len() && !#[trigger] opts[i].is_correct && !#[trigger] opts[j].is_correct
                ==> opts[i].text@ != opts[j].text@,
{
    assert(pre.no_duplicates()) by {
        assert forall|i: int, j: int|
            0 <= i < pre.len() && 0 <= j < pre.len() && i != j implies pre[i] != pre[j] by {
            if i < m && j < m {
                if i < j {
                    assert(pre[i].text@ != pre[j].text@);
                } else {
                    assert(pre[j].text@ != pre[i].text@);
                }
            } else if i < m {
                assert(!pre[i].is_correct);
            } else {
                assert(!pre[j].is_correct);
            }
        }
    }
    lemma_same_elements(pre, opts);
    assert(opts.contains(pre[m]));
    assert forall|i: int, j: int|
        0 <= i < opts.len() && 0 <= j < opts.len() && #[trigger] opts[i].is_correct
            && #[trigger] opts[j].is_correct implies i == j by {
        assert(pre.contains(opts[i]));
        assert(pre.contains(opts[j]));
        let p = choose|p: int| 0 <= p < pre.len() && pre[p] == opts[i];
        let q = choose|q: int| 0 <= q < pre.len() && pre[q] == opts[j];
        if p < m {
            assert(!pre[p].is_correct);
        }
        if q < m {
            assert(!pre[q].is_correct);
        }
        assert(opts[i] == opts[j]);
    }
    assert forall|i: int|
        0 <= i < opts.len() && !#[trigger] opts[i].is_correct implies allowed.contains(
        opts[i].text@,
    ) by {
        assert(pre.contains(opts[i]));
        let p = choose|p: int| 0 <= p < pre.len() && pre[p] == opts[i];
        assert(p < m);
        assert(!pre[p].is_correct);
    }
    assert forall|i: int, j: int|
        0 <= i < j < opts.len() && !#[trigger] opts[i].is_correct && !#[trigger] opts[j].is_correct
            implies opts[i].text@ != opts[j].text@ by {
        assert(pre.contains(opts[i]));
        assert(pre.contains(opts[j]));
        let p = choose|p: int| 0 <= p < pre.len() && pre[p] == opts[i];
        let q = choose|q: int| 0 <= q < pre.len() && pre[q] == opts[j];
        assert(!pre[p].is_correct);
        assert(!pre[q].is_correct);
        assert(p < m && q < m);
        assert(opts[i] != opts[j]);
        if p < q {
            assert(pre[p].text@ != pre[q].text@);
        } else {
            assert(pre[q].text@ != pre[p].text@);
        }
    }
}

/// A new question for the current card of `l`: `None` when the session is
/// not active or has no card at its position.
pub fn make_quiz(l: &LearnState) -> (r: Option<QuizState>)
    ensures
        r is None <==> (!l.active || l.index >= l.cards.len()),
        r matches Some(q) ==> quiz_fits(q, *l),
{
    if !l.active || l.index >= l.cards.len() {
        return None;
    }
    let card = &l.cards[l.index];
    let mut dst = distinct_other_backs(&l.cards, l.index);
    proof {
        let vs = dst@.map_values(|s: String| s@);
        assert(vs.no_duplicates()) by {
            assert forall|i: int, j: int|
                0 <= i < vs.len() && 0 <= j < vs.len() && i != j implies vs[i] != vs[j] by {
                if i < j {
                    assert(dst@[i]@ != dst@[j]@);
                } else {
                    assert(dst@[j]@ != dst@[i]@);
                }
            }
        }
        assert(vs.to_set() =~= other_backs(*l)) by {
            assert forall|t: Seq<char>| vs.to_set().contains(t) <==> other_backs(*l).contains(t) by {
                if vs.contains(t) {
                    let k = choose|k: int| 0 <= k < vs.len() && vs[k] == t;
                    assert(dst@[k]@ == t);
                    assert(has_text(dst@, t));
                }
                if has_text(dst@, t) {
                    let k = choose|k: int| 0 <= k < dst.len() && #[trigger] dst@[k]@ == t;
                    assert(vs[k] == t);
                }
            }
        }
        vs.unique_seq_to_set();
    }
    let ghost before = dst@;
    let mut rng = thread_rng();
    shuffle(&mut dst, &mut rng);
    proof {
        lemma_texts_reordered(before, dst@);
    }
    let m: usize = if dst.len() < 3 { dst.len() } else { 3 };
    let mut pre: Vec<QuizOption> = Vec::new();
    let mut k: usize = 0;
    while k < m
        invariant
            m <= dst.len(),
            k <= m,
            pre.len() == k,
            distinct_texts(dst@),
            forall|t: Seq<char>| #[trigger] has_text(dst@, t) <==> other_backs(*l).contains(t),
            forall|i: int| 0 <= i < k ==> !(#[trigger] pre@[i]).is_correct && pre@[i].text@ == dst@[i]@,
        decreases m - k,
    {
        pre.push(QuizOption { text: dst[k].clone(), is_correct: false });
        k += 1;
    }
    let correct = QuizOption { text: card.back.clone(), is_correct: true };
    pre.push(correct);
    proof {
        assert forall|i: int| 0 <= i < m implies !(#[trigger] pre@[i]).is_correct && other_backs(*l).contains(pre@[i].text@) by {
            assert(has_text(dst@, dst@[i]@));
        }
        assert forall|i: int, j: int| 0 <= i < j < m implies #[trigger] pre@[i].text@ != #[trigger] pre@[j].text@ by {
            assert(dst@[i]@ != dst@[j]@);
        }
    }
    let ghost ordered = pre@;
    let mut rng2 = thread_rng();
    shuffle(&mut pre, &mut rng2);
    proof {
        lemma_options_reordered(ordered, pre@, m as int, other_backs(*l));
    }
    let q = QuizState {
        question: card.front.clone(),
        options: pre,
        selected: -1,
        answered: false,
        correct: false,
    };
    proof {
        let c = choose|c: int| 0 <= c < q.options@.len() && q.options@[c] == ordered[m as int];
        assert(q.options@[c].is_correct);
    }
    Some(q)
}

/// How an option of a question shows.
#[derive(Debug, Clone, Copy, PartialEq, Eq, Structural)]
pub enum OptionLook {
    /// Not yet answered, or neither right nor chosen.
    Plain,
    /// The right answer, once the question is answered.
    Right,
    /// The wrong answer that was chosen.
    Chosen,
}

/// How option `i` of `q` shows: once answered, the right option is marked,
/// and so is a wrong option that was chosen.
pub fn option_look(q: &QuizState, i: usize) -> (r: OptionLook)
    requires
        i < q.options.len(),
    ensures
        r == (if q.answered && q.options@[i as int].is_correct {
            OptionLook::Right
        } else if q.answered && q.selected == i as i32 {
            OptionLook::Chosen
        } else {
            OptionLook::Plain
        }),
{
    let chosen = q.selected == #[verifier::truncate] (i as i32);
    if q.answered && q.options[i].is_correct {
        OptionLook::Right
    } else if q.answered && chosen {
        OptionLook::Chosen
    } else {
        OptionLook::Plain
    }
}

} // verus!
