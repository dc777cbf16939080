use vstd::prelude::*;

use crate::models::ParsedWord;
use crate::text::{chars_of, is_space, string_of_range, trim, trim_bounds, trim_end, trim_start};

verus! {

/// The lines of `t`, split at each line feed; a carriage return before a
/// line feed stays in its line, where trimming removes it.
pub open spec fn split_lines(t: Seq<char>) -> Seq<Seq<char>>
    decreases t.len(),
{
    if t.len() == 0 {
        seq![Seq::<char>::empty()]
    } else {
        let prev = split_lines(t.drop_last());
        if t.last() == '\n' {
            prev.push(Seq::<char>::empty())
        } else {
            prev.update(prev.len() - 1, prev.last().push(t.last()))
        }
    }
}

/// `p` occurs in `s` at index `i`.
pub open spec fn occurs_at(s: Seq<char>, p: Seq<char>, i: int) -> bool {
    0 <= i && i + p.len() <= s.len() && s.subrange(i, i + p.len()) == p
}

/// `i` is the first index at which `p` occurs in `s`.
pub open spec fn first_at(s: Seq<char>, p: Seq<char>, i: int) -> bool {
    occurs_at(s, p, i) && forall|j: int| 0 <= j < i ==> !occurs_at(s, p, j)
}

/// `s` cut around the first occurrence of `p`, if `p` occurs.
pub open spec fn split_once(s: Seq<char>, p: Seq<char>) -> Option<(Seq<char>, Seq<char>)> {
    if exists|i: int| first_at(s, p, i) {
        let i = choose|i: int| first_at(s, p, i);
        Some((s.take(i), s.skip(i + p.len())))
    } else {
        None
    }
}

/// The separators between a word and its definition, most preferred first:
/// a tab, " - ", " | ", "|", a full-width colon, ":".
pub open spec fn separators() -> Seq<Seq<char>> {
    seq![
        seq!['\t'],
        seq![' ', '-', ' '],
        seq![' ', '|', ' '],
        seq!['|'],
        seq!['\u{FF1A}'],
        seq![':'],
    ]
}

/// `line` cut at the first separator, from index `k` on, that it contains.
pub open spec fn split_entry_from(line: Seq<char>, k: int) -> Option<(Seq<char>, Seq<char>)>
    decreases separators().len() - k,
{
    if k < 0 || k >= separators().len() {
        None
    } else {
        match split_once(line, separators()[k]) {
            Some(pr) => Some(pr),
            None => split_entry_from(line, k + 1),
        }
    }
}

/// The word and definition that a (trimmed, non-empty) line holds, if any.
pub open spec fn parse_line(line: Seq<char>) -> Option<(Seq<char>, Seq<char>)> {
    match split_entry_from(line, 0) {
        Some((w, d)) => Some((trim(w), trim(d))),
        None => None,
    }
}

/// The entries read from a list of lines: each line is trimmed, blank lines
/// are skipped, and so are lines with no separator.
pub open spec fn parse_lines(ls: Seq<Seq<char>>) -> Seq<(Seq<char>, Seq<char>)>
    decreases ls.len(),
{
    if ls.len() == 0 {
        Seq::empty()
    } else {
        let prev = parse_lines(ls.drop_last());
        let l = trim(ls.last());
        if l.len() == 0 {
            prev
        } else {
            match parse_line(l) {
                Some(e) => prev.push(e),
                None => prev,
            }
        }
    }
}

/// The entries of an imported text, in order.
pub open spec fn parse_text(t: Seq<char>) -> Seq<(Seq<char>, Seq<char>)> {
    parse_lines(split_lines(t))
}

/// The entries `out` hold the words and definitions `es`, in order.
pub open spec fn entries_match(out: Seq<ParsedWord>, es: Seq<(Seq<char>, Seq<char>)>) -> bool {
    &&& out.len() == es.len()
    &&& forall|j: int|
        0 <= j < out.len() ==> {
            &&& #[trigger] out[j].word@ == es[j].0
            &&& out[j].definition@ == es[j].1
        }
}

/// The separator at preference `k`.
fn separator(k: usize) -> (v: Vec<char>)
    requires
        k < 6,
    ensures
        v@ == separators()[k as int],
{
    if k == 0 {
        vec!['\t']
    } else if k == 1 {
        vec![' ', '-', ' ']
    } else if k == 2 {
        vec![' ', '|', ' ']
    } else if k == 3 {
        vec!['|']
    } else if k == 4 {
        vec!['\u{FF1A}']
    } else {
        vec![':']
    }
}

/// Whether `p` occurs in `v` at index `j`.
fn matches_at(v: &Vec<char>, j: usize, p: &Vec<char>) -> (r: bool)
    requires
        j + p.len() <= v.len(),
    ensures
        r == (v@.subrange(j as int, j + p.len()) == p@),
{
    let mut k: usize = 0;
    while k < p.len()
        invariant
            j + p.len() <= v.len(),
            k <= p.len(),
            forall|m: int| 0 <= m < k ==> v@[j + m] == p@[m],
        decreases p.len() - k,
    {
        if v[j + k] != p[k] {
            assert(v@.subrange(j as int, j + p.len())[k as int] != p@[k as int]);
            return false;
        }
        k += 1;
    }
    assert(v@.subrange(j as int, j + p.len()) =~= p@);
    true
}

/// The first index of `v[lo..hi]`, counted from `lo`, at which `p` occurs.
fn find_first(v: &Vec<char>, lo: usize, hi: usize, p: &Vec<char>) -> (r: Option<usize>)
    requires
        lo <= hi <= v.len(),
        p.len() > 0,
    ensures
        match r {
            Some(i) => first_at(v@.subrange(lo as int, hi as int), p@, i as int),
            None => forall|i: int| !first_at(v@.subrange(lo as int, hi as int), p@, i),
        },
{
    let ghost s = v@.subrange(lo as int, hi as int);
    let mut j = lo;
    while p.len() <= hi - j
        invariant
            lo <= j <= hi,
            p.len() > 0,
            lo <= hi <= v.len(),
            s == v@.subrange(lo as int, hi as int),
            forall|i: int| 0 <= i < j - lo ==> !occurs_at(s, p@, i),
        decreases hi + 1 - j,
    {
        let found = matches_at(v, j, p);
        assert(s.subrange(j - lo, j - lo + p.len()) =~= v@.subrange(j as int, j + p.len()));
        if found {
            return Some(j - lo);
        }
        j += 1;
    }
    assert forall|i: int| !first_at(s, p@, i) by {
        if first_at(s, p@, i) {
            assert(i < j - lo);
        }
    }
    None
}

/// Two first indices of one pattern are the same index.
proof fn lemma_first_at_unique(s: Seq<char>, p: Seq<char>, i: int, j: int)
    requires
        first_at(s, p, i),
        first_at(s, p, j),
    ensures
        i == j,
{
}

/// The word and definition of the line `v[lo..hi]`, cut at the first separator
/// (in order of preference) that the line contains.
fn parse_line_range(v: &Vec<char>, lo: usize, hi: usize) -> (r: Option<ParsedWord>)
    requires
        lo <= hi <= v.len(),
    ensures
        match (r, parse_line(v@.subrange(lo as int, hi as int))) {
            (Some(pw), Some((w, d))) => pw.word@ == w && pw.definition@ == d,
            (None, None) => true,
            _ => false,
        },
{
    let ghost line = v@.subrange(lo as int, hi as int);
    let mut k: usize = 0;
    while k < 6
        invariant
            lo <= hi <= v.len(),
            line == v@.subrange(lo as int, hi as int),
            k <= 6,
            split_entry_from(line, 0) == split_entry_from(line, k as int),
        decreases 6 - k,
    {
        let p = separator(k);
        match find_first(v, lo, hi, &p) {
            Some(i) => {
                proof {
                    let c = choose|c: int| first_at(line, p@, c);
                    lemma_first_at_unique(line, p@, i as int, c);
                    assert(line.take(i as int) =~= v@.subrange(lo as int, lo + i));
                    assert(line.skip(i + p.len()) =~= v@.subrange(lo + i + p.len(), hi as int));
                }
                let (wa, wb) = trim_bounds(v, lo, lo + i);
                let (da, db) = trim_bounds(v, lo + i + p.len(), hi);
                let word = string_of_range(v, wa, wb);
                let definition = string_of_range(v, da, db);
                return Some(ParsedWord { word, definition });
            },
            None => {
                proof {
                    assert(!(exists|i: int| first_at(line, p@, i)));
                }
            },
        }
        k += 1;
    }
    None
}

/// The entries of an imported word list. Each line is trimmed; blank lines are
/// skipped. A line holds a word and its definition cut at the first tab, or
/// else at the first " - ", " | ", "|", full-width colon or ":" (the first of
/// these that the line contains); a line with none of them is skipped. The
/// word and the definition are trimmed too.
pub fn parse_txt(text: &str) -> (r: Vec<ParsedWord>)
    ensures
        entries_match(r@, parse_text(text@)),
{
    let v = chars_of(text);
    let mut out: Vec<ParsedWord> = Vec::new();
    let mut start: usize = 0;
    let mut i: usize = 0;
    let ghost mut done: Seq<Seq<char>> = Seq::empty();
    assert(v@.take(0) =~= Seq::<char>::empty());
    assert(v@.subrange(0, 0) =~= Seq::<char>::empty());
    assert(split_lines(v@.take(0)) =~= done.push(v@.subrange(0, 0)));
    while i < v.len()
        invariant
            v@ == text@,
            start <= i <= v.len(),
            split_lines(v@.take(i as int)) == done.push(v@.subrange(start as int, i as int)),
            entries_match(out@, parse_lines(done)),
        decreases v.len() - i,
    {
        assert(v@.take(i + 1).drop_last() =~= v@.take(i as int));
        assert(v@.take(i + 1).last() == v@[i as int]);
        if v[i] == '\n' {
            let ghost line = v@.subrange(start as int, i as int);
            let ghost prev_out = out@;
            push_line(&v, start, i, &mut out, Ghost(done));
            proof {
                done = done.push(line);
                assert(v@.subrange(i + 1, i + 1) =~= Seq::<char>::empty());
            }
            start = i + 1;
        } else {
            assert(v@.subrange(start as int, i + 1) =~= v@.subrange(start as int, i as int).push(
                v@[i as int],
            ));
        }
        i += 1;
    }
    assert(v@.take(v.len() as int) =~= v@);
    let ghost line = v@.subrange(start as int, i as int);
    push_line(&v, start, i, &mut out, Ghost(done));
    proof {
        assert(done.push(line).drop_last() =~= done);
    }
    out
}

/// Adds to `out` the entry of the line `v[lo..hi]`, if it holds one.
fn push_line(v: &Vec<char>, lo: usize, hi: usize, out: &mut Vec<ParsedWord>, Ghost(done): Ghost<Seq<Seq<char>>>)
    requires
        lo <= hi <= v.len(),
        entries_match(old(out)@, parse_lines(done)),
    ensures
        entries_match(final(out)@, parse_lines(done.push(v@.subrange(lo as int, hi as int)))),
{
    let ghost ls = done.push(v@.subrange(lo as int, hi as int));
    assert(ls.drop_last() =~= done);
    assert(ls.last() == v@.subrange(lo as int, hi as int));
    let (a, b) = trim_bounds(v, lo, hi);
    let ghost l = v@.subrange(a as int, b as int);
    assert(trim(ls.last()) == l);
    if a < b {
        match parse_line_range(v, a, b) {
            Some(pw) => {
                let ghost e = parse_line(l).unwrap();
                assert(parse_lines(ls) == parse_lines(done).push(e));
                out.push(pw);
                assert forall|j: int| 0 <= j < out.len() implies {
                    &&& #[trigger] out@[j].word@ == parse_lines(ls)[j].0
                    &&& out@[j].definition@ == parse_lines(ls)[j].1
                } by {
                    if j < out.len() - 1 {
                        assert(out@[j] == old(out)@[j]);
                    }
                }
            },
            None => {
                assert(parse_lines(ls) == parse_lines(done));
            },
        }
    } else {
        assert(l.len() == 0);
        assert(parse_lines(ls) == parse_lines(done));
    }
}
proof fn lemma_split_lines_nonempty(t: Seq<char>)
    ensures
        split_lines(t).len() >= 1,
    decreases t.len(),
{
    if t.len() > 0 {
        lemma_split_lines_nonempty(t.drop_last());
    }
}

proof fn lemma_split_lines_join(a: Seq<char>, b: Seq<char>)
    ensures
        split_lines(a + seq!['\n'] + b) == split_lines(a) + split_lines(b),
    decreases b.len(),
{
    let x = a + seq!['\n'];
    if b.len() == 0 {
        assert(x + b =~= x);
        assert(x.drop_last() =~= a);
        assert(split_lines(a) + split_lines(b) =~= split_lines(a).push(Seq::<char>::empty()));
    } else {
        let b2 = b.drop_last();
        lemma_split_lines_join(a, b2);
        lemma_split_lines_nonempty(b2);
        assert((x + b).drop_last() =~= x + b2);
        assert((x + b).last() == b.last());
        let prev = split_lines(x + b2);
        if b.last() == '\n' {
            assert(prev.push(Seq::<char>::empty()) =~= split_lines(a) + split_lines(b2).push(
                Seq::<char>::empty(),
            ));
        } else {
            let lb = split_lines(b2);
            assert(prev.last() == lb.last());
            assert(prev.update(prev.len() - 1, prev.last().push(b.last())) =~= split_lines(a)
                + lb.update(lb.len() - 1, lb.last().push(b.last())));
        }
    }
}

proof fn lemma_parse_lines_concat(x: Seq<Seq<char>>, y: Seq<Seq<char>>)
    ensures
        parse_lines(x + y) == parse_lines(x) + parse_lines(y),
    decreases y.len(),
{
    if y.len() == 0 {
        assert(x + y =~= x);
        assert(parse_lines(x) + parse_lines(y) =~= parse_lines(x));
    } else {
        lemma_parse_lines_concat(x, y.drop_last());
        assert((x + y).drop_last() =~= x + y.drop_last());
        assert((x + y).last() == y.last());
        let l = trim(y.last());
        if l.len() > 0 {
            if let Some(e) = parse_line(l) {
                assert(parse_lines(x) + parse_lines(y.drop_last()).push(e) =~= (parse_lines(x)
                    + parse_lines(y.drop_last())).push(e));
            }
        }
    }
}

/// Two texts joined by a line break read as the entries of the first
/// followed by those of the second: every line is read on its own.
pub proof fn law_parse_lines_independent(a: Seq<char>, b: Seq<char>)
    ensures
        parse_text(a + seq!['\n'] + b) == parse_text(a) + parse_text(b),
{
    lemma_split_lines_join(a, b);
    lemma_parse_lines_concat(split_lines(a), split_lines(b));
}

/// The text of the pairs `ps`, one `word<tab>definition` line per pair,
/// joined by line feeds.
pub open spec fn tab_lines(ps: Seq<(Seq<char>, Seq<char>)>) -> Seq<char>
    decreases ps.len(),
{
    if ps.len() == 0 {
        Seq::empty()
    } else if ps.len() == 1 {
        ps[0].0 + seq!['\t'] + ps[0].1
    } else {
        tab_lines(ps.drop_last()) + seq!['\n'] + (ps.last().0 + seq!['\t'] + ps.last().1)
    }
}

/// A pair that a tab-separated line gives back unchanged: both parts are
/// non-empty and trimmed, the word holds no tab, and neither holds a line feed.
pub open spec fn plain_pair(p: (Seq<char>, Seq<char>)) -> bool {
    &&& p.0.len() > 0
    &&& p.1.len() > 0
    &&& trim(p.0) == p.0
    &&& trim(p.1) == p.1
    &&& !p.0.contains('\t')
    &&& !p.0.contains('\n')
    &&& !p.1.contains('\n')
}

proof fn lemma_split_lines_single(t: Seq<char>)
    requires
        !t.contains('\n'),
    ensures
        split_lines(t) == seq![t],
    decreases t.len(),
{
    if t.len() > 0 {
        let u = t.drop_last();
        assert(!u.contains('\n')) by {
            if u.contains('\n') {
                let k = choose|k: int| 0 <= k < u.len() && u[k] == '\n';
                assert(t[k] == '\n');
            }
        }
        lemma_split_lines_single(u);
        assert(t.last() != '\n') by {
            assert(t[t.len() - 1] == t.last());
        }
        assert(u.push(t.last()) =~= t);
    } else {
        assert(t =~= Seq::<char>::empty());
    }
}

proof fn lemma_plain_pair_line(p: (Seq<char>, Seq<char>))
    requires
        plain_pair(p),
    ensures
        parse_text(p.0 + seq!['\t'] + p.1) == seq![p],
{
    let (w, d) = p;
    let line = w + seq!['\t'] + d;
    assert(!line.contains('\n')) by {
        if line.contains('\n') {
            let k = choose|k: int| 0 <= k < line.len() && line[k] == '\n';
            if k < w.len() {
                assert(w[k] == '\n');
            } else if k > w.len() {
                assert(d[k - w.len() - 1] == '\n');
            }
        }
    }
    lemma_split_lines_single(line);
    crate::text::lemma_trim_edges(w);
    crate::text::lemma_trim_edges(d);
    assert(line[0] == w[0]);
    assert(line.last() == d.last());
    assert(trim_start(line) == line);
    assert(trim_end(line) == line);
    let i = w.len() as int;
    let tab = seq!['\t'];
    assert(line.subrange(i, i + 1) =~= tab);
    assert forall|j: int| 0 <= j < i implies !occurs_at(line, tab, j) by {
        if occurs_at(line, tab, j) {
            assert(line.subrange(j, j + 1)[0] == line[j]);
            assert(w[j] == '\t');
        }
    }
    assert(first_at(line, tab, i));
    let c = choose|c: int| first_at(line, tab, c);
    lemma_first_at_unique(line, tab, i, c);
    assert(line.take(i) =~= w);
    assert(line.skip(i + 1) =~= d);
    assert(separators()[0] == tab);
    assert(split_entry_from(line, 0) == Some((w, d)));
    assert(parse_lines(seq![line]) == parse_lines(seq![line].drop_last()).push((w, d)));
    assert(seq![line].drop_last() =~= Seq::<Seq<char>>::empty());
    assert(Seq::<(Seq<char>, Seq<char>)>::empty().push((w, d)) =~= seq![p]);
}

/// A list of plain (word, definition) pairs written one `word<tab>definition`
/// line per pair reads back as the same pairs, in order.
pub proof fn law_tab_list_round_trip(ps: Seq<(Seq<char>, Seq<char>)>)
    requires
        forall|i: int| 0 <= i < ps.len() ==> plain_pair(#[trigger] ps[i]),
    ensures
        parse_text(tab_lines(ps)) == ps,
    decreases ps.len(),
{
    if ps.len() == 0 {
        assert(split_lines(Seq::<char>::empty()) == seq![Seq::<char>::empty()]);
        assert(seq![Seq::<char>::empty()].drop_last() =~= Seq::<Seq<char>>::empty());
        assert(trim(Seq::<char>::empty()) == Seq::<char>::empty());
        assert(ps =~= Seq::<(Seq<char>, Seq<char>)>::empty());
        assert(parse_lines(seq![Seq::<char>::empty()]) == parse_lines(Seq::<Seq<char>>::empty()));
        assert(parse_text(tab_lines(ps)) == ps);
    } else if ps.len() == 1 {
        lemma_plain_pair_line(ps[0]);
        assert(ps =~= seq![ps[0]]);
        assert(parse_text(tab_lines(ps)) == ps);
    } else {
        let front = ps.drop_last();
        assert forall|i: int| 0 <= i < front.len() implies plain_pair(#[trigger] front[i]) by {
            assert(front[i] == ps[i]);
        }
        law_tab_list_round_trip(front);
        let last = ps.last();
        assert(plain_pair(ps[ps.len() - 1]));
        lemma_plain_pair_line(last);
        law_parse_lines_independent(tab_lines(front), last.0 + seq!['\t'] + last.1);
        assert(front + seq![last] =~= ps);
        assert(tab_lines(ps) == tab_lines(front) + seq!['\n'] + (last.0 + seq!['\t'] + last.1));
        assert(parse_text(tab_lines(ps)) == ps);
    }
}

/// Separators from preference `j` up to `k` that do not occur in `line` are
/// passed over.
proof fn lemma_absent_separators(line: Seq<char>, j: int, k: int)
    requires
        0 <= j <= k < separators().len(),
        forall|m: int, x: int| j <= m < k ==> !#[trigger] occurs_at(line, separators()[m], x),
    ensures
        split_entry_from(line, j) == split_entry_from(line, k),
    decreases k - j,
{
    if j < k {
        let p = separators()[j];
        assert(!(exists|i: int| first_at(line, p, i))) by {
            if exists|i: int| first_at(line, p, i) {
                let i = choose|i: int| first_at(line, p, i);
                assert(occurs_at(line, separators()[j], i));
            }
        }
        lemma_absent_separators(line, j + 1, k);
    }
}

/// A line is cut at the first occurrence of its separator, whichever it is:
/// when no more preferred separator occurs in the line and separator `k`
/// first occurs at index `i`, the word is the trimmed text before `i` and the
/// definition the trimmed text after that occurrence, however often the
/// separator occurs again in it.
pub proof fn law_cut_at_first_occurrence(line: Seq<char>, k: int, i: int)
    requires
        0 <= k < separators().len(),
        forall|m: int, x: int| 0 <= m < k ==> !#[trigger] occurs_at(line, separators()[m], x),
        first_at(line, separators()[k], i),
    ensures
        parse_line(line) == Some(
            (trim(line.take(i)), trim(line.skip(i + separators()[k].len()))),
        ),
{
    lemma_absent_separators(line, 0, k);
    let p = separators()[k];
    let c = choose|c: int| first_at(line, p, c);
    lemma_first_at_unique(line, p, i, c);
}

/// A line holding a trimmed word without "|", then " | " (separator 2), then a trimmed
/// definition reads back as exactly that word and that definition, even when
/// the definition holds " | " again (no tab, " - " or line feed in the line).
pub proof fn law_pipe_line_reads_back(w: Seq<char>, d: Seq<char>)
    requires
        w.len() > 0,
        d.len() > 0,
        trim(w) == w,
        trim(d) == d,
        !w.contains('|'),
        !w.contains('\t'),
        !d.contains('\t'),
        !w.contains('\n'),
        !d.contains('\n'),
        forall|x: int| !#[trigger] occurs_at(w + separators()[2] + d, separators()[1], x),
    ensures
        parse_text(w + separators()[2] + d) == seq![(w, d)],
{
    let bar = separators()[2];
    assert(bar == seq![' ', '|', ' ']);
    let line = w + bar + d;
    let n = w.len() as int;
    assert(!line.contains('\n')) by {
        if line.contains('\n') {
            let k = choose|k: int| 0 <= k < line.len() && line[k] == '\n';
            if k < n {
                assert(w[k] == '\n');
            } else if k >= n + 3 {
                assert(d[k - n - 3] == '\n');
            }
        }
    }
    lemma_split_lines_single(line);
    crate::text::lemma_trim_edges(w);
    crate::text::lemma_trim_edges(d);
    assert(line[0] == w[0]);
    assert(line.last() == d.last());
    assert(trim_start(line) == line);
    assert(trim_end(line) == line);
    assert forall|m: int, x: int| 0 <= m < 2 implies !#[trigger] occurs_at(
        line,
        separators()[m],
        x,
    ) by {
        if m == 0 && occurs_at(line, separators()[m], x) {
            assert(line.subrange(x, x + 1)[0] == line[x]);
            if x < n {
                assert(w[x] == '\t');
            } else if x >= n + 3 {
                assert(d[x - n - 3] == '\t');
            }
        }
    }
    assert(line.subrange(n, n + 3) =~= bar);
    assert forall|j: int| 0 <= j < n implies !occurs_at(line, bar, j) by {
        if occurs_at(line, bar, j) {
            assert(line.subrange(j, j + 3)[1] == line[j + 1]);
            if j + 1 < n {
                assert(w[j + 1] == '|');
            }
        }
    }
    assert(separators()[2] == bar);
    assert(first_at(line, separators()[2], n));
    law_cut_at_first_occurrence(line, 2, n);
    assert(line.take(n) =~= w);
    assert(line.skip(n + 3) =~= d);
    assert(parse_lines(seq![line]) == parse_lines(seq![line].drop_last()).push((w, d)));
    assert(seq![line].drop_last() =~= Seq::<Seq<char>>::empty());
    assert(Seq::<(Seq<char>, Seq<char>)>::empty().push((w, d)) =~= seq![(w, d)]);
}

/// Every word and definition of `es` is already trimmed.
pub open spec fn entries_trimmed(es: Seq<(Seq<char>, Seq<char>)>) -> bool {
    forall|i: int|
        0 <= i < es.len() ==> {
            &&& trim(#[trigger] es[i].0) == es[i].0
            &&& trim(es[i].1) == es[i].1
        }
}

proof fn lemma_parse_lines_trimmed(ls: Seq<Seq<char>>)
    ensures
        entries_trimmed(parse_lines(ls)),
    decreases ls.len(),
{
    if ls.len() > 0 {
        let prev = parse_lines(ls.drop_last());
        lemma_parse_lines_trimmed(ls.drop_last());
        let l = trim(ls.last());
        if l.len() > 0 {
            if let Some((w, d)) = split_entry_from(l, 0) {
                crate::text::lemma_trim_idempotent(w);
                crate::text::lemma_trim_idempotent(d);
                let e = (trim(w), trim(d));
                assert(parse_lines(ls) == prev.push(e));
                assert forall|i: int| 0 <= i < prev.push(e).len() implies {
                    &&& trim(#[trigger] prev.push(e)[i].0) == prev.push(e)[i].0
                    &&& trim(prev.push(e)[i].1) == prev.push(e)[i].1
                } by {
                    if i < prev.len() {
                        assert(prev.push(e)[i] == prev[i]);
                    }
                }
            }
        }
    }
}

/// The word and the definition of every entry are already trimmed: neither
/// starts nor ends with white space.
pub proof fn law_entries_trimmed(t: Seq<char>, i: int)
    requires
        0 <= i < parse_text(t).len(),
    ensures
        trim(parse_text(t)[i].0) == parse_text(t)[i].0,
        trim(parse_text(t)[i].1) == parse_text(t)[i].1,
{
    lemma_parse_lines_trimmed(split_lines(t));
    let es = parse_text(t);
    assert(trim(es[i].0) == es[i].0);
}

} // verus!
