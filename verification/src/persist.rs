//! The saved data: the top-five leaderboard and its text format, player
//! names, and the sound setting.  Reading and writing files is left to the
//! caller; this module turns their text into values and back.
use crate::text::{
    all_digits, chars_of, decimal, find_char, is_digit, lines_from, lines_of, parse_u16, parse_u16_spec,
    player_string, player_word, push_char, push_chars, push_decimal, slice_chars, split_once_spec, string_of,
    trim_chars, trimmed, lemma_find_from_bounds, line_at,
};
use crate::game::GameMode;
use vstd::prelude::*;

verus! {

pub const MAX_ENTRIES: usize = 5;

pub const MAX_NAME_LEN: usize = 16;

#[derive(Debug, PartialEq, Eq)]
pub struct ScoreEntry {
    pub score: u16,
    pub name: String,
}

impl View for ScoreEntry {
    type V = (u16, Seq<char>);

    open spec fn view(&self) -> (u16, Seq<char>) {
        (self.score, self.name@)
    }
}

impl Clone for ScoreEntry {
    fn clone(&self) -> (r: Self)
        ensures
            r@ == self@,
    {
        ScoreEntry { score: self.score, name: self.name.clone() }
    }
}

/// The (score, name) pairs of a list of entries.
pub open spec fn entry_views(es: Seq<ScoreEntry>) -> Seq<(u16, Seq<char>)> {
    es.map_values(|e: ScoreEntry| e@)
}

// ---------------------------------------------------------------------------
// Names
// ---------------------------------------------------------------------------

/// The characters a player name may hold: ASCII letters and digits, `_`, `-` and space.
pub open spec fn name_char(c: char) -> bool {
    ||| 'a' <= c <= 'z'
    ||| 'A' <= c <= 'Z'
    ||| '0' <= c <= '9'
    ||| c == '_'
    ||| c == '-'
    ||| c == ' '
}

/// The name characters among the first `i` of `t`, in order.
pub open spec fn name_chars_upto(t: Seq<char>, i: int) -> Seq<char>
    decreases i,
{
    if i <= 0 || i > t.len() {
        Seq::empty()
    } else {
        let p = name_chars_upto(t, i - 1);
        if name_char(t[i - 1]) {
            p.push(t[i - 1])
        } else {
            p
        }
    }
}

/// The first `n` elements of `s`, or all of it where it is shorter.
pub open spec fn at_most<A>(s: Seq<A>, n: nat) -> Seq<A> {
    if s.len() > n {
        s.subrange(0, n as int)
    } else {
        s
    }
}

/// A name as the leaderboard stores it: trimmed, cut to its allowed
/// characters and to `MAX_NAME_LEN` of them, and "Player" where none is left.
pub open spec fn sanitized(name: Seq<char>) -> Seq<char> {
    let t = trimmed(name);
    let k = at_most(name_chars_upto(t, t.len() as int), MAX_NAME_LEN as nat);
    if k.len() == 0 {
        player_word()
    } else {
        k
    }
}

fn is_name_char(c: char) -> (r: bool)
    ensures
        r == name_char(c),
{
    ('a' <= c && c <= 'z') || ('A' <= c && c <= 'Z') || ('0' <= c && c <= '9') || c == '_' || c == '-' || c
        == ' '
}

pub fn sanitize_name(name: &str) -> (r: String)
    ensures
        r@ == sanitized(name@),
{
    let t = trim_chars(&chars_of(name));
    let mut kept: Vec<char> = Vec::new();
    let mut i: usize = 0;
    while i < t.len()
        invariant
            0 <= i <= t.len(),
            kept@ == at_most(name_chars_upto(t@, i as int), MAX_NAME_LEN as nat),
        decreases t.len() - i,
    {
        let c = t[i];
        let ghost p = name_chars_upto(t@, i as int);
        if is_name_char(c) {
            if kept.len() < MAX_NAME_LEN {
                kept.push(c);
            }
            assert(name_chars_upto(t@, i + 1) == p.push(c));
            assert(kept@ == at_most(p.push(c), MAX_NAME_LEN as nat));
        }
        i = i + 1;
    }
    if kept.len() == 0 {
        player_string()
    } else {
        string_of(&kept)
    }
}

/// Old files stored a day number where the name now stands: a trimmed name
/// of four or more digits becomes "Player"; any other name is trimmed.
pub open spec fn normalized_legacy(name: Seq<char>) -> Seq<char> {
    let t = trimmed(name);
    if all_digits(t) && t.len() >= 4 {
        player_word()
    } else {
        t
    }
}

fn chars_all_digits(v: &Vec<char>) -> (r: bool)
    ensures
        r == all_digits(v@),
{
    let mut i: usize = 0;
    while i < v.len()
        invariant
            0 <= i <= v.len(),
            forall|k: int| 0 <= k < i ==> is_digit(#[trigger] v@[k]),
        decreases v.len() - i,
    {
        if !('0' <= v[i] && v[i] <= '9') {
            return false;
        }
        i = i + 1;
    }
    true
}

pub fn normalize_legacy_name(name: &str) -> (r: String)
    ensures
        r@ == normalized_legacy(name@),
{
    let t = trim_chars(&chars_of(name));
    if chars_all_digits(&t) && t.len() >= 4 {
        player_string()
    } else {
        string_of(&t)
    }
}

/// Entries with every name normalized.
pub open spec fn migrated(es: Seq<(u16, Seq<char>)>) -> Seq<(u16, Seq<char>)> {
    es.map_values(|e: (u16, Seq<char>)| (e.0, normalized_legacy(e.1)))
}

/// Some name changes under normalization.
pub open spec fn needs_migration(es: Seq<(u16, Seq<char>)>) -> bool {
    exists|i: int| 0 <= i < es.len() && normalized_legacy(#[trigger] es[i].1) != es[i].1
}

/// Normalizes every name; says whether any changed.
pub fn migrate_legacy_entries(entries: &mut Vec<ScoreEntry>) -> (changed: bool)
    ensures
        entry_views(final(entries)@) == migrated(entry_views(old(entries)@)),
        changed == needs_migration(entry_views(old(entries)@)),
{
    let ghost before = entry_views(entries@);
    let mut changed = false;
    let mut i: usize = 0;
    while i < entries.len()
        invariant
            0 <= i <= entries.len(),
            entries.len() == before.len(),
            forall|k: int| 0 <= k < i ==> #[trigger] entries@[k]@ == migrated(before)[k],
            forall|k: int| i <= k < entries.len() ==> #[trigger] entries@[k]@ == before[k],
            changed == exists|k: int| 0 <= k < i && normalized_legacy(#[trigger] before[k].1) != before[k].1,
        decreases entries.len() - i,
    {
        let normalized = normalize_legacy_name(entries[i].name.as_str());
        assert(entries@[i as int]@ == before[i as int]);
        if normalized != entries[i].name {
            let e = ScoreEntry { score: entries[i].score, name: normalized };
            entries.set(i, e);
            changed = true;
        }
        assert(entries@[i as int]@ == migrated(before)[i as int]);
        i = i + 1;
    }
    assert(entry_views(entries@) == migrated(before));
    changed
}

// ---------------------------------------------------------------------------
// The leaderboard's text format: one `score|name` line per entry
// ---------------------------------------------------------------------------

/// One line read as an entry: a score before the first `|` and a name after
/// it, each trimmed; `None` where there is no `|` or the score does not parse.
pub open spec fn parse_line(line: Seq<char>) -> Option<(u16, Seq<char>)> {
    match split_once_spec(line, '|') {
        None => None,
        Some((a, b)) => match parse_u16_spec(trimmed(a)) {
            None => None,
            Some(v) => Some((v, trimmed(b))),
        },
    }
}

/// The entries that the lines hold, skipping lines that are not entries.
pub open spec fn parse_lines(ls: Seq<Seq<char>>) -> Seq<(u16, Seq<char>)>
    decreases ls.len(),
{
    if ls.len() == 0 {
        Seq::empty()
    } else {
        let rest = parse_lines(ls.drop_first());
        match parse_line(ls[0]) {
            Some(e) => seq![e] + rest,
            None => rest,
        }
    }
}

pub open spec fn parsed_entries(content: Seq<char>) -> Seq<(u16, Seq<char>)> {
    parse_lines(lines_of(content))
}

/// An entry's line.
pub open spec fn entry_line(e: (u16, Seq<char>)) -> Seq<char> {
    decimal(e.0 as nat) + seq!['|'] + e.1
}

/// The entries' lines joined by `\n`.
pub open spec fn serialized(es: Seq<(u16, Seq<char>)>) -> Seq<char>
    decreases es.len(),
{
    if es.len() == 0 {
        Seq::empty()
    } else if es.len() == 1 {
        entry_line(es[0])
    } else {
        serialized(es.drop_last()) + seq!['\n'] + entry_line(es.last())
    }
}

fn parse_line_chars(line: &Vec<char>) -> (r: Option<ScoreEntry>)
    ensures
        match r {
            Some(e) => parse_line(line@) == Some(e@),
            None => parse_line(line@) is None,
        },
{
    let bar = find_char(line, '|', 0);
    proof {
        lemma_find_from_bounds(line@, '|', 0);
    }
    if bar >= line.len() {
        return None;
    }
    let a = slice_chars(line, 0, bar);
    let b = slice_chars(line, bar + 1, line.len());
    match parse_u16(&trim_chars(&a)) {
        None => None,
        Some(score) => Some(ScoreEntry { score, name: string_of(&trim_chars(&b)) }),
    }
}

proof fn lemma_parse_lines_cons(x: Seq<char>, rest: Seq<Seq<char>>)
    ensures
        parse_lines(seq![x] + rest) == (match parse_line(x) {
            Some(e) => seq![e],
            None => Seq::empty(),
        }) + parse_lines(rest),
{
    assert((seq![x] + rest).drop_first() == rest);
    assert((seq![x] + rest)[0] == x);
    if parse_line(x) is None {
        assert(Seq::<(u16, Seq<char>)>::empty() + parse_lines(rest) == parse_lines(rest));
    }
}

/// The entries in the leaderboard file's text.
pub fn parse_entries(content: &str) -> (r: Vec<ScoreEntry>)
    ensures
        entry_views(r@) == parsed_entries(content@),
{
    let v = chars_of(content);
    let mut out: Vec<ScoreEntry> = Vec::new();
    let mut pos: usize = 0;
    while pos < v.len()
        invariant
            0 <= pos <= v.len(),
            v@ == content@,
            parsed_entries(v@) == entry_views(out@) + parse_lines(lines_from(v@, pos as int)),
        decreases v.len() - pos,
    {
        let e = find_char(&v, '\n', pos);
        proof {
            lemma_find_from_bounds(v@, '\n', pos as int);
        }
        let end = if e < v.len() && e > pos && v[e - 1] == '\r' {
            e - 1
        } else {
            e
        };
        let line = slice_chars(&v, pos, end);
        let next = if e < v.len() {
            e + 1
        } else {
            v.len()
        };
        let ghost rest = lines_from(v@, next as int);
        proof {
            assert(line@ == line_at(v@, pos as int, e as int));
            if e >= v.len() {
                assert(rest == Seq::<Seq<char>>::empty());
                assert(lines_from(v@, pos as int) == seq![line@]);
                assert(seq![line@] + rest == seq![line@]);
            }
            assert(lines_from(v@, pos as int) == seq![line@] + rest);
            lemma_parse_lines_cons(line@, rest);
        }
        let ghost before = entry_views(out@);
        match parse_line_chars(&line) {
            Some(entry) => {
                out.push(entry);
                assert(entry_views(out@) == before + seq![entry@]);
            },
            None => {},
        }
        pos = next;
    }
    proof {
        assert(lines_from(v@, pos as int) == Seq::<Seq<char>>::empty());
        assert(parse_lines(Seq::<Seq<char>>::empty()) == Seq::<(u16, Seq<char>)>::empty());
        assert(entry_views(out@) + Seq::<(u16, Seq<char>)>::empty() == entry_views(out@));
    }
    out
}

/// The leaderboard file's text for these entries.
pub fn serialize_entries(entries: &[ScoreEntry]) -> (s: String)
    ensures
        s@ == serialized(entry_views(entries@)),
{
    let mut s = String::new();
    let mut i: usize = 0;
    while i < entries.len()
        invariant
            0 <= i <= entries.len(),
            s@ == serialized(entry_views(entries@).subrange(0, i as int)),
        decreases entries.len() - i,
    {
        let ghost prev = s@;
        if i > 0 {
            push_char(&mut s, '\n');
        }
        push_decimal(&mut s, entries[i].score as u64);
        push_char(&mut s, '|');
        push_chars(&mut s, &chars_of(entries[i].name.as_str()));
        proof {
            let es = entry_views(entries@);
            let p = es.subrange(0, i + 1);
            assert(p.drop_last() == es.subrange(0, i as int));
            assert(p.last() == entries@[i as int]@);
            if i == 0 {
                assert(s@ == entry_line(p[0]));
            } else {
                assert(s@ == prev + seq!['\n'] + entry_line(p.last()));
            }
        }
        i = i + 1;
    }
    assert(entry_views(entries@).subrange(0, entries.len() as int) == entry_views(entries@));
    s
}

// ---------------------------------------------------------------------------
// The leaderboard
// ---------------------------------------------------------------------------

/// Inserts `e` after every leading entry whose score is at least `e`'s.
pub open spec fn insert_by_score(es: Seq<(u16, Seq<char>)>, e: (u16, Seq<char>)) -> Seq<(u16, Seq<char>)>
    decreases es.len(),
{
    if es.len() == 0 {
        seq![e]
    } else if es[0].0 >= e.0 {
        seq![es[0]] + insert_by_score(es.drop_first(), e)
    } else {
        seq![e] + es
    }
}

/// The entries ordered by descending score, equal scores keeping their order
/// (a stable sort).
pub open spec fn sorted_by_score(es: Seq<(u16, Seq<char>)>) -> Seq<(u16, Seq<char>)>
    decreases es.len(),
{
    if es.len() == 0 {
        es
    } else {
        insert_by_score(sorted_by_score(es.drop_last()), es.last())
    }
}

/// The board after a positive score is added under a sanitized name.
pub open spec fn board_after_add(es: Seq<(u16, Seq<char>)>, score: u16, name: Seq<char>) -> Seq<(u16, Seq<char>)> {
    at_most(sorted_by_score(es.push((score, sanitized(name)))), MAX_ENTRIES as nat)
}

/// The first index whose score is below `score`, or the length.
spec fn first_below(es: Seq<(u16, Seq<char>)>, score: u16, i: int) -> int
    decreases es.len() - i,
{
    if i < 0 || i >= es.len() {
        es.len() as int
    } else if es[i].0 < score {
        i
    } else {
        first_below(es, score, i + 1)
    }
}

proof fn lemma_insert_at_first_below(es: Seq<(u16, Seq<char>)>, e: (u16, Seq<char>))
    ensures
        0 <= first_below(es, e.0, 0) <= es.len(),
        insert_by_score(es, e) == es.insert(first_below(es, e.0, 0), e),
    decreases es.len(),
{
    if es.len() == 0 {
        assert(es.insert(0, e) == seq![e]);
    } else if es[0].0 >= e.0 {
        let t = es.drop_first();
        lemma_insert_at_first_below(t, e);
        lemma_first_below_shift(es, e.0, 1);
        let p = first_below(es, e.0, 0);
        assert(p == first_below(t, e.0, 0) + 1);
        assert(seq![es[0]] + t.insert(p - 1, e) == es.insert(p, e));
    } else {
        assert(es.insert(0, e) == seq![e] + es);
    }
}

proof fn lemma_first_below_shift(es: Seq<(u16, Seq<char>)>, score: u16, i: int)
    requires
        1 <= i <= es.len(),
        forall|k: int| 0 <= k < i ==> es[k].0 >= score,
    ensures
        first_below(es, score, 0) == first_below(es.drop_first(), score, i - 1) + 1,
    decreases es.len() - i,
{
    if i < es.len() && es[i].0 >= score {
        lemma_first_below_shift(es, score, i + 1);
    } else {
        lemma_first_below_from(es, score, 0, i);
    }
}

proof fn lemma_first_below_from(es: Seq<(u16, Seq<char>)>, score: u16, j: int, i: int)
    requires
        0 <= j <= i <= es.len(),
        forall|k: int| j <= k < i ==> es[k].0 >= score,
    ensures
        first_below(es, score, j) == first_below(es, score, i),
    decreases i - j,
{
    if j < i {
        lemma_first_below_from(es, score, j + 1, i);
    }
}

fn insert_entry(es: &mut Vec<ScoreEntry>, e: ScoreEntry)
    ensures
        entry_views(final(es)@) == insert_by_score(entry_views(old(es)@), e@),
{
    let ghost v = entry_views(es@);
    let mut p: usize = 0;
    while p < es.len() && es[p].score >= e.score
        invariant
            0 <= p <= es.len(),
            v == entry_views(es@),
            first_below(v, e.score, 0) == first_below(v, e.score, p as int),
        decreases es.len() - p,
    {
        p = p + 1;
    }
    proof {
        lemma_insert_at_first_below(v, e@);
    }
    es.insert(p, e);
    assert(entry_views(es@) == v.insert(p as int, e@));
}

#[derive(Debug)]
pub struct Leaderboard {
    entries: Vec<ScoreEntry>,
}

impl View for Leaderboard {
    type V = Seq<(u16, Seq<char>)>;

    closed spec fn view(&self) -> Seq<(u16, Seq<char>)> {
        entry_views(self.entries@)
    }
}

impl Clone for Leaderboard {
    fn clone(&self) -> (r: Self)
        ensures
            r@ == self@,
    {
        let mut entries: Vec<ScoreEntry> = Vec::new();
        let mut i: usize = 0;
        while i < self.entries.len()
            invariant
                0 <= i <= self.entries.len(),
                entries@.len() == i,
                forall|k: int| 0 <= k < i ==> #[trigger] entries@[k]@ == self.entries@[k]@,
            decreases self.entries.len() - i,
        {
            let c = self.entries[i].clone();
            entries.push(c);
            i = i + 1;
        }
        let r = Leaderboard { entries };
        assert(r@ =~= self@);
        r
    }
}

impl Default for Leaderboard {
    fn default() -> (r: Self)
        ensures
            r@ == Seq::<(u16, Seq<char>)>::empty(),
    {
        let r = Leaderboard { entries: Vec::new() };
        assert(r@ == Seq::<(u16, Seq<char>)>::empty());
        r
    }
}

impl Leaderboard {
    /// The leaderboard that the saved text holds, with legacy names
    /// normalized; the flag says whether any name changed, so that the
    /// caller knows to save it again.
    pub fn from_text(content: &str) -> (r: (Self, bool))
        ensures
            r.0@ == migrated(parsed_entries(content@)),
            r.1 == needs_migration(parsed_entries(content@)),
    {
        let mut entries = parse_entries(content);
        let changed = migrate_legacy_entries(&mut entries);
        (Leaderboard { entries }, changed)
    }

    pub fn entries(&self) -> (r: &[ScoreEntry])
        ensures
            entry_views(r@) == self@,
    {
        self.entries.as_slice()
    }

    /// The best score, 0 on an empty board.
    pub fn top_score(&self) -> (r: u16)
        ensures
            r == (if self@.len() > 0 {
                self@[0].0
            } else {
                0
            }),
    {
        if self.entries.len() > 0 {
            self.entries[0].score
        } else {
            0
        }
    }

    /// Adds a positive score under the sanitized name, keeps the best five
    /// by descending score, and says whether the score is a new first place:
    /// above every score on the board before (a tie stays behind the older
    /// entry).  A zero score is not recorded.  Saving the board is left to
    /// the caller.
    pub fn add_score(&mut self, score: u16, name: &str) -> (top: bool)
        ensures
            score == 0 ==> !top && final(self)@ == old(self)@,
            score > 0 ==> final(self)@ == board_after_add(old(self)@, score, name@),
            top == (score > 0 && beats_all(old(self)@, score)),
    {
        if score == 0 {
            return false;
        }
        let clean = sanitize_name(name);
        let ghost v = entry_views(self.entries@);
        let mut sorted: Vec<ScoreEntry> = Vec::new();
        let mut beats = true;
        let mut i: usize = 0;
        while i < self.entries.len()
            invariant
                0 <= i <= self.entries.len(),
                v == entry_views(self.entries@),
                entry_views(sorted@) == sorted_by_score(v.subrange(0, i as int)),
                beats == beats_all(v.subrange(0, i as int), score),
            decreases self.entries.len() - i,
        {
            let e = self.entries[i].clone();
            assert(e@ == v[i as int]);
            if e.score >= score {
                beats = false;
            }
            insert_entry(&mut sorted, e);
            proof {
                let p = v.subrange(0, i + 1);
                assert(p.drop_last() == v.subrange(0, i as int));
                assert(p.last() == v[i as int]);
            }
            i = i + 1;
        }
        assert(v.subrange(0, i as int) == v);
        let new_entry = ScoreEntry { score, name: clean };
        insert_entry(&mut sorted, new_entry);
        let ghost w = v.push((score, sanitized(name@)));
        proof {
            assert(w.drop_last() == v);
            assert(w.last() == (score, sanitized(name@)));
            assert(entry_views(sorted@) == sorted_by_score(w));
            lemma_sorted_len(w);
        }
        let ghost full = sorted@;
        sorted.truncate(MAX_ENTRIES);
        proof {
            if full.len() > MAX_ENTRIES {
                assert(entry_views(sorted@) =~= entry_views(full).subrange(0, MAX_ENTRIES as int));
            } else {
                assert(sorted@ =~= full);
            }
        }
        self.entries = sorted;
        assert(self@ == board_after_add(old(self)@, score, name@));
        beats
    }
}

/// The best score on a board's entries, 0 when empty.
pub open spec fn top_score_of(es: Seq<(u16, Seq<char>)>) -> u16 {
    if es.len() > 0 {
        es[0].0
    } else {
        0
    }
}

/// One leaderboard for each game mode.
#[derive(Debug)]
pub struct Leaderboards {
    classic: Leaderboard,
    wrap: Leaderboard,
    daily: Leaderboard,
}

impl Leaderboards {
    /// The entries of `mode`'s board.
    pub closed spec fn board_of(self, mode: GameMode) -> Seq<(u16, Seq<char>)> {
        match mode {
            GameMode::Classic => self.classic@,
            GameMode::Wrap => self.wrap@,
            GameMode::Daily => self.daily@,
        }
    }

    /// The boards of the three modes.
    pub fn new(classic: Leaderboard, wrap: Leaderboard, daily: Leaderboard) -> (r: Self)
        ensures
            r.board_of(GameMode::Classic) == classic@,
            r.board_of(GameMode::Wrap) == wrap@,
            r.board_of(GameMode::Daily) == daily@,
    {
        Leaderboards { classic, wrap, daily }
    }

    /// The board of `mode`.
    pub fn for_mode(&self, mode: GameMode) -> (r: &Leaderboard)
        ensures
            r@ == self.board_of(mode),
    {
        match mode {
            GameMode::Classic => &self.classic,
            GameMode::Wrap => &self.wrap,
            GameMode::Daily => &self.daily,
        }
    }

    /// The best score of `mode`'s board, 0 when it is empty.
    pub fn top_score_for(&self, mode: GameMode) -> (r: u16)
        ensures
            r == top_score_of(self.board_of(mode)),
    {
        self.for_mode(mode).top_score()
    }

    /// Records a score on `mode`'s board, as `Leaderboard::add_score` does,
    /// and leaves the other boards as they were.  Says whether the score is
    /// a new first place of that mode.
    pub fn add_score(&mut self, mode: GameMode, score: u16, name: &str) -> (top: bool)
        ensures
            forall|m: GameMode| m != mode ==> #[trigger] final(self).board_of(m) == old(self).board_of(m),
            score == 0 ==> final(self).board_of(mode) == old(self).board_of(mode),
            score > 0 ==> final(self).board_of(mode) == board_after_add(old(self).board_of(mode), score, name@),
            top == (score > 0 && beats_all(old(self).board_of(mode), score)),
    {
        match mode {
            GameMode::Classic => self.classic.add_score(score, name),
            GameMode::Wrap => self.wrap.add_score(score, name),
            GameMode::Daily => self.daily.add_score(score, name),
        }
    }
}

impl Default for Leaderboards {
    fn default() -> (r: Self)
        ensures
            forall|m: GameMode| #[trigger] r.board_of(m) == Seq::<(u16, Seq<char>)>::empty(),
    {
        Leaderboards { classic: Leaderboard::default(), wrap: Leaderboard::default(), daily: Leaderboard::default() }
    }
}

/// Every score on the board lies below `score`.
pub open spec fn beats_all(es: Seq<(u16, Seq<char>)>, score: u16) -> bool {
    forall|i: int| 0 <= i < es.len() ==> #[trigger] es[i].0 < score
}

proof fn lemma_insert_len(es: Seq<(u16, Seq<char>)>, e: (u16, Seq<char>))
    ensures
        insert_by_score(es, e).len() == es.len() + 1,
    decreases es.len(),
{
    if es.len() > 0 && es[0].0 >= e.0 {
        lemma_insert_len(es.drop_first(), e);
    }
}

proof fn lemma_sorted_len(es: Seq<(u16, Seq<char>)>)
    ensures
        sorted_by_score(es).len() == es.len(),
    decreases es.len(),
{
    if es.len() > 0 {
        lemma_sorted_len(es.drop_last());
        lemma_insert_len(sorted_by_score(es.drop_last()), es.last());
    }
}

// ---------------------------------------------------------------------------
// The sound setting
// ---------------------------------------------------------------------------

pub open spec fn sound_word() -> Seq<char> {
    seq!['s', 'o', 'u', 'n', 'd']
}

/// A settings line `sound = value`: on where the value is `on` or `1`.
pub open spec fn sound_line(line: Seq<char>) -> Option<bool> {
    match split_once_spec(line, '=') {
        None => None,
        Some((k, v)) => if trimmed(k) == sound_word() {
            Some(trimmed(v) == seq!['o', 'n'] || trimmed(v) == seq!['1'])
        } else {
            None
        },
    }
}

/// The first sound setting among the lines.
pub open spec fn first_sound_setting(ls: Seq<Seq<char>>) -> Option<bool>
    decreases ls.len(),
{
    if ls.len() == 0 {
        None
    } else {
        match sound_line(ls[0]) {
            Some(b) => Some(b),
            None => first_sound_setting(ls.drop_first()),
        }
    }
}

/// Sound is on unless the settings text says otherwise; a missing file
/// leaves it on.
pub open spec fn sound_enabled_spec(content: Option<Seq<char>>) -> bool {
    match content {
        None => true,
        Some(c) => match first_sound_setting(lines_of(c)) {
            Some(b) => b,
            None => true,
        },
    }
}

fn same_chars(a: &Vec<char>, b: &Vec<char>) -> (r: bool)
    ensures
        r == (a@ == b@),
{
    if a.len() != b.len() {
        return false;
    }
    let mut i: usize = 0;
    while i < a.len()
        invariant
            a.len() == b.len(),
            0 <= i <= a.len(),
            forall|k: int| 0 <= k < i ==> a@[k] == b@[k],
        decreases a.len() - i,
    {
        if a[i] != b[i] {
            return false;
        }
        i = i + 1;
    }
    assert(a@ == b@);
    true
}

fn sound_line_chars(line: &Vec<char>) -> (r: Option<bool>)
    ensures
        r == sound_line(line@),
{
    let eq = find_char(line, '=', 0);
    proof {
        lemma_find_from_bounds(line@, '=', 0);
    }
    if eq >= line.len() {
        return None;
    }
    let key = trim_chars(&slice_chars(line, 0, eq));
    let value = trim_chars(&slice_chars(line, eq + 1, line.len()));
    let sound = vec!['s', 'o', 'u', 'n', 'd'];
    let on = vec!['o', 'n'];
    let one = vec!['1'];
    assert(sound@ == sound_word());
    assert(on@ == seq!['o', 'n']);
    assert(one@ == seq!['1']);
    if same_chars(&key, &sound) {
        Some(same_chars(&value, &on) || same_chars(&value, &one))
    } else {
        None
    }
}

/// Whether sound is on, given the settings file's text where it could be read.
pub fn sound_enabled_from(content: Option<&str>) -> (r: bool)
    ensures
        r == sound_enabled_spec(
            match content {
                Some(c) => Some(c@),
                None => None,
            },
        ),
{
    match content {
        None => true,
        Some(text) => sound_enabled_in(text),
    }
}

fn sound_enabled_in(text: &str) -> (r: bool)
    ensures
        r == sound_enabled_spec(Some(text@)),
{
    let v = chars_of(text);
    let mut pos: usize = 0;
    while pos < v.len()
        invariant
            0 <= pos <= v.len(),
            v@ == text@,
            first_sound_setting(lines_of(v@)) == first_sound_setting(lines_from(v@, pos as int)),
        decreases v.len() - pos,
    {
        let e = find_char(&v, '\n', pos);
        proof {
            lemma_find_from_bounds(v@, '\n', pos as int);
        }
        let end = if e < v.len() && e > pos && v[e - 1] == '\r' {
            e - 1
        } else {
            e
        };
        let line = slice_chars(&v, pos, end);
        let next = if e < v.len() {
            e + 1
        } else {
            v.len()
        };
        let ghost rest = lines_from(v@, next as int);
        proof {
            assert(line@ == line_at(v@, pos as int, e as int));
            if e >= v.len() {
                assert(rest == Seq::<Seq<char>>::empty());
                assert(seq![line@] + rest == seq![line@]);
            }
            assert(lines_from(v@, pos as int) == seq![line@] + rest);
            assert((seq![line@] + rest).drop_first() == rest);
            assert((seq![line@] + rest)[0] == line@);
        }
        match sound_line_chars(&line) {
            Some(b) => {
                assert(first_sound_setting(seq![line@] + rest) == Some(b));
                return b;
            },
            None => {},
        }
        pos = next;
    }
    assert(lines_from(v@, pos as int) == Seq::<Seq<char>>::empty());
    true
}

/// The settings text for a sound setting: `sound=on` or `sound=off` and a
/// line feed.
pub open spec fn sound_text(enabled: bool) -> Seq<char> {
    sound_word() + seq!['='] + (if enabled {
        seq!['o', 'n']
    } else {
        seq!['o', 'f', 'f']
    }) + seq!['\n']
}

/// The settings file's text for a sound setting: `sound=on` or `sound=off`
/// and a line feed.
pub fn sound_settings_text(enabled: bool) -> (s: String)
    ensures
        s@ == sound_text(enabled),
{
    let mut s = String::new();
    push_char(&mut s, 's');
    push_char(&mut s, 'o');
    push_char(&mut s, 'u');
    push_char(&mut s, 'n');
    push_char(&mut s, 'd');
    push_char(&mut s, '=');
    if enabled {
        push_char(&mut s, 'o');
        push_char(&mut s, 'n');
    } else {
        push_char(&mut s, 'o');
        push_char(&mut s, 'f');
        push_char(&mut s, 'f');
    }
    push_char(&mut s, '\n');
    assert(s@ == sound_word() + seq!['='] + (if enabled {
        seq!['o', 'n']
    } else {
        seq!['o', 'f', 'f']
    }) + seq!['\n']);
    s
}

} // verus!
