//! Shell word splitting and variable assignments.
//!
//! Words are separated by blanks (space, tab, newline) outside quotes.
//! Single quotes keep their content literally; double quotes keep it except
//! that a backslash escapes `$`, `` ` ``, `"`, `\` and newline; outside quotes
//! a backslash escapes the next character. Quote characters themselves are
//! removed, and a quoted empty string still makes a word.

use vstd::prelude::*;
use crate::text::{chars_of, slice_range, string_of, views};

verus! {

/// Quoting mode of the word splitter.
#[derive(PartialEq, Eq, Structural, Clone, Copy)]
pub enum QuoteMode {
    /// Outside quotes.
    Plain,
    /// Inside `'...'`.
    Single,
    /// Inside `"..."`.
    Double,
}

/// State of the word splitter after a prefix of the input.
pub struct SplitState {
    /// Completed words.
    pub words: Seq<Seq<char>>,
    /// The word being built.
    pub cur: Seq<char>,
    /// Whether a word has been started.
    pub in_word: bool,
    /// Current quoting mode.
    pub mode: QuoteMode,
    /// Whether the previous character was an unconsumed backslash.
    pub escaped: bool,
}

/// Word separators outside quotes.
pub open spec fn is_blank(c: char) -> bool {
    c == ' ' || c == '\t' || c == '\n'
}

/// Characters that a backslash escapes inside double quotes.
pub open spec fn dq_escapable(c: char) -> bool {
    c == '$' || c == '`' || c == '"' || c == '\\' || c == '\n'
}

/// The initial splitter state.
pub open spec fn split_init() -> SplitState {
    SplitState { words: Seq::empty(), cur: Seq::empty(), in_word: false, mode: QuoteMode::Plain, escaped: false }
}

/// One step of the splitter on character `c`.
pub open spec fn split_step(st: SplitState, c: char) -> SplitState {
    if st.escaped {
        if st.mode == QuoteMode::Double {
            if dq_escapable(c) {
                if c == '\n' {
                    SplitState { escaped: false, ..st }
                } else {
                    SplitState { escaped: false, cur: st.cur.push(c), ..st }
                }
            } else {
                SplitState { escaped: false, cur: st.cur.push('\\').push(c), ..st }
            }
        } else if c == '\n' {
            SplitState { escaped: false, ..st }
        } else {
            SplitState { escaped: false, cur: st.cur.push(c), in_word: true, ..st }
        }
    } else if st.mode == QuoteMode::Single {
        if c == '\'' {
            SplitState { mode: QuoteMode::Plain, ..st }
        } else {
            SplitState { cur: st.cur.push(c), ..st }
        }
    } else if st.mode == QuoteMode::Double {
        if c == '"' {
            SplitState { mode: QuoteMode::Plain, ..st }
        } else if c == '\\' {
            SplitState { escaped: true, ..st }
        } else {
            SplitState { cur: st.cur.push(c), ..st }
        }
    } else if is_blank(c) {
        if st.in_word {
            SplitState { words: st.words.push(st.cur), cur: Seq::empty(), in_word: false, ..st }
        } else {
            st
        }
    } else if c == '\'' {
        SplitState { mode: QuoteMode::Single, in_word: true, ..st }
    } else if c == '"' {
        SplitState { mode: QuoteMode::Double, in_word: true, ..st }
    } else if c == '\\' {
        SplitState { escaped: true, in_word: true, ..st }
    } else {
        SplitState { cur: st.cur.push(c), in_word: true, ..st }
    }
}

/// The splitter state after reading all of `s`.
pub open spec fn split_run(s: Seq<char>) -> SplitState
    decreases s.len(),
{
    if s.len() == 0 {
        split_init()
    } else {
        split_step(split_run(s.drop_last()), s.last())
    }
}

/// The words of `s`.
pub open spec fn words_of(s: Seq<char>) -> Seq<Seq<char>> {
    let st = split_run(s);
    if st.in_word { st.words.push(st.cur) } else { st.words }
}

/// The total number of characters of `ws`.
pub open spec fn total_len(ws: Seq<Seq<char>>) -> nat
    decreases ws.len(),
{
    if ws.len() == 0 { 0 } else { total_len(ws.drop_last()) + ws.last().len() }
}

/// Characters produced so far, plus one per finished word and one for a
/// pending backslash: one input character never adds more than one.
pub open spec fn split_potential(st: SplitState) -> nat {
    total_len(st.words) + st.words.len() + st.cur.len() + (if st.escaped { 1nat } else { 0nat })
}

proof fn lemma_split_step_potential(st: SplitState, c: char)
    ensures
        split_potential(split_step(st, c)) <= split_potential(st) + 1,
{
    let n = split_step(st, c);
    if !st.escaped && st.mode == QuoteMode::Plain && is_blank(c) && st.in_word {
        assert(st.words.push(st.cur).drop_last() == st.words);
        assert(total_len(n.words) == total_len(st.words) + st.cur.len());
    }
}

/// The words of `s`, with one separator between consecutive ones, are no
/// longer than `s`.
pub proof fn lemma_words_len(s: Seq<char>)
    ensures
        total_len(words_of(s)) + words_of(s).len() <= s.len() + 1,
        split_potential(split_run(s)) <= s.len(),
    decreases s.len(),
{
    if s.len() > 0 {
        lemma_words_len(s.drop_last());
        lemma_split_step_potential(split_run(s.drop_last()), s.last());
    }
    let st = split_run(s);
    if st.in_word {
        assert(st.words.push(st.cur).drop_last() == st.words);
    }
}

/// The length of the words split at `k`.
pub proof fn lemma_total_len_split(ws: Seq<Seq<char>>, k: int)
    requires
        0 <= k <= ws.len(),
    ensures
        total_len(ws) == total_len(ws.take(k)) + total_len(ws.skip(k)),
    decreases ws.len(),
{
    if ws.len() > 0 && k < ws.len() {
        lemma_total_len_split(ws.drop_last(), k);
        assert(ws.drop_last().take(k) == ws.take(k));
        assert(ws.skip(k).drop_last() == ws.drop_last().skip(k));
        assert(ws.skip(k).last() == ws.last());
    } else if k == ws.len() {
        assert(ws.take(k) == ws);
        assert(ws.skip(k).len() == 0);
    }
}

/// Words joined by a one-character separator.
pub proof fn lemma_join_len(ws: Seq<Seq<char>>, sep: Seq<char>)
    requires
        sep.len() == 1,
        ws.len() > 0,
    ensures
        crate::text::join(ws, sep).len() + 1 == total_len(ws) + ws.len(),
    decreases ws.len(),
{
    if ws.len() > 1 {
        lemma_join_len(ws.drop_last(), sep);
    } else {
        assert(ws.drop_last().len() == 0);
        assert(total_len(ws) == total_len(ws.drop_last()) + ws.last().len());
    }
}

/// ASCII letter.
pub open spec fn is_alpha(c: char) -> bool {
    ('a' <= c && c <= 'z') || ('A' <= c && c <= 'Z')
}

/// ASCII letter or digit.
pub open spec fn is_alnum(c: char) -> bool {
    is_alpha(c) || ('0' <= c && c <= '9')
}

/// A shell variable name: non-empty, letters, digits and `_`, not starting
/// with a digit.
pub open spec fn is_var_name(s: Seq<char>) -> bool {
    &&& s.len() > 0
    &&& forall|i: int| 0 <= i < s.len() ==> is_alnum(#[trigger] s[i]) || s[i] == '_'
    &&& (is_alpha(s[0]) || s[0] == '_')
}

/// Index of the first occurrence of `c` in `s`.
pub open spec fn first_index(s: Seq<char>, c: char) -> Option<int>
    decreases s.len(),
{
    if s.len() == 0 {
        None
    } else if s[0] == c {
        Some(0)
    } else {
        match first_index(s.drop_first(), c) {
            Some(i) => Some(i + 1),
            None => None,
        }
    }
}

/// `KEY=VALUE` split at the first `=`, when `KEY` is a variable name.
pub open spec fn assignment(w: Seq<char>) -> Option<(Seq<char>, Seq<char>)> {
    match first_index(w, '=') {
        Some(i) => if is_var_name(w.take(i)) {
            Some((w.take(i), w.skip(i + 1)))
        } else {
            None
        },
        None => None,
    }
}

/// The command word: the first word that is not a variable assignment
/// (empty when there is none).
pub open spec fn command_word(words: Seq<Seq<char>>) -> Seq<char>
    decreases words.len(),
{
    if words.len() == 0 {
        Seq::empty()
    } else if assignment(words[0]) is Some {
        command_word(words.drop_first())
    } else {
        words[0]
    }
}

/// Split `s` into shell words.
pub fn tokenize(s: &str) -> (r: Vec<String>)
    ensures
        views(r@) == words_of(s@),
{
    let v = chars_of(s);
    let mut words: Vec<String> = Vec::new();
    let mut cur: Vec<char> = Vec::new();
    let mut in_word = false;
    let mut mode = QuoteMode::Plain;
    let mut escaped = false;
    let mut i: usize = 0;
    while i < v.len()
        invariant
            i <= v.len(),
            v@ == s@,
            ({
                let st = split_run(v@.take(i as int));
                &&& views(words@) == st.words
                &&& cur@ == st.cur
                &&& in_word == st.in_word
                &&& mode == st.mode
                &&& escaped == st.escaped
            }),
        decreases v.len() - i,
    {
        let c = v[i];
        proof {
            assert(v@.take(i + 1).drop_last() == v@.take(i as int));
        }
        if escaped {
            if mode == QuoteMode::Double {
                if c == '$' || c == '`' || c == '"' || c == '\\' || c == '\n' {
                    if c != '\n' {
                        cur.push(c);
                    }
                } else {
                    cur.push('\\');
                    cur.push(c);
                }
            } else if c != '\n' {
                cur.push(c);
                in_word = true;
            }
            escaped = false;
        } else if mode == QuoteMode::Single {
            if c == '\'' {
                mode = QuoteMode::Plain;
            } else {
                cur.push(c);
            }
        } else if mode == QuoteMode::Double {
            if c == '"' {
                mode = QuoteMode::Plain;
            } else if c == '\\' {
                escaped = true;
            } else {
                cur.push(c);
            }
        } else if c == ' ' || c == '\t' || c == '\n' {
            if in_word {
                let w = string_of(cur.as_slice());
                proof {
                    assert(views(words@.push(w)) == views(words@).push(w@));
                }
                words.push(w);
                cur = Vec::new();
                in_word = false;
            }
        } else if c == '\'' {
            mode = QuoteMode::Single;
            in_word = true;
        } else if c == '"' {
            mode = QuoteMode::Double;
            in_word = true;
        } else if c == '\\' {
            escaped = true;
            in_word = true;
        } else {
            cur.push(c);
            in_word = true;
        }
        i = i + 1;
    }
    assert(v@.take(v.len() as int) == v@);
    if in_word {
        let w = string_of(cur.as_slice());
        proof {
            assert(views(words@.push(w)) == views(words@).push(w@));
        }
        words.push(w);
    }
    words
}

/// Whether `c` is an ASCII letter.
pub fn char_is_alpha(c: char) -> (r: bool)
    ensures
        r == is_alpha(c),
{
    ('a' <= c && c <= 'z') || ('A' <= c && c <= 'Z')
}

/// Whether `s` is a shell variable name.
pub fn var_name(s: &[char]) -> (r: bool)
    ensures
        r == is_var_name(s@),
{
    if s.len() == 0 {
        return false;
    }
    if !(char_is_alpha(s[0]) || s[0] == '_') {
        return false;
    }
    let mut i: usize = 0;
    while i < s.len()
        invariant
            i <= s.len(),
            forall|j: int| 0 <= j < i ==> is_alnum(#[trigger] s@[j]) || s@[j] == '_',
        decreases s.len() - i,
    {
        let c = s[i];
        if !(char_is_alpha(c) || ('0' <= c && c <= '9') || c == '_') {
            assert(!(is_alnum(s@[i as int]) || s@[i as int] == '_'));
            return false;
        }
        i = i + 1;
    }
    true
}

/// Index of the first `c` in `s`.
pub fn find_char(s: &[char], c: char) -> (r: Option<usize>)
    ensures
        match r {
            Some(i) => first_index(s@, c) == Some(i as int) && i < s.len(),
            None => first_index(s@, c) is None,
        },
{
    let mut i: usize = 0;
    assert(s@.skip(0) == s@);
    while i < s.len()
        invariant
            i <= s.len(),
            first_index(s@, c) == (match first_index(s@.skip(i as int), c) {
                Some(k) => Some(k + i),
                None => None::<int>,
            }),
        decreases s.len() - i,
    {
        assert(s@.skip(i as int).drop_first() == s@.skip(i + 1));
        if s[i] == c {
            return Some(i);
        }
        i = i + 1;
    }
    assert(s@.skip(i as int).len() == 0);
    None
}

/// Split `KEY=VALUE` at the first `=` when `KEY` is a variable name.
pub fn parse_assignment(token: &str) -> (r: Option<(String, String)>)
    ensures
        match assignment(token@) {
            Some((k, v)) => r matches Some((rk, rv)) && rk@ == k && rv@ == v,
            None => r is None,
        },
{
    let t = chars_of(token);
    match find_char(t.as_slice(), '=') {
        Some(eq) => {
            let key = slice_range(t.as_slice(), 0, eq);
            assert(t@.subrange(0, eq as int) == t@.take(eq as int));
            if var_name(key) {
                let val = slice_range(t.as_slice(), eq + 1, t.len());
                assert(t@.subrange(eq + 1, t@.len() as int) == t@.skip(eq + 1));
                let k = string_of(key);
                let v = string_of(val);
                assert(assignment(token@) == Some((k@, v@)));
                Some((k, v))
            } else {
                None
            }
        },
        None => None,
    }
}

/// The first word of `words` that is not a variable assignment (empty when
/// every word is one).
pub fn first_command_word(words: &Vec<String>) -> (r: String)
    ensures
        r@ == command_word(views(words@)),
{
    let mut i: usize = 0;
    assert(views(words@).skip(0) == views(words@));
    while i < words.len()
        invariant
            i <= words.len(),
            command_word(views(words@)) == command_word(views(words@).skip(i as int)),
        decreases words.len() - i,
    {
        assert(views(words@).skip(i as int).drop_first() == views(words@).skip(i + 1));
        assert(views(words@).skip(i as int)[0] == words@[i as int]@);
        if parse_assignment(words[i].as_str()).is_none() {
            return words[i].clone();
        }
        i = i + 1;
    }
    assert(views(words@).skip(i as int).len() == 0);
    String::new()
}

/// The command word of `segment` (its first word that is not `KEY=VALUE`).
pub fn base_command(segment: &str) -> (r: String)
    ensures
        r@ == command_word(words_of(segment@)),
{
    let words = tokenize(segment);
    first_command_word(&words)
}

} // verus!
