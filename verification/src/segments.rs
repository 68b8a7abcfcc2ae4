//! What one segment of a compound command does to the environment of the
//! segments after it: the variables it exports or assigns, the variables it
//! unsets, and whether it can be counted on to succeed.

use vstd::prelude::*;

use crate::rules::{is_flag, starts_with_dash};
use crate::text::{views, contains_seq, str_contains, str_eq, chars_of};
use crate::words::{words_of, command_word, assignment, first_index, is_var_name, tokenize, parse_assignment, base_command, find_char, var_name};

verus! {

/// Whether the segment is expected to succeed whatever happens: not when
/// it holds a substitution; a lone `KEY=VALUE` when it is a valid
/// assignment; `export`, `true`, `echo` and `printf`.
pub open spec fn likely_successful(seg: Seq<char>) -> bool {
    if contains_seq(seg, "__SUBST__"@) {
        false
    } else {
        let ws = words_of(seg);
        if ws.len() == 0 {
            false
        } else if ws.len() == 1 && first_index(ws[0], '=') is Some {
            assignment(ws[0]) is Some
        } else {
            let b = command_word(ws);
            b == "export"@ || b == "true"@ || b == "echo"@ || b == "printf"@
        }
    }
}

/// The assignments among words `1..n` that do not start with `-`.
pub open spec fn export_pairs(ws: Seq<Seq<char>>, n: int) -> Seq<(Seq<char>, Seq<char>)>
    decreases n,
{
    if n <= 1 {
        Seq::empty()
    } else {
        let prev = export_pairs(ws, n - 1);
        let w = ws[n - 1];
        if !is_flag(w) && assignment(w) is Some { prev.push(assignment(w)->0) } else { prev }
    }
}

/// The variables a segment sets: a lone assignment, or the assignments of
/// an `export`.
pub open spec fn segment_env(seg: Seq<char>) -> Seq<(Seq<char>, Seq<char>)> {
    let ws = words_of(seg);
    if ws.len() == 0 {
        Seq::empty()
    } else if ws.len() == 1 {
        match assignment(ws[0]) {
            Some(p) => seq![p],
            None => Seq::empty(),
        }
    } else if ws[0] == "export"@ {
        export_pairs(ws, ws.len() as int)
    } else {
        Seq::empty()
    }
}

/// Variable names among words `1..n` of an `unset`: `-f` switches to
/// functions (skipped), `-v` back to variables.
pub open spec fn unset_fold(ws: Seq<Seq<char>>, n: int) -> (Seq<Seq<char>>, bool)
    decreases n,
{
    if n <= 1 {
        (Seq::empty(), false)
    } else {
        let (l, f) = unset_fold(ws, n - 1);
        let w = ws[n - 1];
        if w == "-f"@ {
            (l, true)
        } else if w == "-v"@ {
            (l, false)
        } else if !is_flag(w) && !f && is_var_name(w) {
            (l.push(w), f)
        } else {
            (l, f)
        }
    }
}

/// The variables an `unset` segment removes.
pub open spec fn unset_vars(seg: Seq<char>) -> Seq<Seq<char>> {
    let ws = words_of(seg);
    if ws.len() == 0 || ws[0] != "unset"@ { Seq::empty() } else { unset_fold(ws, ws.len() as int).0 }
}

/// Whether `segment` is expected to succeed.
pub fn is_likely_successful(segment: &str) -> (r: bool)
    ensures
        r == likely_successful(segment@),
{
    if str_contains(segment, "__SUBST__") {
        return false;
    }
    let words = tokenize(segment);
    if words.len() == 0 {
        return false;
    }
    assert(views(words@)[0] == words@[0]@);
    if words.len() == 1 {
        let w = chars_of(words[0].as_str());
        if find_char(w.as_slice(), '=').is_some() {
            return parse_assignment(words[0].as_str()).is_some();
        }
    }
    let base = base_command(segment);
    let b = base.as_str();
    str_eq(b, "export") || str_eq(b, "true") || str_eq(b, "echo") || str_eq(b, "printf")
}

/// The variables `segment` sets, in order.
pub fn extract_segment_env(segment: &str) -> (r: Vec<(String, String)>)
    ensures
        r@.map_values(|p: (String, String)| (p.0@, p.1@)) == segment_env(segment@),
{
    let words = tokenize(segment);
    let ghost ws = views(words@);
    let mut r: Vec<(String, String)> = Vec::new();
    assert(r@.map_values(|p: (String, String)| (p.0@, p.1@)) =~= Seq::<(Seq<char>, Seq<char>)>::empty());
    if words.len() == 0 {
        return r;
    }
    assert(ws[0] == words@[0]@);
    if words.len() == 1 {
        match parse_assignment(words[0].as_str()) {
            Some(p) => {
                r.push(p);
                assert(r@.map_values(|p: (String, String)| (p.0@, p.1@)) =~= seq![(p.0@, p.1@)]);
            },
            None => {},
        }
        return r;
    }
    if !str_eq(words[0].as_str(), "export") {
        return r;
    }
    let mut i: usize = 1;
    while i < words.len()
        invariant
            1 <= i <= words.len(),
            ws == views(words@),
            r@.map_values(|p: (String, String)| (p.0@, p.1@)) == export_pairs(ws, i as int),
        decreases words.len() - i,
    {
        assert(ws[i as int] == words@[i as int]@);
        if !starts_with_dash(words[i].as_str()) {
            match parse_assignment(words[i].as_str()) {
                Some(p) => {
                    let ghost before = r@;
                    r.push(p);
                    assert(r@.map_values(|p: (String, String)| (p.0@, p.1@))
                        =~= before.map_values(|p: (String, String)| (p.0@, p.1@)).push((p.0@, p.1@)));
                },
                None => {},
            }
        }
        i = i + 1;
    }
    r
}

/// The variables `segment` unsets, in order.
pub fn extract_unset_vars(segment: &str) -> (r: Vec<String>)
    ensures
        views(r@) == unset_vars(segment@),
{
    let words = tokenize(segment);
    let ghost ws = views(words@);
    let mut r: Vec<String> = Vec::new();
    assert(views(r@) =~= Seq::<Seq<char>>::empty());
    if words.len() == 0 {
        return r;
    }
    assert(ws[0] == words@[0]@);
    if !str_eq(words[0].as_str(), "unset") {
        return r;
    }
    let mut functions = false;
    let mut i: usize = 1;
    while i < words.len()
        invariant
            1 <= i <= words.len(),
            ws == views(words@),
            (views(r@), functions) == unset_fold(ws, i as int),
        decreases words.len() - i,
    {
        assert(ws[i as int] == words@[i as int]@);
        let w = words[i].as_str();
        if str_eq(w, "-f") {
            functions = true;
        } else if str_eq(w, "-v") {
            functions = false;
        } else if !starts_with_dash(w) && !functions && var_name(chars_of(w).as_slice()) {
            let item = words[i].clone();
            let ghost before = r@;
            r.push(item);
            assert(views(r@) =~= views(before).push(item@));
        }
        i = i + 1;
    }
    r
}

} // verus!
