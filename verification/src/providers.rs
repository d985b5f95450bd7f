//! The three ways the tool reaches the console's aliases (the Win32 console API, the `doskey`
//! program, and both), and what each makes of what the system hands back.
use vstd::prelude::*;
use crate::text::{
    chars_of, concat, concat3, contains_sub, has_sub, lines, lines_spec, lowercase, owned,
    split_char, split_once, split_once_spec, split_spec, str_eq, string_of, to_lower, trim_class,
    trim_spec, trim_ws, views, Trim,
};
use crate::names::{alias_line_spec, parse_alias_line};
use crate::audit::pair_views;
use crate::action::SetOptions;
use crate::model::{AliasIcon, VerbosityLevel};
use crate::voice::{Verbosity, icon_format_spec};

verus! {

/// The aliases reached through the Win32 console API.
pub struct Win32LibraryInterface;

/// The aliases reached through the `doskey` program.
pub struct WrapperLibraryInterface;

/// The Win32 console API first, `doskey` when it fails.
pub struct HybridLibraryInterface;

// ---------------------------------------------------------------------------
// Alias lists
// ---------------------------------------------------------------------------

/// The definitions of the pieces, each read as an alias line; pieces that are not one are
/// skipped.
pub open spec fn alias_pairs(ps: Seq<Seq<char>>) -> Seq<(Seq<char>, Seq<char>)>
    decreases ps.len(),
{
    if ps.len() == 0 {
        Seq::empty()
    } else {
        let r = alias_pairs(ps.drop_last());
        match alias_line_spec(ps.last()) {
            Some(p) => r.push(p),
            None => r,
        }
    }
}

/// The aliases in the text of the console's alias buffer: the NUL-separated entries, each read
/// as `name=value` (trimmed); entries without a name or an `=` are skipped.
pub fn parse_alias_buffer(text: &str) -> (r: Vec<(String, String)>)
    ensures
        pair_views(r@) == alias_pairs(split_spec(text@, '\0')),
{
    let tv = chars_of(text);
    let pieces = split_char(tv.as_slice(), '\0');
    let ghost pv = pieces@.map_values(|v: Vec<char>| v@);
    let mut out: Vec<(String, String)> = Vec::new();
    let mut i: usize = 0;
    while i < pieces.len()
        invariant
            i <= pieces@.len(),
            pv == pieces@.map_values(|v: Vec<char>| v@),
            pv == split_spec(tv@, '\0'),
            tv@ == text@,
            pair_views(out@) == alias_pairs(pv.take(i as int)),
        decreases pieces@.len() - i,
    {
        proof {
            assert(pv[i as int] == pieces@[i as int]@);
            assert(pv.take(i + 1).drop_last() =~= pv.take(i as int));
            assert(pv.take(i + 1).last() == pv[i as int]);
        }
        let piece = string_of(pieces[i].as_slice());
        match parse_alias_line(piece.as_str()) {
            Some((n, v)) => {
                let ghost before = pair_views(out@);
                let ghost p = (n@, v@);
                out.push((n, v));
                proof {
                    assert(pair_views(out@) =~= before.push(p));
                }
            },
            None => {},
        }
        i = i + 1;
    }
    assert(pv.take(pieces@.len() as int) =~= pv);
    out
}

/// The entries of the alias buffer that are not blank.
pub open spec fn raw_entries(ps: Seq<Seq<char>>) -> Seq<Seq<char>>
    decreases ps.len(),
{
    if ps.len() == 0 {
        Seq::empty()
    } else {
        let r = raw_entries(ps.drop_last());
        if trim_ws(ps.last()).len() == 0 {
            r
        } else {
            r.push(ps.last())
        }
    }
}

/// The NUL-separated entries of the alias buffer's text that are not blank, as written.
pub fn get_all_aliases_raw(text: &str) -> (r: Vec<String>)
    ensures
        views(r@) == raw_entries(split_spec(text@, '\0')),
{
    let tv = chars_of(text);
    let pieces = split_char(tv.as_slice(), '\0');
    let ghost pv = pieces@.map_values(|v: Vec<char>| v@);
    let mut out: Vec<String> = Vec::new();
    let mut i: usize = 0;
    while i < pieces.len()
        invariant
            i <= pieces@.len(),
            pv == pieces@.map_values(|v: Vec<char>| v@),
            pv == split_spec(tv@, '\0'),
            tv@ == text@,
            views(out@) == raw_entries(pv.take(i as int)),
        decreases pieces@.len() - i,
    {
        proof {
            assert(pv[i as int] == pieces@[i as int]@);
            assert(pv.take(i + 1).drop_last() =~= pv.take(i as int));
            assert(pv.take(i + 1).last() == pv[i as int]);
        }
        let t = trim_class(pieces[i].as_slice(), Trim::Space);
        if t.len() > 0 {
            let ghost before = views(out@);
            out.push(string_of(pieces[i].as_slice()));
            proof {
                assert(views(out@) =~= before.push(pv[i as int]));
            }
        }
        i = i + 1;
    }
    assert(pv.take(pieces@.len() as int) =~= pv);
    out
}

/// The entries split at their first `=`, entries without one skipped.
pub open spec fn split_pairs(es: Seq<Seq<char>>) -> Seq<(Seq<char>, Seq<char>)>
    decreases es.len(),
{
    if es.len() == 0 {
        Seq::empty()
    } else {
        let r = split_pairs(es.drop_last());
        match split_once_spec(es.last(), '=') {
            Some(p) => r.push(p),
            None => r,
        }
    }
}

/// The aliases of the raw entries: each split at its first `=` (`name=` gives an empty
/// value); entries without `=` are skipped.
pub fn get_all_aliases(raw: Vec<String>) -> (r: Vec<(String, String)>)
    ensures
        pair_views(r@) == split_pairs(views(raw@)),
{
    let ghost rv = views(raw@);
    let mut out: Vec<(String, String)> = Vec::new();
    let mut i: usize = 0;
    while i < raw.len()
        invariant
            i <= raw@.len(),
            rv == views(raw@),
            pair_views(out@) == split_pairs(rv.take(i as int)),
        decreases raw@.len() - i,
    {
        proof {
            assert(rv.take(i + 1).drop_last() =~= rv.take(i as int));
            assert(rv.take(i + 1).last() == raw@[i as int]@);
        }
        let ev = chars_of(raw[i].as_str());
        match split_once(ev.as_slice(), '=') {
            Some((n, v)) => {
                let ghost before = pair_views(out@);
                let ghost p = (n@, v@);
                out.push((string_of(n.as_slice()), string_of(v.as_slice())));
                proof {
                    assert(pair_views(out@) =~= before.push(p));
                }
            },
            None => {},
        }
        i = i + 1;
    }
    assert(rv.take(raw@.len() as int) =~= rv);
    out
}

/// `s` without the double quotes at its ends.
pub open spec fn unquote_ends(s: Seq<char>) -> Seq<char> {
    trim_spec(s, Trim::Char('\u{22}'))
}

/// The definitions `doskey /macros` printed: each line that is not blank, split at its first
/// `=`, with the quotes at the ends of name and value dropped.
pub open spec fn doskey_pairs(ls: Seq<Seq<char>>) -> Seq<(Seq<char>, Seq<char>)>
    decreases ls.len(),
{
    if ls.len() == 0 {
        Seq::empty()
    } else {
        let r = doskey_pairs(ls.drop_last());
        let l = ls.last();
        if trim_ws(l).len() == 0 {
            r
        } else {
            match split_once_spec(l, '=') {
                Some((n, v)) => r.push((unquote_ends(n), unquote_ends(v))),
                None => r,
            }
        }
    }
}

/// The aliases in the output of `doskey /macros`.
pub fn parse_doskey_macros(stdout: &str) -> (r: Vec<(String, String)>)
    ensures
        pair_views(r@) == doskey_pairs(lines_spec(stdout@)),
{
    let ls = lines(stdout);
    let ghost lv = views(ls@);
    let mut out: Vec<(String, String)> = Vec::new();
    let mut i: usize = 0;
    while i < ls.len()
        invariant
            i <= ls@.len(),
            lv == views(ls@),
            pair_views(out@) == doskey_pairs(lv.take(i as int)),
        decreases ls@.len() - i,
    {
        proof {
            assert(lv.take(i + 1).drop_last() =~= lv.take(i as int));
            assert(lv.take(i + 1).last() == ls@[i as int]@);
        }
        let l = chars_of(ls[i].as_str());
        let t = trim_class(l.as_slice(), Trim::Space);
        if t.len() > 0 {
            match split_once(l.as_slice(), '=') {
                Some((n, v)) => {
                    let nq = trim_class(n.as_slice(), Trim::Char('\u{22}'));
                    let vq = trim_class(v.as_slice(), Trim::Char('\u{22}'));
                    let ghost before = pair_views(out@);
                    let ghost p = (nq@, vq@);
                    out.push((string_of(nq.as_slice()), string_of(vq.as_slice())));
                    proof {
                        assert(pair_views(out@) =~= before.push(p));
                    }
                },
                None => {},
            }
        }
        i = i + 1;
    }
    assert(lv.take(ls@.len() as int) =~= lv);
    out
}

// ---------------------------------------------------------------------------
// Queries
// ---------------------------------------------------------------------------

/// The position of the first pair whose name, lower-cased, is `target`; or -1.
pub open spec fn first_lower_match(m: Seq<(Seq<char>, Seq<char>)>, target: Seq<char>, quotes: bool) -> int
    decreases m.len(),
{
    if m.len() == 0 {
        -1
    } else {
        let r = first_lower_match(m.drop_last(), target, quotes);
        let n = if quotes {
            unquote_ends(m.last().0)
        } else {
            m.last().0
        };
        if r >= 0 {
            r
        } else if lowercase(n) == target {
            m.len() - 1
        } else {
            -1
        }
    }
}

proof fn lemma_first_lower_match(m: Seq<(Seq<char>, Seq<char>)>, target: Seq<char>, quotes: bool)
    ensures
        -1 <= first_lower_match(m, target, quotes) < m.len(),
    decreases m.len(),
{
    if m.len() > 0 {
        lemma_first_lower_match(m.drop_last(), target, quotes);
    }
}

fn find_lower(m: &Vec<(String, String)>, target: &[char], quotes: bool) -> (r: Option<usize>)
    ensures
        match r {
            Some(i) => first_lower_match(pair_views(m@), target@, quotes) == i && i < m@.len(),
            None => first_lower_match(pair_views(m@), target@, quotes) < 0,
        },
{
    let ghost mv = pair_views(m@);
    let mut i: usize = 0;
    while i < m.len()
        invariant
            i <= m@.len(),
            mv == pair_views(m@),
            first_lower_match(mv.take(i as int), target@, quotes) < 0,
        decreases m@.len() - i,
    {
        proof {
            assert(mv.take(i + 1).drop_last() =~= mv.take(i as int));
            assert(mv.take(i + 1).last() == (m@[i as int].0@, m@[i as int].1@));
        }
        let nv = chars_of(m[i].0.as_str());
        let name = if quotes {
            let q = trim_class(nv.as_slice(), Trim::Char('\u{22}'));
            string_of(q.as_slice())
        } else {
            m[i].0.clone()
        };
        let low = to_lower(name.as_str());
        let lv = chars_of(low.as_str());
        if crate::text::chars_eq(lv.as_slice(), target) {
            proof {
                lemma_first_lower_prefix(mv, target@, quotes, i + 1);
            }
            return Some(i);
        }
        i = i + 1;
    }
    assert(mv.take(i as int) =~= mv);
    None
}

proof fn lemma_first_lower_prefix(m: Seq<(Seq<char>, Seq<char>)>, target: Seq<char>, quotes: bool, i: int)
    requires
        0 <= i <= m.len(),
    ensures
        first_lower_match(m.take(i), target, quotes) >= 0 ==> first_lower_match(m, target, quotes) == first_lower_match(m.take(i), target, quotes),
    decreases m.len() - i,
{
    if i < m.len() {
        lemma_first_lower_prefix(m, target, quotes, i + 1);
        assert(m.take(i + 1).drop_last() =~= m.take(i));
    } else {
        assert(m.take(i) =~= m);
    }
}

/// What a Win32 query for `name` answers, from the alias list or the error that stopped its
/// reading: `name=value` for the first alias whose name matches in any case, or a note.
pub open spec fn win32_query_spec(name: Seq<char>, list: Result<Seq<(Seq<char>, Seq<char>)>, Seq<char>>, v: Verbosity) -> Seq<Seq<char>> {
    match list {
        Err(e) => seq![icon_format_spec(v, AliasIcon::Alert, "Kernel Query Failed: "@ + e)],
        Ok(m) => {
            let i = first_lower_match(m, lowercase(name), false);
            if i >= 0 {
                seq![m[i].0 + "="@ + m[i].1]
            } else {
                seq![icon_format_spec(v, AliasIcon::Alert, "'"@ + name + "' not found in Win32 RAM."@)]
            }
        },
    }
}

pub open spec fn list_view(list: Result<Vec<(String, String)>, String>) -> Result<Seq<(Seq<char>, Seq<char>)>, Seq<char>> {
    match list {
        Ok(m) => Ok(pair_views(m@)),
        Err(e) => Err(e@),
    }
}

/// What a Win32 query for `name` answers.
pub fn win32_query(name: &str, list: Result<Vec<(String, String)>, String>, verbosity: &Verbosity) -> (r: Vec<String>)
    ensures
        views(r@) == win32_query_spec(name@, list_view(list), *verbosity),
{
    let mut out: Vec<String> = Vec::new();
    match list {
        Err(e) => {
            let m = concat("Kernel Query Failed: ", e.as_str());
            out.push(verbosity.icon_format(AliasIcon::Alert, m.as_str()));
        },
        Ok(m) => {
            let low = to_lower(name);
            let target = chars_of(low.as_str());
            match find_lower(&m, target.as_slice(), false) {
                Some(i) => {
                    proof {
                        assert(pair_views(m@)[i as int] == (m@[i as int].0@, m@[i as int].1@));
                    }
                    out.push(concat3(m[i].0.as_str(), "=", m[i].1.as_str()));
                },
                None => {
                    let msg = concat3("'", name, "' not found in Win32 RAM.");
                    out.push(verbosity.icon_format(AliasIcon::Alert, msg.as_str()));
                },
            }
        },
    }
    assert(views(out@) =~= win32_query_spec(name@, list_view(list), *verbosity));
    out
}

/// What a `doskey` query for `name` answers: the lower-cased name and the unquoted value of the
/// first alias whose unquoted name matches in any case; otherwise a note at Normal level only.
pub open spec fn wrapper_query_spec(name: Seq<char>, list: Result<Seq<(Seq<char>, Seq<char>)>, Seq<char>>, v: Verbosity) -> Seq<Seq<char>> {
    match list {
        Err(e) => if v.level is Normal {
            seq![icon_format_spec(v, AliasIcon::Alert, "Doskey Query Failed: "@ + e)]
        } else {
            Seq::empty()
        },
        Ok(m) => {
            let i = first_lower_match(m, lowercase(name), true);
            if i >= 0 {
                seq![lowercase(unquote_ends(m[i].0)) + "="@ + unquote_ends(m[i].1)]
            } else if v.level is Normal {
                seq![icon_format_spec(v, AliasIcon::Alert, "'"@ + name + "' not found via doskey query."@)]
            } else {
                Seq::empty()
            }
        },
    }
}

/// What a `doskey` query for `name` answers.
pub fn wrapper_query(name: &str, list: Result<Vec<(String, String)>, String>, verbosity: &Verbosity) -> (r: Vec<String>)
    ensures
        views(r@) == wrapper_query_spec(name@, list_view(list), *verbosity),
{
    let mut out: Vec<String> = Vec::new();
    let normal = matches!(verbosity.level, VerbosityLevel::Normal);
    match list {
        Err(e) => {
            if normal {
                let m = concat("Doskey Query Failed: ", e.as_str());
                out.push(verbosity.icon_format(AliasIcon::Alert, m.as_str()));
            }
        },
        Ok(m) => {
            let low = to_lower(name);
            let target = chars_of(low.as_str());
            match find_lower(&m, target.as_slice(), true) {
                Some(i) => {
                    proof {
                        assert(pair_views(m@)[i as int] == (m@[i as int].0@, m@[i as int].1@));
                    }
                    let nv = chars_of(m[i].0.as_str());
                    let nq = trim_class(nv.as_slice(), Trim::Char('\u{22}'));
                    let ns = string_of(nq.as_slice());
                    let nl = to_lower(ns.as_str());
                    let vv = chars_of(m[i].1.as_str());
                    let vq = trim_class(vv.as_slice(), Trim::Char('\u{22}'));
                    let vs = string_of(vq.as_slice());
                    out.push(concat3(nl.as_str(), "=", vs.as_str()));
                },
                None => {
                    if normal {
                        let msg = concat3("'", name, "' not found via doskey query.");
                        out.push(verbosity.icon_format(AliasIcon::Alert, msg.as_str()));
                    }
                },
            }
        },
    }
    assert(views(out@) =~= wrapper_query_spec(name@, list_view(list), *verbosity));
    out
}

// ---------------------------------------------------------------------------
// Storing
// ---------------------------------------------------------------------------

/// The name a definition is stored under: as given with `--force`, lower-cased otherwise.
pub fn kernel_name(opts: &SetOptions) -> (r: String)
    ensures
        r@ == if opts.force_case {
            opts.name@
        } else {
            lowercase(opts.name@)
        },
{
    if opts.force_case {
        opts.name.clone()
    } else {
        to_lower(opts.name.as_str())
    }
}

/// Whether the hybrid reads the `doskey` list instead of the Win32 one: when the Win32 list is
/// empty, or holds a single "not found" note.
pub fn hybrid_list_fallback(w32: &Vec<(String, String)>) -> (r: bool)
    ensures
        r == (w32@.len() == 0 || (w32@.len() == 1 && has_sub(w32@[0].0@, "found in Win32 RAM"@))),
{
    if w32.len() == 0 {
        return true;
    }
    if w32.len() != 1 {
        return false;
    }
    let nv = chars_of(w32[0].0.as_str());
    let needle = chars_of("found in Win32 RAM");
    contains_sub(nv.as_slice(), needle.as_slice())
}

/// Whether the hybrid asks `doskey` after the Win32 query answered: when its first line says
/// the alias was not found.
pub fn hybrid_query_fallback(output: &Vec<String>) -> (r: bool)
    ensures
        r == (output@.len() > 0 && (has_sub(output@[0]@, "not found"@) || has_sub(output@[0]@, "not a known alias"@))),
{
    if output.len() == 0 {
        return false;
    }
    let ov = chars_of(output[0].as_str());
    let a = chars_of("not found");
    let b = chars_of("not a known alias");
    contains_sub(ov.as_slice(), a.as_slice()) || contains_sub(ov.as_slice(), b.as_slice())
}

} // verus!
