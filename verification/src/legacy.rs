//! The first command-line grammar of the tool: one action per command line, with `--quiet`
//! anywhere.
use vstd::prelude::*;
use crate::text::{
    chars_of, join, join_spec, lowercase, split_once, split_once_spec, starts_with, string_of,
    to_lower, trim_class, trim_ws, views, Trim,
};
use crate::action::is_lit;
use crate::text::lines;
use crate::text::lines_spec;
use crate::filestate::{defines, first_definition, query_alias_content};
use crate::voice::Verbosity;

verus! {

/// What one command line of the first grammar asks for.
#[derive(Debug, PartialEq)]
pub enum AliasAction {
    ShowAll,
    Query(String),
    SetAlias { name: String, value: String },
    Reload,
    Clear,
    Edit(Option<String>),
    Which,
    Help,
    Setup,
    Invalid,
}

/// The mathematical value of a first-grammar action.
pub ghost enum LegacyView {
    ShowAll,
    Query(Seq<char>),
    SetAlias { name: Seq<char>, value: Seq<char> },
    Reload,
    Clear,
    Edit(Option<Seq<char>>),
    Which,
    Help,
    Setup,
    Invalid,
}

impl View for AliasAction {
    type V = LegacyView;

    open spec fn view(&self) -> LegacyView {
        match self {
            AliasAction::ShowAll => LegacyView::ShowAll,
            AliasAction::Query(q) => LegacyView::Query(q@),
            AliasAction::SetAlias { name, value } => LegacyView::SetAlias { name: name@, value: value@ },
            AliasAction::Reload => LegacyView::Reload,
            AliasAction::Clear => LegacyView::Clear,
            AliasAction::Edit(e) => LegacyView::Edit(
                match e {
                    Some(s) => Some(s@),
                    None => None,
                },
            ),
            AliasAction::Which => LegacyView::Which,
            AliasAction::Help => LegacyView::Help,
            AliasAction::Setup => LegacyView::Setup,
            AliasAction::Invalid => LegacyView::Invalid,
        }
    }
}

/// Whether a word is the quiet switch, in any case.
pub open spec fn is_quiet_word(a: Seq<char>) -> bool {
    lowercase(a) == "--quiet"@
}

/// Whether any word is the quiet switch.
pub open spec fn has_quiet(args: Seq<Seq<char>>) -> bool {
    exists|i: int| 0 <= i < args.len() && is_quiet_word(#[trigger] args[i])
}

/// The words without the quiet switches, in order.
pub open spec fn without_quiet(args: Seq<Seq<char>>) -> Seq<Seq<char>>
    decreases args.len(),
{
    if args.len() == 0 {
        Seq::empty()
    } else {
        let r = without_quiet(args.drop_last());
        if is_quiet_word(args.last()) {
            r
        } else {
            r.push(args.last())
        }
    }
}

/// A definition `name` / `value` cut at the first `sep`: both sides trimmed, refused when
/// the name is empty or there is no `sep`.
pub open spec fn cut_definition(input: Seq<char>, sep: char) -> LegacyView {
    match split_once_spec(input, sep) {
        Some((n, v)) => if trim_ws(n).len() == 0 {
            LegacyView::Invalid
        } else {
            LegacyView::SetAlias { name: trim_ws(n), value: trim_ws(v) }
        },
        None => LegacyView::Invalid,
    }
}

/// What the first grammar makes of the words after the switches are known.
pub open spec fn legacy_words_spec(f: Seq<Seq<char>>) -> LegacyView {
    if f.len() < 2 {
        LegacyView::ShowAll
    } else {
        let first = lowercase(f[1]);
        if first == "--help"@ || first == "-h"@ || first == "/?"@ {
            LegacyView::Help
        } else if first == "--which"@ {
            LegacyView::Which
        } else if first == "--reload"@ {
            LegacyView::Reload
        } else if first == "--clear"@ {
            LegacyView::Clear
        } else if first == "--setup"@ {
            LegacyView::Setup
        } else if "--edalias"@.is_prefix_of(first) && (first == "--edalias"@ || first
            == "--edaliases"@) {
            LegacyView::Edit(None)
        } else if "--edalias"@.is_prefix_of(first) && split_once_spec(first, '=') is Some {
            let ed = split_once_spec(first, '=').unwrap().1;
            LegacyView::Edit(
                if ed.len() == 0 {
                    None
                } else {
                    Some(ed)
                },
            )
        } else if "-"@.is_prefix_of(first) {
            LegacyView::Invalid
        } else if f.len() == 2 {
            if split_once_spec(f[1], '=') is Some {
                cut_definition(f[1], '=')
            } else {
                LegacyView::Query(f[1])
            }
        } else {
            let input = join_spec(f.skip(1), " "@);
            if split_once_spec(input, '=') is Some {
                cut_definition(input, '=')
            } else {
                cut_definition(input, ' ')
            }
        }
    }
}

/// What the first grammar makes of a command line (`args[0]` is the program): the action and
/// whether `--quiet` was given.
pub open spec fn legacy_spec(args: Seq<Seq<char>>) -> (LegacyView, bool) {
    (legacy_words_spec(without_quiet(args)), has_quiet(args))
}

fn cut(input: &[char], sep: char) -> (r: AliasAction)
    ensures
        r@ == cut_definition(input@, sep),
{
    match split_once(input, sep) {
        Some((n, v)) => {
            let name = trim_class(n.as_slice(), Trim::Space);
            if name.len() == 0 {
                return AliasAction::Invalid;
            }
            let value = trim_class(v.as_slice(), Trim::Space);
            AliasAction::SetAlias { name: string_of(name.as_slice()), value: string_of(value.as_slice()) }
        },
        None => AliasAction::Invalid,
    }
}

fn is_one_of(v: &[char], a: &str, b: &str, c: &str) -> (r: bool)
    ensures
        r == (v@ == a@ || v@ == b@ || v@ == c@),
{
    is_lit(v, a) || is_lit(v, b) || is_lit(v, c)
}

fn words_action(f: &Vec<String>) -> (r: AliasAction)
    ensures
        r@ == legacy_words_spec(views(f@)),
{
    let ghost fv = views(f@);
    if f.len() < 2 {
        return AliasAction::ShowAll;
    }
    assert(fv[1] == f@[1]@);
    let first_s = to_lower(f[1].as_str());
    let first = chars_of(first_s.as_str());
    let fs = first.as_slice();
    if is_one_of(fs, "--help", "-h", "/?") {
        return AliasAction::Help;
    }
    if is_lit(fs, "--which") {
        return AliasAction::Which;
    }
    if is_lit(fs, "--reload") {
        return AliasAction::Reload;
    }
    if is_lit(fs, "--clear") {
        return AliasAction::Clear;
    }
    if is_lit(fs, "--setup") {
        return AliasAction::Setup;
    }
    let ed_prefix = chars_of("--edalias");
    if starts_with(fs, ed_prefix.as_slice()) {
        if is_lit(fs, "--edalias") || is_lit(fs, "--edaliases") {
            return AliasAction::Edit(None);
        }
        match split_once(fs, '=') {
            Some((_, ed)) => {
                return AliasAction::Edit(
                    if ed.len() == 0 {
                        None
                    } else {
                        Some(string_of(ed.as_slice()))
                    },
                );
            },
            None => {},
        }
    }
    let dash = chars_of("-");
    if starts_with(fs, dash.as_slice()) {
        return AliasAction::Invalid;
    }
    if f.len() == 2 {
        let word = chars_of(f[1].as_str());
        return match split_once(word.as_slice(), '=') {
            Some(_) => cut(word.as_slice(), '='),
            None => AliasAction::Query(f[1].clone()),
        };
    }
    let mut rest: Vec<String> = Vec::new();
    let mut k: usize = 1;
    while k < f.len()
        invariant
            1 <= k <= f@.len(),
            fv == views(f@),
            views(rest@) == fv.subrange(1, k as int),
        decreases f@.len() - k,
    {
        let ghost before = views(rest@);
        rest.push(f[k].clone());
        proof {
            assert(views(rest@) =~= before.push(fv[k as int]));
            assert(fv.subrange(1, k + 1) =~= fv.subrange(1, k as int).push(fv[k as int]));
        }
        k = k + 1;
    }
    assert(fv.subrange(1, f@.len() as int) =~= fv.skip(1));
    let input_s = join(&rest, " ");
    let input = chars_of(input_s.as_str());
    match split_once(input.as_slice(), '=') {
        Some(_) => cut(input.as_slice(), '='),
        None => cut(input.as_slice(), ' '),
    }
}

/// Reads a command line of the first grammar (`args[0]` is the program): `--quiet` anywhere
/// and in any case sets the flag and is dropped; then the first remaining word picks the
/// action, and the words after it give a definition (`name=value` or `name value`) or a
/// query.
pub fn parse_alias_args(args: &[String]) -> (r: (AliasAction, bool))
    ensures
        (r.0@, r.1) == legacy_spec(views(args@)),
{
    let ghost a = views(args@);
    let mut quiet = false;
    let mut kept: Vec<String> = Vec::new();
    let mut i: usize = 0;
    while i < args.len()
        invariant
            i <= args@.len(),
            a == views(args@),
            views(kept@) == without_quiet(a.take(i as int)),
            quiet == has_quiet(a.take(i as int)),
        decreases args@.len() - i,
    {
        assert(a[i as int] == args@[i as int]@);
        let low = to_lower(args[i].as_str());
        let lv = chars_of(low.as_str());
        let is_q = is_lit(lv.as_slice(), "--quiet");
        let ghost t = a.take(i + 1);
        proof {
            assert(t.drop_last() =~= a.take(i as int));
            assert(t.last() == a[i as int]);
        }
        if is_q {
            proof {
                assert(is_quiet_word(t[i as int]));
            }
            quiet = true;
        } else {
            let ghost before = views(kept@);
            kept.push(args[i].clone());
            proof {
                assert(views(kept@) =~= before.push(a[i as int]));
                if has_quiet(t) {
                    let j = choose|j: int| 0 <= j < t.len() && is_quiet_word(#[trigger] t[j]);
                    if j < i {
                        assert(a.take(i as int)[j] == t[j]);
                    }
                }
                if has_quiet(a.take(i as int)) {
                    let j = choose|j: int| 0 <= j < i && is_quiet_word(#[trigger] a.take(i as int)[j]);
                    assert(t[j] == a.take(i as int)[j]);
                }
            }
        }
        proof {
            if is_q {
                assert(has_quiet(t));
            }
        }
        i = i + 1;
    }
    assert(a.take(args@.len() as int) =~= a);
    (words_action(&kept), quiet)
}

// ---------------------------------------------------------------------------
// The alias file and memory, first grammar
// ---------------------------------------------------------------------------

/// The lines of the file that survive setting `name`: those that, lower-cased, do not start
/// with the trimmed name lower-cased and `=`.
pub open spec fn kept_lines(ls: Seq<Seq<char>>, name: Seq<char>) -> Seq<Seq<char>>
    decreases ls.len(),
{
    if ls.len() == 0 {
        Seq::empty()
    } else {
        let r = kept_lines(ls.drop_last(), name);
        if defines(ls.last(), trim_ws(name)) {
            r
        } else {
            r.push(ls.last())
        }
    }
}

/// The text of the alias file after the first grammar sets `name` to `value`: every line that
/// defines the name (in any case) is dropped, `name=value` is added at the end unless the value
/// is empty, and the lines end with `\n`.
pub open spec fn legacy_set_spec(content: Seq<char>, name: Seq<char>, value: Seq<char>) -> Seq<char> {
    let kept = kept_lines(lines_spec(content), name);
    let all = if value.len() > 0 {
        kept.push(name + "="@ + value)
    } else {
        kept
    };
    join_spec(all, "\n"@) + "\n"@
}

/// The text of the alias file after the first grammar sets `name` to `value` (removes it when
/// `value` is empty).
pub fn set_alias_content(content: &str, name: &str, value: &str) -> (r: String)
    ensures
        r@ == legacy_set_spec(content@, name@, value@),
{
    let nv = chars_of(name);
    let clean = trim_class(nv.as_slice(), Trim::Space);
    let clean_s = string_of(clean.as_slice());
    let low = to_lower(clean_s.as_str());
    let search_s = crate::text::concat(low.as_str(), "=");
    let search = chars_of(search_s.as_str());
    let ls = lines(content);
    let ghost lv = views(ls@);
    let mut kept: Vec<String> = Vec::new();
    let mut i: usize = 0;
    while i < ls.len()
        invariant
            i <= ls@.len(),
            lv == views(ls@),
            search@ == lowercase(trim_ws(name@)) + "="@,
            views(kept@) == kept_lines(lv.take(i as int), name@),
        decreases ls@.len() - i,
    {
        proof {
            assert(lv.take(i + 1).drop_last() =~= lv.take(i as int));
            assert(lv.take(i + 1).last() == ls@[i as int]@);
        }
        let l = to_lower(ls[i].as_str());
        let lc = chars_of(l.as_str());
        if !starts_with(lc.as_slice(), search.as_slice()) {
            let ghost before = views(kept@);
            kept.push(ls[i].clone());
            proof {
                assert(views(kept@) =~= before.push(ls@[i as int]@));
            }
        }
        i = i + 1;
    }
    assert(lv.take(ls@.len() as int) =~= lv);
    if !value.is_empty() {
        let ghost before = views(kept@);
        let d = crate::text::concat3(name, "=", value);
        let ghost dv = d@;
        kept.push(d);
        proof {
            assert(views(kept@) =~= before.push(dv));
        }
    }
    let body = join(&kept, "\n");
    crate::text::concat(body.as_str(), "\n")
}

/// What the first grammar prints for a search of `term`: the first line of the file that
/// defines it (in any case), or a note that it was not found.
pub open spec fn legacy_query_spec(term: Seq<char>, content: Seq<char>) -> Seq<char> {
    let ls = lines_spec(content);
    let i = first_definition(ls, term);
    if i >= 0 {
        ls[i]
    } else {
        "Alias \u{22}"@ + term + "\u{22} not found."@
    }
}

/// What the first grammar prints for a search of `term` in the file's text.
pub fn query_answer(term: &str, content: &str) -> (r: String)
    ensures
        r@ == legacy_query_spec(term@, content@),
{
    let found = query_alias_content(term, content, &Verbosity::mute());
    assert(views(found@).len() == found@.len());
    if found.len() > 0 {
        proof {
            assert(views(found@)[0] == found@[0]@);
        }
        return found[0].clone();
    }
    crate::text::concat3("Alias \u{22}", term, "\u{22} not found.")
}

/// The names of the macros `doskey /macros` listed: each trimmed line that is not blank and
/// not a `[section]` header, up to its first `=`.
pub open spec fn macro_names(ls: Seq<Seq<char>>) -> Seq<Seq<char>>
    decreases ls.len(),
{
    if ls.len() == 0 {
        Seq::empty()
    } else {
        let r = macro_names(ls.drop_last());
        let t = trim_ws(ls.last());
        if t.len() == 0 || "["@.is_prefix_of(t) {
            r
        } else {
            match split_once_spec(t, '=') {
                Some((n, _)) => r.push(n),
                None => r,
            }
        }
    }
}

/// The names of the macros in the output of `doskey /macros`, to be cleared one by one.
pub fn ram_macro_names(stdout: &str) -> (r: Vec<String>)
    ensures
        views(r@) == macro_names(lines_spec(stdout@)),
{
    let ls = lines(stdout);
    let ghost lv = views(ls@);
    let bracket = chars_of("[");
    let mut out: Vec<String> = Vec::new();
    let mut i: usize = 0;
    while i < ls.len()
        invariant
            i <= ls@.len(),
            lv == views(ls@),
            bracket@ == "["@,
            views(out@) == macro_names(lv.take(i as int)),
        decreases ls@.len() - i,
    {
        proof {
            assert(lv.take(i + 1).drop_last() =~= lv.take(i as int));
            assert(lv.take(i + 1).last() == ls@[i as int]@);
        }
        let lc = chars_of(ls[i].as_str());
        let t = trim_class(lc.as_slice(), Trim::Space);
        if t.len() > 0 && !starts_with(t.as_slice(), bracket.as_slice()) {
            match split_once(t.as_slice(), '=') {
                Some((n, _)) => {
                    let ghost before = views(out@);
                    let s = string_of(n.as_slice());
                    out.push(s);
                    proof {
                        assert(views(out@) =~= before.push(n@));
                    }
                },
                None => {},
            }
        }
        i = i + 1;
    }
    assert(lv.take(ls@.len() as int) =~= lv);
    out
}

/// The AutoRun command the first grammar installs: the binary, quoted, with `--reload`.
pub fn legacy_autorun_command(exe: &str) -> (r: String)
    ensures
        r@ == "\u{22}"@ + exe@ + "\u{22} --reload"@,
{
    crate::text::concat3("\u{22}", exe, "\u{22} --reload")
}

} // verus!

verus! {

proof fn lemma_without_quiet(args: Seq<Seq<char>>)
    ensures
        without_quiet(without_quiet(args)) == without_quiet(args),
        !has_quiet(without_quiet(args)),
        has_quiet(args) <==> without_quiet(args).len() < args.len(),
        without_quiet(args).len() <= args.len(),
    decreases args.len(),
{
    if args.len() > 0 {
        let d = args.drop_last();
        lemma_without_quiet(d);
        let r = without_quiet(d);
        let x = args.last();
        if !is_quiet_word(x) {
            assert(r.push(x).drop_last() =~= r);
            assert(r.push(x).last() == x);
            assert forall|i: int| 0 <= i < r.push(x).len() implies !is_quiet_word(#[trigger] r.push(x)[i]) by {
                if i < r.len() {
                    assert(r.push(x)[i] == r[i]);
                }
            }
        }
        if has_quiet(args) {
            let i = choose|i: int| 0 <= i < args.len() && is_quiet_word(#[trigger] args[i]);
            if i < d.len() {
                assert(d[i] == args[i]);
            }
        }
        if has_quiet(d) {
            let i = choose|i: int| 0 <= i < d.len() && is_quiet_word(#[trigger] d[i]);
            assert(args[i] == d[i]);
        }
        if is_quiet_word(x) {
            assert(args[args.len() - 1] == x);
        }
    }
}

/// Law: `--quiet` only sets the flag: the command line without its `--quiet` words gives the
/// same action with the flag off, and the flag is on exactly when some word was dropped.
pub proof fn lemma_quiet_only_sets_flag(args: Seq<Seq<char>>)
    ensures
        legacy_spec(without_quiet(args)).0 == legacy_spec(args).0,
        legacy_spec(without_quiet(args)).1 == false,
        legacy_spec(args).1 == (without_quiet(args).len() < args.len()),
{
    lemma_without_quiet(args);
}

} // verus!
