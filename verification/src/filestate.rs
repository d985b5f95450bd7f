//! The alias file as text: reading its definitions, finding one, and the text after a
//! definition is set or removed.
use vstd::prelude::*;
use crate::text::{
    chars_of, concat, concat3, first_index, join, join_spec, lines, lines_spec, lowercase, owned, split_spec, starts_with, strip_cr,
    str_eq, to_lower, views,
};
use crate::names::{data_line_spec, is_data_line, is_valid_name, valid_name_spec};
use crate::audit::{first_named, pair_views, pluck, put};
use crate::voice::Verbosity;
use crate::model::level_rank;

verus! {

// ---------------------------------------------------------------------------
// Lines that name an alias
// ---------------------------------------------------------------------------

/// Whether `line` defines `name`, in any case: lower-cased, it starts with the lower-cased
/// name and `=`.
pub open spec fn defines(line: Seq<char>, name: Seq<char>) -> bool {
    (lowercase(name) + "="@).is_prefix_of(lowercase(line))
}

/// The position of the first line that defines `name`, or -1.
pub open spec fn first_definition(ls: Seq<Seq<char>>, name: Seq<char>) -> int
    decreases ls.len(),
{
    if ls.len() == 0 {
        -1
    } else {
        let r = first_definition(ls.drop_last(), name);
        if r >= 0 {
            r
        } else if defines(ls.last(), name) {
            ls.len() - 1
        } else {
            -1
        }
    }
}

proof fn lemma_first_definition(ls: Seq<Seq<char>>, name: Seq<char>)
    ensures
        -1 <= first_definition(ls, name) < ls.len(),
        first_definition(ls, name) >= 0 ==> defines(ls[first_definition(ls, name)], name),
        first_definition(ls, name) >= 0 ==> forall|j: int| 0 <= j < first_definition(ls, name) ==> !defines(#[trigger] ls[j], name),
        first_definition(ls, name) < 0 ==> forall|j: int| 0 <= j < ls.len() ==> !defines(#[trigger] ls[j], name),
    decreases ls.len(),
{
    if ls.len() > 0 {
        let d = ls.drop_last();
        lemma_first_definition(d, name);
        let r = first_definition(ls, name);
        if r >= 0 {
            assert forall|j: int| 0 <= j < r implies !defines(#[trigger] ls[j], name) by {
                assert(d[j] == ls[j]);
            }
        } else {
            assert forall|j: int| 0 <= j < ls.len() implies !defines(#[trigger] ls[j], name) by {
                if j < ls.len() - 1 {
                    assert(d[j] == ls[j]);
                }
            }
        }
    }
}

fn line_defines(line: &str, search: &[char]) -> (r: bool)
    ensures
        r == search@.is_prefix_of(lowercase(line@)),
{
    let low = to_lower(line);
    let lv = chars_of(low.as_str());
    starts_with(lv.as_slice(), search)
}

fn find_definition(ls: &Vec<String>, name: &str) -> (r: Option<usize>)
    ensures
        match r {
            Some(i) => first_definition(views(ls@), name@) == i && i < ls@.len(),
            None => first_definition(views(ls@), name@) < 0,
        },
{
    let ghost lv = views(ls@);
    let low = to_lower(name);
    let search_s = concat(low.as_str(), "=");
    let search = chars_of(search_s.as_str());
    let mut i: usize = 0;
    while i < ls.len()
        invariant
            i <= ls@.len(),
            lv == views(ls@),
            search@ == lowercase(name@) + "="@,
            first_definition(lv.take(i as int), name@) < 0,
        decreases ls@.len() - i,
    {
        proof {
            assert(lv.take(i + 1).drop_last() =~= lv.take(i as int));
            assert(lv.take(i + 1).last() == ls@[i as int]@);
        }
        if line_defines(ls[i].as_str(), search.as_slice()) {
            proof {
                lemma_first_definition_prefix(lv, name@, i + 1);
            }
            return Some(i);
        }
        i = i + 1;
    }
    assert(lv.take(i as int) =~= lv);
    None
}

proof fn lemma_first_definition_prefix(ls: Seq<Seq<char>>, name: Seq<char>, i: int)
    requires
        0 <= i <= ls.len(),
    ensures
        first_definition(ls.take(i), name) >= 0 ==> first_definition(ls, name) == first_definition(ls.take(i), name),
    decreases ls.len() - i,
{
    if i < ls.len() {
        lemma_first_definition_prefix(ls, name, i + 1);
        assert(ls.take(i + 1).drop_last() =~= ls.take(i));
    } else {
        assert(ls.take(i) =~= ls);
    }
}

// ---------------------------------------------------------------------------
// Setting or removing a definition in the text
// ---------------------------------------------------------------------------

/// The lines that are not empty, in order.
pub open spec fn nonempty_lines(ls: Seq<Seq<char>>) -> Seq<Seq<char>>
    decreases ls.len(),
{
    if ls.len() == 0 {
        Seq::empty()
    } else {
        let r = nonempty_lines(ls.drop_last());
        if ls.last().len() == 0 {
            r
        } else {
            r.push(ls.last())
        }
    }
}

/// The lines after setting `name` to `value` (removing it when `value` is empty): the first
/// line that defines the name is replaced by `name=value` (or emptied), or `name=value` is
/// added at the end when no line defines it.
pub open spec fn edited_lines(ls: Seq<Seq<char>>, name: Seq<char>, value: Seq<char>) -> Seq<Seq<char>> {
    let i = first_definition(ls, name);
    let def = name + "="@ + value;
    if i >= 0 {
        ls.update(i, if value.len() == 0 { Seq::empty() } else { def })
    } else if value.len() > 0 {
        ls.push(def)
    } else {
        ls
    }
}

/// The text of the alias file after setting `name` to `value` (removing it when `value` is
/// empty): the edited lines without the empty ones, joined by `\n`.
pub open spec fn new_file_state_spec(original: Seq<char>, name: Seq<char>, value: Seq<char>) -> Seq<char> {
    join_spec(nonempty_lines(edited_lines(lines_spec(original), name, value)), "\n"@)
}

fn drop_empty(ls: Vec<String>) -> (r: Vec<String>)
    ensures
        views(r@) == nonempty_lines(views(ls@)),
{
    let ghost lv = views(ls@);
    let mut out: Vec<String> = Vec::new();
    let n = ls.len();
    let mut i: usize = 0;
    while i < n
        invariant
            i <= n,
            n == ls@.len(),
            lv == views(ls@),
            views(out@) == nonempty_lines(lv.take(i as int)),
        decreases n - i,
    {
        proof {
            assert(lv.take(i + 1).drop_last() =~= lv.take(i as int));
            assert(lv.take(i + 1).last() == ls@[i as int]@);
        }
        if !ls[i].as_str().is_empty() {
            let ghost before = views(out@);
            out.push(ls[i].clone());
            proof {
                assert(views(out@) =~= before.push(ls@[i as int]@));
            }
        }
        i = i + 1;
    }
    assert(lv.take(n as int) =~= lv);
    out
}

/// The text of the alias file `original_content` after setting `name` to `value`, or removing
/// it when `value` is empty. The first line that defines the name (in any case) is replaced
/// or removed; a new definition goes last; blank lines are dropped.
pub fn calculate_new_file_state(original_content: &str, name: &str, value: &str) -> (r: String)
    ensures
        r@ == new_file_state_spec(original_content@, name@, value@),
{
    let mut ls = lines(original_content);
    let ghost lv = views(ls@);
    let def = concat3(name, "=", value);
    let value_empty = value.is_empty();
    match find_definition(&ls, name) {
        Some(i) => {
            let repl = if value_empty {
                String::new()
            } else {
                def
            };
            let ghost rv = repl@;
            ls.set(i, repl);
            proof {
                assert(views(ls@) =~= lv.update(i as int, rv));
            }
        },
        None => {
            if !value_empty {
                let ghost dv = def@;
                ls.push(def);
                proof {
                    assert(views(ls@) =~= lv.push(dv));
                }
            }
        },
    }
    let kept = drop_empty(ls);
    join(&kept, "\n")
}

/// Setting a non-empty value leaves exactly its definition `name=value` among the lines of the
/// new text.
pub proof fn lemma_set_then_defined(original: Seq<char>, name: Seq<char>, value: Seq<char>)
    requires
        value.len() > 0,
    ensures
        nonempty_lines(edited_lines(lines_spec(original), name, value)).contains(name + "="@ + value),
{
    let ls = lines_spec(original);
    let e = edited_lines(ls, name, value);
    lemma_first_definition(ls, name);
    let i = first_definition(ls, name);
    let k = if i >= 0 {
        i
    } else {
        ls.len() as int
    };
    assert(e[k] == name + "="@ + value);
    lemma_nonempty_keeps(e, k);
}

proof fn lemma_nonempty_keeps(ls: Seq<Seq<char>>, k: int)
    requires
        0 <= k < ls.len(),
        ls[k].len() > 0,
    ensures
        nonempty_lines(ls).contains(ls[k]),
    decreases ls.len(),
{
    let r = nonempty_lines(ls.drop_last());
    if k == ls.len() - 1 {
        assert(nonempty_lines(ls) == r.push(ls[k]));
        assert(nonempty_lines(ls)[r.len() as int] == ls[k]);
    } else {
        assert(ls.drop_last()[k] == ls[k]);
        lemma_nonempty_keeps(ls.drop_last(), k);
        let j = choose|j: int| 0 <= j < r.len() && r[j] == ls[k];
        if ls.last().len() == 0 {
            assert(nonempty_lines(ls)[j] == ls[k]);
        } else {
            assert(nonempty_lines(ls)[j] == ls[k]);
        }
    }
}

proof fn lemma_nonempty_subset(ls: Seq<Seq<char>>, x: Seq<char>)
    requires
        nonempty_lines(ls).contains(x),
    ensures
        ls.contains(x),
    decreases ls.len(),
{
    if ls.len() > 0 {
        let r = nonempty_lines(ls.drop_last());
        if r.contains(x) {
            lemma_nonempty_subset(ls.drop_last(), x);
            let j = choose|j: int| 0 <= j < ls.drop_last().len() && ls.drop_last()[j] == x;
            assert(ls[j] == x);
        } else {
            assert(x == ls.last());
            assert(ls[ls.len() - 1] == x);
        }
    }
}

/// Removing a name that at most one line defines leaves no line that defines it.
pub proof fn lemma_remove_then_undefined(original: Seq<char>, name: Seq<char>)
    requires
        forall|a: int, b: int|
            0 <= a < b < lines_spec(original).len() && defines(#[trigger] lines_spec(original)[a], name)
                ==> !defines(#[trigger] lines_spec(original)[b], name),
    ensures
        forall|x: Seq<char>| #[trigger] nonempty_lines(edited_lines(lines_spec(original), name, Seq::empty())).contains(x) ==> !defines(x, name),
{
    let ls = lines_spec(original);
    let e = edited_lines(ls, name, Seq::empty());
    lemma_first_definition(ls, name);
    let i = first_definition(ls, name);
    assert forall|x: Seq<char>| #[trigger] nonempty_lines(e).contains(x) implies !defines(x, name) by {
        lemma_nonempty_subset(e, x);
        let j = choose|j: int| 0 <= j < e.len() && e[j] == x;
        if i >= 0 {
            if j != i {
                assert(e[j] == ls[j]);
                if j > i {
                    assert(defines(ls[i], name));
                }
            } else {
                assert(x.len() == 0);
                assert(nonempty_lines(e).contains(x));
                lemma_nonempty_no_empty(e, x);
            }
        } else {
            assert(e[j] == ls[j]);
        }
    }
}

proof fn lemma_nonempty_no_empty(ls: Seq<Seq<char>>, x: Seq<char>)
    requires
        nonempty_lines(ls).contains(x),
    ensures
        x.len() > 0,
    decreases ls.len(),
{
    if ls.len() > 0 {
        let r = nonempty_lines(ls.drop_last());
        if r.contains(x) {
            lemma_nonempty_no_empty(ls.drop_last(), x);
        }
    }
}

// ---------------------------------------------------------------------------
// Pairs of the alias file
// ---------------------------------------------------------------------------

/// Whether a pair is named `name` when letter case is ignored.
pub open spec fn same_name_ci(p: (Seq<char>, Seq<char>), name: Seq<char>) -> bool {
    lowercase(p.0) == lowercase(name)
}

/// The pairs without any pair named `name` in any letter case, the others in order.
pub open spec fn drop_named_ci(m: Seq<(Seq<char>, Seq<char>)>, name: Seq<char>) -> Seq<(Seq<char>, Seq<char>)>
    decreases m.len(),
{
    if m.len() == 0 {
        Seq::empty()
    } else {
        let r = drop_named_ci(m.drop_last(), name);
        if same_name_ci(m.last(), name) {
            r
        } else {
            r.push(m.last())
        }
    }
}

/// The pairs after setting `name` to `value`: an empty `value` removes every pair of that
/// name in any letter case; otherwise the first pair named exactly `name` takes the value in
/// place, or the pair is added at the end.
pub open spec fn update_pairs_spec(m: Seq<(Seq<char>, Seq<char>)>, name: Seq<char>, value: Seq<char>) -> Seq<(Seq<char>, Seq<char>)> {
    if value.len() == 0 {
        drop_named_ci(m, name)
    } else {
        put(m, name, value)
    }
}

fn drop_pairs_ci(pairs: Vec<(String, String)>, name: &str) -> (r: Vec<(String, String)>)
    ensures
        pair_views(r@) == drop_named_ci(pair_views(pairs@), name@),
{
    let ghost pv = pair_views(pairs@);
    let low = to_lower(name);
    let mut out: Vec<(String, String)> = Vec::new();
    let mut i: usize = 0;
    while i < pairs.len()
        invariant
            i <= pairs@.len(),
            pv == pair_views(pairs@),
            low@ == lowercase(name@),
            pair_views(out@) == drop_named_ci(pv.take(i as int), name@),
        decreases pairs@.len() - i,
    {
        proof {
            assert(pv.take(i + 1).drop_last() =~= pv.take(i as int));
            assert(pv.take(i + 1).last() == (pairs@[i as int].0@, pairs@[i as int].1@));
        }
        let l = to_lower(pairs[i].0.as_str());
        if !str_eq(l.as_str(), low.as_str()) {
            let ghost before = pair_views(out@);
            out.push((pairs[i].0.clone(), pairs[i].1.clone()));
            proof {
                assert(pair_views(out@) =~= before.push(pv[i as int]));
            }
        }
        i = i + 1;
    }
    assert(pv.take(pairs@.len() as int) =~= pv);
    out
}

/// The definitions after setting `name` to `value`: an empty value removes every definition
/// of that name in any letter case; otherwise the first pair named exactly `name` takes the
/// value, or a new pair goes last.
pub fn update_pairs(pairs: Vec<(String, String)>, name: &str, value: &str) -> (r: Vec<(String, String)>)
    ensures
        pair_views(r@) == update_pairs_spec(pair_views(pairs@), name@, value@),
{
    if value.is_empty() {
        return drop_pairs_ci(pairs, name);
    }
    let ghost pv = pair_views(pairs@);
    let mut m = pairs;
    let mut i: usize = 0;
    let n = m.len();
    while i < n
        invariant
            i <= n,
            n == m@.len(),
            pv == pair_views(m@),
            pv == pair_views(pairs@),
            first_named(pv.take(i as int), name@) < 0,
            value@.len() > 0,
        decreases n - i,
    {
        proof {
            assert(pv.take(i + 1).drop_last() =~= pv.take(i as int));
            assert(pv.take(i + 1).last() == (m@[i as int].0@, m@[i as int].1@));
        }
        if str_eq(m[i].0.as_str(), name) {
            proof {
                crate::audit::lemma_first_named_prefix(pv, name@, i + 1);
            }
            let ghost kv = (name@, value@);
            m.set(i, (owned(name), owned(value)));
            proof {
                assert(pair_views(m@) =~= pv.update(i as int, kv));
            }
            return m;
        }
        i = i + 1;
    }
    assert(pv.take(n as int) =~= pv);
    let ghost kv = (name@, value@);
    m.push((owned(name), owned(value)));
    proof {
        assert(pair_views(m@) =~= pv.push(kv));
    }
    m
}

proof fn lemma_drop_update_same(m: Seq<(Seq<char>, Seq<char>)>, name: Seq<char>, i: int, x: (Seq<char>, Seq<char>))
    requires
        0 <= i < m.len(),
        same_name_ci(m[i], name),
        same_name_ci(x, name),
    ensures
        drop_named_ci(m.update(i, x), name) == drop_named_ci(m, name),
    decreases m.len(),
{
    let u = m.update(i, x);
    if i < m.len() - 1 {
        assert(u.drop_last() =~= m.drop_last().update(i, x));
        lemma_drop_update_same(m.drop_last(), name, i, x);
        assert(u.last() == m.last());
    } else {
        assert(u.drop_last() =~= m.drop_last());
    }
}

proof fn lemma_drop_idempotent(m: Seq<(Seq<char>, Seq<char>)>, name: Seq<char>)
    ensures
        drop_named_ci(drop_named_ci(m, name), name) == drop_named_ci(m, name),
    decreases m.len(),
{
    if m.len() > 0 {
        lemma_drop_idempotent(m.drop_last(), name);
        let r = drop_named_ci(m.drop_last(), name);
        if !same_name_ci(m.last(), name) {
            assert(r.push(m.last()).drop_last() =~= r);
        }
    }
}

/// Removing a name after setting it leaves the same pairs as removing it alone: whatever
/// value was set, the removal takes every pair of that name in any letter case.
pub proof fn lemma_remove_after_set(m: Seq<(Seq<char>, Seq<char>)>, name: Seq<char>, value: Seq<char>)
    ensures
        update_pairs_spec(update_pairs_spec(m, name, value), name, Seq::empty())
            == update_pairs_spec(m, name, Seq::empty()),
{
    if value.len() == 0 {
        lemma_drop_idempotent(m, name);
    } else {
        crate::audit::lemma_first_named(m, name);
        let i = first_named(m, name);
        if i >= 0 {
            lemma_drop_update_same(m, name, i, (name, value));
        } else {
            assert(m.push((name, value)).drop_last() =~= m);
        }
    }
}

/// After setting a non-empty value, the first pair with that name holds it.
pub proof fn lemma_update_then_lookup(m: Seq<(Seq<char>, Seq<char>)>, name: Seq<char>, value: Seq<char>)
    requires
        value.len() > 0,
    ensures
        pluck(update_pairs_spec(m, name, value), name).0 == Some(value),
{
    crate::audit::lemma_first_named(m, name);
    let u = update_pairs_spec(m, name, value);
    let i = first_named(m, name);
    if i >= 0 {
        assert forall|j: int| 0 <= j < i implies u[j].0 != name by {
            assert(u[j] == m[j]);
        }
        lemma_first_named_is(u, name, i);
    } else {
        assert forall|j: int| 0 <= j < m.len() implies u[j].0 != name by {
            assert(u[j] == m[j]);
        }
        lemma_first_named_is(u, name, m.len() as int);
    }
}

proof fn lemma_first_named_is(m: Seq<(Seq<char>, Seq<char>)>, k: Seq<char>, i: int)
    requires
        0 <= i < m.len(),
        m[i].0 == k,
        forall|j: int| 0 <= j < i ==> m[j].0 != k,
    ensures
        first_named(m, k) == i,
{
    crate::audit::lemma_first_named(m, k);
    let f = first_named(m, k);
    if f >= 0 && f < i {
        assert(m[f].0 != k);
    }
}

/// The line that defines a pair: `name=value`.
pub open spec fn def_line(p: (Seq<char>, Seq<char>)) -> Seq<char> {
    p.0 + "="@ + p.1
}

/// The text written for the pairs: `name=value` lines joined by `\n`.
pub open spec fn pairs_text_spec(m: Seq<(Seq<char>, Seq<char>)>) -> Seq<char> {
    join_spec(m.map_values(|p: (Seq<char>, Seq<char>)| def_line(p)), "\n"@)
}

/// The text written for the pairs: `name=value` lines joined by `\n`.
pub fn pairs_text(pairs: &Vec<(String, String)>) -> (r: String)
    ensures
        r@ == pairs_text_spec(pair_views(pairs@)),
{
    let ghost pv = pair_views(pairs@);
    let mut ls: Vec<String> = Vec::new();
    let mut i: usize = 0;
    while i < pairs.len()
        invariant
            i <= pairs@.len(),
            pv == pair_views(pairs@),
            views(ls@) == pv.take(i as int).map_values(|p: (Seq<char>, Seq<char>)| def_line(p)),
        decreases pairs@.len() - i,
    {
        let line = concat3(pairs[i].0.as_str(), "=", pairs[i].1.as_str());
        let ghost before = views(ls@);
        let ghost lv = line@;
        ls.push(line);
        proof {
            assert(pv[i as int] == (pairs@[i as int].0@, pairs@[i as int].1@));
            assert(lv == def_line(pv[i as int]));
            assert(views(ls@) =~= before.push(lv));
            assert(pv.take(i + 1) =~= pv.take(i as int).push(pv[i as int]));
            assert(pv.take(i + 1).map_values(|p: (Seq<char>, Seq<char>)| def_line(p)) =~= pv.take(i as int).map_values(|p: (Seq<char>, Seq<char>)| def_line(p)).push(def_line(pv[i as int])));
        }
        i = i + 1;
    }
    assert(pv.take(pairs@.len() as int) =~= pv);
    join(&ls, "\n")
}

// ---------------------------------------------------------------------------
// Reading the alias file
// ---------------------------------------------------------------------------

/// The definitions of the lines: the data lines, and only those whose name is valid when
/// `strict`.
pub open spec fn data_pairs(ls: Seq<Seq<char>>, strict: bool) -> Seq<(Seq<char>, Seq<char>)>
    decreases ls.len(),
{
    if ls.len() == 0 {
        Seq::empty()
    } else {
        let r = data_pairs(ls.drop_last(), strict);
        match data_line_spec(ls.last()) {
            Some(p) => if !strict || valid_name_spec(p.0) {
                r.push(p)
            } else {
                r
            },
            None => r,
        }
    }
}

/// The definitions of an alias file's text: each data line's name and value, in order; when
/// `strict`, only those whose name is a valid alias name.
pub fn parse_macro_content(content: &str, strict: bool) -> (r: Vec<(String, String)>)
    ensures
        pair_views(r@) == data_pairs(lines_spec(content@), strict),
{
    let ls = lines(content);
    let ghost lv = views(ls@);
    let mut out: Vec<(String, String)> = Vec::new();
    let mut i: usize = 0;
    while i < ls.len()
        invariant
            i <= ls@.len(),
            lv == views(ls@),
            lv == lines_spec(content@),
            pair_views(out@) == data_pairs(lv.take(i as int), strict),
        decreases ls@.len() - i,
    {
        proof {
            assert(lv.take(i + 1).drop_last() =~= lv.take(i as int));
            assert(lv.take(i + 1).last() == ls@[i as int]@);
        }
        match is_data_line(ls[i].as_str()) {
            Some((n, v)) => {
                if !strict || is_valid_name(n.as_str()) {
                    let ghost before = pair_views(out@);
                    let ghost p = (n@, v@);
                    out.push((n, v));
                    proof {
                        assert(pair_views(out@) =~= before.push(p));
                    }
                }
            },
            None => {},
        }
        i = i + 1;
    }
    assert(lv.take(ls@.len() as int) =~= lv);
    out
}

/// The number of data lines of an alias file's text.
pub fn count_data_lines(content: &str) -> (r: usize)
    ensures
        r == data_pairs(lines_spec(content@), false).len(),
{
    let pairs = parse_macro_content(content, false);
    assert(pair_views(pairs@).len() == pairs@.len());
    pairs.len()
}

/// What a search of the alias file's text for `name` gives: the first line that defines it
/// (in any case), or, unless silent, a note that it is not known.
pub open spec fn query_content_spec(name: Seq<char>, content: Seq<char>, v: Verbosity) -> Seq<Seq<char>> {
    let ls = lines_spec(content);
    let i = first_definition(ls, name);
    if i >= 0 {
        seq![ls[i]]
    } else if level_rank(v.level) > 1 {
        seq![name + " is not a known alias in the config file."@]
    } else {
        Seq::empty()
    }
}

/// Searches the alias file's text for `name`.
pub fn query_alias_content(name: &str, content: &str, verbosity: &Verbosity) -> (r: Vec<String>)
    ensures
        views(r@) == query_content_spec(name@, content@, *verbosity),
{
    let ls = lines(content);
    let mut out: Vec<String> = Vec::new();
    match find_definition(&ls, name) {
        Some(i) => {
            out.push(ls[i].clone());
            proof {
                assert(views(out@) =~= seq![views(ls@)[i as int]]);
            }
        },
        None => {
            if !verbosity.is_silent() {
                out.push(concat(name, " is not a known alias in the config file."));
                proof {
                    assert(views(out@) =~= seq![name@ + " is not a known alias in the config file."@]);
                }
            } else {
                assert(views(out@) =~= Seq::<Seq<char>>::empty());
            }
        },
    }
    out
}

/// The answer to a search when the alias file is busy.
pub fn access_denied_note(name: &str) -> (r: String)
    ensures
        r@ == "Access denied: "@ + name@ + " is currently busy."@,
{
    concat3("Access denied: ", name, " is currently busy.")
}

/// Whether a path is a usable alias file, from its metadata (`None` when it has none): a file
/// no larger than `threshold` bytes.
pub fn is_path_healthy(metadata: Option<(bool, u64)>, threshold: usize) -> (r: bool)
    ensures
        r == match metadata {
            None => false,
            Some((is_file, len)) => is_file && len <= threshold,
        },
{
    match metadata {
        None => false,
        Some((is_file, len)) => {
            if !is_file {
                return false;
            }
            if len > threshold as u64 {
                return false;
            }
            true
        },
    }
}

} // verus!
verus! {

// ---------------------------------------------------------------------------
// Setting, then removing, in the text
// ---------------------------------------------------------------------------

proof fn lemma_split_pieces_clean(s: Seq<char>, c: char)
    ensures
        forall|j: int| 0 <= j < split_spec(s, c).len() ==> !(#[trigger] split_spec(s, c)[j]).contains(c),
    decreases s.len(),
{
    crate::text::lemma_first_index(s, c);
    let i = first_index(s, c);
    if i < 0 || i >= s.len() {
    } else {
        lemma_split_pieces_clean(s.skip(i + 1), c);
        let r = split_spec(s.skip(i + 1), c);
        assert forall|j: int| 0 <= j < split_spec(s, c).len() implies !(#[trigger] split_spec(s, c)[j]).contains(c) by {
            if j == 0 {
                assert(split_spec(s, c)[0] == s.take(i));
                assert forall|k: int| 0 <= k < s.take(i).len() implies s.take(i)[k] != c by {
                    assert(s.take(i)[k] == s[k]);
                }
            } else {
                assert(split_spec(s, c)[j] == r[j - 1]);
            }
        }
    }
}

proof fn lemma_lines_clean(s: Seq<char>)
    ensures
        forall|j: int| 0 <= j < lines_spec(s).len() ==> !(#[trigger] lines_spec(s)[j]).contains('\n'),
{
    let parts = split_spec(s, '\n');
    lemma_split_pieces_clean(s, '\n');
    crate::text::lemma_split_nonempty(s, '\n');
    let n = parts.len() as int;
    let ls = lines_spec(s);
    assert forall|j: int| 0 <= j < ls.len() implies !(#[trigger] ls[j]).contains('\n') by {
        let p = parts[j];
        assert(!p.contains('\n'));
        if j < n - 1 {
            assert(ls[j] == strip_cr(p));
            if p.len() > 0 && p.last() == '\r' {
                assert forall|k: int| 0 <= k < p.drop_last().len() implies p.drop_last()[k] != '\n' by {
                    assert(p.drop_last()[k] == p[k]);
                }
            }
        } else {
            assert(ls[j] == p);
        }
    }
}

proof fn lemma_split_one(a: Seq<char>, c: char)
    requires
        !a.contains(c),
    ensures
        split_spec(a, c) == seq![a],
{
    crate::text::lemma_first_index(a, c);
}

proof fn lemma_split_front(a: Seq<char>, b: Seq<char>, c: char)
    requires
        !a.contains(c),
    ensures
        split_spec(a + seq![c] + b, c) == seq![a] + split_spec(b, c),
{
    let s = a + seq![c] + b;
    assert forall|j: int| 0 <= j < a.len() implies s[j] != c by {
        assert(s[j] == a[j]);
    }
    crate::text::lemma_first_index_at(s, c, a.len() as int);
    assert(s.take(a.len() as int) =~= a);
    assert(s.skip(a.len() as int + 1) =~= b);
}

proof fn lemma_join_front(l: Seq<Seq<char>>, sep: Seq<char>)
    requires
        l.len() >= 2,
    ensures
        join_spec(l, sep) == l[0] + sep + join_spec(l.drop_first(), sep),
    decreases l.len(),
{
    if l.len() == 2 {
        assert(l.drop_first().len() == 1);
        assert(join_spec(l.drop_first(), sep) == l.drop_first()[0]);
        assert(join_spec(l.drop_last(), sep) == l.drop_last()[0]);
    } else {
        lemma_join_front(l.drop_last(), sep);
        assert(l.drop_last().drop_first() =~= l.drop_first().drop_last());
        assert(l.drop_first().last() == l.last());
    }
}

proof fn lemma_split_join(l: Seq<Seq<char>>)
    requires
        l.len() >= 1,
        forall|j: int| 0 <= j < l.len() ==> !(#[trigger] l[j]).contains('\n'),
    ensures
        split_spec(join_spec(l, "\n"@), '\n') == l,
    decreases l.len(),
{
    reveal_strlit("\n");
    if l.len() == 1 {
        lemma_split_one(l[0], '\n');
        assert(seq![l[0]] =~= l);
    } else {
        lemma_join_front(l, "\n"@);
        let t = l.drop_first();
        assert forall|j: int| 0 <= j < t.len() implies !(#[trigger] t[j]).contains('\n') by {
            assert(t[j] == l[j + 1]);
        }
        lemma_split_join(t);
        assert("\n"@ =~= seq!['\n']);
        lemma_split_front(l[0], join_spec(t, "\n"@), '\n');
        assert(seq![l[0]] + t =~= l);
    }
}

/// Lines that are not empty, hold no `\n` and do not end with `\r` read back as themselves
/// once joined by `\n`.
proof fn lemma_lines_join(l: Seq<Seq<char>>)
    requires
        forall|j: int| 0 <= j < l.len() ==> (#[trigger] l[j]).len() > 0 && !l[j].contains('\n')
            && l[j].last() != '\r',
    ensures
        lines_spec(join_spec(l, "\n"@)) == l,
{
    if l.len() == 0 {
        assert(split_spec(Seq::<char>::empty(), '\n') == seq![Seq::<char>::empty()]) by {
            lemma_split_one(Seq::<char>::empty(), '\n');
        }
        assert(lines_spec(join_spec(l, "\n"@)) =~= l);
    } else {
        lemma_split_join(l);
        let n = l.len() as int;
        let body = l.take(n - 1).map_values(|p: Seq<char>| strip_cr(p));
        assert(body =~= l.take(n - 1)) by {
            assert forall|j: int| 0 <= j < n - 1 implies body[j] == l.take(n - 1)[j] by {
                assert(l[j].last() != '\r');
            }
        }
        assert(l.take(n - 1).push(l[n - 1]) =~= l);
    }
}

proof fn lemma_nonempty_concat(a: Seq<Seq<char>>, b: Seq<Seq<char>>)
    ensures
        nonempty_lines(a + b) == nonempty_lines(a) + nonempty_lines(b),
    decreases b.len(),
{
    if b.len() == 0 {
        assert(a + b =~= a);
        assert(nonempty_lines(a) + nonempty_lines(b) =~= nonempty_lines(a));
    } else {
        lemma_nonempty_concat(a, b.drop_last());
        assert((a + b).drop_last() =~= a + b.drop_last());
        assert((a + b).last() == b.last());
        if b.last().len() > 0 {
            assert(nonempty_lines(a) + nonempty_lines(b.drop_last()).push(b.last())
                =~= (nonempty_lines(a) + nonempty_lines(b.drop_last())).push(b.last()));
        }
    }
}

proof fn lemma_nonempty_idem(a: Seq<Seq<char>>)
    ensures
        nonempty_lines(nonempty_lines(a)) == nonempty_lines(a),
        forall|j: int| 0 <= j < nonempty_lines(a).len() ==> (#[trigger] nonempty_lines(a)[j]).len() > 0,
    decreases a.len(),
{
    if a.len() > 0 {
        lemma_nonempty_idem(a.drop_last());
        let r = nonempty_lines(a.drop_last());
        if a.last().len() > 0 {
            assert(r.push(a.last()).drop_last() =~= r);
            assert forall|j: int| 0 <= j < r.push(a.last()).len() implies (#[trigger] r.push(a.last())[j]).len() > 0 by {
                if j < r.len() {
                    assert(r.push(a.last())[j] == r[j]);
                }
            }
        }
    }
}

proof fn lemma_nonempty_single(x: Seq<char>)
    ensures
        nonempty_lines(seq![x]) == (if x.len() > 0 { seq![x] } else { Seq::empty() }),
{
    let s = seq![x];
    assert(s.drop_last() =~= Seq::<Seq<char>>::empty());
    assert(s.last() == x);
    assert(nonempty_lines(Seq::<Seq<char>>::empty()) == Seq::<Seq<char>>::empty());
    if x.len() > 0 {
        assert(Seq::<Seq<char>>::empty().push(x) =~= seq![x]);
    }
}

proof fn lemma_first_definition_is(ls: Seq<Seq<char>>, name: Seq<char>, k: int)
    requires
        0 <= k < ls.len(),
        defines(ls[k], name),
        forall|j: int| 0 <= j < k ==> !defines(#[trigger] ls[j], name),
    ensures
        first_definition(ls, name) == k,
{
    lemma_first_definition(ls, name);
    let f = first_definition(ls, name);
    if f >= 0 && f < k {
        assert(!defines(ls[f], name));
    }
}

proof fn lemma_nonempty_elements(a: Seq<Seq<char>>, x: Seq<char>)
    requires
        nonempty_lines(a).contains(x),
    ensures
        a.contains(x),
{
    lemma_nonempty_subset(a, x);
}

/// Law: removing a name after setting it leaves the same text as removing it alone, when at
/// most one line of the text defines the name, no line ends with `\r`, the name and value
/// hold no line break, and the new line `name=value` reads as defining the name (lower-casing
/// keeps `name=` at its front).
pub proof fn lemma_set_then_remove(original: Seq<char>, name: Seq<char>, value: Seq<char>)
    requires
        forall|a: int, b: int|
            0 <= a < b < lines_spec(original).len() && defines(#[trigger] lines_spec(original)[a], name)
                ==> !defines(#[trigger] lines_spec(original)[b], name),
        forall|j: int| 0 <= j < lines_spec(original).len() ==> !((#[trigger] lines_spec(original)[j]).len() > 0
            && lines_spec(original)[j].last() == '\r'),
        !name.contains('\n'),
        !name.contains('\r'),
        !value.contains('\n'),
        !value.contains('\r'),
        defines(name + "="@ + value, name),
    ensures
        new_file_state_spec(new_file_state_spec(original, name, value), name, Seq::empty())
            == new_file_state_spec(original, name, Seq::empty()),
{
    reveal_strlit("=");
    let ls = lines_spec(original);
    let d = name + "="@ + value;
    let e1 = nonempty_lines(edited_lines(ls, name, value));
    lemma_lines_clean(original);
    lemma_first_definition(ls, name);
    lemma_nonempty_idem(edited_lines(ls, name, value));
    assert(!d.contains('\n')) by {
        assert forall|k: int| 0 <= k < d.len() implies d[k] != '\n' by {
            if k < name.len() {
                assert(d[k] == name[k]);
            } else if k > name.len() {
                assert(d[k] == value[k - name.len() - 1]);
            }
        }
    }
    assert(d.len() > 0 && d.last() != '\r') by {
        if value.len() > 0 {
            assert(d.last() == value.last());
            assert(value.contains(value.last()));
        } else {
            assert(d.last() == '=');
        }
    }
    assert forall|j: int| 0 <= j < e1.len() implies (#[trigger] e1[j]).len() > 0 && !e1[j].contains('\n')
        && e1[j].last() != '\r' by {
        assert(e1.contains(e1[j]));
        lemma_nonempty_elements(edited_lines(ls, name, value), e1[j]);
        let ed = edited_lines(ls, name, value);
        let m = choose|m: int| 0 <= m < ed.len() && ed[m] == e1[j];
        assert(ed[m].len() > 0);
        let i0 = first_definition(ls, name);
        if i0 >= 0 {
            if m != i0 {
                assert(ed[m] == ls[m]);
            } else {
                assert(ed[m] == d);
            }
        } else if value.len() > 0 {
            if m < ls.len() {
                assert(ed[m] == ls[m]);
            } else {
                assert(ed[m] == d);
            }
        } else {
            assert(ed[m] == ls[m]);
        }
    }
    lemma_lines_join(e1);
    assert(lines_spec(new_file_state_spec(original, name, value)) == e1);
    lemma_first_definition(ls, name);
    let i = first_definition(ls, name);
    let target = nonempty_lines(edited_lines(ls, name, Seq::empty()));
    if i >= 0 {
        let a = ls.take(i);
        let b = ls.skip(i + 1);
        assert forall|x: Seq<char>| #[trigger] nonempty_lines(a).contains(x) implies !defines(x, name) by {
            lemma_nonempty_subset(a, x);
            let m = choose|m: int| 0 <= m < a.len() && a[m] == x;
            assert(a[m] == ls[m]);
        }
        assert forall|x: Seq<char>| #[trigger] nonempty_lines(b).contains(x) implies !defines(x, name) by {
            lemma_nonempty_subset(b, x);
            let m = choose|m: int| 0 <= m < b.len() && b[m] == x;
            assert(b[m] == ls[i + 1 + m]);
        }
        assert(ls.update(i, Seq::empty()) =~= a + seq![Seq::<char>::empty()] + b);
        lemma_nonempty_concat(a + seq![Seq::<char>::empty()], b);
        lemma_nonempty_concat(a, seq![Seq::<char>::empty()]);
        lemma_nonempty_single(Seq::<char>::empty());
        assert(target =~= nonempty_lines(a) + nonempty_lines(b));
        if value.len() > 0 {
            assert(ls.update(i, d) =~= a + seq![d] + b);
            lemma_nonempty_concat(a + seq![d], b);
            lemma_nonempty_concat(a, seq![d]);
            lemma_nonempty_single(d);
            let na = nonempty_lines(a);
            let nb = nonempty_lines(b);
            assert(e1 =~= na + seq![d] + nb);
            assert forall|j: int| 0 <= j < na.len() implies !defines(#[trigger] e1[j], name) by {
                assert(e1[j] == na[j]);
                assert(na.contains(na[j]));
            }
            assert(e1[na.len() as int] == d);
            lemma_first_definition_is(e1, name, na.len() as int);
            let e2 = edited_lines(e1, name, Seq::empty());
            assert(e2 =~= na + seq![Seq::<char>::empty()] + nb);
            lemma_nonempty_concat(na + seq![Seq::<char>::empty()], nb);
            lemma_nonempty_concat(na, seq![Seq::<char>::empty()]);
            lemma_nonempty_idem(a);
            lemma_nonempty_idem(b);
            assert(nonempty_lines(e2) =~= target);
        } else {
            assert(e1 =~= target);
            let na = nonempty_lines(a);
            let nb = nonempty_lines(b);
            assert forall|j: int| 0 <= j < e1.len() implies !defines(#[trigger] e1[j], name) by {
                if j < na.len() {
                    assert(e1[j] == na[j]);
                    assert(na.contains(na[j]));
                } else {
                    assert(e1[j] == nb[j - na.len()]);
                    assert(nb.contains(nb[j - na.len()]));
                }
            }
            lemma_first_definition(e1, name);
            lemma_nonempty_idem(edited_lines(ls, name, value));
        }
    } else {
        assert(target == nonempty_lines(ls));
        assert forall|x: Seq<char>| #[trigger] nonempty_lines(ls).contains(x) implies !defines(x, name) by {
            lemma_nonempty_subset(ls, x);
        }
        let nl = nonempty_lines(ls);
        if value.len() > 0 {
            assert(ls.push(d) =~= ls + seq![d]);
            lemma_nonempty_concat(ls, seq![d]);
            lemma_nonempty_single(d);
            assert(e1 =~= nl + seq![d]);
            assert forall|j: int| 0 <= j < nl.len() implies !defines(#[trigger] e1[j], name) by {
                assert(e1[j] == nl[j]);
                assert(nl.contains(nl[j]));
            }
            lemma_first_definition_is(e1, name, nl.len() as int);
            let e2 = edited_lines(e1, name, Seq::empty());
            assert(e2 =~= nl + seq![Seq::<char>::empty()]);
            lemma_nonempty_concat(nl, seq![Seq::<char>::empty()]);
            lemma_nonempty_single(Seq::<char>::empty());
            lemma_nonempty_idem(ls);
            assert(nonempty_lines(e2) =~= target);
        } else {
            assert(e1 == nl);
            assert forall|j: int| 0 <= j < e1.len() implies !defines(#[trigger] e1[j], name) by {
                assert(nl.contains(nl[j]));
            }
            lemma_first_definition(e1, name);
            lemma_nonempty_idem(ls);
        }
    }
}

} // verus!
