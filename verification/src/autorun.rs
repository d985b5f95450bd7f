//! The command the console runs at start-up: what `--setup` installs, and how it is merged
//! into the AutoRun entries other tools keep there.
use vstd::prelude::*;
use crate::text::{
    chars_of, concat, concat3, contains_sub, has_sub, join, join_spec, lowercase, split_char,
    split_spec, string_of, to_lower, trim_class, trim_spec, trim_ws, views, Trim,
};
use crate::action::{AliasAction, ActionView, cli_args_spec};
use crate::model::{RegistryStatus, Task, TaskQueue};
use crate::parse::{TaskView, task_view, task_views};

verus! {

// ---------------------------------------------------------------------------
// The setup payload
// ---------------------------------------------------------------------------

/// A path in exactly one pair of double quotes.
pub open spec fn sanitize_spec(p: Seq<char>) -> Seq<char> {
    "\u{22}"@ + trim_spec(p, Trim::Char('\u{22}')) + "\u{22}"@
}

/// Wraps a path in exactly one pair of double quotes (quotes already at its ends are dropped).
pub fn sanitize_path(original: &str) -> (r: String)
    ensures
        r@ == sanitize_spec(original@),
{
    let v = chars_of(original);
    let t = trim_class(v.as_slice(), Trim::Char('\u{22}'));
    let inner = string_of(t.as_slice());
    concat3("\u{22}", inner.as_str(), "\u{22}")
}

/// The parts of the start-up command for the tasks: a `--file` keeps its path, quoted; the
/// other tasks give their switches; `--setup` itself and tasks without switches give nothing.
pub open spec fn payload_parts(tasks: Seq<TaskView>) -> Seq<Seq<char>>
    decreases tasks.len(),
{
    if tasks.len() == 0 {
        seq!["--startup"@]
    } else {
        let r = payload_parts(tasks.drop_last());
        let t = tasks.last();
        if t.action is Setup {
            r
        } else if t.action is File {
            r.push("--file "@ + sanitize_spec(t.path))
        } else if cli_args_spec(t.action).len() > 0 {
            r.push(cli_args_spec(t.action))
        } else {
            r
        }
    }
}

/// The start-up command a setup installs for its queue: the parts joined by single spaces
/// (no double and no trailing space).
pub open spec fn setup_payload_spec(tasks: Seq<TaskView>) -> Seq<char> {
    join_spec(payload_parts(tasks), " "@)
}

/// The start-up command a setup installs for `queue`.
pub fn setup_payload(queue: &TaskQueue) -> (r: String)
    ensures
        r@ == setup_payload_spec(task_views(queue.tasks@)),
{
    let ghost tv = task_views(queue.tasks@);
    let mut parts: Vec<String> = Vec::new();
    parts.push(crate::text::owned("--startup"));
    proof {
        assert(tv.take(0) =~= Seq::<TaskView>::empty());
        assert(views(parts@) =~= payload_parts(tv.take(0)));
    }
    let mut i: usize = 0;
    while i < queue.tasks.len()
        invariant
            i <= queue.tasks@.len(),
            tv == task_views(queue.tasks@),
            views(parts@) == payload_parts(tv.take(i as int)),
        decreases queue.tasks@.len() - i,
    {
        let task = &queue.tasks[i];
        let ghost t = task_view(*task);
        proof {
            assert(tv[i as int] == t);
            assert(tv.take(i + 1).drop_last() =~= tv.take(i as int));
            assert(tv.take(i + 1).last() == t);
        }
        let ghost before = views(parts@);
        match &task.action {
            AliasAction::Setup => {},
            AliasAction::File => {
                let quoted = sanitize_path(task.path.as_str());
                parts.push(concat("--file ", quoted.as_str()));
                proof {
                    assert(views(parts@) =~= before.push("--file "@ + sanitize_spec(t.path)));
                }
            },
            _ => {
                let cmd = task.action.to_cli_args();
                let cv = chars_of(cmd.as_str());
                if cv.len() > 0 {
                    parts.push(cmd);
                    proof {
                        assert(views(parts@) =~= before.push(cli_args_spec(t.action)));
                    }
                }
            },
        }
        i = i + 1;
    }
    assert(tv.take(queue.tasks@.len() as int) =~= tv);
    join(&parts, " ")
}

/// How the start-up command names the tool: by its bare name when the search path finds this
/// very binary, by its full path in quotes otherwise.
pub open spec fn call_identifier_spec(search_name: Seq<char>, current: Seq<char>, found: Option<Seq<char>>) -> Seq<char> {
    match found {
        Some(f) => if f == current {
            search_name
        } else {
            "\u{22}"@ + current + "\u{22}"@
        },
        None => "\u{22}"@ + current + "\u{22}"@,
    }
}

/// How the start-up command names the tool, from its name, the canonical path of the running
/// binary, and the canonical path the search path finds for the name (if any).
pub fn call_identifier(search_name: &str, current: &str, found: Option<&str>) -> (r: String)
    ensures
        r@ == call_identifier_spec(search_name@, current@, match found {
            Some(f) => Some(f@),
            None => None,
        }),
{
    match found {
        Some(f) => {
            let fv = chars_of(f);
            let cv = chars_of(current);
            if crate::text::chars_eq(fv.as_slice(), cv.as_slice()) {
                return crate::text::owned(search_name);
            }
            concat3("\u{22}", current, "\u{22}")
        },
        None => concat3("\u{22}", current, "\u{22}"),
    }
}

/// The command written to AutoRun: the tool, `--startup`, then the start-up arguments
/// (trimmed) when there are any.
pub open spec fn autorun_command_spec(call_id: Seq<char>, startup: Seq<char>) -> Seq<char> {
    if startup.len() == 0 {
        call_id + " --startup"@
    } else {
        call_id + " --startup "@ + trim_ws(startup)
    }
}

/// The command written to AutoRun for the tool named `call_id` and the start-up arguments.
pub fn autorun_command(call_id: &str, startup: &str) -> (r: String)
    ensures
        r@ == autorun_command_spec(call_id@, startup@),
{
    let sv = chars_of(startup);
    if sv.len() == 0 {
        return concat(call_id, " --startup");
    }
    let t = trim_class(sv.as_slice(), Trim::Space);
    let ts = string_of(t.as_slice());
    concat3(call_id, " --startup ", ts.as_str())
}

/// The start-up arguments for an alias file the user typed in: `--file "path"`.
pub fn file_clause(path: &str) -> (r: String)
    ensures
        r@ == "--file \u{22}"@ + path@ + "\u{22}"@,
{
    concat3("--file \u{22}", path, "\u{22}")
}

/// Where the arguments of the start-up command come from.
pub enum StartupSource {
    /// The arguments a setup's queue gave.
    Payload(String),
    /// None: `ALIAS_FILE` in the environment names the alias file.
    Environment,
    /// None yet: the user is asked for an alias file.
    Ask,
}

/// Where the start-up command's arguments come from: the setup's payload when it holds any,
/// nothing when `ALIAS_FILE` is set, otherwise the user is asked for a file.
pub fn startup_source(payload: &str, alias_file_set: bool) -> (r: StartupSource)
    ensures
        payload@.len() > 0 ==> (r matches StartupSource::Payload(p) && p@ == payload@),
        payload@.len() == 0 && alias_file_set ==> r is Environment,
        payload@.len() == 0 && !alias_file_set ==> r is Ask,
{
    let pv = chars_of(payload);
    if pv.len() > 0 {
        StartupSource::Payload(crate::text::owned(payload))
    } else if alias_file_set {
        StartupSource::Environment
    } else {
        StartupSource::Ask
    }
}

// ---------------------------------------------------------------------------
// Merging into AutoRun
// ---------------------------------------------------------------------------

/// The commands of an AutoRun value: the pieces between `&`, trimmed, empty ones dropped.
pub open spec fn autorun_entries(raw: Seq<char>) -> Seq<Seq<char>> {
    nonempty_trimmed(split_spec(raw, '&'))
}

pub open spec fn nonempty_trimmed(p: Seq<Seq<char>>) -> Seq<Seq<char>>
    decreases p.len(),
{
    if p.len() == 0 {
        Seq::empty()
    } else {
        let r = nonempty_trimmed(p.drop_last());
        if trim_ws(p.last()).len() == 0 {
            r
        } else {
            r.push(trim_ws(p.last()))
        }
    }
}

/// `s` without its double quotes.
pub open spec fn unquoted(s: Seq<char>) -> Seq<char>
    decreases s.len(),
{
    if s.len() == 0 {
        Seq::empty()
    } else if s.last() == '\u{22}' {
        unquoted(s.drop_last())
    } else {
        unquoted(s.drop_last()).push(s.last())
    }
}

/// Whether an AutoRun command is this tool's start-up command: lower-cased and without quotes,
/// it names the tool (`stem`, lower-cased) and holds `--startup` or `--file`.
pub open spec fn is_ours(entry: Seq<char>, stem: Seq<char>) -> bool {
    let clean = unquoted(lowercase(entry));
    has_sub(clean, stem) && (has_sub(clean, "--startup"@) || has_sub(clean, "--file"@))
}

/// The commands after the merge of the first `i`: the first of ours replaced by `cmd`, the
/// others of ours dropped, the rest kept in place; and whether one of ours was met.
pub open spec fn merge_run(es: Seq<Seq<char>>, stem: Seq<char>, cmd: Seq<char>, i: int) -> (Seq<Seq<char>>, bool)
    decreases i,
{
    if i <= 0 {
        (Seq::empty(), false)
    } else {
        let (r, found) = merge_run(es, stem, cmd, i - 1);
        let e = es[i - 1];
        if is_ours(e, stem) {
            if !found {
                (r.push(cmd), true)
            } else {
                (r, true)
            }
        } else {
            (r.push(e), found)
        }
    }
}

/// The merge of `cmd` into the commands `es`: in place of the first of ours (the others of
/// ours dropped), or at the end when none is ours.
pub open spec fn merge_entries(es: Seq<Seq<char>>, stem: Seq<char>, cmd: Seq<char>) -> Seq<Seq<char>> {
    let (r, found) = merge_run(es, stem, cmd, es.len() as int);
    if found {
        r
    } else {
        r.push(cmd)
    }
}

/// The new AutoRun value: the merged commands joined by ` & `.
pub open spec fn merge_autorun_spec(raw: Seq<char>, stem: Seq<char>, cmd: Seq<char>) -> Seq<char> {
    join_spec(merge_entries(autorun_entries(raw), stem, cmd), " & "@)
}

fn strip_quotes(s: &[char]) -> (r: Vec<char>)
    ensures
        r@ == unquoted(s@),
{
    let mut out: Vec<char> = Vec::new();
    let mut i: usize = 0;
    while i < s.len()
        invariant
            i <= s@.len(),
            out@ == unquoted(s@.take(i as int)),
        decreases s@.len() - i,
    {
        proof {
            assert(s@.take(i + 1).drop_last() =~= s@.take(i as int));
            assert(s@.take(i + 1).last() == s@[i as int]);
        }
        if s[i] != '\u{22}' {
            out.push(s[i]);
        }
        i = i + 1;
    }
    assert(s@.take(s@.len() as int) =~= s@);
    out
}

fn entry_is_ours(entry: &str, stem: &[char]) -> (r: bool)
    ensures
        r == is_ours(entry@, stem@),
{
    let low = to_lower(entry);
    let lv = chars_of(low.as_str());
    let clean = strip_quotes(lv.as_slice());
    let su = chars_of("--startup");
    let fi = chars_of("--file");
    contains_sub(clean.as_slice(), stem) && (contains_sub(clean.as_slice(), su.as_slice())
        || contains_sub(clean.as_slice(), fi.as_slice()))
}

/// The commands of an AutoRun value.
pub fn split_autorun(raw: &str) -> (r: Vec<String>)
    ensures
        views(r@) == autorun_entries(raw@),
{
    let rv = chars_of(raw);
    let pieces = split_char(rv.as_slice(), '&');
    let ghost pv = pieces@.map_values(|v: Vec<char>| v@);
    let mut out: Vec<String> = Vec::new();
    let mut i: usize = 0;
    while i < pieces.len()
        invariant
            i <= pieces@.len(),
            pv == pieces@.map_values(|v: Vec<char>| v@),
            pv == split_spec(rv@, '&'),
            views(out@) == nonempty_trimmed(pv.take(i as int)),
        decreases pieces@.len() - i,
    {
        let t = trim_class(pieces[i].as_slice(), Trim::Space);
        proof {
            assert(pv[i as int] == pieces@[i as int]@);
            assert(pv.take(i + 1).drop_last() =~= pv.take(i as int));
            assert(pv.take(i + 1).last() == pv[i as int]);
        }
        if t.len() > 0 {
            let ghost before = views(out@);
            let s = string_of(t.as_slice());
            out.push(s);
            proof {
                assert(views(out@) =~= before.push(t@));
            }
        }
        i = i + 1;
    }
    assert(pv.take(pieces@.len() as int) =~= pv);
    out
}

/// Merges the command `cmd` into the commands of an AutoRun value: it takes the place of the
/// first command that starts this tool (the others are dropped), or goes last when there is
/// none; other tools' commands keep their places.
pub fn merge_entries_exec(entries: Vec<String>, stem: &str, cmd: &str) -> (r: Vec<String>)
    ensures
        views(r@) == merge_entries(views(entries@), lowercase(stem@), cmd@),
{
    let ghost es = views(entries@);
    let low = to_lower(stem);
    let sv = chars_of(low.as_str());
    let mut out: Vec<String> = Vec::new();
    let mut found = false;
    let n = entries.len();
    let mut i: usize = 0;
    while i < n
        invariant
            i <= n,
            n == entries@.len(),
            es == views(entries@),
            sv@ == lowercase(stem@),
            (views(out@), found) == merge_run(es, sv@, cmd@, i as int),
        decreases n - i,
    {
        let e = entries[i].as_str();
        assert(es[i as int] == e@);
        let ghost before = views(out@);
        if entry_is_ours(e, sv.as_slice()) {
            if !found {
                out.push(crate::text::owned(cmd));
                proof {
                    assert(views(out@) =~= before.push(cmd@));
                }
                found = true;
            }
        } else {
            out.push(entries[i].clone());
            proof {
                assert(views(out@) =~= before.push(e@));
            }
        }
        i = i + 1;
    }
    if !found {
        let ghost before = views(out@);
        out.push(crate::text::owned(cmd));
        proof {
            assert(views(out@) =~= before.push(cmd@));
        }
    }
    out
}

/// The AutoRun value after `--setup` writes `cmd` for the tool whose binary is named `stem`:
/// `cmd` replaces the tool's first start-up command (dropping any others) or is appended, and
/// the commands are joined by ` & `.
pub fn merge_autorun(existing: &str, stem: &str, cmd: &str) -> (r: String)
    ensures
        r@ == merge_autorun_spec(existing@, lowercase(stem@), cmd@),
{
    let entries = split_autorun(existing);
    let merged = merge_entries_exec(entries, stem, cmd);
    join(&merged, " & ")
}

proof fn lemma_merge_run_stable(es: Seq<Seq<char>>, stem: Seq<char>, cmd: Seq<char>, i: int)
    requires
        is_ours(cmd, stem),
        0 <= i <= es.len(),
    ensures
        ({
            let (r, found) = merge_run(es, stem, cmd, i);
            &&& (!found ==> forall|j: int| 0 <= j < r.len() ==> !is_ours(#[trigger] r[j], stem))
            &&& (found ==> exists|k: int| 0 <= k < r.len() && r[k] == cmd && (forall|j: int| 0 <= j < r.len() && j != k ==> !is_ours(#[trigger] r[j], stem)))
        }),
    decreases i,
{
    if i > 0 {
        lemma_merge_run_stable(es, stem, cmd, i - 1);
        let (r0, f0) = merge_run(es, stem, cmd, i - 1);
        let (r, found) = merge_run(es, stem, cmd, i);
        let e = es[i - 1];
        if is_ours(e, stem) {
            if !f0 {
                assert(r == r0.push(cmd));
                assert(r[r.len() - 1] == cmd);
                assert forall|j: int| 0 <= j < r.len() && j != r.len() - 1 implies !is_ours(#[trigger] r[j], stem) by {
                    assert(r[j] == r0[j]);
                }
            }
        } else {
            assert(r == r0.push(e));
            if f0 {
                let k = choose|k: int| 0 <= k < r0.len() && r0[k] == cmd && (forall|j: int| 0 <= j < r0.len() && j != k ==> !is_ours(#[trigger] r0[j], stem));
                assert(r[k] == cmd);
                assert forall|j: int| 0 <= j < r.len() && j != k implies !is_ours(#[trigger] r[j], stem) by {
                    if j < r0.len() {
                        assert(r[j] == r0[j]);
                    }
                }
            } else {
                assert forall|j: int| 0 <= j < r.len() implies !is_ours(#[trigger] r[j], stem) by {
                    if j < r0.len() {
                        assert(r[j] == r0[j]);
                    }
                }
            }
        }
    }
}

/// After a merge, the tool's start-up command `cmd` stands exactly once among the commands
/// (when `cmd` is itself recognised as the tool's start-up command): no other command of the
/// tool is left.
pub proof fn lemma_merge_single(es: Seq<Seq<char>>, stem: Seq<char>, cmd: Seq<char>)
    requires
        is_ours(cmd, stem),
    ensures
        ({
            let m = merge_entries(es, stem, cmd);
            exists|k: int| 0 <= k < m.len() && m[k] == cmd && (forall|j: int| 0 <= j < m.len() && j != k ==> !is_ours(#[trigger] m[j], stem))
        }),
{
    lemma_merge_run_stable(es, stem, cmd, es.len() as int);
    let (r, found) = merge_run(es, stem, cmd, es.len() as int);
    let m = merge_entries(es, stem, cmd);
    if !found {
        assert(m == r.push(cmd));
        assert(m[r.len() as int] == cmd);
        assert forall|j: int| 0 <= j < m.len() && j != r.len() implies !is_ours(#[trigger] m[j], stem) by {
            assert(m[j] == r[j]);
        }
    }
}

/// Merging the same command twice changes nothing: the second merge finds the tool's
/// command in place and leaves the other commands as they are.
pub proof fn lemma_merge_idempotent(es: Seq<Seq<char>>, stem: Seq<char>, cmd: Seq<char>)
    requires
        is_ours(cmd, stem),
    ensures
        merge_entries(merge_entries(es, stem, cmd), stem, cmd) == merge_entries(es, stem, cmd),
{
    let m = merge_entries(es, stem, cmd);
    lemma_merge_single(es, stem, cmd);
    let k = choose|k: int| 0 <= k < m.len() && m[k] == cmd && (forall|j: int| 0 <= j < m.len() && j != k ==> !is_ours(#[trigger] m[j], stem));
    lemma_merge_run_fixed(m, stem, cmd, k, m.len() as int);
    let (r, found) = merge_run(m, stem, cmd, m.len() as int);
    assert(r =~= m.take(m.len() as int));
    assert(m.take(m.len() as int) =~= m);
}

proof fn lemma_merge_run_fixed(m: Seq<Seq<char>>, stem: Seq<char>, cmd: Seq<char>, k: int, i: int)
    requires
        0 <= k < m.len(),
        m[k] == cmd,
        is_ours(cmd, stem),
        forall|j: int| 0 <= j < m.len() && j != k ==> !is_ours(#[trigger] m[j], stem),
        0 <= i <= m.len(),
    ensures
        merge_run(m, stem, cmd, i).0 == m.take(i),
        merge_run(m, stem, cmd, i).1 == (i > k),
    decreases i,
{
    if i > 0 {
        lemma_merge_run_fixed(m, stem, cmd, k, i - 1);
        assert(m.take(i) =~= m.take(i - 1).push(m[i - 1]));
        if i - 1 != k {
            assert(!is_ours(m[i - 1], stem));
        }
    }
}

// ---------------------------------------------------------------------------
// What the registry says
// ---------------------------------------------------------------------------

/// The registry status from the AutoRun value (`None` when the key cannot be opened): synced
/// when it mentions `--reload` or `alias`, a mismatch holding the value when it says something
/// else, not found when empty or missing.
pub fn check_registry_native(value: Option<&str>) -> (r: RegistryStatus)
    ensures
        match value {
            None => r is NotFound,
            Some(v) => if has_sub(v@, "--reload"@) || has_sub(v@, "alias"@) {
                r is Synced
            } else if v@.len() > 0 {
                r matches RegistryStatus::Mismatch(m) && m@ == v@
            } else {
                r is NotFound
            },
        },
{
    match value {
        None => RegistryStatus::NotFound,
        Some(v) => {
            let vv = chars_of(v);
            let a = chars_of("--reload");
            let b = chars_of("alias");
            if contains_sub(vv.as_slice(), a.as_slice()) || contains_sub(vv.as_slice(), b.as_slice()) {
                RegistryStatus::Synced
            } else if vv.len() > 0 {
                RegistryStatus::Mismatch(crate::text::owned(v))
            } else {
                RegistryStatus::NotFound
            }
        },
    }
}

/// The registry status the wrapper reports from the AutoRun value: not found when empty,
/// synced when it mentions `--reload` or `alias`, a mismatch otherwise.
pub fn check_registry_wrapper(raw: &str) -> (r: RegistryStatus)
    ensures
        raw@.len() == 0 ==> r is NotFound,
        raw@.len() > 0 && (has_sub(raw@, "--reload"@) || has_sub(raw@, "alias"@)) ==> r is Synced,
        raw@.len() > 0 && !(has_sub(raw@, "--reload"@) || has_sub(raw@, "alias"@)) ==> (r matches RegistryStatus::Mismatch(m) && m@ == "Found other AutoRun commands"@),
{
    let vv = chars_of(raw);
    if vv.len() == 0 {
        return RegistryStatus::NotFound;
    }
    let a = chars_of("--reload");
    let b = chars_of("alias");
    if contains_sub(vv.as_slice(), a.as_slice()) || contains_sub(vv.as_slice(), b.as_slice()) {
        RegistryStatus::Synced
    } else {
        RegistryStatus::Mismatch(crate::text::owned("Found other AutoRun commands"))
    }
}

} // verus!
