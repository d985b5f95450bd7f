//! Reading a command line into a queue of tasks and a verbosity.
use vstd::prelude::*;
use crate::text::{
    chars_of, concat, concat3, join, join_spec, lowercase, owned, split_char, split_once,
    split_once_spec, split_spec, lemma_split_nonempty, starts_with, string_of, to_lower, trim_class, trim_ws, views, Trim,
};
use crate::action::{
    AliasAction, ActionView, SetOptions, SetView, is_lit, parse_action, parse_action_spec,
    requires_file_spec,
};
use crate::names::{is_valid_name, valid_name_spec};
use crate::model::{AliasIcon, ShowFeature, ShowTips, Task, TaskQueue, VerbosityLevel};
use crate::voice::{Verbosity, icon_format_spec, tip_fits};

verus! {

/// Whether a word ends the values of a definition: a word that starts with `--`.
pub open spec fn switch_spec(a: Seq<char>) -> bool {
    "--"@.is_prefix_of(a)
}

/// Where the values that start at `i` end: at the first switch or `--` (unless `gobble`), or
/// at the end of the words.
pub open spec fn harvest_end(args: Seq<Seq<char>>, i: int, gobble: bool) -> int
    decreases args.len() - i,
{
    if i >= args.len() {
        if i < 0 {
            0
        } else {
            i
        }
    } else if !gobble && (switch_spec(args[i]) || args[i] == "--"@) {
        i
    } else {
        harvest_end(args, i + 1, gobble)
    }
}

/// The name, whether an `=` was seen, the values taken from the first word, and where the
/// remaining values start, for the words of one definition.
pub open spec fn set_head(args: Seq<Seq<char>>) -> (Seq<char>, bool, Seq<Seq<char>>, int) {
    match split_once_spec(args[0], '=') {
        Some((n, v)) => (trim_ws(n), true, if v.len() > 0 {
            seq![v]
        } else {
            Seq::empty()
        }, 1),
        None => if args.len() > 1 && args[1] == "="@ {
            (args[0], true, Seq::empty(), 2)
        } else {
            (args[0], false, Seq::empty(), 1)
        },
    }
}

/// What `parse_set_argument` makes of the words `args`: the action and how many words it used.
pub open spec fn set_argument_spec(
    args: Seq<Seq<char>>,
    volatile: bool,
    force_case: bool,
    gobble: bool,
) -> (ActionView, int) {
    if args.len() == 0 {
        (ActionView::Invalid, 0)
    } else {
        let (name, saw, head, start) = set_head(args);
        let end = harvest_end(args, start, gobble);
        let parts = head + args.subrange(start, end);
        if !gobble && !valid_name_spec(name) {
            (ActionView::Invalid, end)
        } else if saw && parts.len() == 0 {
            (if volatile {
                ActionView::Unalias(name)
            } else {
                ActionView::Remove(name)
            }, end)
        } else if !saw && parts.len() == 0 {
            (ActionView::Query(name), end)
        } else {
            (ActionView::SetAlias(
                SetView { name, value: join_spec(parts, " "@), volatile, force_case },
            ), end)
        }
    }
}

proof fn lemma_harvest_end_bounds(args: Seq<Seq<char>>, i: int, gobble: bool)
    requires
        0 <= i,
    ensures
        i <= args.len() ==> i <= harvest_end(args, i, gobble) <= args.len(),
        i > args.len() ==> harvest_end(args, i, gobble) == i,
    decreases args.len() - i,
{
    if i < args.len() && !(!gobble && (switch_spec(args[i]) || args[i] == "--"@)) {
        lemma_harvest_end_bounds(args, i + 1, gobble);
    }
}

/// The definition that starts at word `from` of `args`, and how many words it used.
fn set_argument_at(args: &[String], from: usize, volatile: bool, force_case: bool, gobble: bool) -> (r: (AliasAction, usize))
    requires
        from <= args@.len(),
    ensures
        (r.0@, r.1 as int) == set_argument_spec(views(args@).skip(from as int), volatile, force_case, gobble),
        r.1 <= args@.len() - from,
{
    let ghost a = views(args@).skip(from as int);
    let n = args.len();
    if from >= n {
        return (AliasAction::Invalid, 0);
    }
    let mut parts: Vec<String> = Vec::new();
    let first = chars_of(args[from].as_str());
    assert(first@ == a[0]);
    let mut saw_equals = false;
    let mut i: usize;
    let name: String;
    match split_once(first.as_slice(), '=') {
        Some((nm, v)) => {
            saw_equals = true;
            if v.len() > 0 {
                parts.push(string_of(v.as_slice()));
            }
            i = from + 1;
            let t = trim_class(nm.as_slice(), Trim::Space);
            name = string_of(t.as_slice());
        },
        None => {
            name = args[from].clone();
            i = from + 1;
            if i < n && is_lit(chars_of(args[i].as_str()).as_slice(), "=") {
                saw_equals = true;
                i = i + 1;
            }
        },
    }
    let ghost head = set_head(a);
    let ghost start = head.3;
    assert(i == from + start);
    assert(views(parts@) =~= head.2);
    let ghost base = views(parts@);
    proof {
        lemma_harvest_end_bounds(a, start, gobble);
    }
    let mut stop = false;
    while i < n && !stop
        invariant
            n == args@.len(),
            a == views(args@).skip(from as int),
            a.len() == n - from,
            0 <= start <= a.len(),
            from + start <= i <= n,
            harvest_end(a, start, gobble) == harvest_end(a, i - from, gobble),
            views(parts@) == base + a.subrange(start, i - from),
            stop ==> i < n && !gobble && (switch_spec(a[i - from]) || a[i - from] == "--"@),
        decreases n - i + (if stop { 0int } else { 1int }),
    {
        let cur = &args[i];
        assert(views(args@)[i as int] == args@[i as int]@);
        assert(a[i - from] == views(args@)[i as int]);
        assert(cur@ == a[i - from]);
        let cv = chars_of(cur.as_str());
        if !gobble && (AliasAction::is_switch(cur.as_str()) || is_lit(cv.as_slice(), "--")) {
            stop = true;
        } else {
            let ghost old_parts = views(parts@);
            parts.push(cur.clone());
            proof {
                assert(views(parts@) =~= old_parts.push(cur@));
                assert(a.subrange(start, i + 1 - from) =~= a.subrange(start, i - from).push(
                    a[i - from],
                ));
            }
            i = i + 1;
        }
    }
    proof {
        assert(harvest_end(a, i - from, gobble) == i - from);
    }
    let used: usize = i - from;
    if !gobble && !is_valid_name(name.as_str()) {
        return (AliasAction::Invalid, used);
    }
    if saw_equals && parts.len() == 0 {
        return if volatile {
            (AliasAction::Unalias(name), used)
        } else {
            (AliasAction::Remove(name), used)
        };
    }
    if !saw_equals && parts.len() == 0 {
        return (AliasAction::Query(name), used);
    }
    let value = join(&parts, " ");
    (AliasAction::SetAlias(SetOptions { name, value, volatile, force_case }), used)
}

/// Reads one alias definition from the words `f_args`: `name=value...`, `name = value...`,
/// `name value...`, `name=` (a removal) or `name` (a query); the values stop at the first
/// switch or `--` unless `is_gobble`. Returns the action and the number of words used.
pub fn parse_set_argument(
    _verbosity: &Verbosity,
    f_args: &[String],
    volatile: bool,
    force_case: bool,
    is_gobble: bool,
) -> (r: (AliasAction, usize))
    ensures
        (r.0@, r.1 as int) == set_argument_spec(views(f_args@), volatile, force_case, is_gobble),
{
    proof {
        assert(views(f_args@).skip(0) =~= views(f_args@));
    }
    set_argument_at(f_args, 0, volatile, force_case, is_gobble)
}


// ---------------------------------------------------------------------------
// Paths the command line may name
// ---------------------------------------------------------------------------

/// What the file system said about the words of a command line: for each word, the path it
/// resolves to (`None` when it cannot be an alias file), the resolution of that resolved path
/// again, and the default alias file.
pub struct PathContext {
    pub resolved: Vec<Option<String>>,
    pub re_resolved: Vec<Option<String>>,
    pub default_path: Option<String>,
}

pub open spec fn opt_view(o: Option<String>) -> Option<Seq<char>> {
    match o {
        Some(s) => Some(s@),
        None => None,
    }
}

pub ghost struct PathCtxView {
    pub resolved: Seq<Option<Seq<char>>>,
    pub re_resolved: Seq<Option<Seq<char>>>,
    pub default_path: Option<Seq<char>>,
}

impl PathContext {
    pub open spec fn view_ctx(&self) -> PathCtxView {
        PathCtxView {
            resolved: self.resolved@.map_values(|o: Option<String>| opt_view(o)),
            re_resolved: self.re_resolved@.map_values(|o: Option<String>| opt_view(o)),
            default_path: opt_view(self.default_path),
        }
    }

    /// A context in which no word resolves and there is no default alias file.
    pub fn empty() -> (c: PathContext)
        ensures
            c.view_ctx().resolved.len() == 0,
            c.view_ctx().re_resolved.len() == 0,
            c.view_ctx().default_path.is_none(),
    {
        PathContext { resolved: Vec::new(), re_resolved: Vec::new(), default_path: None }
    }
}

pub open spec fn resolved_at(ctx: PathCtxView, i: int) -> Option<Seq<char>> {
    if 0 <= i < ctx.resolved.len() {
        ctx.resolved[i]
    } else {
        None
    }
}

pub open spec fn re_resolved_at(ctx: PathCtxView, i: int) -> Option<Seq<char>> {
    if 0 <= i < ctx.re_resolved.len() {
        ctx.re_resolved[i]
    } else {
        None
    }
}

fn clone_opt(o: &Option<String>) -> (r: Option<String>)
    ensures
        opt_view(r) == opt_view(*o),
{
    match o {
        Some(s) => Some(s.clone()),
        None => None,
    }
}

fn resolved_lookup(ctx: &PathContext, i: usize) -> (r: Option<String>)
    ensures
        opt_view(r) == resolved_at(ctx.view_ctx(), i as int),
{
    if i < ctx.resolved.len() {
        clone_opt(&ctx.resolved[i])
    } else {
        None
    }
}

fn re_resolved_lookup(ctx: &PathContext, i: usize) -> (r: Option<String>)
    ensures
        opt_view(r) == re_resolved_at(ctx.view_ctx(), i as int),
{
    if i < ctx.re_resolved.len() {
        clone_opt(&ctx.re_resolved[i])
    } else {
        None
    }
}

// ---------------------------------------------------------------------------
// The state of the reading
// ---------------------------------------------------------------------------

pub ghost struct TaskView {
    pub action: ActionView,
    pub path: Seq<char>,
}

pub open spec fn task_view(t: Task) -> TaskView {
    TaskView { action: t.action@, path: t.path@ }
}

pub open spec fn task_views(t: Seq<Task>) -> Seq<TaskView> {
    t.map_values(|x: Task| task_view(x))
}

/// Where the reading of a command line stands.
pub ghost struct ParseView {
    pub tasks: Seq<TaskView>,
    pub action_path: Seq<char>,
    pub voice: Verbosity,
    pub custom_path: Seq<char>,
    pub custom_ctx: Option<Seq<char>>,
    pub volatile: bool,
    pub force_case: bool,
    pub pivot: int,
    pub skip_next: bool,
    pub saw_unknown: bool,
    pub is_literal: bool,
    pub notes: Seq<Seq<char>>,
}

/// What a step of the flag harvest asks next: read on, stop and read the payload, or stop
/// with the queue as it is.
pub enum Flow {
    Next,
    Stop,
    Finish,
}

pub open spec fn push_task(st: ParseView, a: ActionView, path: Seq<char>) -> ParseView {
    ParseView { tasks: st.tasks.push(TaskView { action: a, path }), ..st }
}

pub open spec fn add_note(st: ParseView, msg: Seq<char>) -> ParseView {
    ParseView { notes: st.notes.push(icon_format_spec(st.voice, AliasIcon::Alert, msg)), ..st }
}

/// A failure in setup mode: `msg` is reported and the queue holds `Invalid` alone.
pub open spec fn setup_fail(st: ParseView, msg: Seq<char>) -> ParseView {
    let s1 = add_note(st, msg);
    ParseView {
        tasks: seq![TaskView { action: ActionView::Invalid, path: Seq::empty() }],
        action_path: Seq::empty(),
        ..s1
    }
}

/// The position of the last `File` task, or -1.
pub open spec fn last_file_index(t: Seq<TaskView>) -> int
    decreases t.len(),
{
    if t.len() == 0 {
        -1
    } else if t.last().action is File {
        t.len() - 1
    } else {
        last_file_index(t.drop_last())
    }
}

/// After a `--file`: the tasks after the last `File` task take `path`, or, when the path
/// is not viable, those that need a file become `Fail`.
pub open spec fn backfill_spec(t: Seq<TaskView>, path: Seq<char>, invalidate: bool) -> Seq<TaskView> {
    let k = last_file_index(t);
    Seq::new(
        t.len(),
        |j: int|
            if j > k {
                if !invalidate {
                    TaskView { path, ..t[j] }
                } else if requires_file_spec(t[j].action) {
                    TaskView { action: ActionView::Fail, ..t[j] }
                } else {
                    t[j]
                }
            } else {
                t[j]
            },
    )
}

/// Whether a task with no path takes the context's alias file: those that need one, and the
/// diagnostics (which report on it but run without one).
pub open spec fn takes_context_path(a: ActionView) -> bool {
    requires_file_spec(a) || a is Which
}

/// The final sweep: the tasks after the last `File` task that have no path and take one get
/// the context path; when there is none, those that need a file become `Fail` and the
/// diagnostics stay as they are.
pub open spec fn sweep_spec(t: Seq<TaskView>, ctx: Option<Seq<char>>) -> Seq<TaskView> {
    let k = last_file_index(t);
    Seq::new(
        t.len(),
        |j: int|
            if j > k && t[j].path.len() == 0 && takes_context_path(t[j].action) {
                match ctx {
                    Some(p) => TaskView { path: p, ..t[j] },
                    None => if requires_file_spec(t[j].action) {
                        TaskView { action: ActionView::Fail, ..t[j] }
                    } else {
                        t[j]
                    },
                }
            } else {
                t[j]
            },
    )
}

pub open spec fn mute_startup_voice() -> Verbosity {
    Verbosity {
        level: VerbosityLevel::Mute,
        show_icons: ShowFeature::Off,
        show_tips: ShowTips::Off,
        display_tip: None,
        in_startup: true,
        in_setup: false,
    }
}

/// A `--file` at word `i`: the next word names the file; without one, `Invalid` is queued.
pub open spec fn file_step_spec(st: ParseView, args: Seq<Seq<char>>, ctx: PathCtxView, i: int) -> (ParseView, Flow) {
    if i + 1 < args.len() {
        let raw = args[i + 1];
        let res = resolved_at(ctx, i + 1);
        let s1 = match res {
            Some(v) => ParseView {
                custom_path: v,
                action_path: v,
                custom_ctx: re_resolved_at(ctx, i + 1),
                ..st
            },
            None => ParseView { custom_path: raw, custom_ctx: None, ..st },
        };
        let s2 = ParseView {
            tasks: backfill_spec(s1.tasks, s1.custom_path, res.is_none()),
            ..s1
        };
        let s3 = push_task(s2, ActionView::File, raw);
        (ParseView { skip_next: true, pivot: i + 2, ..s3 }, Flow::Next)
    } else {
        let s1 = add_note(st, "--file requires a path"@);
        let s2 = push_task(s1, ActionView::Invalid, Seq::empty());
        (ParseView { pivot: i + 1, ..s2 }, Flow::Next)
    }
}

/// An `--unalias` (when `unalias`) or `--remove` at word `i`: the next word is the target.
pub open spec fn target_step_spec(st: ParseView, args: Seq<Seq<char>>, i: int, unalias: bool) -> (ParseView, Flow) {
    let arg = args[i];
    if st.voice.in_setup {
        (setup_fail(st, "Invalid in setup mode: "@ + arg), Flow::Finish)
    } else if i + 1 < args.len() && parse_action_spec(args[i + 1]) is Query
        && valid_name_spec(args[i + 1]) {
        let harvested = if unalias {
            ActionView::Unalias(args[i + 1])
        } else {
            ActionView::Remove(args[i + 1])
        };
        let s1 = push_task(st, harvested, Seq::empty());
        (ParseView { skip_next: true, pivot: i + 2, ..s1 }, Flow::Next)
    } else {
        let s1 = add_note(st, arg + " requires a valid target"@);
        let s2 = push_task(s1, ActionView::Fail, Seq::empty());
        (ParseView { pivot: i + 1, ..s2 }, Flow::Next)
    }
}

/// Any other word at `i`: an unknown switch, the first definition, or an illegal start.
pub open spec fn other_step_spec(st: ParseView, args: Seq<Seq<char>>, i: int, invalid: bool) -> (ParseView, Flow) {
    let arg = args[i];
    if st.voice.in_setup {
        (setup_fail(st, "Invalid in setup mode: "@ + arg), Flow::Finish)
    } else if invalid && "--"@.is_prefix_of(arg) {
        let s1 = add_note(st, "Unknown option: "@ + arg);
        let s2 = push_task(s1, ActionView::Invalid, Seq::empty());
        (ParseView { saw_unknown: true, pivot: i + 1, ..s2 }, Flow::Next)
    } else if valid_name_spec(split_spec(arg, '=')[0]) {
        (ParseView { pivot: i, ..st }, Flow::Stop)
    } else {
        let s1 = add_note(st, "Illegal command start: '"@ + arg + "'"@);
        let s2 = push_task(s1, ActionView::Invalid, Seq::empty());
        (ParseView { pivot: i + 1, ..s2 }, Flow::Next)
    }
}

/// A switch that only changes how the rest is read or said.
pub open spec fn modifier_spec(st: ParseView, trig: ActionView) -> ParseView {
    match trig {
        ActionView::Icons => ParseView { voice: Verbosity { show_icons: ShowFeature::On, ..st.voice }, ..st },
        ActionView::NoIcons => ParseView { voice: Verbosity { show_icons: ShowFeature::Off, ..st.voice }, ..st },
        ActionView::Tips => ParseView { voice: Verbosity { show_icons: ShowFeature::On, ..st.voice }, ..st },
        ActionView::NoTips => ParseView { voice: Verbosity { show_tips: ShowTips::Off, ..st.voice }, ..st },
        ActionView::Quiet => ParseView {
            voice: Verbosity { level: VerbosityLevel::Silent, show_icons: ShowFeature::Off, ..st.voice },
            ..st
        },
        ActionView::Temp => ParseView { volatile: true, ..st },
        ActionView::Force | ActionView::Case => ParseView { force_case: true, ..st },
        ActionView::NoCase => ParseView { force_case: false, ..st },
        ActionView::NoQuiet => ParseView { voice: Verbosity { level: VerbosityLevel::Normal, ..st.voice }, ..st },
        _ => st,
    }
}

/// A switch that is a command of its own: help, setup, startup, reload, which, clear, edit.
pub open spec fn command_step_spec(st: ParseView, args: Seq<Seq<char>>, i: int, trig: ActionView) -> (ParseView, Flow) {
    let arg = args[i];
    match trig {
        ActionView::Help => (
            ParseView {
                tasks: seq![TaskView { action: ActionView::Help, path: Seq::empty() }],
                action_path: Seq::empty(),
                ..st
            },
            Flow::Finish,
        ),
        ActionView::Setup => {
            let s1 = ParseView { voice: Verbosity { in_setup: true, ..st.voice }, ..st };
            if st.tasks.len() > 0 {
                (setup_fail(s1, "Error: --setup must be the first command."@), Flow::Finish)
            } else {
                (push_task(s1, ActionView::Setup, Seq::empty()), Flow::Next)
            }
        },
        ActionView::Startup => if st.voice.in_setup {
            (setup_fail(st, "Invalid in setup mode: "@ + arg), Flow::Finish)
        } else {
            (ParseView { voice: mute_startup_voice(), ..st }, Flow::Next)
        },
        ActionView::Reload => (
            ParseView { pivot: i + 1, ..push_task(st, ActionView::Reload, Seq::empty()) },
            Flow::Next,
        ),
        ActionView::Which => (
            ParseView { pivot: i + 1, ..push_task(st, ActionView::Which, Seq::empty()) },
            Flow::Next,
        ),
        ActionView::Clear => (push_task(st, ActionView::Clear, Seq::empty()), Flow::Next),
        ActionView::Edit(val) => if st.voice.in_setup {
            (setup_fail(st, "Invalid in setup mode: "@ + arg), Flow::Finish)
        } else {
            (ParseView { pivot: i + 1, ..push_task(st, ActionView::Edit(val), Seq::empty()) }, Flow::Next)
        },
        _ => (st, Flow::Next),
    }
}

/// One step of the flag harvest, on word `i`.
pub open spec fn step_spec(st: ParseView, args: Seq<Seq<char>>, ctx: PathCtxView, i: int) -> (ParseView, Flow) {
    let arg = args[i];
    if st.skip_next {
        (ParseView { skip_next: false, ..st }, Flow::Next)
    } else if arg == "--"@ {
        if st.voice.in_setup {
            (setup_fail(st, "Invalid in setup mode: "@ + arg), Flow::Finish)
        } else {
            (ParseView { is_literal: true, pivot: i + 1, ..st }, Flow::Stop)
        }
    } else {
        let trig = parse_action_spec(arg);
        match trig {
            ActionView::Icons | ActionView::NoIcons | ActionView::Tips | ActionView::NoTips
            | ActionView::Quiet | ActionView::Temp | ActionView::Force | ActionView::Case
            | ActionView::NoCase | ActionView::NoQuiet => (
                modifier_spec(st, trig),
                Flow::Next,
            ),
            ActionView::File => file_step_spec(st, args, ctx, i),
            ActionView::Unalias(_) | ActionView::Remove(_) => target_step_spec(st, args, i, trig is Unalias),
            ActionView::Help | ActionView::Setup | ActionView::Startup | ActionView::Reload
            | ActionView::Which | ActionView::Clear | ActionView::Edit(_) => command_step_spec(st, args, i, trig),
            _ => other_step_spec(st, args, i, trig is Invalid),
        }
    }
}

/// The flag harvest from word `i` on.
pub open spec fn harvest_spec(st: ParseView, args: Seq<Seq<char>>, ctx: PathCtxView, i: int) -> (ParseView, Flow)
    decreases args.len() - i,
{
    if i < 0 || i >= args.len() {
        (st, Flow::Next)
    } else {
        let (s1, f) = step_spec(st, args, ctx, i);
        match f {
            Flow::Next => harvest_spec(s1, args, ctx, i + 1),
            _ => (s1, f),
        }
    }
}

/// The payload harvest from word `i` on: one definition after another, a `--temp` between
/// two definitions making the following ones volatile.
pub open spec fn payload_spec(st: ParseView, args: Seq<Seq<char>>, i: int) -> ParseView
    decreases (if i <= args.len() {
        args.len() - i
    } else {
        0int
    }),
{
    if i < 0 || i >= args.len() {
        st
    } else {
        let (a, used) = set_argument_spec(args.skip(i), st.volatile, st.force_case, st.is_literal);
        let s1 = push_task(st, a, Seq::empty());
        let j = i + if used <= 0 {
            1
        } else {
            used
        };
        if j < args.len() && lowercase(args[j]) == "--temp"@ {
            payload_spec(ParseView { volatile: true, ..s1 }, args, j + 1)
        } else {
            payload_spec(s1, args, j)
        }
    }
}

pub open spec fn initial_state(args: Seq<Seq<char>>, voice: Verbosity) -> ParseView {
    ParseView {
        tasks: Seq::empty(),
        action_path: Seq::empty(),
        voice,
        custom_path: Seq::empty(),
        custom_ctx: None,
        volatile: false,
        force_case: false,
        pivot: args.len() as int,
        skip_next: false,
        saw_unknown: false,
        is_literal: false,
        notes: Seq::empty(),
    }
}

/// The whole reading of a command line, starting with the verbosity `voice`.
pub open spec fn parse_spec(args: Seq<Seq<char>>, ctx: PathCtxView, voice: Verbosity) -> ParseView {
    let (s1, flow) = harvest_spec(initial_state(args, voice), args, ctx, 1);
    if flow is Finish {
        s1
    } else {
        let s2 = payload_spec(s1, args, s1.pivot);
        let cur = if s2.custom_path.len() == 0 {
            ctx.default_path
        } else {
            s2.custom_ctx
        };
        let s3 = ParseView {
            action_path: match cur {
                Some(p) => p,
                None => s2.action_path,
            },
            tasks: sweep_spec(s2.tasks, cur),
            ..s2
        };
        if s3.tasks.len() == 0 && !s3.saw_unknown {
            push_task(s3, ActionView::ShowAll, Seq::empty())
        } else {
            s3
        }
    }
}


// ---------------------------------------------------------------------------
// The reading, step by step
// ---------------------------------------------------------------------------

struct Harvest {
    queue: TaskQueue,
    voice: Verbosity,
    custom_path: String,
    custom_ctx: Option<String>,
    volatile: bool,
    force_case: bool,
    pivot: usize,
    skip_next: bool,
    saw_unknown: bool,
    is_literal: bool,
    notes: Vec<String>,
}

impl Harvest {
    spec fn view_state(&self) -> ParseView {
        ParseView {
            tasks: task_views(self.queue.tasks@),
            action_path: self.queue.action_path@,
            voice: self.voice,
            custom_path: self.custom_path@,
            custom_ctx: opt_view(self.custom_ctx),
            volatile: self.volatile,
            force_case: self.force_case,
            pivot: self.pivot as int,
            skip_next: self.skip_next,
            saw_unknown: self.saw_unknown,
            is_literal: self.is_literal,
            notes: views(self.notes@),
        }
    }

    fn push_action(&mut self, a: AliasAction)
        ensures
            final(self).view_state() == push_task(old(self).view_state(), a@, Seq::empty()),
    {
        let ghost a_view = a@;
        let ghost before = task_views(self.queue.tasks@);
        self.queue.push(a);
        proof {
            assert(task_views(self.queue.tasks@) =~= before.push(
                TaskView { action: a_view, path: Seq::empty() },
            ));
        }
    }

    fn push_action_at(&mut self, a: AliasAction, path: String)
        ensures
            final(self).view_state() == push_task(old(self).view_state(), a@, path@),
    {
        let ghost a_view = a@;
        let ghost p_view = path@;
        let ghost before = task_views(self.queue.tasks@);
        self.queue.push_file(a, path);
        proof {
            assert(task_views(self.queue.tasks@) =~= before.push(
                TaskView { action: a_view, path: p_view },
            ));
        }
    }

    fn note(&mut self, msg: &str)
        ensures
            final(self).view_state() == add_note(old(self).view_state(), msg@),
    {
        let ghost before = views(self.notes@);
        let m = self.voice.icon_format(AliasIcon::Alert, msg);
        let ghost mv = m@;
        self.notes.push(m);
        proof {
            assert(views(self.notes@) =~= before.push(mv));
        }
    }

    fn setup_fail(&mut self, msg: &str)
        ensures
            final(self).view_state() == setup_fail(old(self).view_state(), msg@),
    {
        self.note(msg);
        self.queue.clear();
        self.push_action(AliasAction::Invalid);
        proof {
            assert(task_views(self.queue.tasks@) =~= seq![
                TaskView { action: ActionView::Invalid, path: Seq::empty() },
            ]);
        }
    }
}


impl Harvest {
    /// One step of the flag harvest, on word `i`.
    fn step(&mut self, args: &[String], ctx: &PathContext, i: usize) -> (f: Flow)
        requires
            i < args@.len(),
        ensures
            (final(self).view_state(), f) == step_spec(old(self).view_state(), views(args@), ctx.view_ctx(), i as int),
    {
        let ghost a = views(args@);
        let ghost st = self.view_state();
        assert(a[i as int] == args@[i as int]@);
        if self.skip_next {
            self.skip_next = false;
            return Flow::Next;
        }
        let arg = args[i].as_str();
        let cv = chars_of(arg);
        if is_lit(cv.as_slice(), "--") {
            if self.voice.in_setup {
                let m = concat("Invalid in setup mode: ", arg);
                self.setup_fail(m.as_str());
                return Flow::Finish;
            }
            self.is_literal = true;
            self.pivot = i + 1;
            return Flow::Stop;
        }
        let trig = AliasAction::intent(arg);
        let is_unalias = matches!(trig, AliasAction::Unalias(_));
        let is_invalid = matches!(trig, AliasAction::Invalid);
        match trig {
            AliasAction::Icons | AliasAction::NoIcons | AliasAction::Tips | AliasAction::NoTips
            | AliasAction::Quiet | AliasAction::Temp | AliasAction::Force | AliasAction::Case
            | AliasAction::NoCase | AliasAction::NoQuiet => {
                self.apply_modifier(&trig);
                Flow::Next
            },
            AliasAction::File => self.file_step(args, ctx, i),
            AliasAction::Unalias(_) | AliasAction::Remove(_) => self.target_step(args, i, is_unalias),
            AliasAction::Help | AliasAction::Setup | AliasAction::Startup | AliasAction::Reload
            | AliasAction::Which | AliasAction::Clear | AliasAction::Edit(_) => self.command_step(args, i, trig),
            _ => self.other_step(args, i, is_invalid),
        }
    }

    fn apply_modifier(&mut self, trig: &AliasAction)
        ensures
            final(self).view_state() == modifier_spec(old(self).view_state(), trig@),
    {
        match trig {
            AliasAction::Icons => self.voice.show_icons = ShowFeature::On,
            AliasAction::NoIcons => self.voice.show_icons = ShowFeature::Off,
            AliasAction::Tips => self.voice.show_icons = ShowFeature::On,
            AliasAction::NoTips => self.voice.show_tips = ShowTips::Off,
            AliasAction::Quiet => {
                self.voice.level = VerbosityLevel::Silent;
                self.voice.show_icons = ShowFeature::Off;
            },
            AliasAction::Temp => self.volatile = true,
            AliasAction::Force | AliasAction::Case => self.force_case = true,
            AliasAction::NoCase => self.force_case = false,
            AliasAction::NoQuiet => self.voice.level = VerbosityLevel::Normal,
            _ => {},
        }
    }

    fn command_step(&mut self, args: &[String], i: usize, trig: AliasAction) -> (f: Flow)
        requires
            i < args@.len(),
        ensures
            (final(self).view_state(), f) == command_step_spec(old(self).view_state(), views(args@), i as int, trig@),
    {
        let ghost a = views(args@);
        let arg = args[i].as_str();
        assert(a[i as int] == arg@);
        match trig {
            AliasAction::Help => {
                self.queue.clear();
                self.push_action(AliasAction::Help);
                proof {
                    assert(task_views(self.queue.tasks@) =~= seq![
                        TaskView { action: ActionView::Help, path: Seq::empty() },
                    ]);
                }
                Flow::Finish
            },
            AliasAction::Setup => {
                self.voice.in_setup = true;
                if !self.queue.is_empty() {
                    self.setup_fail("Error: --setup must be the first command.");
                    return Flow::Finish;
                }
                self.push_action(AliasAction::Setup);
                Flow::Next
            },
            AliasAction::Startup => {
                if self.voice.in_setup {
                    let m = concat("Invalid in setup mode: ", arg);
                    self.setup_fail(m.as_str());
                    return Flow::Finish;
                }
                self.voice = Verbosity {
                    level: VerbosityLevel::Mute,
                    show_icons: ShowFeature::Off,
                    show_tips: ShowTips::Off,
                    display_tip: None,
                    in_startup: true,
                    in_setup: false,
                };
                Flow::Next
            },
            AliasAction::Reload => {
                self.push_action(AliasAction::Reload);
                self.pivot = i + 1;
                Flow::Next
            },
            AliasAction::Which => {
                self.push_action(AliasAction::Which);
                self.pivot = i + 1;
                Flow::Next
            },
            AliasAction::Clear => {
                self.push_action(AliasAction::Clear);
                Flow::Next
            },
            AliasAction::Edit(val) => {
                if self.voice.in_setup {
                    let m = concat("Invalid in setup mode: ", arg);
                    self.setup_fail(m.as_str());
                    return Flow::Finish;
                }
                self.push_action(AliasAction::Edit(val));
                self.pivot = i + 1;
                Flow::Next
            },
            _ => Flow::Next,
        }
    }

    fn file_step(&mut self, args: &[String], ctx: &PathContext, i: usize) -> (f: Flow)
        requires
            i < args@.len(),
        ensures
            (final(self).view_state(), f) == file_step_spec(old(self).view_state(), views(args@), ctx.view_ctx(), i as int),
    {
        let ghost a = views(args@);
        let n = args.len();
        if i + 1 < n {
            assert(a[i + 1] == args@[i + 1]@);
            let raw = args[i + 1].clone();
            let res = resolved_lookup(ctx, i + 1);
            let invalidate = res.is_none();
            match res {
                Some(v) => {
                    self.custom_path = v.clone();
                    self.queue.pushpath(v);
                    self.custom_ctx = re_resolved_lookup(ctx, i + 1);
                },
                None => {
                    self.custom_path = raw.clone();
                    self.custom_ctx = None;
                },
            }
            let filled = backfill(&self.queue.tasks, &self.custom_path, invalidate);
            self.queue.tasks = filled;
            self.push_action_at(AliasAction::File, raw);
            self.skip_next = true;
            self.pivot = i + 2;
        } else {
            self.note("--file requires a path");
            self.push_action(AliasAction::Invalid);
            self.pivot = i + 1;
        }
        Flow::Next
    }

    fn target_step(&mut self, args: &[String], i: usize, unalias: bool) -> (f: Flow)
        requires
            i < args@.len(),
        ensures
            (final(self).view_state(), f) == target_step_spec(old(self).view_state(), views(args@), i as int, unalias),
    {
        let ghost a = views(args@);
        let arg = args[i].as_str();
        let n = args.len();
        assert(a[i as int] == arg@);
        if self.voice.in_setup {
            let m = concat("Invalid in setup mode: ", arg);
            self.setup_fail(m.as_str());
            return Flow::Finish;
        }
        if i + 1 < n {
            let next = args[i + 1].as_str();
            assert(a[i + 1] == next@);
            let next_intent = AliasAction::intent(next);
            if matches!(next_intent, AliasAction::Query(_)) && is_valid_name(next) {
                let harvested = if unalias {
                    AliasAction::Unalias(owned(next))
                } else {
                    AliasAction::Remove(owned(next))
                };
                self.push_action(harvested);
                self.skip_next = true;
                self.pivot = i + 2;
                return Flow::Next;
            }
        }
        let m = concat(arg, " requires a valid target");
        self.note(m.as_str());
        self.push_action(AliasAction::Fail);
        self.pivot = i + 1;
        Flow::Next
    }

    fn other_step(&mut self, args: &[String], i: usize, invalid: bool) -> (f: Flow)
        requires
            i < args@.len(),
        ensures
            (final(self).view_state(), f) == other_step_spec(old(self).view_state(), views(args@), i as int, invalid),
    {
        let ghost a = views(args@);
        let arg = args[i].as_str();
        assert(a[i as int] == arg@);
        if self.voice.in_setup {
            let m = concat("Invalid in setup mode: ", arg);
            self.setup_fail(m.as_str());
            return Flow::Finish;
        }
        let cv = chars_of(arg);
        let dd = chars_of("--");
        if invalid && starts_with(cv.as_slice(), dd.as_slice()) {
            let m = concat("Unknown option: ", arg);
            self.note(m.as_str());
            self.saw_unknown = true;
            self.pivot = i + 1;
            self.push_action_at(AliasAction::Invalid, String::new());
            return Flow::Next;
        }
        let pieces = split_char(cv.as_slice(), '=');
        proof {
            lemma_split_nonempty(cv@, '=');
            assert(pieces@.map_values(|v: Vec<char>| v@).len() == pieces@.len());
            assert(pieces@.map_values(|v: Vec<char>| v@)[0] == pieces@[0]@);
        }
        let potential = string_of(pieces[0].as_slice());
        if is_valid_name(potential.as_str()) {
            self.pivot = i;
            Flow::Stop
        } else {
            let m = concat3("Illegal command start: '", arg, "'");
            self.note(m.as_str());
            self.push_action(AliasAction::Invalid);
            self.pivot = i + 1;
            Flow::Next
        }
    }
}

/// The position of the last `File` task, or `None`.
fn find_last_file(tasks: &Vec<Task>) -> (r: Option<usize>)
    ensures
        match r {
            Some(k) => last_file_index(task_views(tasks@)) == k && k < tasks@.len(),
            None => last_file_index(task_views(tasks@)) == -1,
        },
{
    let mut j: usize = tasks.len();
    assert(task_views(tasks@).take(j as int) =~= task_views(tasks@));
    while j > 0
        invariant
            j <= tasks@.len(),
            last_file_index(task_views(tasks@)) == last_file_index(task_views(tasks@).take(j as int)),
        decreases j,
    {
        proof {
            let t = task_views(tasks@).take(j as int);
            assert(t.last() == task_view(tasks@[j - 1]));
            assert(t.drop_last() =~= task_views(tasks@).take(j - 1));
        }
        if matches!(tasks[j - 1].action, AliasAction::File) {
            return Some(j - 1);
        }
        j = j - 1;
    }
    None
}

fn backfill(tasks: &Vec<Task>, path: &String, invalidate: bool) -> (r: Vec<Task>)
    ensures
        task_views(r@) == backfill_spec(task_views(tasks@), path@, invalidate),
{
    let last = find_last_file(tasks);
    let ghost k = last_file_index(task_views(tasks@));
    let ghost expected = backfill_spec(task_views(tasks@), path@, invalidate);
    let n = tasks.len();
    let start: usize = match last {
        Some(pos) => pos + 1,
        None => 0,
    };
    let mut out: Vec<Task> = Vec::new();
    let mut j: usize = 0;
    while j < n
        invariant
            n == tasks@.len(),
            start as int == k + 1,
            k == last_file_index(task_views(tasks@)),
            expected == backfill_spec(task_views(tasks@), path@, invalidate),
            j <= n,
            task_views(out@) == expected.take(j as int),
        decreases n - j,
    {
        let t = &tasks[j];
        let ghost tv = task_views(tasks@)[j as int];
        assert(tv == task_view(tasks@[j as int]));
        let action = t.action.duplicate();
        let nt = if j >= start {
            if !invalidate {
                Task { action, path: path.clone() }
            } else if t.action.requires_file() {
                Task { action: AliasAction::Fail, path: t.path.clone() }
            } else {
                Task { action, path: t.path.clone() }
            }
        } else {
            Task { action, path: t.path.clone() }
        };
        assert(task_view(nt) == expected[j as int]);
        let ghost ntv = task_view(nt);
        let ghost before = task_views(out@);
        out.push(nt);
        proof {
            assert(task_views(out@) =~= before.push(ntv));
            assert(task_views(out@) =~= expected.take(j + 1));
        }
        j = j + 1;
    }
    proof {
        assert(expected.take(n as int) =~= expected);
    }
    out
}

fn sweep(tasks: &Vec<Task>, ctx: &Option<String>) -> (r: Vec<Task>)
    ensures
        task_views(r@) == sweep_spec(task_views(tasks@), opt_view(*ctx)),
{
    let last = find_last_file(tasks);
    let ghost k = last_file_index(task_views(tasks@));
    let ghost expected = sweep_spec(task_views(tasks@), opt_view(*ctx));
    let n = tasks.len();
    let start: usize = match last {
        Some(pos) => pos + 1,
        None => 0,
    };
    let mut out: Vec<Task> = Vec::new();
    let mut j: usize = 0;
    while j < n
        invariant
            n == tasks@.len(),
            start as int == k + 1,
            k == last_file_index(task_views(tasks@)),
            expected == sweep_spec(task_views(tasks@), opt_view(*ctx)),
            j <= n,
            task_views(out@) == expected.take(j as int),
        decreases n - j,
    {
        let t = &tasks[j];
        let ghost tv = task_views(tasks@)[j as int];
        assert(tv == task_view(tasks@[j as int]));
        let action = t.action.duplicate();
        let needs = t.action.requires_file();
        let takes = needs || matches!(t.action, AliasAction::Which);
        let nt = if j >= start && t.path.as_str().is_empty() && takes {
            match ctx {
                Some(p) => Task { action, path: p.clone() },
                None => if needs {
                    Task { action: AliasAction::Fail, path: t.path.clone() }
                } else {
                    Task { action, path: t.path.clone() }
                },
            }
        } else {
            Task { action, path: t.path.clone() }
        };
        assert(task_view(nt) == expected[j as int]);
        let ghost ntv = task_view(nt);
        let ghost before = task_views(out@);
        out.push(nt);
        proof {
            assert(task_views(out@) =~= before.push(ntv));
            assert(task_views(out@) =~= expected.take(j + 1));
        }
        j = j + 1;
    }
    proof {
        assert(expected.take(n as int) =~= expected);
    }
    out
}


fn run_harvest(h: &mut Harvest, args: &[String], ctx: &PathContext) -> (f: Flow)
    ensures
        (final(h).view_state(), f) == harvest_spec(old(h).view_state(), views(args@), ctx.view_ctx(), 1),
{
    let ghost target = harvest_spec(h.view_state(), views(args@), ctx.view_ctx(), 1);
    let n = args.len();
    let mut i: usize = 1;
    while i < n
        invariant
            n == args@.len(),
            1 <= i <= n + 1,
            target == harvest_spec(old(h).view_state(), views(args@), ctx.view_ctx(), 1),
            target == harvest_spec(h.view_state(), views(args@), ctx.view_ctx(), i as int),
        decreases n + 1 - i,
    {
        let ghost st0 = h.view_state();
        let f = h.step(args, ctx, i);
        proof {
            assert(harvest_spec(st0, views(args@), ctx.view_ctx(), i as int) == match f {
                Flow::Next => harvest_spec(h.view_state(), views(args@), ctx.view_ctx(), i + 1),
                _ => (h.view_state(), f),
            });
        }
        match f {
            Flow::Next => {
                i = i + 1;
            },
            _ => {
                return f;
            },
        }
    }
    Flow::Next
}

fn run_payload(h: &mut Harvest, args: &[String])
    ensures
        final(h).view_state() == payload_spec(old(h).view_state(), views(args@), old(h).pivot as int),
{
    let ghost target = payload_spec(h.view_state(), views(args@), h.pivot as int);
    let n = args.len();
    let mut i: usize = if h.pivot < n {
        h.pivot
    } else {
        n
    };
    while i < n
        invariant
            n == args@.len(),
            i <= n,
            target == payload_spec(h.view_state(), views(args@), i as int),
        decreases n - i,
    {
        let (action, used) = set_argument_at(args, i, h.volatile, h.force_case, h.is_literal);
        h.push_action(action);
        let step: usize = if used == 0 {
            1
        } else {
            used
        };
        i = i + step;
        if i < n {
            assert(views(args@)[i as int] == args@[i as int]@);
            let next = to_lower(args[i].as_str());
            let nv = chars_of(next.as_str());
            if is_lit(nv.as_slice(), "--temp") {
                h.volatile = true;
                i = i + 1;
            }
        }
    }
}

/// Whether `r` (the queue, the verbosity and the messages to report) is what the reading `p`
/// ended with.
pub open spec fn parsed_as(r: (TaskQueue, Verbosity, Vec<String>), p: ParseView) -> bool {
    &&& task_views(r.0.tasks@) == p.tasks
    &&& r.0.action_path@ == p.action_path
    &&& r.1 == p.voice
    &&& views(r.2@) == p.notes
}

/// Reads a command line (`args[0]` is the program) starting from the verbosity `voice`: the
/// switches first, then the definitions, then the file each task works on. Returns the tasks,
/// the verbosity they are carried out with, and the messages to report, in order.
pub fn parse_arguments_from(args: &[String], ctx: &PathContext, voice: Verbosity) -> (r: (TaskQueue, Verbosity, Vec<String>))
    ensures
        parsed_as(r, parse_spec(views(args@), ctx.view_ctx(), voice)),
{
    let ghost a = views(args@);
    let mut h = Harvest {
        queue: TaskQueue::new(),
        voice,
        custom_path: String::new(),
        custom_ctx: None,
        volatile: false,
        force_case: false,
        pivot: args.len(),
        skip_next: false,
        saw_unknown: false,
        is_literal: false,
        notes: Vec::new(),
    };
    proof {
        assert(task_views(h.queue.tasks@) =~= Seq::empty());
        assert(views(h.notes@) =~= Seq::empty());
        assert(h.view_state() == initial_state(a, voice));
    }
    let flow = run_harvest(&mut h, args, ctx);
    if matches!(flow, Flow::Finish) {
        return (h.queue, h.voice, h.notes);
    }
    run_payload(&mut h, args);
    let cur: Option<String> = if h.custom_path.as_str().is_empty() {
        clone_opt(&ctx.default_path)
    } else {
        clone_opt(&h.custom_ctx)
    };
    match &cur {
        Some(p) => h.queue.pushpath(p.clone()),
        None => {},
    }
    let swept = sweep(&h.queue.tasks, &cur);
    h.queue.tasks = swept;
    if h.queue.is_empty() && !h.saw_unknown {
        h.push_action(AliasAction::ShowAll);
    }
    (h.queue, h.voice, h.notes)
}

/// The verbosity a command line starts from: loud, with icons and tips.
pub open spec fn is_loud_start(v: Verbosity) -> bool {
    &&& v.level == VerbosityLevel::Loud
    &&& v.show_icons == ShowFeature::On
    &&& v.show_tips == ShowTips::On
    &&& tip_fits(ShowTips::Random, v.display_tip)
    &&& !v.in_startup
    &&& !v.in_setup
}

/// Reads a command line (`args[0]` is the program), starting loud; the tip shown is drawn at
/// random, the rest follows `parse_arguments_from`.
pub fn parse_arguments(args: &[String], ctx: &PathContext) -> (r: (TaskQueue, Verbosity, Vec<String>))
    ensures
        exists|v: Verbosity| is_loud_start(v) && parsed_as(r, parse_spec(views(args@), ctx.view_ctx(), v)),
{
    let voice = Verbosity::loud();
    let ghost v = voice;
    let r = parse_arguments_from(args, ctx, voice);
    assert(is_loud_start(v) && parsed_as(r, parse_spec(views(args@), ctx.view_ctx(), v)));
    r
}

// ---------------------------------------------------------------------------
// Every command line asks for something
// ---------------------------------------------------------------------------

pub open spec fn unknown_is_queued(st: ParseView) -> bool {
    st.saw_unknown ==> st.tasks.len() > 0
}

proof fn lemma_step_keeps(st: ParseView, args: Seq<Seq<char>>, ctx: PathCtxView, i: int)
    requires
        0 <= i < args.len(),
        unknown_is_queued(st),
    ensures
        unknown_is_queued(step_spec(st, args, ctx, i).0),
        step_spec(st, args, ctx, i).1 is Finish ==> step_spec(st, args, ctx, i).0.tasks.len() > 0,
{
}

proof fn lemma_harvest_keeps(st: ParseView, args: Seq<Seq<char>>, ctx: PathCtxView, i: int)
    requires
        unknown_is_queued(st),
    ensures
        unknown_is_queued(harvest_spec(st, args, ctx, i).0),
        harvest_spec(st, args, ctx, i).1 is Finish ==> harvest_spec(st, args, ctx, i).0.tasks.len() > 0,
    decreases args.len() - i,
{
    if 0 <= i < args.len() {
        lemma_step_keeps(st, args, ctx, i);
        let (s1, f) = step_spec(st, args, ctx, i);
        if f is Next {
            lemma_harvest_keeps(s1, args, ctx, i + 1);
        }
    }
}

proof fn lemma_payload_grows(st: ParseView, args: Seq<Seq<char>>, i: int)
    ensures
        payload_spec(st, args, i).tasks.len() >= st.tasks.len(),
        payload_spec(st, args, i).saw_unknown == st.saw_unknown,
    decreases (if i <= args.len() {
        args.len() - i
    } else {
        0int
    }),
{
    if 0 <= i < args.len() {
        let (a, used) = set_argument_spec(args.skip(i), st.volatile, st.force_case, st.is_literal);
        let s1 = push_task(st, a, Seq::empty());
        let j = i + if used <= 0 {
            1
        } else {
            used
        };
        if j < args.len() && lowercase(args[j]) == "--temp"@ {
            lemma_payload_grows(ParseView { volatile: true, ..s1 }, args, j + 1);
        } else {
            lemma_payload_grows(s1, args, j);
        }
    }
}

/// Every command line comes to at least one task: with nothing else to do, the tool shows
/// every alias.
pub proof fn lemma_parse_never_empty(args: Seq<Seq<char>>, ctx: PathCtxView, voice: Verbosity)
    ensures
        parse_spec(args, ctx, voice).tasks.len() > 0,
{
    let st = initial_state(args, voice);
    lemma_harvest_keeps(st, args, ctx, 1);
    let (s1, flow) = harvest_spec(st, args, ctx, 1);
    if !(flow is Finish) {
        lemma_payload_grows(s1, args, s1.pivot);
    }
}

} // verus!

verus! {

// ---------------------------------------------------------------------------
// Every task that needs a file has one
// ---------------------------------------------------------------------------

/// A path context whose answers are all usable paths: no resolved word, second resolution or
/// default alias file is the empty path.
pub open spec fn usable_ctx(ctx: PathCtxView) -> bool {
    &&& forall|i: int| #[trigger] resolved_at(ctx, i) matches Some(p) ==> p.len() > 0
    &&& forall|i: int| #[trigger] re_resolved_at(ctx, i) matches Some(p) ==> p.len() > 0
    &&& ctx.default_path matches Some(p) ==> p.len() > 0
}

/// A task has what it needs to run: it needs no file, is itself a `--file` or the listing of
/// every alias, or names its file.
pub open spec fn has_file_context(t: TaskView) -> bool {
    !requires_file_spec(t.action) || t.action is File || t.action is ShowAll || t.path.len() > 0
}

spec fn settled(t: Seq<TaskView>) -> bool {
    forall|j: int| 0 <= j <= last_file_index(t) ==> has_file_context(#[trigger] t[j])
}

spec fn all_settled(t: Seq<TaskView>) -> bool {
    forall|j: int| 0 <= j < t.len() ==> has_file_context(#[trigger] t[j])
}

spec fn ctx_inv(st: ParseView) -> bool {
    &&& settled(st.tasks)
    &&& st.custom_ctx matches Some(p) ==> p.len() > 0
}

proof fn lemma_lfi(t: Seq<TaskView>)
    ensures
        -1 <= last_file_index(t) < t.len(),
        last_file_index(t) >= 0 ==> t[last_file_index(t)].action is File,
        forall|j: int| last_file_index(t) < j < t.len() ==> !(#[trigger] t[j].action is File),
    decreases t.len(),
{
    if t.len() > 0 {
        lemma_lfi(t.drop_last());
        assert forall|j: int| last_file_index(t) < j < t.len() implies !(#[trigger] t[j].action is File) by {
            if j < t.len() - 1 {
                assert(t[j] == t.drop_last()[j]);
            }
        }
        if last_file_index(t) >= 0 && last_file_index(t) < t.len() - 1 {
            assert(t[last_file_index(t)] == t.drop_last()[last_file_index(t)]);
        }
    }
}

proof fn lemma_lfi_char(t: Seq<TaskView>, k: int)
    requires
        -1 <= k < t.len(),
        k >= 0 ==> t[k].action is File,
        forall|j: int| k < j < t.len() ==> !(#[trigger] t[j].action is File),
    ensures
        last_file_index(t) == k,
{
    lemma_lfi(t);
    let l = last_file_index(t);
    if l > k {
        assert(t[l].action is File);
    } else if l < k {
        assert(t[k].action is File);
    }
}

proof fn lemma_push_other(t: Seq<TaskView>, x: TaskView)
    requires
        settled(t),
        !(x.action is File),
    ensures
        settled(t.push(x)),
        last_file_index(t.push(x)) == last_file_index(t),
{
    let u = t.push(x);
    lemma_lfi(t);
    let k = last_file_index(t);
    assert forall|j: int| k < j < u.len() implies !(#[trigger] u[j].action is File) by {
        if j < t.len() {
            assert(u[j] == t[j]);
        }
    }
    if k >= 0 {
        assert(u[k] == t[k]);
    }
    lemma_lfi_char(u, k);
    assert forall|j: int| 0 <= j <= last_file_index(u) implies has_file_context(#[trigger] u[j]) by {
        assert(u[j] == t[j]);
    }
}

proof fn lemma_push_file(t: Seq<TaskView>, x: TaskView)
    requires
        all_settled(t),
        x.action is File,
    ensures
        settled(t.push(x)),
{
    let u = t.push(x);
    lemma_lfi_char(u, t.len() as int);
    assert forall|j: int| 0 <= j <= last_file_index(u) implies has_file_context(#[trigger] u[j]) by {
        if j < t.len() {
            assert(u[j] == t[j]);
        }
    }
}

proof fn lemma_single_settled(x: TaskView)
    requires
        !(x.action is File),
    ensures
        settled(seq![x]),
{
    lemma_lfi_char(seq![x], -1);
}

proof fn lemma_backfill_settles(t: Seq<TaskView>, path: Seq<char>, invalidate: bool)
    requires
        settled(t),
        !invalidate ==> path.len() > 0,
    ensures
        all_settled(backfill_spec(t, path, invalidate)),
{
    lemma_lfi(t);
    let b = backfill_spec(t, path, invalidate);
    assert forall|j: int| 0 <= j < b.len() implies has_file_context(#[trigger] b[j]) by {
        if j <= last_file_index(t) {
            assert(b[j] == t[j]);
        }
    }
}

proof fn lemma_sweep_settles(t: Seq<TaskView>, cur: Option<Seq<char>>)
    requires
        settled(t),
        cur matches Some(p) ==> p.len() > 0,
    ensures
        all_settled(sweep_spec(t, cur)),
{
    lemma_lfi(t);
    let s = sweep_spec(t, cur);
    assert forall|j: int| 0 <= j < s.len() implies has_file_context(#[trigger] s[j]) by {
        if j <= last_file_index(t) {
            assert(s[j] == t[j]);
        }
    }
}

proof fn lemma_step_ctx(st: ParseView, args: Seq<Seq<char>>, ctx: PathCtxView, i: int)
    requires
        0 <= i < args.len(),
        ctx_inv(st),
        usable_ctx(ctx),
    ensures
        ctx_inv(step_spec(st, args, ctx, i).0),
        step_spec(st, args, ctx, i).1 is Finish ==> all_settled(step_spec(st, args, ctx, i).0.tasks),
{
    let arg = args[i];
    if st.skip_next {
    } else if arg == "--"@ {
        if st.voice.in_setup {
            lemma_single_settled(TaskView { action: ActionView::Invalid, path: Seq::empty() });
        }
    } else {
        let trig = parse_action_spec(arg);
        let inv_task = TaskView { action: ActionView::Invalid, path: Seq::empty() };
        lemma_single_settled(inv_task);
        lemma_single_settled(TaskView { action: ActionView::Help, path: Seq::empty() });
        match trig {
            ActionView::File => {
                if i + 1 < args.len() {
                    let res = resolved_at(ctx, i + 1);
                    let s1 = match res {
                        Some(v) => ParseView {
                            custom_path: v,
                            action_path: v,
                            custom_ctx: re_resolved_at(ctx, i + 1),
                            ..st
                        },
                        None => ParseView { custom_path: args[i + 1], custom_ctx: None, ..st },
                    };
                    lemma_backfill_settles(s1.tasks, s1.custom_path, res.is_none());
                    lemma_push_file(
                        backfill_spec(s1.tasks, s1.custom_path, res.is_none()),
                        TaskView { action: ActionView::File, path: args[i + 1] },
                    );
                } else {
                    lemma_push_other(st.tasks, inv_task);
                }
            },
            ActionView::Unalias(_) | ActionView::Remove(_) => {
                if !st.voice.in_setup {
                    if i + 1 < args.len() && parse_action_spec(args[i + 1]) is Query
                        && valid_name_spec(args[i + 1]) {
                        let h = if trig is Unalias {
                            ActionView::Unalias(args[i + 1])
                        } else {
                            ActionView::Remove(args[i + 1])
                        };
                        lemma_push_other(st.tasks, TaskView { action: h, path: Seq::empty() });
                    } else {
                        lemma_push_other(st.tasks, TaskView { action: ActionView::Fail, path: Seq::empty() });
                    }
                }
            },
            ActionView::Setup => {
                lemma_push_other(st.tasks, TaskView { action: ActionView::Setup, path: Seq::empty() });
            },
            ActionView::Reload => {
                lemma_push_other(st.tasks, TaskView { action: ActionView::Reload, path: Seq::empty() });
            },
            ActionView::Which => {
                lemma_push_other(st.tasks, TaskView { action: ActionView::Which, path: Seq::empty() });
            },
            ActionView::Clear => {
                lemma_push_other(st.tasks, TaskView { action: ActionView::Clear, path: Seq::empty() });
            },
            ActionView::Edit(val) => {
                lemma_push_other(st.tasks, TaskView { action: ActionView::Edit(val), path: Seq::empty() });
            },
            _ => {
                lemma_push_other(st.tasks, inv_task);
            },
        }
    }
}

proof fn lemma_harvest_ctx(st: ParseView, args: Seq<Seq<char>>, ctx: PathCtxView, i: int)
    requires
        ctx_inv(st),
        usable_ctx(ctx),
    ensures
        ctx_inv(harvest_spec(st, args, ctx, i).0),
        harvest_spec(st, args, ctx, i).1 is Finish ==> all_settled(harvest_spec(st, args, ctx, i).0.tasks),
    decreases args.len() - i,
{
    if 0 <= i < args.len() {
        lemma_step_ctx(st, args, ctx, i);
        let (s1, f) = step_spec(st, args, ctx, i);
        if f is Next {
            lemma_harvest_ctx(s1, args, ctx, i + 1);
        }
    }
}

proof fn lemma_payload_ctx(st: ParseView, args: Seq<Seq<char>>, i: int)
    requires
        ctx_inv(st),
    ensures
        ctx_inv(payload_spec(st, args, i)),
    decreases (if i <= args.len() {
        args.len() - i
    } else {
        0int
    }),
{
    if 0 <= i < args.len() {
        let (a, used) = set_argument_spec(args.skip(i), st.volatile, st.force_case, st.is_literal);
        lemma_push_other(st.tasks, TaskView { action: a, path: Seq::empty() });
        let s1 = push_task(st, a, Seq::empty());
        let j = i + if used <= 0 {
            1
        } else {
            used
        };
        if j < args.len() && lowercase(args[j]) == "--temp"@ {
            lemma_payload_ctx(ParseView { volatile: true, ..s1 }, args, j + 1);
        } else {
            lemma_payload_ctx(s1, args, j);
        }
    }
}

/// Every task of a command line can run as far as files go: with usable path answers, a task
/// that needs the alias file either names one or has become `Fail` (only a `--file` task and
/// the listing of every alias may go without); and the queue is never empty.
pub proof fn lemma_tasks_have_file_context(args: Seq<Seq<char>>, ctx: PathCtxView, voice: Verbosity)
    requires
        usable_ctx(ctx),
    ensures
        parse_spec(args, ctx, voice).tasks.len() > 0,
        forall|j: int| 0 <= j < parse_spec(args, ctx, voice).tasks.len()
            ==> has_file_context(#[trigger] parse_spec(args, ctx, voice).tasks[j]),
{
    lemma_parse_never_empty(args, ctx, voice);
    let st = initial_state(args, voice);
    lemma_lfi_char(st.tasks, -1);
    lemma_harvest_ctx(st, args, ctx, 1);
    let (s1, flow) = harvest_spec(st, args, ctx, 1);
    if !(flow is Finish) {
        lemma_payload_ctx(s1, args, s1.pivot);
        let s2 = payload_spec(s1, args, s1.pivot);
        let cur = if s2.custom_path.len() == 0 {
            ctx.default_path
        } else {
            s2.custom_ctx
        };
        lemma_sweep_settles(s2.tasks, cur);
        let t = sweep_spec(s2.tasks, cur);
        if t.len() == 0 && !s2.saw_unknown {
            let u = t.push(TaskView { action: ActionView::ShowAll, path: Seq::empty() });
            assert forall|j: int| 0 <= j < u.len() implies has_file_context(#[trigger] u[j]) by {
                if j < t.len() {
                    assert(u[j] == t[j]);
                }
            }
        }
    }
}

} // verus!

verus! {

/// Law: a removal switch takes the word after it as its target: `--remove NAME` queues a
/// removal of `NAME` from the alias file and from memory, and `--unalias NAME` a removal from
/// memory only. On the line `alias <switch> NAME`, with a valid name and a default alias file,
/// that one task is the whole queue.
pub proof fn lemma_removal_switch_target(args: Seq<Seq<char>>, ctx: PathCtxView, voice: Verbosity)
    requires
        args.len() == 3,
        args[1] != "--"@,
        parse_action_spec(args[1]) is Remove || parse_action_spec(args[1]) is Unalias,
        parse_action_spec(args[2]) is Query,
        valid_name_spec(args[2]),
        !voice.in_setup,
        ctx.default_path is Some,
    ensures
        parse_spec(args, ctx, voice).tasks.len() == 1,
        parse_action_spec(args[1]) is Remove ==> parse_spec(args, ctx, voice).tasks[0].action
            == ActionView::Remove(args[2]),
        parse_action_spec(args[1]) is Unalias ==> parse_spec(args, ctx, voice).tasks[0].action
            == ActionView::Unalias(args[2]),
{
    let st = initial_state(args, voice);
    let (s1, f1) = step_spec(st, args, ctx, 1);
    let want = if parse_action_spec(args[1]) is Unalias {
        ActionView::Unalias(args[2])
    } else {
        ActionView::Remove(args[2])
    };
    assert(s1.tasks =~= seq![TaskView { action: want, path: Seq::empty() }]);
    assert(s1.skip_next && f1 is Next && s1.pivot == 3);
    assert(harvest_spec(st, args, ctx, 1) == harvest_spec(s1, args, ctx, 2));
    let (s2, f2) = step_spec(s1, args, ctx, 2);
    assert(s2 == ParseView { skip_next: false, ..s1 } && f2 is Next);
    assert(harvest_spec(s1, args, ctx, 2) == harvest_spec(s2, args, ctx, 3));
    assert(harvest_spec(s2, args, ctx, 3) == (s2, Flow::Next));
    assert(payload_spec(s2, args, 3) == s2);
    assert(s2.custom_path.len() == 0);
    let t = s2.tasks;
    assert(t.drop_last() =~= Seq::<TaskView>::empty());
    assert(t.last().action == want);
    assert(last_file_index(Seq::<TaskView>::empty()) == -1);
    assert(last_file_index(t) == -1);
    let swept = sweep_spec(t, ctx.default_path);
    assert(swept.len() == 1);
    assert(swept[0].action == want);
}

} // verus!
