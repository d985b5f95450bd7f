//! What carrying out a command line asks of the alias provider, decided before anything is
//! touched: the order of the work, which tasks are dropped, and the messages that go with it.
use vstd::prelude::*;
use crate::text::{
    chars_of, concat, concat3, is_whitespace, is_ws, pad_right, push_padded, push_str, slice_of,
    string_of, trim_class, trim_ws, views, Trim,
};
use crate::action::{AliasAction, ActionView, SetOptions, SetView, is_lit, set_view};
use crate::model::{AliasError, AliasIcon, ErrorCode, HelpMode, Task, TaskQueue};
use crate::parse::{TaskView, task_view, task_views};
use crate::voice::{Verbosity, failure, icon_format_spec, said, shouted};

verus! {

// ---------------------------------------------------------------------------
// One task
// ---------------------------------------------------------------------------

/// What one task asks of the provider.
pub enum Step {
    /// Store the definition (in the file at the task's path, or in memory when volatile),
    /// then say `note` when there is one.
    Store { opts: SetOptions, note: Option<String> },
    /// Drop the file's definitions from memory, open the file in the editor (this one when
    /// given), and load it again.
    Edit(Option<String>),
    /// Show every alias, then the diagnostics of the file.
    Which,
    /// Load the file; `clear` wipes memory first.
    Reload { clear: bool },
    /// Print the definitions found for this name.
    Query(String),
    /// Show every alias.
    ShowAll,
    /// Wipe the definitions in memory, after whispering `note`.
    Clear { note: String },
    /// Print the help in this form, after screaming `alert` when there is one.
    Help { mode: HelpMode, alert: Option<String> },
    /// Stop with this error, after screaming `alert` when there is one.
    Refuse { alert: Option<String>, error: AliasError },
}

pub ghost enum StepView {
    Store { opts: SetView, note: Option<Seq<char>> },
    Edit(Option<Seq<char>>),
    Which,
    Reload { clear: bool },
    Query(Seq<char>),
    ShowAll,
    Clear { note: Seq<char> },
    Help { full: bool, alert: Option<Seq<char>> },
    Refuse { alert: Option<Seq<char>>, message: Seq<char>, code: u8 },
}

pub open spec fn opt_seq(o: Option<String>) -> Option<Seq<char>> {
    match o {
        Some(s) => Some(s@),
        None => None,
    }
}

impl Step {
    pub open spec fn view_step(&self) -> StepView {
        match self {
            Step::Store { opts, note } => StepView::Store { opts: set_view(*opts), note: opt_seq(*note) },
            Step::Edit(e) => StepView::Edit(opt_seq(*e)),
            Step::Which => StepView::Which,
            Step::Reload { clear } => StepView::Reload { clear: *clear },
            Step::Query(q) => StepView::Query(q@),
            Step::ShowAll => StepView::ShowAll,
            Step::Clear { note } => StepView::Clear { note: note@ },
            Step::Help { mode, alert } => StepView::Help { full: *mode is Full, alert: opt_seq(*alert) },
            Step::Refuse { alert, error } => StepView::Refuse {
                alert: opt_seq(*alert),
                message: error.message@,
                code: error.code,
            },
        }
    }
}

/// The name a removal works on: the whole word, trimmed (an `=` in it stays part of the name).
pub open spec fn target_name(raw: Seq<char>) -> Seq<char> {
    trim_ws(raw)
}

/// A removal of `raw` (from memory only when `volatile`): refused when the name is empty.
pub open spec fn removal_spec(v: Verbosity, raw: Seq<char>, path: Seq<char>, volatile: bool) -> StepView {
    let name = target_name(raw);
    if name.len() == 0 {
        StepView::Refuse {
            alert: None,
            message: icon_format_spec(v, AliasIcon::Fail, "Error: name required"@),
            code: 7,
        }
    } else {
        StepView::Store {
            opts: SetView { name, value: Seq::empty(), volatile, force_case: false },
            note: Some(
                icon_format_spec(
                    v,
                    AliasIcon::File,
                    if volatile {
                        "Removed alias '"@ + name + "' "@
                    } else {
                        "Removed alias '"@ + name + "' from "@ + path
                    },
                ),
            ),
        }
    }
}

/// The refusal of a switch that should never reach the provider.
pub open spec fn leak_spec(v: Verbosity) -> StepView {
    let msg = "Metadata Leak: Parser state variant reached the executor."@;
    StepView::Refuse {
        alert: Some(
            icon_format_spec(v, AliasIcon::Fail, "Critical Error. Should be unreachable in dispatch: "@ + msg),
        ),
        message: icon_format_spec(v, AliasIcon::Fail, msg),
        code: 1,
    }
}

/// What a task asks of the provider.
pub open spec fn dispatch_spec(t: TaskView, v: Verbosity) -> StepView {
    match t.action {
        ActionView::SetAlias(o) => StepView::Store { opts: o, note: None },
        ActionView::Remove(raw) => removal_spec(v, raw, t.path, false),
        ActionView::Unalias(raw) => removal_spec(v, raw, t.path, true),
        ActionView::Edit(e) => StepView::Edit(e),
        ActionView::Which => StepView::Which,
        ActionView::Reload => StepView::Reload { clear: true },
        ActionView::Query(q) => StepView::Query(q),
        ActionView::ShowAll => StepView::ShowAll,
        ActionView::Clear => StepView::Clear {
            note: icon_format_spec(v, AliasIcon::Whisper, "Purging RAM macros..."@),
        },
        ActionView::Help => StepView::Help { full: true, alert: None },
        ActionView::File => StepView::Reload { clear: false },
        ActionView::Setup => StepView::Help {
            full: false,
            alert: Some(
                icon_format_spec(v, AliasIcon::Alert, "Setup should never be dispatched (Handled seperately)."@),
            ),
        },
        ActionView::Fail => StepView::Help {
            full: false,
            alert: Some(icon_format_spec(v, AliasIcon::Alert, "Failed command state."@)),
        },
        ActionView::Invalid => StepView::Help {
            full: false,
            alert: Some(icon_format_spec(v, AliasIcon::Alert, "Invalid command state."@)),
        },
        _ => leak_spec(v),
    }
}

fn removal(verbosity: &Verbosity, raw: &String, path: &String, volatile: bool) -> (r: Step)
    ensures
        r.view_step() == removal_spec(*verbosity, raw@, path@, volatile),
{
    let rv = chars_of(raw.as_str());
    let t = trim_class(rv.as_slice(), Trim::Space);
    if t.len() == 0 {
        let code = ErrorCode::MissingName.code();
        return Step::Refuse {
            alert: None,
            error: failure(verbosity, code as u64, "Error: name required"),
        };
    }
    let name = string_of(t.as_slice());
    let msg = if volatile {
        concat3("Removed alias '", name.as_str(), "' ")
    } else {
        let head = concat3("Removed alias '", name.as_str(), "' from ");
        concat(head.as_str(), path.as_str())
    };
    let note = verbosity.icon_format(AliasIcon::File, msg.as_str());
    Step::Store {
        opts: SetOptions { name, value: String::new(), volatile, force_case: false },
        note: Some(note),
    }
}

fn leak(verbosity: &Verbosity) -> (r: Step)
    ensures
        r.view_step() == leak_spec(*verbosity),
{
    let msg = "Metadata Leak: Parser state variant reached the executor.";
    let full = concat("Critical Error. Should be unreachable in dispatch: ", msg);
    let code = ErrorCode::Generic.code();
    Step::Refuse {
        alert: Some(verbosity.icon_format(AliasIcon::Fail, full.as_str())),
        error: failure(verbosity, code as u64, msg),
    }
}

/// What carrying out `task` asks of the provider: definitions are stored, removals name the
/// whole trimmed word (refused with `MissingName` when empty), `--file` and `--reload` load
/// the file (only the latter wiping memory first), states that should not reach this point
/// print the short help after an alert, and parser switches are refused.
pub fn dispatch(task: Task, verbosity: &Verbosity) -> (r: Step)
    ensures
        r.view_step() == dispatch_spec(task_view(task), *verbosity),
{
    let path = task.path;
    match task.action {
        AliasAction::SetAlias(opts) => Step::Store { opts, note: None },
        AliasAction::Remove(raw) => removal(verbosity, &raw, &path, false),
        AliasAction::Unalias(raw) => removal(verbosity, &raw, &path, true),
        AliasAction::Edit(e) => Step::Edit(e),
        AliasAction::Which => Step::Which,
        AliasAction::Reload => Step::Reload { clear: true },
        AliasAction::Query(q) => Step::Query(q),
        AliasAction::ShowAll => Step::ShowAll,
        AliasAction::Clear => Step::Clear {
            note: verbosity.icon_format(AliasIcon::Whisper, "Purging RAM macros..."),
        },
        AliasAction::Help => Step::Help { mode: HelpMode::Full, alert: None },
        AliasAction::File => Step::Reload { clear: false },
        AliasAction::Setup => Step::Help {
            mode: HelpMode::Short,
            alert: Some(
                verbosity.icon_format(
                    AliasIcon::Alert,
                    "Setup should never be dispatched (Handled seperately).",
                ),
            ),
        },
        AliasAction::Fail => Step::Help {
            mode: HelpMode::Short,
            alert: Some(verbosity.icon_format(AliasIcon::Alert, "Failed command state.")),
        },
        AliasAction::Invalid => Step::Help {
            mode: HelpMode::Short,
            alert: Some(verbosity.icon_format(AliasIcon::Alert, "Invalid command state.")),
        },
        _ => leak(verbosity),
    }
}

/// What follows the failure of the task at `index` with `message`: `None` stops the run (the
/// first task of a start-up, which reloads the alias file), otherwise the alert to report
/// before the run goes on.
pub fn failure_report(verbosity: &Verbosity, index: usize, message: &str) -> (r: Option<String>)
    ensures
        verbosity.in_startup && index == 0 ==> r is None,
        !(verbosity.in_startup && index == 0) ==> (r matches Some(t)
            && t@ == icon_format_spec(*verbosity, AliasIcon::Alert, "Action Failed: "@ + message@)),
{
    if verbosity.in_startup && index == 0 {
        None
    } else {
        let m = concat("Action Failed: ", message);
        Some(verbosity.icon_format(AliasIcon::Alert, m.as_str()))
    }
}

// ---------------------------------------------------------------------------
// The whole command line
// ---------------------------------------------------------------------------

/// One piece of the work of a command line.
pub enum Route {
    /// A task for `dispatch` to carry out.
    Dispatch(Task),
    /// A `--file`: load the file at this path when it resolves, or report it as rejected.
    Audit(String),
}

pub ghost enum RouteView {
    Dispatch(TaskView),
    Audit(Seq<char>),
}

impl Route {
    pub open spec fn view_route(&self) -> RouteView {
        match self {
            Route::Dispatch(t) => RouteView::Dispatch(task_view(*t)),
            Route::Audit(p) => RouteView::Audit(p@),
        }
    }
}

pub open spec fn route_views(r: Seq<Route>) -> Seq<RouteView> {
    r.map_values(|x: Route| x.view_route())
}

/// What a command line comes to.
pub enum RunPlan {
    /// A setup whose command line holds a failed or invalid action: scream this and stop.
    SetupRefused(String),
    /// A clean setup: install the autorun hook for this queue.
    Setup(TaskQueue),
    /// Carry out these pieces in order, then show the tip when `tip` holds.
    Work { routes: Vec<Route>, tip: bool },
}

pub ghost enum PlanView {
    SetupRefused(Seq<char>),
    Setup(Seq<TaskView>),
    Work { routes: Seq<RouteView>, tip: bool },
}

impl RunPlan {
    pub open spec fn view_plan(&self) -> PlanView {
        match self {
            RunPlan::SetupRefused(m) => PlanView::SetupRefused(m@),
            RunPlan::Setup(q) => PlanView::Setup(task_views(q.tasks@)),
            RunPlan::Work { routes, tip } => PlanView::Work { routes: route_views(routes@), tip: *tip },
        }
    }
}

/// The pieces of work for `tasks`: failed tasks are dropped, `--file` tasks are audited (at
/// the default path when they name none), the others dispatched.
pub open spec fn routes_spec(tasks: Seq<TaskView>, default_path: Seq<char>) -> Seq<RouteView>
    decreases tasks.len(),
{
    if tasks.len() == 0 {
        Seq::empty()
    } else {
        let r = routes_spec(tasks.drop_last(), default_path);
        let t = tasks.last();
        if t.action is Fail {
            r
        } else if t.action is File {
            r.push(RouteView::Audit(if t.path.len() == 0 { default_path } else { t.path }))
        } else {
            r.push(RouteView::Dispatch(t))
        }
    }
}

pub open spec fn is_poison(a: ActionView) -> bool {
    a is Fail || a is Invalid
}

/// What a command line comes to, from its queue, its verbosity and the default alias file.
pub open spec fn plan_spec(tasks: Seq<TaskView>, v: Verbosity, default_path: Seq<char>) -> PlanView {
    if tasks.len() > 0 && tasks[0].action is Setup {
        if exists|i: int| 0 <= i < tasks.len() && is_poison(#[trigger] tasks[i].action) {
            PlanView::SetupRefused(
                icon_format_spec(
                    v,
                    AliasIcon::Alert,
                    "Setup aborted: Command line contains invalid paths or actions."@,
                ),
            )
        } else {
            PlanView::Setup(tasks)
        }
    } else {
        let startup = if v.in_startup {
            seq![RouteView::Dispatch(TaskView { action: ActionView::Reload, path: default_path })]
        } else {
            Seq::empty()
        };
        if v.in_startup && tasks.len() == 0 {
            PlanView::Work { routes: startup, tip: false }
        } else {
            let work = if tasks.len() == 0 {
                seq![TaskView { action: ActionView::ShowAll, path: default_path }]
            } else {
                tasks
            };
            PlanView::Work { routes: startup + routes_spec(work, default_path), tip: true }
        }
    }
}

fn has_poison(tasks: &Vec<Task>) -> (r: bool)
    ensures
        r == exists|i: int| 0 <= i < tasks@.len() && is_poison(#[trigger] task_views(tasks@)[i].action),
{
    let mut i: usize = 0;
    while i < tasks.len()
        invariant
            i <= tasks@.len(),
            forall|j: int| 0 <= j < i ==> !is_poison(#[trigger] task_views(tasks@)[j].action),
        decreases tasks@.len() - i,
    {
        assert(task_views(tasks@)[i as int] == task_view(tasks@[i as int]));
        if matches!(tasks[i].action, AliasAction::Fail | AliasAction::Invalid) {
            assert(is_poison(task_views(tasks@)[i as int].action));
            return true;
        }
        i = i + 1;
    }
    false
}

fn routes_of(tasks: Vec<Task>, default_path: &String) -> (r: Vec<Route>)
    ensures
        route_views(r@) == routes_spec(task_views(tasks@), default_path@),
{
    let ghost tv = task_views(tasks@);
    let ghost all = tasks@;
    let n = tasks.len();
    let mut out: Vec<Route> = Vec::new();
    let mut rest = tasks;
    let mut i: usize = 0;
    while i < n
        invariant
            n == tv.len(),
            i <= n,
            tv == task_views(all),
            route_views(out@) == routes_spec(tv.take(i as int), default_path@),
            rest@ == all.subrange(i as int, n as int),
        decreases n - i,
    {
        let t = rest.remove(0);
        let ghost t_view = task_view(t);
        assert(t == all[i as int]);
        assert(t_view == tv[i as int]);
        proof {
            assert(rest@ =~= all.subrange(i + 1, n as int));
        }
        let ghost before = route_views(out@);
        let ghost prefix = tv.take(i + 1);
        proof {
            assert(prefix.drop_last() =~= tv.take(i as int));
            assert(prefix.last() == tv[i as int]);
        }
        if matches!(t.action, AliasAction::Fail) {
        } else if matches!(t.action, AliasAction::File) {
            let target = if t.path.as_str().is_empty() {
                default_path.clone()
            } else {
                t.path
            };
            out.push(Route::Audit(target));
            proof {
                assert(route_views(out@) =~= before.push(out@.last().view_route()));
            }
        } else {
            out.push(Route::Dispatch(t));
            proof {
                assert(route_views(out@) =~= before.push(out@.last().view_route()));
            }
        }
        i = i + 1;
    }
    assert(tv.take(n as int) =~= tv);
    out
}

/// What a command line comes to: a setup is installed unless its queue holds a failed or
/// invalid action; otherwise a startup first reloads the default file (and stops there when
/// nothing else was asked), an empty queue shows every alias from the default file, failed
/// tasks are dropped, and `--file` tasks are audited. A setup keeps the whole queue, its path
/// included.
pub fn plan_run(queue: TaskQueue, verbosity: &Verbosity, default_path: &String) -> (r: RunPlan)
    ensures
        r.view_plan() == plan_spec(task_views(queue.tasks@), *verbosity, default_path@),
        r matches RunPlan::Setup(q) ==> q.action_path@ == queue.action_path@,
{
    let ghost tv = task_views(queue.tasks@);
    if queue.tasks.len() > 0 && matches!(queue.tasks[0].action, AliasAction::Setup) {
        assert(tv[0] == task_view(queue.tasks@[0]));
        if has_poison(&queue.tasks) {
            return RunPlan::SetupRefused(
                verbosity.icon_format(
                    AliasIcon::Alert,
                    "Setup aborted: Command line contains invalid paths or actions.",
                ),
            );
        }
        return RunPlan::Setup(queue);
    }
    proof {
        if queue.tasks@.len() > 0 {
            assert(tv[0] == task_view(queue.tasks@[0]));
        }
    }
    let mut routes: Vec<Route> = Vec::new();
    if verbosity.in_startup {
        routes.push(Route::Dispatch(Task { action: AliasAction::Reload, path: default_path.clone() }));
        if queue.tasks.len() == 0 {
            proof {
                assert(route_views(routes@) =~= seq![
                    RouteView::Dispatch(TaskView { action: ActionView::Reload, path: default_path@ }),
                ]);
            }
            return RunPlan::Work { routes, tip: false };
        }
    }
    let ghost startup = route_views(routes@);
    let mut tasks = queue.tasks;
    if tasks.len() == 0 {
        tasks.push(Task { action: AliasAction::ShowAll, path: default_path.clone() });
        proof {
            assert(task_views(tasks@) =~= seq![
                TaskView { action: ActionView::ShowAll, path: default_path@ },
            ]);
        }
    }
    let mut work = routes_of(tasks, default_path);
    let ghost w = route_views(work@);
    routes.append(&mut work);
    proof {
        assert(route_views(routes@) =~= startup + w);
        if verbosity.in_startup {
            assert(startup =~= seq![
                RouteView::Dispatch(TaskView { action: ActionView::Reload, path: default_path@ }),
            ]);
        } else {
            assert(startup =~= Seq::empty());
        }
    }
    RunPlan::Work { routes, tip: true }
}

/// The report of a `--file` whose path does not resolve.
pub fn block_rejected(verbosity: &Verbosity, target: &str) -> (r: String)
    ensures
        r@ == icon_format_spec(*verbosity, AliasIcon::Alert, "Block Rejected: Invalid path '"@ + target@ + "'"@),
{
    let m = concat3("Block Rejected: Invalid path '", target, "'");
    verbosity.icon_format(AliasIcon::Alert, m.as_str())
}

// ---------------------------------------------------------------------------
// The help
// ---------------------------------------------------------------------------

pub open spec fn usage_text() -> Seq<char> {
    "\nUSAGE:\n  alias                       List active macros\n  alias <name>                Search for a specific macro\n  alias <name>=[value]        Set or delete (if empty) a macro\n  alias <name> [value]        Set a macro (alternate syntax)\n\n"@
}

pub open spec fn flags_text() -> Seq<char> {
    "\nFLAGS:\n  --help                  Show this help menu\n  --quiet                 Suppress success output & icons\n  --edalias[=EDITOR]      Open alias file in editor\n  --file <path>           Specify a custom .doskey file\n  --force                 Bypass case-sensitivity checks\n  --reload                Force reload from file\n  --remove                Remove a specific alias from the alias file\n  --setup                 Install AutoRun registry hook\n  --[no-]tips             Enable/Disable tips\n  --unalias               Remove a specific alias from memory\n  --temp                  Set alias in RAM only (volatile)\n  --which                 Run diagnostics & Triple Audit\n  --                      Stop processing arguments\n"@
}

/// What the help prints: the title with the binary's name and the usage; for the full help
/// also the switches, the environment variables and the current alias file.
pub open spec fn help_spec(v: Verbosity, full: bool, path: Option<Seq<char>>, exe_name: Seq<char>) -> Seq<char> {
    let head = shouted(v, icon_format_spec(v, AliasIcon::Info, "ALIAS ("@ + exe_name + ") - High-speed alias management"@))
        + said(v, icon_format_spec(v, AliasIcon::NoIcon, usage_text()));
    if !full {
        head
    } else {
        head + shouted(v, icon_format_spec(v, AliasIcon::NoIcon, flags_text())) + shouted(
            v,
            icon_format_spec(v, AliasIcon::Environment, "ENVIRONMENT:"@),
        ) + shouted(
            v,
            icon_format_spec(v, AliasIcon::NoIcon, "  "@ + pad_right("ALIAS_FILE"@, 15) + " Path to your .doskey file"@),
        ) + shouted(
            v,
            icon_format_spec(
                v,
                AliasIcon::NoIcon,
                "  "@ + pad_right("ALIAS_OPTS"@, 15) + " Default flags (e.g. \u{22}--quiet\u{22})"@,
            ),
        ) + match path {
            Some(p) => shouted(v, icon_format_spec(v, AliasIcon::File, "CURRENT FILE: "@ + p)),
            None => shouted(v, icon_format_spec(v, AliasIcon::Shout, "CURRENT FILE: None (Set ALIAS_FILE to fix)"@)),
        }
    }
}

fn push_shout(buf: &mut Vec<char>, v: &Verbosity, icon: AliasIcon, msg: &str)
    ensures
        final(buf)@ == old(buf)@ + shouted(*v, icon_format_spec(*v, icon, msg@)),
{
    let f = v.icon_format(icon, msg);
    let s = v.shouted_text(f.as_str());
    push_str(buf, s.as_str());
}

/// The text the help prints, full or short, for the binary `exe_name` and the alias file
/// `path`.
pub fn print_help(verbosity: &Verbosity, mode: HelpMode, path: Option<&str>, exe_name: &str) -> (r: String)
    ensures
        r@ == help_spec(*verbosity, mode is Full, match path {
            Some(p) => Some(p@),
            None => None,
        }, exe_name@),
{
    let v = verbosity;
    let mut buf: Vec<char> = Vec::new();
    let title = concat3("ALIAS (", exe_name, ") - High-speed alias management");
    push_shout(&mut buf, v, AliasIcon::Info, title.as_str());
    let usage = v.icon_format(
        AliasIcon::NoIcon,
        "\nUSAGE:\n  alias                       List active macros\n  alias <name>                Search for a specific macro\n  alias <name>=[value]        Set or delete (if empty) a macro\n  alias <name> [value]        Set a macro (alternate syntax)\n\n",
    );
    let usage_said = v.said_text(usage.as_str());
    push_str(&mut buf, usage_said.as_str());
    if matches!(mode, HelpMode::Short) {
        return string_of(buf.as_slice());
    }
    push_shout(
        &mut buf,
        v,
        AliasIcon::NoIcon,
        "\nFLAGS:\n  --help                  Show this help menu\n  --quiet                 Suppress success output & icons\n  --edalias[=EDITOR]      Open alias file in editor\n  --file <path>           Specify a custom .doskey file\n  --force                 Bypass case-sensitivity checks\n  --reload                Force reload from file\n  --remove                Remove a specific alias from the alias file\n  --setup                 Install AutoRun registry hook\n  --[no-]tips             Enable/Disable tips\n  --unalias               Remove a specific alias from memory\n  --temp                  Set alias in RAM only (volatile)\n  --which                 Run diagnostics & Triple Audit\n  --                      Stop processing arguments\n",
    );
    push_shout(&mut buf, v, AliasIcon::Environment, "ENVIRONMENT:");
    let mut line1: Vec<char> = Vec::new();
    push_str(&mut line1, "  ");
    push_padded(&mut line1, "ALIAS_FILE", 15);
    push_str(&mut line1, " Path to your .doskey file");
    let l1 = string_of(line1.as_slice());
    push_shout(&mut buf, v, AliasIcon::NoIcon, l1.as_str());
    let mut line2: Vec<char> = Vec::new();
    push_str(&mut line2, "  ");
    push_padded(&mut line2, "ALIAS_OPTS", 15);
    push_str(&mut line2, " Default flags (e.g. \u{22}--quiet\u{22})");
    let l2 = string_of(line2.as_slice());
    push_shout(&mut buf, v, AliasIcon::NoIcon, l2.as_str());
    match path {
        Some(p) => {
            let m = concat("CURRENT FILE: ", p);
            push_shout(&mut buf, v, AliasIcon::File, m.as_str());
        },
        None => {
            push_shout(&mut buf, v, AliasIcon::Shout, "CURRENT FILE: None (Set ALIAS_FILE to fix)");
        },
    }
    string_of(buf.as_slice())
}

/// A failed task never reaches the provider, and a `--file` task is only ever audited: no
/// dispatched piece of work holds a `Fail` or a `File` action.
pub proof fn lemma_routes_skip_failed(tasks: Seq<TaskView>, default_path: Seq<char>)
    ensures
        forall|i: int| 0 <= i < routes_spec(tasks, default_path).len() ==> (#[trigger] routes_spec(tasks, default_path)[i] matches RouteView::Dispatch(t) ==> !(t.action is Fail) && !(t.action is File)),
    decreases tasks.len(),
{
    if tasks.len() > 0 {
        lemma_routes_skip_failed(tasks.drop_last(), default_path);
        let r = routes_spec(tasks.drop_last(), default_path);
        let all = routes_spec(tasks, default_path);
        assert forall|i: int| 0 <= i < all.len() implies (#[trigger] all[i] matches RouteView::Dispatch(t) ==> !(t.action is Fail) && !(t.action is File)) by {
            if i < r.len() {
                assert(all[i] == r[i]);
            }
        }
    }
}

// ---------------------------------------------------------------------------
// Switches from the environment
// ---------------------------------------------------------------------------

/// The end of the word that starts at `i`: the first whitespace at or after `i`.
pub open spec fn word_end(s: Seq<char>, i: int) -> int
    decreases s.len() - i,
{
    if i >= s.len() || is_ws(s[i]) {
        i
    } else {
        word_end(s, i + 1)
    }
}

/// The words of `s` from `i` on, as `str::split_whitespace` gives them.
pub open spec fn words_from(s: Seq<char>, i: int) -> Seq<Seq<char>>
    decreases s.len() - i,
{
    if i >= s.len() || i < 0 {
        Seq::empty()
    } else if is_ws(s[i]) {
        words_from(s, i + 1)
    } else {
        let e = word_end(s, i);
        proof {
            lemma_word_end(s, i);
        }
        if e <= i {
            Seq::empty()
        } else {
            seq![s.subrange(i, e)] + words_from(s, e)
        }
    }
}

/// The word that starts at `i` ends inside `s`, holds no whitespace, is not empty when `s[i]`
/// is not whitespace, and is followed by whitespace or by the end of `s`.
pub proof fn lemma_word_end(s: Seq<char>, i: int)
    requires
        0 <= i,
    ensures
        i <= s.len() ==> i <= word_end(s, i) <= s.len(),
        i < s.len() && !is_ws(s[i]) ==> word_end(s, i) > i,
        forall|k: int| i <= k < word_end(s, i) ==> !is_ws(#[trigger] s[k]),
        word_end(s, i) < s.len() ==> is_ws(s[word_end(s, i)]),
    decreases s.len() - i,
{
    if i < s.len() && !is_ws(s[i]) {
        lemma_word_end(s, i + 1);
    }
}

/// The switches `ALIAS_OPTS` may add: those of its words that only change how the tool
/// speaks or stores.
pub open spec fn is_env_switch(w: Seq<char>) -> bool {
    w == "--quiet"@ || w == "--temp"@ || w == "--tips"@ || w == "--no-tips"@ || w == "--icons"@
        || w == "--no-icons"@ || w == "--force"@
}

pub open spec fn env_switches(ws: Seq<Seq<char>>) -> Seq<Seq<char>>
    decreases ws.len(),
{
    if ws.len() == 0 {
        Seq::empty()
    } else {
        let r = env_switches(ws.drop_last());
        if is_env_switch(ws.last()) {
            r.push(ws.last())
        } else {
            r
        }
    }
}

fn split_words(s: &str) -> (r: Vec<String>)
    ensures
        views(r@) == words_from(s@, 0),
{
    let v = chars_of(s);
    let n = v.len();
    let mut out: Vec<String> = Vec::new();
    let mut i: usize = 0;
    while i < n
        invariant
            n == v@.len(),
            v@ == s@,
            i <= n,
            views(out@) + words_from(v@, i as int) == words_from(v@, 0),
        decreases n - i,
    {
        if is_whitespace(v[i]) {
            i = i + 1;
        } else {
            let mut e: usize = i;
            while e < n && !is_whitespace(v[e])
                invariant
                    n == v@.len(),
                    i <= e <= n,
                    word_end(v@, i as int) == word_end(v@, e as int),
                decreases n - e,
            {
                e = e + 1;
            }
            proof {
                lemma_word_end(v@, i as int);
                assert(word_end(v@, e as int) == e);
            }
            let w = slice_of(v.as_slice(), i, e);
            let ghost before = views(out@);
            out.push(string_of(w.as_slice()));
            proof {
                assert(views(out@) =~= before.push(v@.subrange(i as int, e as int)));
                assert(words_from(v@, i as int) == seq![v@.subrange(i as int, e as int)] + words_from(v@, e as int));
                assert(views(out@) + words_from(v@, e as int) =~= before + words_from(v@, i as int));
            }
            i = e;
        }
    }
    assert(views(out@) =~= views(out@) + words_from(v@, n as int));
    out
}

/// The switches taken from an `ALIAS_OPTS` value: its words, in order, that are `--quiet`,
/// `--temp`, `--tips`, `--no-tips`, `--icons`, `--no-icons` or `--force`.
pub fn env_extra_opts(opts: &str) -> (r: Vec<String>)
    ensures
        views(r@) == env_switches(words_from(opts@, 0)),
{
    let ws = split_words(opts);
    let ghost wv = views(ws@);
    let mut out: Vec<String> = Vec::new();
    let mut i: usize = 0;
    while i < ws.len()
        invariant
            i <= ws@.len(),
            wv == views(ws@),
            views(out@) == env_switches(wv.take(i as int)),
        decreases ws@.len() - i,
    {
        proof {
            assert(wv.take(i + 1).drop_last() =~= wv.take(i as int));
            assert(wv.take(i + 1).last() == ws@[i as int]@);
        }
        let wc = chars_of(ws[i].as_str());
        let w = wc.as_slice();
        if is_lit(w, "--quiet") || is_lit(w, "--temp") || is_lit(w, "--tips") || is_lit(w, "--no-tips")
            || is_lit(w, "--icons") || is_lit(w, "--no-icons") || is_lit(w, "--force") {
            let ghost before = views(out@);
            out.push(ws[i].clone());
            proof {
                assert(views(out@) =~= before.push(ws@[i as int]@));
            }
        }
        i = i + 1;
    }
    assert(wv.take(ws@.len() as int) =~= wv);
    out
}

/// The command line with the environment's switches put right after the program name.
pub fn inject_opts(args: Vec<String>, extra: Vec<String>) -> (r: Vec<String>)
    requires
        args@.len() >= 1,
    ensures
        r@ == seq![args@[0]] + extra@ + args@.skip(1),
{
    let mut rest = args;
    let first = rest.remove(0);
    let mut out: Vec<String> = Vec::new();
    out.push(first);
    let mut e = extra;
    out.append(&mut e);
    out.append(&mut rest);
    out
}

} // verus!
