use alias_lib::audit::{display_audit, perform_triple_audit};
use alias_lib::autorun::{
    autorun_command, call_identifier, check_registry_native, check_registry_wrapper, file_clause,
    merge_autorun, sanitize_path, setup_payload, split_autorun,
};
use alias_lib::binary::{
    editor_args, editor_args_from, editor_choice, identify_binary, launch_plan, needs_peek,
    peek_pe_metadata,
};
use alias_lib::dispatch::{
    block_rejected, dispatch, env_extra_opts, inject_opts, plan_run, print_help, Route, RunPlan, Step,
};
use alias_lib::filestate::{
    access_denied_note, calculate_new_file_state, count_data_lines, is_path_healthy,
    pairs_text, parse_macro_content, query_alias_content, update_pairs,
};
use alias_lib::legacy::{legacy_autorun_command, query_answer, ram_macro_names, set_alias_content};
use alias_lib::parse::{parse_arguments, parse_arguments_from, parse_set_argument, PathContext};
use alias_lib::providers::{
    get_all_aliases, get_all_aliases_raw, hybrid_list_fallback, hybrid_query_fallback,
    kernel_name, parse_alias_buffer, parse_doskey_macros, win32_query, wrapper_query,
};
use alias_lib::versioning::{calculate_reality, diff_churn, hash_windows, milestone_hashes};
use alias_lib::{
    mesh_logic, AliasAction, AliasEntryMesh, AliasIcon, BinaryProfile, BinarySubsystem,
    HelpMode, RegistryStatus, SetOptions, ShowFeature, ShowTips, Task, TaskQueue, Verbosity,
    VerbosityLevel, DEFAULT_EXTS,
};
use std::str::FromStr;

fn words(ws: &[&str]) -> Vec<String> {
    ws.iter().map(|s| s.to_string()).collect()
}

fn plain(level: VerbosityLevel) -> Verbosity {
    Verbosity::voice(level, ShowFeature::Off, ShowTips::Off)
}

fn ctx_default(p: &str) -> PathContext {
    PathContext { resolved: Vec::new(), re_resolved: Vec::new(), default_path: Some(p.to_string()) }
}

fn set(name: &str, value: &str, volatile: bool) -> AliasAction {
    AliasAction::SetAlias(SetOptions { name: name.into(), value: value.into(), volatile, force_case: false })
}

// --- Reading a command line ---

#[test]
fn parse_empty_line_shows_everything() {
    let (q, v, notes) = parse_arguments_from(&words(&["alias"]), &ctx_default("D.doskey"), Verbosity::loud());
    assert_eq!(q.tasks.len(), 1);
    assert_eq!(q.tasks[0].action, AliasAction::ShowAll);
    assert_eq!(q.action_path, "D.doskey");
    assert_eq!(v.level, VerbosityLevel::Loud);
    assert!(notes.is_empty());
}

#[test]
fn parse_definition_takes_the_default_file() {
    let (q, _, _) = parse_arguments_from(&words(&["alias", "gs=git", "status"]), &ctx_default("D"), plain(VerbosityLevel::Normal));
    assert_eq!(q.tasks.len(), 1);
    assert_eq!(q.tasks[0].action, set("gs", "git status", false));
    assert_eq!(q.tasks[0].path, "D");
}

#[test]
fn parse_temp_makes_the_definition_volatile() {
    let (q, _, _) = parse_arguments_from(&words(&["alias", "--temp", "ls=dir"]), &ctx_default("D"), plain(VerbosityLevel::Normal));
    assert_eq!(q.tasks[0].action, set("ls", "dir", true));
}

#[test]
fn parse_temp_between_definitions() {
    let (q, _, _) = parse_arguments_from(&words(&["alias", "a=1", "--temp", "b=2"]), &ctx_default("D"), plain(VerbosityLevel::Normal));
    assert_eq!(q.tasks.len(), 2);
    assert_eq!(q.tasks[0].action, set("a", "1", false));
    assert_eq!(q.tasks[1].action, set("b", "2", true));
}

#[test]
fn parse_unknown_switch_is_reported() {
    let (q, _, notes) = parse_arguments_from(&words(&["alias", "--bogus"]), &ctx_default("D"), plain(VerbosityLevel::Normal));
    assert_eq!(q.tasks.len(), 1);
    assert_eq!(q.tasks[0].action, AliasAction::Invalid);
    assert_eq!(notes, vec!["Unknown option: --bogus".to_string()]);
}

#[test]
fn parse_help_wins() {
    let (q, _, _) = parse_arguments_from(&words(&["alias", "--reload", "--help", "ls=dir"]), &ctx_default("D"), plain(VerbosityLevel::Normal));
    assert_eq!(q.tasks.len(), 1);
    assert_eq!(q.tasks[0].action, AliasAction::Help);
    let (late, _, _) = parse_arguments_from(&words(&["alias", "ls=dir", "--help"]), &ctx_default("D"), plain(VerbosityLevel::Normal));
    assert_eq!(late.tasks.len(), 2);
    assert_eq!(late.tasks[0].action, set("ls", "dir", false));
    assert_eq!(late.tasks[1].action, AliasAction::Invalid);
}

#[test]
fn parse_setup_must_come_first() {
    let (q, _, notes) = parse_arguments_from(&words(&["alias", "--reload", "--setup"]), &ctx_default("D"), plain(VerbosityLevel::Normal));
    assert_eq!(q.tasks.len(), 1);
    assert_eq!(q.tasks[0].action, AliasAction::Invalid);
    assert_eq!(notes, vec!["Error: --setup must be the first command.".to_string()]);
}

#[test]
fn parse_setup_refuses_startup() {
    let (q, v, notes) = parse_arguments_from(&words(&["alias", "--setup", "--startup"]), &ctx_default("D"), plain(VerbosityLevel::Normal));
    assert_eq!(q.tasks.len(), 1);
    assert_eq!(q.tasks[0].action, AliasAction::Invalid);
    assert!(v.in_setup);
    assert_eq!(notes, vec!["Invalid in setup mode: --startup".to_string()]);
}

#[test]
fn parse_file_resolved() {
    let ctx = PathContext {
        resolved: vec![None, None, Some("/abs/x.doskey".into()), None],
        re_resolved: vec![None, None, Some("/abs/x.doskey".into()), None],
        default_path: Some("D".into()),
    };
    let (q, _, _) = parse_arguments_from(&words(&["alias", "--file", "x.doskey", "ls=dir"]), &ctx, plain(VerbosityLevel::Normal));
    assert_eq!(q.tasks.len(), 2);
    assert_eq!(q.tasks[0].action, AliasAction::File);
    assert_eq!(q.tasks[0].path, "x.doskey");
    assert_eq!(q.tasks[1].action, set("ls", "dir", false));
    assert_eq!(q.tasks[1].path, "/abs/x.doskey");
    assert_eq!(q.action_path, "/abs/x.doskey");
}

#[test]
fn parse_file_unresolved_fails_the_definition() {
    let ctx = ctx_default("D");
    let (q, _, _) = parse_arguments_from(&words(&["alias", "--file", "x.doskey", "ls=dir"]), &ctx, plain(VerbosityLevel::Normal));
    assert_eq!(q.tasks.len(), 2);
    assert_eq!(q.tasks[0].action, AliasAction::File);
    assert_eq!(q.tasks[1].action, AliasAction::Fail);
}

#[test]
fn parse_file_without_path() {
    let (q, _, notes) = parse_arguments_from(&words(&["alias", "--file"]), &ctx_default("D"), plain(VerbosityLevel::Normal));
    assert_eq!(notes, vec!["--file requires a path".to_string()]);
    assert_eq!(q.tasks.len(), 1);
    assert_eq!(q.tasks[0].action, AliasAction::Invalid);
}

#[test]
fn parse_unalias_harvests_its_target() {
    let (q, _, _) = parse_arguments_from(&words(&["alias", "--unalias", "gs"]), &ctx_default("D"), plain(VerbosityLevel::Normal));
    assert_eq!(q.tasks.len(), 1);
    assert_eq!(q.tasks[0].action, AliasAction::Unalias("gs".into()));
}

#[test]
fn parse_remove_without_target_fails() {
    let (q, _, notes) = parse_arguments_from(&words(&["alias", "--remove"]), &ctx_default("D"), plain(VerbosityLevel::Normal));
    assert_eq!(q.tasks[0].action, AliasAction::Fail);
    assert_eq!(notes, vec!["--remove requires a valid target".to_string()]);
}

#[test]
fn parse_quiet_and_startup_voices() {
    let (_, v, _) = parse_arguments_from(&words(&["alias", "--quiet"]), &ctx_default("D"), Verbosity::loud());
    assert_eq!(v.level, VerbosityLevel::Silent);
    assert!(!v.show_icons.is_on());
    let (_, v2, _) = parse_arguments_from(&words(&["alias", "--startup"]), &ctx_default("D"), Verbosity::loud());
    assert_eq!(v2.level, VerbosityLevel::Mute);
    assert!(v2.in_startup);
}

#[test]
fn parse_literal_gobbles_switches() {
    let (q, _, _) = parse_arguments_from(&words(&["alias", "--", "x", "--help"]), &ctx_default("D"), plain(VerbosityLevel::Normal));
    assert_eq!(q.tasks[0].action, set("x", "--help", false));
}

#[test]
fn parse_arguments_starts_loud() {
    let (q, v, _) = parse_arguments(&words(&["alias", "ls"]), &ctx_default("D"));
    assert_eq!(q.tasks[0].action, AliasAction::Query("ls".into()));
    assert_eq!(v.level, VerbosityLevel::Loud);
}

#[test]
fn set_argument_forms() {
    let v = Verbosity::silent();
    assert_eq!(parse_set_argument(&v, &words(&["gs", "=", "git", "status"]), false, false, false), (set("gs", "git status", false), 4));
    assert_eq!(parse_set_argument(&v, &words(&["gs="]), false, false, false), (AliasAction::Remove("gs".into()), 1));
    assert_eq!(parse_set_argument(&v, &words(&["gs="]), true, false, false), (AliasAction::Unalias("gs".into()), 1));
    assert_eq!(parse_set_argument(&v, &words(&["gs", "--temp"]), false, false, false), (AliasAction::Query("gs".into()), 1));
    assert_eq!(parse_set_argument(&v, &words(&["1x=y"]), false, false, false), (AliasAction::Invalid, 1));
    assert_eq!(parse_set_argument(&v, &[], false, false, false), (AliasAction::Invalid, 0));
}

#[test]
fn display_reads_back() {
    for a in [AliasAction::Help, AliasAction::Reload, AliasAction::Which, AliasAction::Clear, AliasAction::Query("ls".into())] {
        let text = a.to_string();
        assert_eq!(AliasAction::from_str(&text).unwrap(), a);
    }
}

// --- Carrying out a command line ---

#[test]
fn dispatch_removal_names_the_file() {
    let step = dispatch(Task { action: AliasAction::Remove(" old ".into()), path: "f.doskey".into() }, &plain(VerbosityLevel::Normal));
    match step {
        Step::Store { opts, note } => {
            assert_eq!(opts.name, "old");
            assert_eq!(opts.value, "");
            assert!(!opts.volatile);
            assert_eq!(note, Some("Removed alias 'old' from f.doskey".to_string()));
        }
        _ => panic!("expected a store"),
    }
}

#[test]
fn dispatch_removal_without_name_is_refused() {
    match dispatch(Task { action: AliasAction::Unalias(" \t ".into()), path: String::new() }, &plain(VerbosityLevel::Normal)) {
        Step::Refuse { alert, error } => {
            assert!(alert.is_none());
            assert_eq!(error.code, 7);
            assert_eq!(error.message, "Error: name required");
        }
        _ => panic!("expected a refusal"),
    }
}

#[test]
fn dispatch_leaked_switch_is_refused() {
    match dispatch(Task { action: AliasAction::Force, path: String::new() }, &plain(VerbosityLevel::Normal)) {
        Step::Refuse { alert, error } => {
            assert!(alert.unwrap().contains("Critical Error"));
            assert_eq!(error.code, 1);
        }
        _ => panic!("expected a refusal"),
    }
}

#[test]
fn dispatch_reload_and_file() {
    assert!(matches!(dispatch(Task { action: AliasAction::Reload, path: "f".into() }, &Verbosity::silent()), Step::Reload { clear: true }));
    assert!(matches!(dispatch(Task { action: AliasAction::File, path: "f".into() }, &Verbosity::silent()), Step::Reload { clear: false }));
    assert!(matches!(dispatch(Task { action: AliasAction::Invalid, path: "f".into() }, &Verbosity::silent()), Step::Help { mode: HelpMode::Short, .. }));
}

#[test]
fn plan_drops_failed_and_audits_files() {
    let mut q = TaskQueue::new();
    q.push_file(AliasAction::File, String::new());
    q.push(AliasAction::Fail);
    q.push_file(AliasAction::Reload, "f".into());
    match plan_run(q, &plain(VerbosityLevel::Normal), &"D".to_string()) {
        RunPlan::Work { routes, tip } => {
            assert!(tip);
            assert_eq!(routes.len(), 2);
            assert!(matches!(&routes[0], Route::Audit(p) if p == "D"));
            assert!(matches!(&routes[1], Route::Dispatch(t) if t.action == AliasAction::Reload));
        }
        _ => panic!("expected work"),
    }
}

#[test]
fn plan_refuses_poisoned_setup() {
    let mut q = TaskQueue::new();
    q.push(AliasAction::Setup);
    q.push(AliasAction::Fail);
    match plan_run(q, &plain(VerbosityLevel::Normal), &"D".to_string()) {
        RunPlan::SetupRefused(m) => assert_eq!(m, "Setup aborted: Command line contains invalid paths or actions."),
        _ => panic!("expected a refusal"),
    }
}

#[test]
fn plan_startup_reloads_then_stops() {
    let mut v = plain(VerbosityLevel::Mute);
    v.in_startup = true;
    match plan_run(TaskQueue::new(), &v, &"D".to_string()) {
        RunPlan::Work { routes, tip } => {
            assert!(!tip);
            assert_eq!(routes.len(), 1);
            assert!(matches!(&routes[0], Route::Dispatch(t) if t.action == AliasAction::Reload && t.path == "D"));
        }
        _ => panic!("expected work"),
    }
}

#[test]
fn plan_empty_queue_shows_everything() {
    match plan_run(TaskQueue::new(), &plain(VerbosityLevel::Normal), &"D".to_string()) {
        RunPlan::Work { routes, .. } => {
            assert_eq!(routes.len(), 1);
            assert!(matches!(&routes[0], Route::Dispatch(t) if t.action == AliasAction::ShowAll && t.path == "D"));
        }
        _ => panic!("expected work"),
    }
}

#[test]
fn block_rejected_text() {
    assert_eq!(block_rejected(&Verbosity::silent(), "x"), "Block Rejected: Invalid path 'x'");
}

#[test]
fn help_short_and_full() {
    let v = plain(VerbosityLevel::Normal);
    let short = print_help(&v, HelpMode::Short, Some("f"), "alias.exe");
    assert!(short.starts_with("ALIAS (alias.exe) - High-speed alias management\n"));
    assert!(short.contains("USAGE:"));
    assert!(!short.contains("FLAGS:"));
    let full = print_help(&v, HelpMode::Full, Some("f"), "alias.exe");
    assert!(full.contains("FLAGS:"));
    assert!(full.contains("  ALIAS_FILE      Path to your .doskey file\n"));
    assert!(full.ends_with("F CURRENT FILE: f\n") || full.ends_with("CURRENT FILE: f\n"));
}

// --- Audits ---

#[test]
fn mesh_covers_every_system_alias() {
    let os = vec![("a".to_string(), "1".to_string()), ("b".to_string(), "2".to_string())];
    let file = vec![("b".to_string(), "2".to_string()), ("c".to_string(), "3".to_string())];
    let m = mesh_logic(os, file);
    assert_eq!(m.len(), 3);
    assert!(m.iter().any(|e| e.name == "a" && e.os_value.is_some()));
    assert!(m.iter().any(|e| e.name == "b" && e.os_value.is_some()));
}

#[test]
fn mesh_keeps_last_system_value() {
    let os = vec![("a".to_string(), "1".to_string()), ("a".to_string(), "2".to_string())];
    let m = mesh_logic(os, vec![]);
    assert_eq!(m.len(), 1);
    assert_eq!(m[0].os_value, Some("2".to_string()));
}

#[test]
fn display_audit_text() {
    let v = plain(VerbosityLevel::Normal);
    let mesh = vec![AliasEntryMesh { name: "ls".into(), os_value: Some("dir".into()), file_value: Some("dir".into()) }];
    assert_eq!(display_audit(&mesh, &v), "ls=dir      [W F]\n");
    let drift = vec![AliasEntryMesh { name: "ls".into(), os_value: Some("dir".into()), file_value: Some("ls".into()) }];
    let text = display_audit(&drift, &v);
    assert!(text.contains("Desync for ls: File has 'ls'\n"));
    assert!(text.ends_with("Tip: Run `alias --reload` to fix corrupted or out-of-sync macros.\n"));
}

#[test]
fn triple_audit_text() {
    let v = plain(VerbosityLevel::Normal);
    let text = perform_triple_audit(&v, vec![("ls".into(), "dir".into())], vec![("ls".into(), "\"dir\"".into())], vec![("ls".into(), "dir".into())]);
    assert_eq!(text, "Triple Audit [W=Win32, D=Doskey, F=File]\n\nls=dir        [WKF]\n");
    let phantom = perform_triple_audit(&v, vec![], vec![("x".into(), "1".into())], vec![("y".into(), "2".into())]);
    assert!(phantom.contains("<- PHANTOM (Not in Kernel)"));
    assert!(phantom.contains("<- PENDING (Not in RAM)"));
    assert!(phantom.ends_with("Tip: Run `alias --reload` to synchronize all layers.\n"));
}

// --- AutoRun ---

#[test]
fn merge_replaces_first_and_drops_others() {
    let merged = merge_autorun("clink inject & \"C:\\alias.exe\" --startup & other & alias --file y", "Alias", "alias --startup");
    assert_eq!(merged, "clink inject & alias --startup & other");
    assert_eq!(merge_autorun("", "alias", "alias --startup"), "alias --startup");
    assert_eq!(merge_autorun("clink", "alias", "alias --startup"), "clink & alias --startup");
}

#[test]
fn merge_twice_is_merge_once() {
    let once = merge_autorun("a & alias --startup & b", "alias", "\"C:\\alias.exe\" --startup");
    let twice = merge_autorun(&once, "alias", "\"C:\\alias.exe\" --startup");
    assert_eq!(once, twice);
}

#[test]
fn autorun_entries_are_trimmed() {
    assert_eq!(split_autorun(" a &&  b  & "), vec!["a".to_string(), "b".to_string()]);
}

#[test]
fn setup_payload_and_command() {
    let mut q = TaskQueue::new();
    q.push(AliasAction::Setup);
    q.push_file(AliasAction::File, "\"C:\\x.doskey\"".into());
    assert_eq!(setup_payload(&q), "--startup --file \"C:\\x.doskey\"");
    assert_eq!(sanitize_path("C:\\a b"), "\"C:\\a b\"");
    assert_eq!(call_identifier("alias", "C:\\bin\\alias.exe", Some("C:\\bin\\alias.exe")), "alias");
    assert_eq!(call_identifier("alias", "C:\\bin\\alias.exe", None), "\"C:\\bin\\alias.exe\"");
    assert_eq!(autorun_command("alias", ""), "alias --startup");
    assert_eq!(autorun_command("alias", "  --file x "), "alias --startup --file x");
    assert_eq!(file_clause("C:\\x"), "--file \"C:\\x\"");
}

#[test]
fn registry_status_from_value() {
    assert!(matches!(check_registry_native(None), RegistryStatus::NotFound));
    assert!(matches!(check_registry_native(Some("alias --startup")), RegistryStatus::Synced));
    assert!(matches!(check_registry_native(Some("clink")), RegistryStatus::Mismatch(ref m) if m == "clink"));
    assert!(matches!(check_registry_native(Some("")), RegistryStatus::NotFound));
    assert!(matches!(check_registry_wrapper(""), RegistryStatus::NotFound));
    assert!(matches!(check_registry_wrapper("x --reload"), RegistryStatus::Synced));
    assert!(matches!(check_registry_wrapper("x"), RegistryStatus::Mismatch(ref m) if m == "Found other AutoRun commands"));
}

// --- The alias file ---

#[test]
fn new_file_state_replaces_in_any_case() {
    assert_eq!(calculate_new_file_state("a=1\nb=2\n", "A", "3"), "A=3\nb=2");
    assert_eq!(calculate_new_file_state("a=1\n\nb=2", "b", ""), "a=1");
    assert_eq!(calculate_new_file_state("", "x", ""), "");
}

#[test]
fn pairs_update_and_text() {
    let p = vec![("a".to_string(), "1".to_string())];
    assert_eq!(update_pairs(p.clone(), "a", ""), vec![]);
    assert_eq!(update_pairs(p.clone(), "a", "9"), vec![("a".to_string(), "9".to_string())]);
    let both = update_pairs(p, "b", "2");
    assert_eq!(pairs_text(&both), "a=1\nb=2");
}

#[test]
fn macro_content_reading() {
    assert_eq!(parse_macro_content("a=1\n#c\nb=2", true).len(), 2);
    assert_eq!(parse_macro_content("1x=2\nok=3", true), vec![("ok".to_string(), "3".to_string())]);
    assert_eq!(parse_macro_content("1x=2\nok=3", false).len(), 2);
    assert_eq!(count_data_lines("a=1\n; c\n\nb=2\n"), 2);
}

#[test]
fn alias_file_queries() {
    let v = plain(VerbosityLevel::Normal);
    assert_eq!(query_alias_content("GS", "x=1\ngs=git status\n", &v), vec!["gs=git status".to_string()]);
    assert_eq!(query_alias_content("zz", "x=1\n", &v), vec!["zz is not a known alias in the config file.".to_string()]);
    assert!(query_alias_content("zz", "x=1\n", &Verbosity::silent()).is_empty());
    assert_eq!(access_denied_note("gs"), "Access denied: gs is currently busy.");
}

#[test]
fn path_health_from_metadata() {
    assert!(is_path_healthy(Some((true, 10)), 100));
    assert!(!is_path_healthy(Some((true, 101)), 100));
    assert!(!is_path_healthy(Some((false, 1)), 100));
    assert!(!is_path_healthy(None, 100));
}

// --- Programs ---

fn pe_image(subsystem: u8, machine: [u8; 2]) -> Vec<u8> {
    let mut b = vec![0u8; 64 + 94];
    b[0] = b'M';
    b[1] = b'Z';
    b[60] = 64;
    b[64] = b'P';
    b[65] = b'E';
    b[68] = machine[0];
    b[69] = machine[1];
    b[64 + 92] = subsystem;
    b
}

#[test]
fn pe_header_reading() {
    assert_eq!(peek_pe_metadata(&pe_image(2, [0x4c, 0x01])), Some((BinarySubsystem::Gui, true)));
    assert_eq!(peek_pe_metadata(&pe_image(3, [0x64, 0x86])), Some((BinarySubsystem::Cui, false)));
    assert_eq!(peek_pe_metadata(&pe_image(9, [0x64, 0x86])), Some((BinarySubsystem::Unknown, false)));
    let mut not_mz = pe_image(2, [0x4c, 0x01]);
    not_mz[0] = b'Z';
    assert_eq!(peek_pe_metadata(&not_mz), Some((BinarySubsystem::Unknown, false)));
    assert_eq!(peek_pe_metadata(&[b'M', b'Z']), None);
    let short = pe_image(2, [0x4c, 0x01])[..100].to_vec();
    assert_eq!(peek_pe_metadata(&short), None);
}

#[test]
fn programs_are_identified() {
    let script = identify_binary("x.cmd", true, Some(".cmd"), DEFAULT_EXTS, None);
    assert_eq!(script.subsystem, BinarySubsystem::Script);
    let gui = identify_binary("x.exe", true, Some(".exe"), DEFAULT_EXTS, Some((BinarySubsystem::Gui, true)));
    assert_eq!(gui.subsystem, BinarySubsystem::Gui);
    assert!(gui.is_32bit);
    let gone = identify_binary("x.exe", false, Some(".exe"), DEFAULT_EXTS, None);
    assert_eq!(gone.subsystem, BinarySubsystem::Unavail);
    assert!(!needs_peek(true, Some(".bat"), DEFAULT_EXTS));
    assert!(needs_peek(true, Some(".exe"), DEFAULT_EXTS));
}

#[test]
fn editor_command_words() {
    assert_eq!(editor_choice(&None, None, None), "notepad");
    assert_eq!(editor_choice(&None, Some("vis".into()), Some("ed".into())), "vis");
    assert_eq!(editor_choice(&Some("C:\\tools\\ed.exe --wait".into()), None, None), "C:/tools/ed.exe --wait");
    assert_eq!(editor_args("code --wait"), vec!["code".to_string(), "--wait".to_string()]);
    assert_eq!(editor_args("'open"), vec!["notepad".to_string()]);
    assert_eq!(editor_args(""), vec!["notepad".to_string()]);
    assert_eq!(editor_args_from(Some(vec![])), vec!["notepad".to_string()]);
}

#[test]
fn editor_launch() {
    let v = plain(VerbosityLevel::Normal);
    let gui = BinaryProfile { exe: "code".into(), args: vec!["code".into(), "--wait".into()], subsystem: BinarySubsystem::Gui, is_32bit: false };
    let plan = launch_plan(&gui, "f.txt", &v);
    assert_eq!(plan.program, "code");
    assert_eq!(plan.args, vec!["--wait".to_string(), "f.txt".to_string()]);
    assert_eq!(plan.note, "Launching code...");
    let cui = BinaryProfile { exe: "vim".into(), args: vec!["vim".into()], subsystem: BinarySubsystem::Cui, is_32bit: true };
    let plan2 = launch_plan(&cui, "f.txt", &v);
    assert_eq!(plan2.program, "cmd");
    assert_eq!(plan2.args, vec!["/C".to_string(), "vim".to_string(), "f.txt".to_string()]);
    assert!(plan2.compat);
}

// --- Versions ---

#[test]
fn churn_of_a_diff() {
    assert_eq!(diff_churn("+++ a\n--- b\n+let x = 1;\n-old();\n+// comment\n+\n"), (2, 1));
}

#[test]
fn milestones_and_windows() {
    assert_eq!(milestone_hashes("h2\nh1\n", "h0"), vec!["h2".to_string(), "h1".to_string(), "h0".to_string()]);
    assert_eq!(milestone_hashes("h2\nh0", "h0"), vec!["h2".to_string(), "h0".to_string()]);
    assert!(milestone_hashes("", "h0").is_empty());
    let w = hash_windows(&vec!["a".to_string(), "b".to_string(), "c".to_string()]);
    assert_eq!(w, vec![("a".to_string(), "b".to_string()), ("b".to_string(), "c".to_string())]);
}

#[test]
fn version_from_diffs() {
    let ten: String = (0..10).map(|i| format!("+x{};\n", i)).collect();
    let hundred: String = (0..100).map(|i| format!("+y{};\n", i)).collect();
    let d = calculate_reality("alias_lib", 1, &vec![ten, hundred, "-gone();\n".to_string()], "2024-01-01 00:00");
    assert_eq!(d.pkg_name, "alias_lib");
    assert_eq!(d.major, 1);
    assert_eq!(d.minor, 1);
    assert_eq!(d.patch, 1);
    assert_eq!(d.compile, 111);
    assert_eq!(d.timestamp, "2024-01-01 00:00");
}

// --- Providers ---

#[test]
fn alias_buffers() {
    assert_eq!(
        parse_alias_buffer("a=1\0b = 2\0\0junk\0"),
        vec![("a".to_string(), "1".to_string()), ("b".to_string(), "2".to_string())]
    );
    assert_eq!(get_all_aliases_raw("a=1\0 \0b=\0"), vec!["a=1".to_string(), "b=".to_string()]);
    assert_eq!(
        get_all_aliases(vec!["a=1".into(), "b=".into(), "c".into()]),
        vec![("a".to_string(), "1".to_string()), ("b".to_string(), String::new())]
    );
    assert_eq!(
        parse_doskey_macros("\"x\"=\"dir\"\n\nls=dir /w\n"),
        vec![("x".to_string(), "dir".to_string()), ("ls".to_string(), "dir /w".to_string())]
    );
}

#[test]
fn provider_queries() {
    let v = plain(VerbosityLevel::Normal);
    assert_eq!(win32_query("LS", Ok(vec![("ls".into(), "dir".into())]), &v), vec!["ls=dir".to_string()]);
    assert_eq!(win32_query("q", Ok(vec![]), &v), vec!["'q' not found in Win32 RAM.".to_string()]);
    assert_eq!(win32_query("q", Err("boom".into()), &v), vec!["Kernel Query Failed: boom".to_string()]);
    assert_eq!(wrapper_query("LS", Ok(vec![("\"LS\"".into(), "\"dir\"".into())]), &v), vec!["ls=dir".to_string()]);
    assert!(wrapper_query("q", Ok(vec![]), &plain(VerbosityLevel::Loud)).is_empty());
    assert_eq!(wrapper_query("q", Ok(vec![]), &v), vec!["'q' not found via doskey query.".to_string()]);
}

#[test]
fn provider_decisions() {
    let o = SetOptions { name: "LS".into(), value: "dir".into(), volatile: false, force_case: false };
    assert_eq!(kernel_name(&o), "ls");
    let f = SetOptions { force_case: true, ..o };
    assert_eq!(kernel_name(&f), "LS");
    assert!(hybrid_list_fallback(&vec![]));
    assert!(!hybrid_list_fallback(&vec![("a".into(), "1".into())]));
    assert!(hybrid_query_fallback(&vec!["'q' not found in Win32 RAM.".to_string()]));
    assert!(!hybrid_query_fallback(&vec!["ls=dir".to_string()]));
}

// --- The first grammar ---

#[test]
fn legacy_file_work() {
    assert_eq!(set_alias_content("a=1\nB=2\nb=3\n", "b", "9"), "a=1\nb=9\n");
    assert_eq!(set_alias_content("cdx=old\n", "cdx", ""), "\n");
    assert_eq!(query_answer("A", "a=1\n"), "a=1");
    assert_eq!(query_answer("z", "a=1\n"), "Alias \"z\" not found.");
    assert_eq!(ram_macro_names("[cmd.exe]\nls=dir\n  g=git \n\nnoeq\n"), vec!["ls".to_string(), "g".to_string()]);
    assert_eq!(legacy_autorun_command("C:\\a.exe"), "\"C:\\a.exe\" --reload");
}

// --- The queue ---

#[test]
fn queue_is_first_in_first_out() {
    let mut q = TaskQueue::new();
    q.push(AliasAction::Reload);
    q.push(AliasAction::Clear);
    assert_eq!(q.pull().unwrap().action, AliasAction::Reload);
    assert_eq!(q.pop().unwrap().action, AliasAction::Clear);
    assert!(q.pull().is_none());
}

#[test]
fn icons_show_in_messages() {
    let v = Verbosity::voice(VerbosityLevel::Normal, ShowFeature::On, ShowTips::Off);
    assert_eq!(v.icon_format(AliasIcon::Alert, "x"), "⚠️ x");
    assert_eq!(v.align("ls", "", 4, (false, false, false)), "ls=<EMPTY> [      ]");
}

#[test]
fn env_opts_keep_only_known_switches_in_order() {
    let got = env_extra_opts("  --no-icons --reload\t--quiet  --bogus --force ");
    assert_eq!(got, vec!["--no-icons".to_string(), "--quiet".to_string(), "--force".to_string()]);
}

#[test]
fn env_opts_of_blank_value_are_empty() {
    assert!(env_extra_opts("").is_empty());
    assert!(env_extra_opts("   \t ").is_empty());
    assert!(env_extra_opts("--QUIET").is_empty());
}

#[test]
fn inject_opts_puts_switches_after_program_name() {
    let args = vec!["alias".to_string(), "g=git".to_string()];
    let extra = vec!["--quiet".to_string(), "--temp".to_string()];
    let got = inject_opts(args, extra);
    assert_eq!(got, vec!["alias".to_string(), "--quiet".to_string(), "--temp".to_string(), "g=git".to_string()]);
}

#[test]
fn inject_opts_with_nothing_to_add_keeps_line() {
    let args = vec!["alias".to_string()];
    assert_eq!(inject_opts(args.clone(), Vec::new()), args);
}

#[test]
fn triple_audit_marks_ram_macro_missing_from_file() {
    let v = plain(VerbosityLevel::Normal);
    let text = perform_triple_audit(&v, vec![("g".into(), "git".into())], vec![], vec![]);
    let line = text.lines().find(|l| l.starts_with("g=git")).expect("a line for g");
    assert!(line.contains("<- PHANTOM (Not in File)"));
    assert!(text.ends_with("Tip: Run `alias --reload` to synchronize all layers.\n"));
}

#[test]
fn removal_ignores_letter_case() {
    let p = vec![("G".to_string(), "git".to_string()), ("ls".to_string(), "dir".to_string()), ("g".to_string(), "go".to_string())];
    assert_eq!(update_pairs(p.clone(), "g", ""), vec![("ls".to_string(), "dir".to_string())]);
    assert_eq!(update_pairs(p, "g", "x")[2], ("g".to_string(), "x".to_string()));
}

#[test]
fn removal_after_setting_equals_removal() {
    let p = vec![("G".to_string(), "git".to_string()), ("ls".to_string(), "dir".to_string())];
    let set_then_removed = update_pairs(update_pairs(p.clone(), "g", "go"), "g", "");
    assert_eq!(set_then_removed, update_pairs(p, "g", ""));
}

#[test]
fn extended_paths_are_normalised() {
    assert_eq!(alias_lib::normalize_path(r"\\?\UNC\srv\share".to_string()), r"\\srv\share");
    assert_eq!(alias_lib::normalize_path(r"\\?\C:\a".to_string()), r"C:\a");
    assert_eq!(alias_lib::normalize_path(r"C:\a".to_string()), r"C:\a");
}

#[test]
fn setup_payload_has_no_double_or_trailing_space() {
    let mut q = TaskQueue::new();
    q.push(AliasAction::Setup);
    assert_eq!(setup_payload(&q), "--startup");
    q.push_file(AliasAction::File, "a.doskey".into());
    q.push(AliasAction::Icons);
    let p = setup_payload(&q);
    assert!(!p.contains("  ") && !p.ends_with(' '));
    assert!(p.contains("--file \"a.doskey\""));
    assert_eq!(p, "--startup --file \"a.doskey\" --icons");
}

#[test]
fn failure_report_stops_only_the_startup_reload() {
    let mut v = plain(VerbosityLevel::Normal);
    assert_eq!(alias_lib::dispatch::failure_report(&v, 0, "boom"), Some("Action Failed: boom".to_string()));
    v.in_startup = true;
    assert_eq!(alias_lib::dispatch::failure_report(&v, 0, "boom"), None);
    assert_eq!(alias_lib::dispatch::failure_report(&v, 1, "boom"), Some("Action Failed: boom".to_string()));
}

#[test]
fn startup_source_prefers_payload_then_environment() {
    assert!(matches!(alias_lib::autorun::startup_source("--file x", false), alias_lib::autorun::StartupSource::Payload(p) if p == "--file x"));
    assert!(matches!(alias_lib::autorun::startup_source("", true), alias_lib::autorun::StartupSource::Environment));
    assert!(matches!(alias_lib::autorun::startup_source("", false), alias_lib::autorun::StartupSource::Ask));
}

#[test]
fn switches_are_words_starting_with_two_dashes() {
    assert!(AliasAction::is_switch("--bogus"));
    assert!(AliasAction::is_switch("--"));
    assert!(AliasAction::is_switch("--edalias=vim"));
    assert!(!AliasAction::is_switch("-x"));
    assert!(!AliasAction::is_switch("no-limit"));
    assert!(!AliasAction::is_switch("x=--y"));
}

#[test]
fn mesh_audit_marks_ram_macro_missing_from_file() {
    let v = plain(VerbosityLevel::Normal);
    let mesh = vec![AliasEntryMesh { name: "g".into(), os_value: Some("git".into()), file_value: None }];
    let text = display_audit(&mesh, &v);
    assert!(text.lines().next().unwrap().contains("<- PHANTOM (Not in File)"));
    assert!(text.ends_with("Tip: Run `alias --reload` to fix corrupted or out-of-sync macros.\n"));
}

#[test]
fn quiet_words_only_set_the_flag() {
    let with = words(&["alias", "--QUIET", "g=git", "--quiet"]);
    let without = words(&["alias", "g=git"]);
    let (a1, q1) = alias_lib::legacy::parse_alias_args(&with);
    let (a2, q2) = alias_lib::legacy::parse_alias_args(&without);
    assert_eq!(a1, a2);
    assert!(q1);
    assert!(!q2);
}

#[test]
fn file_text_set_then_remove_equals_remove() {
    for (c, n, v) in [("a=1\nb=2\n", "b", "9"), ("a=1\n\nb=2", "c", "3"), ("x=1", "X", "2"), ("", "g", "git")] {
        let once = calculate_new_file_state(c, n, "");
        let twice = calculate_new_file_state(&calculate_new_file_state(c, n, v), n, "");
        assert_eq!(twice, once, "{:?} {} {}", c, n, v);
    }
}
