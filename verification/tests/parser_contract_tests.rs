use alias_lib::dispatch::{dispatch, Step};
use alias_lib::parse::{parse_arguments, parse_set_argument, PathContext};
use alias_lib::{AliasAction, SetOptions, Task, Verbosity};
use std::str::FromStr;

const DEFAULT_FILE: &str = "C:\\Users\\me\\alias_tool\\aliases.doskey";

fn args(ws: &[&str]) -> Vec<String> {
    ws.iter().map(|s| s.to_string()).collect()
}

fn home() -> PathContext {
    PathContext { resolved: Vec::new(), re_resolved: Vec::new(), default_path: Some(DEFAULT_FILE.to_string()) }
}

fn mock_v() -> Verbosity {
    Verbosity::silent()
}

#[test]
fn test_default_path_resolution() {
    let (mut queue, _, _) = parse_arguments(&args(&["alias", "--which", "my_cmd", "new_cmd=value"]), &home());

    let task_s = queue.pop().expect("Should have set task");
    assert!(task_s.path.contains(".doskey"), "Set MUST have a path");

    let task_q = queue.pop().expect("Should have query task from --which");
    assert!(!task_q.path.is_empty(), "Which now REQUIRES a path context");
    assert!(task_q.path.contains(".doskey"), "Which should point to default file");

    assert_eq!(queue.len(), 0, "Queue should be empty");
}

#[test]
fn test_clear_and_which() {
    let (mut queue, _, _) = parse_arguments(&args(&["alias", "--clear", "--which", "target"]), &home());

    assert_eq!(queue.len(), 3);
    assert_eq!(queue.pull().unwrap().action, AliasAction::Clear);
    assert_eq!(queue.pull().unwrap().action, AliasAction::Which);
    if let AliasAction::Query(name) = queue.pull().unwrap().action {
        assert_eq!(name, "target");
    }
}

#[test]
fn test_double_dash_escape() {
    let (mut queue, voice, _) = parse_arguments(&args(&["alias", "--", "--quiet"]), &home());

    assert!(!voice.is_silent());
    assert_eq!(queue.len(), 1);
    if let AliasAction::Query(name) = queue.pull().unwrap().action {
        assert_eq!(name, "--quiet");
    }
}

#[test]
fn t17_force_flag() {
    if let AliasAction::SetAlias(o) = parse_arguments(&args(&["alias", "--case", "x=y"]), &home()).0.pull().unwrap().action {
        assert!(o.force_case);
    } else {
        panic!();
    }
}

#[test]
fn t21_mixed_volatile_delete() {
    let (queue, _, _) = parse_arguments(&args(&["alias", "g=", "--temp", "h="]), &home());

    let tasks = queue.tasks;
    assert_eq!(tasks.len(), 2);

    assert!(matches!(tasks[0].action, AliasAction::Remove(_)));
    assert!(!tasks[0].path.is_empty(), "g= should have a path");

    assert!(matches!(tasks[1].action, AliasAction::Unalias(_)));
    assert!(tasks[1].path.is_empty(), "h= with --temp should NOT have a path");
}

#[test]
fn test_step1_dash_dash_termination() {
    let a = args(&["g", "git", "--", "commit"]);
    let (action, consumed) = parse_set_argument(&mock_v(), &a, false, false, false);

    if let AliasAction::SetAlias(opts) = action {
        assert_eq!(opts.name, "g");
        assert_eq!(opts.value, "git");
    } else {
        panic!("Expected Set action");
    }
    assert_eq!(consumed, 2);
}

#[test]
fn test_implicit_gobble() {
    let a = args(&["g", "git", "commit", "--case"]);
    let (action, consumed) = parse_set_argument(&mock_v(), &a, false, false, true);

    if let AliasAction::SetAlias(opts) = action {
        assert_eq!(opts.name, "g");
        assert_eq!(opts.value, "git commit --case");
    } else {
        panic!("Expected Set action");
    }
    assert_eq!(consumed, 4);
}

#[test]
fn test_parser_file_flag_missing_path() {
    let (mut queue, _voice, _) = parse_arguments(&args(&["alias", "--file"]), &home());

    let task = queue.pull().expect("Should have a task describing the failure");
    assert!(
        matches!(task.action, AliasAction::Invalid),
        "Reality Check: Naked --file must result in an Invalid action"
    );
    assert_eq!(
        queue.getpath(),
        DEFAULT_FILE,
        "Queue should fall back to default system path when flag parsing fails"
    );
}

#[test]
fn t62_unalias_precision() {
    let task = Task { action: AliasAction::Unalias("r=c ".into()), path: "f".into() };
    match dispatch(task, &Verbosity::silent()) {
        Step::Store { opts, .. } => {
            assert_eq!(opts.name, "r=c");
            assert!(opts.volatile);
        }
        _ => panic!("MockProvider should have captured a Set call"),
    }
}

#[test]
fn test_dispatch_unalias_formatting() {
    let task = Task { action: AliasAction::Unalias("  g=something  ".into()), path: "test.doskey".into() };
    match dispatch(task, &Verbosity::silent()) {
        Step::Store { opts, .. } => {
            assert_eq!(opts.name, "g=something");
            assert_eq!(opts.value, "");
        }
        _ => panic!("Mock should have been called"),
    }
}

#[test]
fn test_dispatch_invalid_name_error() {
    let task = Task { action: AliasAction::Unalias("   ".into()), path: "test.doskey".into() };
    let result = dispatch(task, &Verbosity::silent());
    assert!(matches!(result, Step::Refuse { .. }), "Should return an error for empty names");
}

#[test]
fn test_all_variants_symmetry() {
    let test_cases = vec![
        ("--help", AliasAction::Help),
        ("--reload", AliasAction::Reload),
        ("--setup", AliasAction::Setup),
        ("--clear", AliasAction::Clear),
        ("--which", AliasAction::Which),
        ("--file", AliasAction::File),
        ("--startup", AliasAction::Startup),
        ("--temp", AliasAction::Temp),
        ("--case", AliasAction::Case),
        ("--no-case", AliasAction::NoCase),
        ("--quiet", AliasAction::Quiet),
        ("--no-quiet", AliasAction::NoQuiet),
        ("--icons", AliasAction::Icons),
        ("--no-icons", AliasAction::NoIcons),
        ("--tips", AliasAction::Tips),
        ("--no-tips", AliasAction::NoTips),
        ("--remove test", AliasAction::Remove("test".to_string())),
        ("--unalias test", AliasAction::Unalias("test".to_string())),
        ("--edalias=notepad", AliasAction::Edit(Some("notepad".to_string()))),
    ];

    for (input, expected) in test_cases {
        let action: AliasAction = input.parse().expect("Should parse");
        assert_eq!(action, expected, "Parsing mismatch for {}", input);

        let output = action.to_string();
        assert_eq!(input, output, "Symmetry broken: {} became {}", input, output);
    }
}

#[test]
fn test_all_variants_round_trip() {
    let test_cases = vec![
        AliasAction::Clear,
        AliasAction::Help,
        AliasAction::Reload,
        AliasAction::Setup,
        AliasAction::Which,
        AliasAction::Startup,
        AliasAction::Temp,
        AliasAction::Case,
        AliasAction::NoCase,
        AliasAction::Quiet,
        AliasAction::NoQuiet,
        AliasAction::Icons,
        AliasAction::NoIcons,
        AliasAction::Tips,
        AliasAction::NoTips,
        AliasAction::Edit(None),
        AliasAction::Query("my_alias".into()),
    ];

    for original in test_cases {
        let cli = original.to_cli_args();
        if cli.is_empty() {
            continue;
        }
        let parsed: AliasAction = cli.parse().unwrap();
        assert_eq!(original, parsed, "Round-trip failed for: {}", cli);
    }
}

#[test]
fn test_alias_action_symmetry_matrix() {
    let scenarios = vec![
        AliasAction::Help,
        AliasAction::Setup,
        AliasAction::Reload,
        AliasAction::Unalias("test_cmd".to_string()),
        AliasAction::Remove("garbage_collect".to_string()),
        AliasAction::Edit(Some("vim_profile".to_string())),
        AliasAction::Edit(None),
        AliasAction::Toggle(Box::new(AliasAction::Query("voice".to_string())), true),
        AliasAction::Toggle(Box::new(AliasAction::Query("icons".to_string())), false),
        AliasAction::Query("search_term".to_string()),
    ];

    for action in scenarios {
        let serialized = action.to_string();
        let deserialized = AliasAction::from_str(&serialized)
            .expect(&format!("Failed to parse serialized action: {}", serialized));

        assert_eq!(action, deserialized, "Mismatch after round-trip! \nOriginal: {:?} \nSerialized: {} \nResult: {:?}", action, serialized, deserialized);
    }
}

#[test]
fn cli_text_of_removals_and_definitions_reads_back() {
    for action in [
        AliasAction::Remove("old".to_string()),
        AliasAction::Unalias("tmp".to_string()),
        AliasAction::Force,
        AliasAction::File,
        AliasAction::Edit(Some("vim".to_string())),
        AliasAction::Edit(Some(String::new())),
        AliasAction::SetAlias(SetOptions { name: "gs".into(), value: "git status".into(), volatile: false, force_case: false }),
    ] {
        let cli = action.to_cli_args();
        assert_eq!(AliasAction::from_str(&cli).unwrap(), action, "{}", cli);
    }
}

#[test]
fn no_case_and_no_quiet_undo_their_switches() {
    let (mut q, v, _) = parse_arguments(&args(&["alias", "--quiet", "--case", "--no-case", "--no-quiet", "x=y"]), &home());
    assert!(!v.is_silent());
    if let AliasAction::SetAlias(o) = q.pull().unwrap().action {
        assert!(!o.force_case);
    } else {
        panic!();
    }
}

#[test]
fn which_without_any_alias_file_still_runs() {
    let none = PathContext { resolved: Vec::new(), re_resolved: Vec::new(), default_path: None };
    let (q, _, _) = parse_arguments(&args(&["alias", "--which"]), &none);
    assert_eq!(q.tasks[0].action, AliasAction::Which);
    assert!(q.tasks[0].path.is_empty());
}
