use alias_lib::{
    calculate_new_file_state, failure, failure_os, get_random_tip, is_valid_name,
    is_valid_name_loose, is_valid_name_permissive, mesh_logic, parse_alias_line,
    random_tip_show, render_diagnostics, AliasAction, AliasEntryMesh, AliasError, AliasIcon,
    BinaryProfile, BinarySubsystem, DiagnosticReport, DisplayTip, ErrorCode, HelpMode,
    PurgeReport, RegistryStatus, SetOptions, ShowFeature, ShowIcons, ShowTips, Task, TaskQueue,
    Verbosity, VerbosityLevel, DEFAULT_ALIAS_FILENAME, ENV_ALIAS_FILE, ENV_ALIAS_OPTS,
    ICON_MATRIX, ICON_TYPES, REG_SUBKEY, TIPS_ARRAY,
};
use std::io::{Error, ErrorKind};
use std::str::FromStr;

fn io_failure(v: &Verbosity, e: &std::io::Error) -> AliasError {
    failure_os(v, e.raw_os_error(), &e.to_string())
}

#[test]
fn test_voice_initialization_variants() {
    let mute = Verbosity::voice(VerbosityLevel::Mute, ShowFeature::Off, ShowTips::Off);
    assert_eq!(mute.level, VerbosityLevel::Mute);
    assert!(!mute.show_icons.is_on());
    assert_eq!(mute.display_tip, None);

    let loud = Verbosity::voice(VerbosityLevel::Loud, ShowIcons::On, ShowTips::On);
    assert_eq!(loud.level, VerbosityLevel::Loud);
    assert!(loud.show_icons.is_on());
    assert!(loud.display_tip.is_some());

    let silent = Verbosity::voice(VerbosityLevel::Silent, ShowIcons::Off, ShowTips::Off);
    assert_eq!(silent.display_tip, None);
}

#[test]
fn test_macro_formatting_expansion() {
    let v = Verbosity::normal();
    let msg = format!("Hello {}", "World");
    let formatted = v.icon_format(AliasIcon::Success, &msg);
    assert!(formatted.contains("✨"));
    assert!(formatted.contains("Hello World"));
}

#[test]
fn test_gatekeeper_edge_cases() {
    assert!(!is_valid_name("-invalid"));
    assert!(!is_valid_name("alias&name"));
    assert!(!is_valid_name(""));
    assert!(!is_valid_name("1alias"));
    assert!(is_valid_name("alias_1"));
    assert!(is_valid_name("ñandú"));
}

#[test]
fn test_voice_initialization_logic() {
    let mute = Verbosity::voice(VerbosityLevel::Mute, ShowFeature::Off, ShowTips::Off);
    assert_eq!(mute.level, VerbosityLevel::Mute);
    assert_eq!(mute.display_tip, None, "Direct Off should never have a tip");

    let loud = Verbosity::voice(VerbosityLevel::Loud, ShowIcons::On, ShowTips::On);
    assert!(loud.display_tip.is_some(), "Tips set to On must generate a string");

    let silent_icons = ShowIcons::Off;
    let silent_tips = ShowTips::Off;
    let quiet = Verbosity::voice(VerbosityLevel::Normal, silent_icons, silent_tips);
    assert_eq!(quiet.display_tip, None, "Tips set to Off via expr should be None");
}

#[test]
fn test_voice_fast_path_identity() {
    let fast_mute = Verbosity::voice(VerbosityLevel::Mute, ShowFeature::Off, ShowTips::Off);
    let general_mute = Verbosity::voice(VerbosityLevel::Mute, ShowIcons::Off, ShowTips::Off);
    assert_eq!(fast_mute.level, general_mute.level);
    assert_eq!(fast_mute.show_icons, general_mute.show_icons);
    assert_eq!(fast_mute.show_tips, general_mute.show_tips);
    assert_eq!(fast_mute.display_tip, None);
}

#[test]
fn test_voice_tip_allocation_logic() {
    let v_on = Verbosity::voice(VerbosityLevel::Normal, ShowIcons::On, ShowTips::On);
    assert!(v_on.display_tip.is_some(), "Tips On should allocate a string");
    let v_off = Verbosity::voice(VerbosityLevel::Normal, ShowIcons::On, ShowTips::Off);
    assert!(v_off.display_tip.is_none(), "Tips Off must be None");
}

fn get_icons() -> ShowIcons {
    ShowIcons::On
}

#[test]
fn test_voice_expression_hygiene() {
    let v = Verbosity::voice(VerbosityLevel::Normal, get_icons(), ShowTips::Off);
    assert!(v.show_icons.is_on());
}

#[test]
fn test_voice_random_branch_stability() {
    let v_rand = Verbosity::voice(VerbosityLevel::Normal, ShowIcons::On, ShowTips::Random);
    let _ = format!("{:?}", v_rand.display_tip);
}

#[test]
fn test_failure_macro_os_error_extraction() {
    let v = Verbosity::normal();
    let raw_os_err = std::io::Error::from_raw_os_error(2);
    let alias_err = io_failure(&v, &raw_os_err);
    assert_eq!(alias_err.code, 2);
    assert!(alias_err.message.contains("2"));
}

#[test]
fn test_failure_macro_custom_logic_error() {
    let v = Verbosity::normal();
    let code = 42u8;
    let alias_err = failure(&v, code as u64, &format!("Validation failed for: {}", "test_alias"));
    assert_eq!(alias_err.code, 42);
    assert!(alias_err.message.contains("Validation failed for: test_alias"));
    assert!(alias_err.message.contains("⚠️") || alias_err.message.contains("❌"));
}

#[test]
fn test_failure_macro_fallback_code() {
    let v = Verbosity::normal();
    let plain_err = std::io::Error::new(std::io::ErrorKind::Other, "oh no");
    let alias_err = io_failure(&v, &plain_err);
    assert_eq!(alias_err.code, 1);
}

#[test]
fn test_failure_macro_type_brittleness() {
    let v = Verbosity::normal();
    let code_32: u32 = 257;
    let err = failure(&v, code_32 as u64, "Truncation test");
    assert_eq!(err.code, 1, "Verify truncation behavior for OS exit codes");
}

#[test]
fn test_failure_macro_payload_safety() {
    let v = Verbosity::normal();
    let custom = std::io::Error::new(std::io::ErrorKind::AddrInUse, "Port Busy");
    let err = io_failure(&v, &custom);
    assert_eq!(err.code, 1);
    assert!(err.message.contains("Port Busy"));
}

#[test]
fn test_failure_macro_formatting_stress() {
    let v = Verbosity::normal();
    let err = failure(&v, 5, &format!("Failed: {} | {} < {}", "A", "B", "C"));
    assert_eq!(err.code, 5);
    assert!(err.message.contains("|"));
    assert!(err.message.contains("<"));
}

#[test]
fn test_ownership_persistence() {
    let v = Verbosity::normal();
    let err_one = Error::new(ErrorKind::Other, "First");
    let err_two = Error::new(ErrorKind::Other, "Second");
    let _ = io_failure(&v, &err_one);
    let _ = io_failure(&v, &err_two);
}

#[test]
fn test_exit_code_truncation_safety() {
    let v = Verbosity::normal();
    let large_code: u32 = 258;
    let res = failure(&v, large_code as u64, "Testing overflow");
    assert_eq!(res.code, 2);
}

#[test]
fn test_trait_compatibility() {
    let v = Verbosity::normal();
    let code_i32: i32 = 5;
    let code_usize: usize = 10;
    let res_a = failure(&v, code_i32 as u64, "i32 test");
    let res_b = failure(&v, code_usize as u64, "usize test");
    assert_eq!(res_a.code, 5);
    assert_eq!(res_b.code, 10);
}

#[test]
fn test_error_code_mapping_integrity() {
    assert_eq!(ErrorCode::Generic.code(), 1);
    assert_eq!(ErrorCode::Registry.code(), 5);
    assert_eq!(ErrorCode::MissingName.code(), 7);
}

#[test]
fn test_alias_error_rugged_display() {
    let msg = "✨ Success turned ⚠️ Failure".to_string();
    let err = AliasError { message: msg.clone(), code: 6 };
    assert_eq!(err.message(), msg);
    let debug_str = format!("{:?}", err);
    assert!(debug_str.contains("AliasError"));
    assert!(debug_str.contains("code: 6"));
}

#[test]
fn test_guaranteed_nonzero_exit() {
    let v = Verbosity::normal();
    let plain_io_err = std::io::Error::new(std::io::ErrorKind::Other, "Generic failure");
    let err = io_failure(&v, &plain_io_err);
    assert!(err.code > 0, "Errors must always return a non-zero exit code for shell automation.");
}

#[test]
fn test_queue_lifecycle_and_growth() {
    let mut q = TaskQueue::new();
    assert!(q.is_empty());
    for i in 0..5 {
        q.push(AliasAction::SetAlias(SetOptions {
            name: format!("alias_{}", i),
            value: "dir".to_string(),
            volatile: false,
            force_case: false,
        }));
    }
    assert_eq!(q.len(), 5);
    assert!(!q.is_empty());
    q.clear();
    assert!(q.is_empty());
    assert_eq!(q.len(), 0);
}

#[test]
fn test_into_iterator_consumption() {
    let mut q = TaskQueue::new();
    q.push(AliasAction::Clear);
    q.push(AliasAction::Clear);
    let tasks: Vec<Task> = q.into_tasks();
    assert_eq!(tasks.len(), 2);
}

#[test]
fn test_out_of_bounds_safety() {
    let q = TaskQueue::new();
    assert!(q.get(0).is_none());
    assert!(q.get(999).is_none());
}

#[test]
fn test_icon_matrix_bounds() {
    assert_eq!(ICON_MATRIX.len(), ICON_TYPES);
}

#[test]
fn test_icon_indexing_integrity() {
    assert_eq!(AliasIcon::NoIcon as usize, 0);
    assert_eq!(AliasIcon::Success as usize, 5);
    assert_eq!(AliasIcon::Question as usize, 19);
    assert_eq!(ICON_MATRIX[AliasIcon::Success as usize][1], "✨");
    assert_eq!(ICON_MATRIX[AliasIcon::Fail as usize][0], "X");
}

#[test]
fn test_verbosity_factory_states() {
    let mute = Verbosity::mute();
    assert_eq!(mute.level, VerbosityLevel::Mute);
    assert!(!mute.show_icons.is_on());
    let loud = Verbosity::loud();
    assert!(loud.show_audit());
    assert!(loud.show_xmas_lights());
    assert!(loud.display_tip.is_some() || loud.show_tips == ShowTips::On);
}

#[test]
fn test_icon_formatting_passthrough() {
    let silent = Verbosity::silent();
    let msg = "test message";
    assert_eq!(silent.icon_format(AliasIcon::Success, msg), msg);
    let normal = Verbosity::normal();
    let formatted = normal.icon_format(AliasIcon::Success, msg);
    assert!(formatted.contains(msg));
    assert!(formatted.len() > msg.len());
}

#[test]
fn test_audit_block_alignment_logic() {
    let v_icons = Verbosity::normal();
    let v_no_icons = Verbosity::silent();
    let icon_spacer = if v_icons.show_icons.is_on() { "  " } else { " " };
    assert_eq!(icon_spacer, "  ");
    let no_icon_spacer = if v_no_icons.show_icons.is_on() { "  " } else { " " };
    assert_eq!(no_icon_spacer, " ");
}

#[test]
fn test_registry_path_validity() {
    assert!(!REG_SUBKEY.starts_with('\\'), "Registry subkeys should be relative, not absolute.");
    assert!(!REG_SUBKEY.ends_with('\\'), "Trailing backslashes can break registry key lookups.");
    assert!(REG_SUBKEY.contains("Command Processor"));
}

#[test]
fn test_environment_key_naming_convention() {
    assert_eq!(ENV_ALIAS_FILE, "ALIAS_FILE");
    assert_eq!(ENV_ALIAS_OPTS, "ALIAS_OPTS");
}

#[test]
fn test_file_extension_validity() {
    assert!(DEFAULT_ALIAS_FILENAME.ends_with(".doskey") || DEFAULT_ALIAS_FILENAME.ends_with(".txt"));
}

#[test]
fn test_show_feature_logic_gates() {
    let on = ShowFeature::On;
    let off = ShowFeature::Off;
    assert!(on.is_on());
    assert!(!off.is_on());
    assert_eq!(!on, ShowFeature::Off);
    assert_eq!(!off, ShowFeature::On);
    assert_eq!(!!on, ShowFeature::On);
}

#[test]
fn test_repr_values() {
    assert_eq!(ShowFeature::On as usize, 1);
    assert_eq!(ShowFeature::Off as usize, 0);
}

#[test]
fn test_comparisons() {
    assert!(ShowFeature::On > ShowFeature::Off);
}

#[test]
fn test_show_tips_state_transitions() {
    let t_on = ShowTips::On;
    let t_off = ShowTips::Off;
    let t_rand = ShowTips::Random;
    assert!(t_on.is_on());
    assert!(!t_off.is_on());
    assert!(!t_rand.is_on());
    assert!(t_rand.random());
    assert!(!t_on.random());
    assert_ne!(t_on, t_rand);
    assert_ne!(t_off, t_rand);
}

#[test]
fn test_feature_alias_behavior() {
    let icons: ShowIcons = ShowIcons::On;
    let tips: DisplayTip = DisplayTip::Off;
    assert!(icons.is_on());
    assert!(!tips.is_on());
    let toggled_icons = !icons;
    assert_eq!(toggled_icons, ShowIcons::Off);
}

#[test]
fn test_set_options_structural_integrity() {
    let name = "test_alias".to_string();
    let value = "dir /w".to_string();
    let opts = SetOptions { name: name.clone(), value: value.clone(), volatile: false, force_case: true };
    let cloned_opts = opts.clone();
    assert_eq!(cloned_opts.name, name);
    assert_eq!(cloned_opts.value, value);
    assert!(!cloned_opts.volatile);
    assert!(cloned_opts.force_case);
}

#[test]
fn test_set_options_equality() {
    let opt_a = SetOptions { name: "ls".to_string(), value: "dir".to_string(), volatile: true, force_case: false };
    let opt_b = SetOptions { name: "ls".to_string(), value: "dir".to_string(), volatile: true, force_case: false };
    assert_eq!(opt_a, opt_b);
}

#[test]
fn test_status_equality_and_matching() {
    let status = RegistryStatus::Synced;
    match status {
        RegistryStatus::Synced => assert!(true),
        _ => panic!("Should have been Synced"),
    }
    let mismatch = RegistryStatus::Mismatch("dir /w".to_string());
    if let RegistryStatus::Mismatch(val) = mismatch {
        assert_eq!(val, "dir /w");
    } else {
        panic!("Should have been a Mismatch");
    }
}

#[test]
fn test_mismatch_payload_integrity() {
    let dangerous_payload = "echo %PATH% & pause".to_string();
    let status = RegistryStatus::Mismatch(dangerous_payload.clone());
    if let RegistryStatus::Mismatch(inner) = status {
        assert_eq!(inner, dangerous_payload);
    }
}

#[test]
fn test_help_mode_variants() {
    let short = HelpMode::Short;
    let full = HelpMode::Full;
    match short {
        HelpMode::Short => assert!(true),
        _ => panic!("Expected Short"),
    }
    match full {
        HelpMode::Full => assert!(true),
        _ => panic!("Expected Full"),
    }
}

#[test]
fn test_help_mode_copy_semantics() {
    let mode = HelpMode::Short;
    let _mode2 = mode;
    let _mode3 = mode;
}

#[test]
fn test_purge_report_ruggedness() {
    let mut report = PurgeReport::default();
    report.cleared.push("ls".to_string());
    assert!(!report.cleared.is_empty());
    assert!(report.is_fully_clean());
    report.failed.push(("git".to_string(), 5));
    assert_eq!(report.failed.len(), 1);
    assert!(!report.is_fully_clean(), "Should flag as not clean if a failure exists");
}

#[test]
fn test_diagnostic_report_defaults() {
    let report = DiagnosticReport {
        binary_path: None,
        resolved_path: "C:\\bin\\alias.exe".to_string(),
        env_file: "aliases.doskey".to_string(),
        env_opts: "-u".to_string(),
        file_exists: false,
        is_readonly: true,
        drive_responsive: true,
        registry_status: RegistryStatus::NotFound,
        api_status: Some("SPAWNER".to_string()),
    };
    assert!(!report.file_exists);
    assert_eq!(report.registry_status.is_synced(), false);
}

#[test]
fn test_mesh_definition_logic() {
    let empty_mesh = AliasEntryMesh { name: "test".to_string(), os_value: None, file_value: None };
    assert!(empty_mesh.is_empty_definition());
    let ghost = AliasEntryMesh { name: "ghost".to_string(), os_value: Some("dir".to_string()), file_value: None };
    assert!(!ghost.is_empty_definition());
}

#[test]
fn test_display_fidelity_set() {
    let opts = SetOptions { name: "ls".to_string(), value: "dir".to_string(), volatile: false, force_case: false };
    let action = AliasAction::SetAlias(opts);
    assert_eq!(action.error().message(), "Error setting alias: ls");
}

#[test]
fn test_display_fidelity_edit() {
    let action_custom = AliasAction::Edit(Some("code.exe".to_string()));
    assert!(action_custom.error().message().contains("code.exe"));
    let action_default = AliasAction::Edit(None);
    assert!(action_default.error().message().contains("default editor"));
}

#[test]
fn test_enum_clonability_for_queue() {
    let original = AliasAction::Query("test".to_string());
    let cloned = original.clone();
    assert_eq!(original, cloned);
}

#[test]
fn test_autorun_command_construction() {
    let exe_path = std::path::PathBuf::from("C:\\Program Files\\Alias\\alias.exe");
    let alias_file = std::path::PathBuf::from("C:\\Users\\Guest\\Documents\\aliases.doskey");
    let startup_args = format!("--file \"{}\" --startup", alias_file.display());
    let our_cmd = format!("\"{}\" {}", exe_path.display(), startup_args);
    assert!(our_cmd.starts_with("\"C:\\"), "Executable must be quoted for paths with spaces");
    assert!(our_cmd.contains("--file \"C:\\"), "File argument must be quoted");
}

#[test]
fn test_reload_logic_comment_filtering() {
    let mock_content = "
        ; This is a comment
        ls=dir

        gs=git status ; inline comments are handled by the engine
    ";
    let count = mock_content
        .lines()
        .filter(|l| !l.trim().is_empty() && !l.trim().starts_with(';'))
        .count();
    assert_eq!(count, 2, "Should only count 'ls' and 'gs', ignoring comments and whitespace");
}

#[test]
fn test_valid_name_loose_positives() {
    assert!(is_valid_name_loose("ls"));
    assert!(is_valid_name_loose("7zip"));
    assert!(is_valid_name_loose("Update-All"));
}

#[test]
fn test_valid_name_loose_negatives() {
    assert!(!is_valid_name_loose(""));
    assert!(!is_valid_name_loose(">output"));
    assert!(!is_valid_name_loose("&run"));
    assert!(!is_valid_name_loose("|pipe"));
    assert!(!is_valid_name_loose(" alias"));
}

#[test]
fn test_valid_name_loose_stress_unicode() {
    assert!(is_valid_name_loose("λ"));
    assert!(is_valid_name_loose("ñ"));
}

#[test]
fn test_permissive_positives() {
    assert!(is_valid_name_permissive("ls"));
    assert!(is_valid_name_permissive("update_all"));
    assert!(is_valid_name_permissive("_init"));
}

#[test]
fn test_permissive_whitespace_block() {
    assert!(!is_valid_name_permissive("ls "));
    assert!(!is_valid_name_permissive(" ls"));
    assert!(!is_valid_name_permissive("git st"));
}

#[test]
fn test_permissive_digit_logic() {
    assert!(!is_valid_name_permissive("7zip"), "Permissive should block leading digits");
}

#[test]
fn test_permissive_trim_integrity() {
    assert!(!is_valid_name_permissive("ls\t"));
    assert!(!is_valid_name_permissive("ls\n"));
}

#[test]
fn test_gatekeeper_blacklist() {
    assert!(!is_valid_name("alias&"), "Failed to block shell 'and' operator");
    assert!(!is_valid_name("path:"), "Failed to block colon (potential drive/stream)");
    assert!(!is_valid_name("quoted\""), "Failed to block quotes");
    assert!(!is_valid_name("sub(shell)"), "Failed to block parentheses");
    assert!(!is_valid_name("escape^"), "Failed to block CMD caret escape");
}

#[test]
fn test_gatekeeper_first_char_logic() {
    assert!(!is_valid_name("7zip"), "Gatekeeper should block leading digits");
    assert!(is_valid_name("ls"));
    assert!(is_valid_name("_internal"));
}

#[test]
fn test_gatekeeper_unicode_safety() {
    assert!(is_valid_name("命令"));
}

#[test]
fn test_tip_selection_bounds() {
    for _ in 0..100 {
        let tip = get_random_tip();
        assert!(!tip.is_empty());
    }
}

#[test]
fn test_tip_content_safety() {
    for tip in TIPS_ARRAY {
        assert!(!tip.contains('\n'), "Tip contains a newline: {}", tip);
        assert!(!tip.contains('\r'), "Tip contains a carriage return: {}", tip);
    }
}

#[test]
fn test_get_random_tip_is_not_empty() {
    let tip = get_random_tip();
    assert!(!tip.is_empty(), "Tip should never be an empty string");
}

#[test]
fn test_tip_distribution() {
    let mut results = std::collections::HashSet::new();
    for _ in 0..50 {
        results.insert(get_random_tip());
    }
    assert!(results.len() > 1, "Entropy failure: got the same tip 50 times in a row");
}

#[test]
fn test_no_panic_on_rapid_calls() {
    for _ in 0..1000 {
        let _ = get_random_tip();
    }
}

#[test]
fn test_random_tip_show_frequency_bounds() {
    let mut hits = 0;
    let iterations = 2000;
    for _ in 0..iterations {
        if random_tip_show().is_some() {
            hits += 1;
        }
    }
    assert!(hits > 100 && hits < 300, "Tip frequency out of range: got {} hits out of {}", hits, iterations);
}

#[test]
fn test_random_tip_show_integrity() {
    for _ in 0..500 {
        if let Some(tip) = random_tip_show() {
            assert!(!tip.is_empty(), "Random show returned an empty string tip");
        }
    }
}

#[test]
fn test_render_diagnostics_resilience() {
    let report_fail = DiagnosticReport {
        binary_path: None,
        resolved_path: "Z:\\missing.doskey".to_string(),
        env_file: "NOT_SET".into(),
        env_opts: "NOT_SET".into(),
        file_exists: false,
        is_readonly: false,
        drive_responsive: false,
        registry_status: RegistryStatus::NotFound,
        api_status: Some("FAILED".into()),
    };
    let report_ok = DiagnosticReport {
        binary_path: Some("C:\\bin\\alias.exe".to_string()),
        resolved_path: "C:\\user\\.aliases".to_string(),
        env_file: "C:\\user\\.aliases".into(),
        env_opts: "--quiet".into(),
        file_exists: true,
        is_readonly: false,
        drive_responsive: true,
        registry_status: RegistryStatus::Synced,
        api_status: Some("CONNECTED (Win32 API)".into()),
    };
    let v = Verbosity::silent();
    render_diagnostics(report_fail, &v);
    render_diagnostics(report_ok, &v);
}

#[test]
fn test_render_diagnostics_output_logic() {
    let v = Verbosity {
        level: VerbosityLevel::Loud,
        show_icons: ShowIcons::On,
        show_tips: ShowTips::Off,
        display_tip: None,
        in_startup: false,
        in_setup: false,
    };
    let report = DiagnosticReport {
        binary_path: Some("alias.exe".to_string()),
        resolved_path: "C:\\test.doskey".to_string(),
        env_file: "TEST_FILE".into(),
        env_opts: "--temp".into(),
        file_exists: true,
        is_readonly: false,
        drive_responsive: true,
        registry_status: RegistryStatus::Synced,
        api_status: Some("CONNECTED".into()),
    };
    let output = render_diagnostics(report, &v);
    assert!(output.contains("WRITABLE"), "Output was: {}", output);
    assert!(output.contains("RESPONSIVE"));
    assert!(output.contains("SYNCED"));
    assert!(output.contains("--temp"));
}

#[test]
fn test_mesh_order_preservation() {
    let os = vec![("a".into(), "val".into()), ("z".into(), "val".into())];
    let file = vec![("z".into(), "val".into()), ("a".into(), "val".into())];
    let result = mesh_logic(os, file);
    assert_eq!(result[0].name, "z");
    assert_eq!(result[1].name, "a");
}

#[test]
fn test_mesh_consistency_and_order() {
    let os = vec![("git".into(), "git status".into()), ("temp".into(), "ls -la".into())];
    let file = vec![("ls".into(), "ls --color".into()), ("git".into(), "git status".into())];
    let result = mesh_logic(os, file);
    assert_eq!(result.len(), 3);
    assert_eq!(result[0].name, "ls");
    assert_eq!(result[1].name, "git");
    assert_eq!(result[2].name, "temp");
    assert!(result[0].os_value.is_none());
    assert!(result[2].file_value.is_none());
}

#[test]
fn test_parse_alias_line_comprehensive() {
    let cases = vec![
        ("rust=cargo $*", Some(("rust", "cargo $*"))),
        ("\"my alias\"=echo hello", Some(("\"my alias\"", "echo hello"))),
        ("xcd=cd /d \"%i\"", Some(("xcd", "cd /d \"%i\""))),
        ("エイリアス=echo kanji", Some(("エイリアス", "echo kanji"))),
        ("  clean \u{00A0}=  value with space  ", Some(("clean", "value with space"))),
        ("\"unbalanced=value", Some(("\"unbalanced", "value"))),
    ];
    for (input, expected) in cases {
        let result = parse_alias_line(input);
        match (result, expected) {
            (Some((n, v)), Some((en, ev))) => {
                assert_eq!(n, en, "Name mismatch on input: {}", input);
                assert_eq!(v, ev, "Value mismatch on input: {}", input);
            }
            (None, None) => {}
            (r, e) => panic!("Failed test case '{}'. Got {:?}, expected {:?}", input, r, e),
        }
    }
}

#[test]
fn test_binary_profile_fallback() {
    let profile = BinaryProfile::fallback("dummy.exe");
    assert_eq!(profile.exe, "dummy.exe");
    assert!(matches!(profile.subsystem, BinarySubsystem::Cui));
    assert_eq!(profile.is_32bit, false);
}

#[test]
fn test_semantic_intent_categorization() {
    let test_matrix = vec![
        ("--help", "Help"),
        ("--HELP", "Help"),
        ("--no-icons", "NoIcons"),
        ("--unalias", "Unalias"),
        ("my-alias", "Query"),
        ("complex_name", "Query"),
        ("--unknown-flag", "Invalid"),
        ("--no-help", "Invalid"),
    ];
    for (input, expected_type) in test_matrix {
        let intent = AliasAction::intent(input);
        match expected_type {
            "Help" => assert!(matches!(intent, AliasAction::Help)),
            "NoIcons" => assert!(matches!(intent, AliasAction::NoIcons)),
            "Unalias" => assert!(matches!(intent, AliasAction::Unalias(_))),
            "Query" => assert!(matches!(intent, AliasAction::Query(_))),
            "Invalid" => assert!(matches!(intent, AliasAction::Invalid)),
            _ => panic!("Unknown expected type"),
        }
    }
}

#[test]
fn test_alias_validation_and_toggle_edges() {
    let toggle_str = "__internal_toggle=feature_x:true";
    let action = AliasAction::from_str(toggle_str).unwrap();
    if let AliasAction::Toggle(inner, state) = action {
        assert_eq!(state, true);
        if let AliasAction::Query(name) = *inner {
            assert_eq!(name, "feature_x");
        } else {
            panic!("Toggle inner should be a Query");
        }
    }
    assert!(matches!(AliasAction::from_str("__internal_toggle=no_colon"), Ok(AliasAction::Invalid)));
    assert!(is_valid_name("valid_name"));
    assert!(is_valid_name("name-with-hyphen"));
    assert!(!is_valid_name(""), "Empty name should be invalid");
    assert!(!is_valid_name("name with spaces"), "Spaces should be invalid");
    assert!(!is_valid_name("=leading_eq"), "Equals sign is a reserved delimiter");
}

#[test]
fn test_structural_traits() {
    let a = AliasAction::Query("test".to_string());
    let b = a.clone();
    assert_eq!(a, b);
    let t1 = AliasAction::Toggle(Box::new(a), true);
    let t2 = t1.clone();
    assert_eq!(t1, t2);
}

#[test]
fn test_intent_categorization_and_negation_safety() {
    let matrix = vec![
        ("--icons", AliasAction::Icons),
        ("--no-icons", AliasAction::NoIcons),
        ("--tips", AliasAction::Tips),
        ("--no-tips", AliasAction::NoTips),
        ("no-limit", AliasAction::Query("no-limit".to_string())),
        ("--no-help", AliasAction::Invalid),
        ("--unalias", AliasAction::Unalias(String::new())),
    ];
    for (input, expected) in matrix {
        let result = AliasAction::intent(input);
        assert_eq!(
            std::mem::discriminant(&result),
            std::mem::discriminant(&expected),
            "Intent mismatch for input: {}",
            input
        );
    }
}

#[test]
fn test_internal_toggle_parsing_integrity() {
    let valid_toggle = "__internal_toggle=icons:true";
    let action = AliasAction::from_str(valid_toggle).unwrap();
    if let AliasAction::Toggle(inner, state) = action {
        assert!(state == true);
        if let AliasAction::Query(name) = *inner {
            assert_eq!(name, "icons");
        } else {
            panic!("Toggle inner should have been a Query variant");
        }
    } else {
        panic!("Failed to parse as Toggle variant");
    }
    let bad_toggle = "__internal_toggle=icons_true";
    assert!(matches!(AliasAction::from_str(bad_toggle), Ok(AliasAction::Invalid)));
}

#[test]
fn test_alias_name_gatekeeper_edges() {
    let valid = ["git-commit", "build_22", "test123", "normal"];
    let invalid = ["CON", "PRN", "AUX", "name with space", "cmd=val", ""];
    for name in valid {
        assert!(is_valid_name(name), "Should be valid: {}", name);
    }
    for name in invalid {
        assert!(!is_valid_name(name), "Should be invalid: {}", name);
    }
}

#[test]
fn test_verbosity_random_tips_statistical_distribution() {
    let iterations = 1000;
    let mut tip_count = 0;
    for _ in 0..iterations {
        let v = Verbosity::normal();
        if v.display_tip.is_some() {
            tip_count += 1;
            assert!(!v.display_tip.unwrap().is_empty(), "Tip should not be empty if present");
        }
    }
    println!("Statistical Tip Count: {}/{}", tip_count, iterations);
    assert!(tip_count > 50, "Tip frequency too low: {}/{}", tip_count, iterations);
    assert!(tip_count < 150, "Tip frequency too high: {}/{}", tip_count, iterations);
}

#[test]
fn test_verbosity_presets_logic() {
    let silent = Verbosity::silent();
    assert!(silent.display_tip.is_none(), "Silent mode must never show tips");
    let loud = Verbosity::loud();
    if loud.show_tips.is_on() {}
}

#[test]
fn test_verbosity_normal_tip_distribution() {
    let iterations = 1000;
    let mut tip_count = 0;
    for _ in 0..iterations {
        let v = Verbosity::normal();
        if v.display_tip.is_some() {
            tip_count += 1;
            assert!(!v.display_tip.unwrap().is_empty(), "Tip should contain text");
        }
    }
    println!("Statistical Tip Count: {}/{}", tip_count, iterations);
    assert!(tip_count >= 50, "Tip frequency too low: {}/{}", tip_count, iterations);
    assert!(tip_count <= 150, "Tip frequency too high: {}/{}", tip_count, iterations);
}

#[test]
fn test_verbosity_preset_hard_limits() {
    assert!(Verbosity::silent().display_tip.is_none(), "Silent mode must be tip-free");
    assert!(Verbosity::mute().display_tip.is_none(), "Mute mode must be tip-free");
    let loud = Verbosity::loud();
    assert_eq!(loud.show_tips, ShowTips::On, "Loud mode should have tips ON");
}

#[test]
fn test_verbosity_tip_distribution_monte_carlo() {
    let iterations = 1000;
    let mut tip_count = 0;
    for _ in 0..iterations {
        let v = Verbosity::normal();
        if v.display_tip.is_some() {
            tip_count += 1;
            assert!(!v.display_tip.unwrap().is_empty());
        }
    }
    println!("Statistical Tip Count: {}/{}", tip_count, iterations);
    assert!(tip_count >= 50 && tip_count <= 150, "Tip distribution outside 10% tolerance: got {}/{}", tip_count, iterations);
}

#[test]
fn tests_test_local_logic() {}

#[test]
fn library_tests_test_local_logic() {}

#[test]
fn alias_lib_integration_test_test_local_logic() {}

#[test]
fn test_calculate_state_is_reexported() {
    assert_eq!(calculate_new_file_state("a=1", "b", "2"), "a=1\nb=2");
}
