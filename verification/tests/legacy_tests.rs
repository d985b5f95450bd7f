use alias_lib::legacy::{parse_alias_args, AliasAction};

#[test]
fn alias_tests_test_show_all() {
    let args = vec!["alias".to_string()];
    assert_eq!(parse_alias_args(&args), (AliasAction::ShowAll, false));
}

#[test]
fn test_query_alias() {
    let args = vec!["alias".to_string(), "ls".to_string()];
    assert_eq!(parse_alias_args(&args), (AliasAction::Query("ls".to_string()), false));
}

#[test]
fn test_set_with_equals() {
    let args = vec!["alias".to_string(), "gs=git".to_string(), "status".to_string()];
    assert_eq!(
        parse_alias_args(&args),
        (AliasAction::SetAlias {
            name: "gs".to_string(),
            value: "git status".to_string()
        }, false)
    );
}

#[test]
fn test_set_with_space() {
    let args = vec!["alias".to_string(), "vi".to_string(), "nvim".to_string(), "-o".to_string()];
    assert_eq!(
        parse_alias_args(&args),
        (AliasAction::SetAlias {
            name: "vi".to_string(),
            value: "nvim -o".to_string()
        }, false)
    );
}

#[test]
fn test_delete_syntax() {
    let args = vec!["alias".to_string(), "junk=".to_string()];
    assert_eq!(
        parse_alias_args(&args),
        (AliasAction::SetAlias {
            name: "junk".to_string(),
            value: "".to_string()
        }, false)
    );
}

#[test]
fn test_invalid_empty_name() {
    let args = vec!["alias".to_string(), "=something".to_string()];
    assert_eq!(parse_alias_args(&args), (AliasAction::Invalid, false));
}

#[test]
fn test_long_opts_only() {
    assert_eq!(parse_alias_args(&vec!["alias".into(), "--edalias".into()]), (AliasAction::Edit(None), false));
    assert_eq!(parse_alias_args(&vec!["alias".into(), "--help".into()]), (AliasAction::Help, false));
    assert_eq!(parse_alias_args(&vec!["alias".into(), "--reload".into()]), (AliasAction::Reload, false));
}

#[test]
fn test_help_and_invalid_flags() {
    assert_eq!(parse_alias_args(&vec!["alias".into(), "--help".into()]), (AliasAction::Help, false));
    assert_eq!(parse_alias_args(&vec!["alias".into(), "--unknown".into()]), (AliasAction::Invalid, false));
}

#[test]
fn test_short_flags_are_invalid_for_safety() {
    let args = vec!["alias".to_string(), "-e".to_string()];
    let (action, _) = parse_alias_args(&args);
    // We now expect Invalid to prevent accidental alias execution
    assert_eq!(action, AliasAction::Invalid);
}

#[test]
fn test_editor_synonyms() {
    assert_eq!(parse_alias_args(&vec!["alias".into(), "--edalias".into()]), (AliasAction::Edit(None), false));
    assert_eq!(parse_alias_args(&vec!["alias".into(), "--edaliases".into()]), (AliasAction::Edit(None), false));
}

#[test]
fn test_edit_with_override() {
    let action = parse_alias_args(&vec!["alias".into(), "--edalias=code".into()]);
    assert_eq!(action, (AliasAction::Edit(Some("code".into())), false));
}

#[test]
fn test_edit_synonym_with_override() {
    let action = parse_alias_args(&vec!["alias".into(), "--edaliases=nvim".into()]);
    assert_eq!(action, (AliasAction::Edit(Some("nvim".into())), false));
}

#[test]
fn test_quiet_flag_detection() {
    let args1 = vec!["alias".into(), "--quiet".into(), "gs=git status".into()];
    let (action1, quiet1) = parse_alias_args(&args1);
    assert!(quiet1);
    assert_eq!(action1, AliasAction::SetAlias { name: "gs".into(), value: "git status".into() });
}

#[test]
fn test_set_complex_value_with_spaces() {
    let args = vec!["alias".into(), "my_cmd".into(), "echo".into(), "hi".into()];
    let (action, _) = parse_alias_args(&args);
    if let AliasAction::SetAlias { name, value } = action {
        assert_eq!(name, "my_cmd");
        assert_eq!(value, "echo hi");
    } else {
        panic!("Set failed");
    }
}

#[test]
fn alias_tests_test_reload_flag() {
    let args = vec!["alias".into(), "--reload".into()];
    assert_eq!(parse_alias_args(&args), (AliasAction::Reload, false));
}

#[test]
fn test_multiple_quiet_flags() {
    // Users might accidentally or jokingly use it twice
    let args = vec!["alias".into(), "--quiet".into(), "ls".into(), "--quiet".into()];
    let (action, quiet) = parse_alias_args(&args);
    assert!(quiet);
    assert_eq!(action, AliasAction::Query("ls".into()));
}

#[test]
fn test_set_with_multiple_equals() {
    // Testing: alias logic="a=b" (The first equals should be the split point)
    let args = vec!["alias".into(), "logic=a=b".into()];
    let (action, _) = parse_alias_args(&args);
    assert_eq!(action, AliasAction::SetAlias {
        name: "logic".into(),
        value: "a=b".into()
    });
}

#[test]
fn test_mixed_case_quiet() {
    // Ensure --QUIET or --qUiEt still triggers
    let args = vec!["alias".into(), "--QuIeT".into(), "--reload".into()];
    let (action, quiet) = parse_alias_args(&args);
    assert!(quiet);
    assert_eq!(action, AliasAction::Reload);
}

#[test]
fn test_only_quiet_no_command() {
    // alias --quiet (should behave like 'alias' but quiet)
    let args = vec!["alias".into(), "--quiet".into()];
    let (action, quiet) = parse_alias_args(&args);
    assert!(quiet);
    assert_eq!(action, AliasAction::ShowAll);
}

#[test]
fn test_opts_injection_logic() {
    // Simulating: ALIAS_OPTS="--quiet" and user types "alias g=git status"
    let mut args = vec!["alias".to_string(), "g=git".to_string(), "status".to_string()];
    let extra_opts = vec!["--quiet".to_string()];

    args.splice(1..1, extra_opts);

    let (action, quiet) = parse_alias_args(&args);
    assert!(quiet);
    if let AliasAction::SetAlias { name, value } = action {
        assert_eq!(name, "g");
        assert_eq!(value, "git status");
    } else {
        panic!("Failed to parse Set action after injection");
    }
}

#[test]
fn test_empty_value_is_delete() {
    let args = vec!["alias".to_string(), "old_alias=".to_string()];
    let (action, _) = parse_alias_args(&args);
    if let AliasAction::SetAlias { name, value } = action {
        assert_eq!(name, "old_alias");
        assert_eq!(value, ""); // Should be interpreted as a deletion
    }
}

#[test]
fn test_space_separator_set() {
    // Testing the "alias name value" alternate syntax
    let args = vec!["alias".to_string(), "ll".to_string(), "ls".to_string(), "-la".to_string()];
    let (action, _) = parse_alias_args(&args);
    if let AliasAction::SetAlias { name, value } = action {
        assert_eq!(name, "ll");
        assert_eq!(value, "ls -la");
    }
}

#[test]
fn test_quiet_injection_from_env() {
    // 1. Simulate the initial args from the OS (alias set g=status)
    let mut args = vec![
        "alias".to_string(),
        "g".to_string(),
        "status".to_string()
    ];

    // 2. Simulate the ALIAS_OPTS="--quiet" injection logic from main()
    let env_opts = "--quiet";
    let extra: Vec<String> = env_opts.split_whitespace().map(String::from).collect();
    if !extra.is_empty() {
        args.splice(1..1, extra);
    }

    // 3. Parse the modified args
    let (action, quiet) = parse_alias_args(&args);

    // 4. Assertions
    assert!(quiet, "The quiet flag should be true when --quiet is injected");

    if let AliasAction::SetAlias { name, value } = action {
        assert_eq!(name, "g");
        assert_eq!(value, "status");
    } else {
        panic!("Action should have been AliasAction::Set");
    }
}

#[test]
fn test_quiet_extraction() {
    let args = vec!["alias".to_string(), "--quiet".to_string(), "g=status".to_string()];
    let (action, quiet) = parse_alias_args(&args);

    assert!(quiet); // The bool is caught
    assert_eq!(action, AliasAction::SetAlias { name: "g".into(), value: "status".into() }); // Action is clean
}

#[test]
fn test_edit_empty_override() {
    // alias --edalias=
    let action = parse_alias_args(&vec!["alias".into(), "--edalias=".into()]);
    // It should probably treat an empty override as None (default editor)
    if let (AliasAction::Edit(Some(editor)), _) = action {
        assert!(!editor.is_empty(), "Editor name should not be empty");
    }
}

#[test]
fn test_alias_deletion_parsing() {
    let input = "cdx=";
    let parts: Vec<&str> = input.splitn(2, '=').collect();

    assert_eq!(parts[0], "cdx");
    // If this is an empty string, your code MUST call the delete logic
    assert_eq!(parts[1], "");
}

#[test]
fn test_deletion_logic_path() {
    let name = "cdx";
    let value = "";
    let input = format!("{}={}", name, value);

    // We create the vector but keep it as a separate binding.
    // This way, 'input' stays alive in the scope of the test.
    let args = vec!["alias".to_string(), input];

    // We pass a reference to the vector's contents.
    let action = parse_alias_args(&args).0;

    if let AliasAction::SetAlias { name: n, value: v } = action {
        assert_eq!(n, name);
        assert_eq!(v, value);
    } else {
        // Now 'args[1]' is used here, and it's perfectly valid
        // because 'args' hasn't been dropped or moved yet.
        panic!("Parser failed to identify '{}' as a Set/Delete action", args[1]);
    }
}

#[test]
fn test_split_alias_logic() {
    // Ensure we only split on the FIRST equals sign
    let input = "cdx=set \"VAR=VAL\" & chdir";
    let (name, value) = input.split_once('=').unwrap();
    assert_eq!(name, "cdx");
    assert_eq!(value, "set \"VAR=VAL\" & chdir");
}

#[test]
fn test_clear_string_formatting() {
    let name = "  rust  ";
    let clean_name = name.trim();
    let doskey_cmd = format!("{}=", clean_name);
    // This is the string that kills a macro in RAM
    assert_eq!(doskey_cmd, "rust=");
}

#[test]
fn test_reload_line_parsing() {
    // Simulate doskey /macros output
    let raw_output = "ls=dir /w\ncd=cd /d $*\nghost=";
    let names: Vec<&str> = raw_output
        .lines()
        .filter_map(|l| l.split_once('='))
        .map(|(name, _)| name.trim())
        .filter(|n| !n.is_empty())
        .collect();

    assert_eq!(names, vec!["ls", "cd", "ghost"]);
}

#[test]
fn test_parse_set_equals() {
    let args = vec!["alias".to_string(), "rust=cargo".to_string()];
    let (action, _) = parse_alias_args(&args);
    match action {
        AliasAction::SetAlias { name, value } => {
            assert_eq!(name, "rust");
            assert_eq!(value, "cargo");
        }
        _ => panic!("Expected Set action"),
    }
}

#[test]
fn test_parse_set_space() {
    let args = vec!["alias".to_string(), "rust".to_string(), "cargo".to_string()];
    let (action, _) = parse_alias_args(&args);
    match action {
        AliasAction::SetAlias { name, value } => {
            assert_eq!(name, "rust");
            assert_eq!(value, "cargo");
        }
        _ => panic!("Expected Set action"),
    }
}

#[test]
fn test_quiet_flag_positioning() {
    let args = vec!["alias".to_string(), "--quiet".to_string(), "ls=dir".to_string()];
    let (_, quiet) = parse_alias_args(&args);
    assert!(quiet);
}
