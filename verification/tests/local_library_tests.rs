use alias_lib::{
    calculate_new_file_state, failure, failure_os, get_random_tip, is_valid_name, mesh_logic,
    random_tip_show, AliasEntryMesh, AliasIcon, ErrorCode, HelpMode, ShowFeature, ShowTips,
    Verbosity, VerbosityLevel, ICON_MATRIX,
};
use std::io;

#[test]
fn t26_icon_empty() {
    assert_eq!(Verbosity::normal().icon_format(AliasIcon::Say, ""), "");
}

#[test]
fn t27_tip_gen() {
    assert!(!get_random_tip().is_empty());
    let mut found = false;
    for _ in 0..100 {
        if random_tip_show().is_some() {
            found = true;
            break;
        }
    }
    assert!(found, "Should have produced a tip at least once in 100 tries");
}

#[test]
fn t28_say_macro() {
    let v = Verbosity::normal();
    let line = v.said_text(&v.icon_format(AliasIcon::Say, "test"));
    println!("{}", line);
}

#[test]
fn t29_shout_macro() {
    let v = Verbosity::normal();
    let line = v.shouted_text(&v.icon_format(AliasIcon::Success, "test"));
    println!("{}", line);
}

#[test]
fn t30_fail_macro_io() {
    let err = io::Error::new(io::ErrorKind::Other, "err");
    let e = failure_os(&Verbosity::silent(), err.raw_os_error(), &err.to_string());
    assert_eq!(e.code, 1);
}

#[test]
fn t31_verb_ord() {
    assert!(VerbosityLevel::Normal > VerbosityLevel::Silent);
}

#[test]
fn t32_is_silent() {
    assert!(Verbosity::silent().is_silent());
}

#[test]
fn t33_icon_mapping_success() {
    assert_eq!(Verbosity::normal().get_icon_str(AliasIcon::Success), ICON_MATRIX[5][1]);
}

#[test]
fn t34_icon_mapping_off() {
    let mut v = Verbosity::normal();
    v.show_icons = ShowFeature::Off;
    assert_eq!(v.get_icon_str(AliasIcon::Success), ICON_MATRIX[5][0]);
}

#[test]
fn t35_voice_macro_normal() {
    assert_eq!(Verbosity::voice(VerbosityLevel::Normal, ShowFeature::On, ShowTips::On).level, VerbosityLevel::Normal);
}

#[test]
fn t36_voice_macro_silent() {
    assert!(Verbosity::voice(VerbosityLevel::Silent, ShowFeature::Off, ShowTips::Off).is_silent());
}

#[test]
fn t37_scream_3_arg() {
    let e = failure(&Verbosity::silent(), ErrorCode::MissingFile.code() as u64, &format!("{} missing", "f"));
    assert_eq!(e.message, "f missing");
}

#[test]
fn t38_scream_io_assertion() {
    let err = io::Error::from_raw_os_error(5);
    let e = failure_os(&Verbosity::silent(), err.raw_os_error(), &err.to_string());
    assert_eq!(e.code, 5);
}

#[test]
fn t39_icon_format_content() {
    assert!(Verbosity::normal().icon_format(AliasIcon::Say, "hi").contains("hi"));
}

#[test]
fn t40_verb_mute_check() {
    assert!(Verbosity::mute().is_silent());
}

#[test]
fn t41_mesh_basic() {
    assert_eq!(mesh_logic(vec![("a".into(), "1".into())], vec![("a".into(), "1".into())]).len(), 1);
}

#[test]
fn t42_mesh_collision() {
    let m = mesh_logic(vec![("a".into(), "o".into())], vec![("a".into(), "f".into())]);
    assert_eq!(m[0].os_value, Some("o".into()));
}

#[test]
fn t43_empty_def() {
    assert!(AliasEntryMesh { name: "x".into(), os_value: None, file_value: None }.is_empty_definition());
}

#[test]
fn t44_valid_unicode() {
    assert!(is_valid_name("ñ"));
}

#[test]
fn t45_valid_numbers() {
    assert!(!is_valid_name("1x"));
    assert!(is_valid_name("x1"));
}

#[test]
fn t46_valid_spaces() {
    assert!(!is_valid_name("a b"));
}

#[test]
fn t47_calc_deletion() {
    assert!(!calculate_new_file_state("a=1\nb=2", "a", "").contains("a="));
}

#[test]
fn t48_calc_update() {
    assert!(calculate_new_file_state("a=1", "a", "2").contains("a=2"));
}

#[test]
fn t55_complex_split() {
    let (_k, v) = "a=b=c".split_once('=').unwrap();
    assert_eq!(v, "b=c");
}

#[test]
fn t56_line_filter() {
    assert_eq!("a=1\n\nb=2\n#".lines().filter(|l| l.contains('=')).count(), 2);
}

#[test]
fn t67_line_integrity() {
    let (_k, v) = "x=y ".split_once('=').unwrap();
    assert_eq!(v, "y ");
}

#[test]
fn t72_help_mode_logic() {
    assert!(matches!(HelpMode::Short, HelpMode::Short));
}

#[test]
fn t73_scream_silent_produces_msg() {
    let e = failure(&Verbosity::silent(), ErrorCode::Generic.code() as u64, "crit");
    assert_eq!(e.message, "crit");
}

#[test]
fn t49_path_healthy_tom() {
    // A small existing file, as its metadata reports it.
    assert!(alias_lib::is_path_healthy(Some((true, 1_200)), 100000));
}

#[test]
fn t50_path_healthy_fake() {
    // No metadata: the path does not exist.
    assert!(!alias_lib::is_path_healthy(None, 100000));
}

#[test]
fn test_path_with_spaces_healthy() {
    // The check works on what the file system reports, whatever the path's spelling.
    let _ = alias_lib::is_path_healthy(None, alias_lib::MAX_ALIAS_FILE_SIZE);
}

#[test]
fn test_to_bool_conversion_logic() {
    assert!(ShowFeature::On.is_on());
    assert!(!ShowFeature::Off.is_on());
    assert!(alias_lib::ShowIcons::On.is_on());

    let icons = alias_lib::ShowIcons::On;
    assert!(icons.is_on());

    let tips = ShowTips::Off;
    assert!(!tips.is_on());
}

#[test]
fn test_trait_object_safety() {
    let err = alias_lib::AliasError { message: "File missing".to_string(), code: 3 };
    assert!(err.message().contains("File missing"));
}

#[test]
fn test_variant_count_logic() {
    let last_valid_icon = AliasIcon::Question.index();
    assert_eq!(last_valid_icon + 1, alias_lib::ICON_TYPES);
}
