//! Alias management for the Windows console: the command-line grammar, the alias file, the
//! audits that compare it with what the console holds, and the AutoRun hook.
use vstd::prelude::*;

pub mod text;
pub mod action;
pub mod model;
pub mod names;
pub mod voice;
pub mod parse;
pub mod legacy;
pub mod dispatch;
pub mod audit;
pub mod autorun;
pub mod filestate;
pub mod binary;
pub mod versioning;
pub mod providers;

pub use action::{AliasAction, AliasErrorString, SetOptions};
pub use model::{
    AliasEntryMesh, AliasError, AliasIcon, BinaryProfile, BinarySubsystem, DiagnosticReport,
    DisplayTip, ErrorCode, HelpMode, ProviderType, PurgeReport, RegistryStatus, ShowFeature,
    ShowIcons, ShowTips, Task, TaskQueue, VerbosityLevel, DEFAULT_ALIAS_FILENAME, DEFAULT_EXTS,
    DEFAULT_EXTS_EXE, ENV_ALIAS_FILE, ENV_ALIAS_OPTS, ICON_MATRIX, ICON_TYPES, MAX_ALIAS_FILE_SIZE,
    MAX_BINARY_FILE_SIZE, REG_AUTORUN_KEY, REG_SUBKEY, UNC_GLOBAL_PATH, UNC_PATH,
};
pub use voice::{failure, failure_os, get_random_tip, random_num_bounded, random_tip_show, Verbosity, TIPS_ARRAY};
pub use names::{
    ext_with_dot, is_data_line, is_exe_extension, is_script_extension, is_valid_name,
    is_valid_name_loose, is_valid_name_permissive, normalize_path, parse_alias_line,
};
pub use parse::{parse_arguments, parse_arguments_from, parse_set_argument, PathContext};
pub use dispatch::{dispatch, plan_run, print_help, RunPlan, Route, Step};
pub use audit::{display_audit, mesh_logic, perform_audit, perform_triple_audit, render_diagnostics};
pub use filestate::{
    calculate_new_file_state, is_path_healthy, parse_macro_content, query_alias_content, update_pairs,
};
pub use binary::{identify_binary, peek_pe_metadata};
pub use versioning::{calculate_reality, VersionData, Versioning};
pub use providers::{HybridLibraryInterface, Win32LibraryInterface, WrapperLibraryInterface};

verus! {

} // verus!
