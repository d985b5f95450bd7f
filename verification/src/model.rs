//! The data of the alias tool: errors, tasks, reports, verbosity and display settings.
use vstd::prelude::*;
use crate::text::owned;
use crate::action::AliasAction;

verus! {

// --- Shared Constants ---
pub const REG_CURRENT_USER: &'static str = "HKCU";
pub const PATH_SEPARATOR: &'static str = "\\";
pub const UNC_GLOBAL_PATH: &'static str = "\\\\?\\UNC\\";
pub const UNC_PATH: &'static str = "\\\\?\\";
pub const REG_SUBKEY: &'static str = "Software\\Microsoft\\Command Processor";
pub const REG_AUTORUN_KEY: &'static str = "AutoRun";
pub const ENV_ALIAS_FILE: &'static str = "ALIAS_FILE";
pub const ENV_ALIAS_OPTS: &'static str = "ALIAS_OPTS";
pub const ENV_EDITOR: &'static str = "EDITOR";
pub const ENV_VISUAL: &'static str = "VISUAL";
pub const DEFAULT_ALIAS_FILENAME: &'static str = "aliases.doskey";
pub const DEFAULT_APPDATA_ALIAS_DIR: &'static str = "alias_tool";
pub const FALLBACK_EDITOR: &'static str = "notepad";
pub const DEFAULT_EXTS: &'static str = ".COM;.EXE;.BAT;.CMD;.VBS;.VBE;.JS;.JSE;.WSF;.WSH;.MSC";
pub const DEFAULT_EXTS_EXE: &'static str = ".COM;.EXE;.SCR";
pub const MAX_ALIAS_FILE_SIZE: usize = 1500000;
pub const MAX_BINARY_FILE_SIZE: usize = 100000000;

// --- Errors ---

/// An error with the message shown to the user and the process exit code.
#[derive(Debug)]
pub struct AliasError {
    pub message: String,
    pub code: u8,
}

impl AliasError {
    /// The message, as the error displays itself.
    pub fn message(&self) -> (r: String)
        ensures
            r@ == self.message@,
    {
        self.message.clone()
    }
}

/// The exit codes of the tool.
#[derive(Debug, Clone, Copy, PartialEq, Eq, Ord, PartialOrd)]
pub enum ErrorCode {
    Generic,
    Syntax,
    MissingFile,
    Registry,
    AccessDenied,
    MissingName,
    UnknownFileType,
}

pub open spec fn error_code_value(e: ErrorCode) -> u8 {
    match e {
        ErrorCode::Generic => 1,
        ErrorCode::Syntax => 2,
        ErrorCode::MissingFile => 3,
        ErrorCode::Registry => 5,
        ErrorCode::AccessDenied => 6,
        ErrorCode::MissingName => 7,
        ErrorCode::UnknownFileType => 8,
    }
}

impl ErrorCode {
    /// The numeric exit code of this error kind.
    pub fn code(&self) -> (r: u8)
        ensures
            r == error_code_value(*self),
    {
        match self {
            ErrorCode::Generic => 1,
            ErrorCode::Syntax => 2,
            ErrorCode::MissingFile => 3,
            ErrorCode::Registry => 5,
            ErrorCode::AccessDenied => 6,
            ErrorCode::MissingName => 7,
            ErrorCode::UnknownFileType => 8,
        }
    }
}

// --- Tasks ---

/// One action of the command line with the alias file it works on ("" when none).
#[derive(Debug, Clone)]
pub struct Task {
    pub action: AliasAction,
    pub path: String,
}

/// The ordered actions of one command line, with the path the command line resolved to.
pub struct TaskQueue {
    pub tasks: Vec<Task>,
    pub action_path: String,
}

impl TaskQueue {
    pub fn new() -> (q: Self)
        ensures
            q.tasks@.len() == 0,
            q.action_path@ == Seq::<char>::empty(),
    {
        TaskQueue { tasks: Vec::new(), action_path: String::new() }
    }

    pub fn push_file(&mut self, action: AliasAction, path: String)
        ensures
            final(self).tasks@ == old(self).tasks@.push(Task { action, path }),
            final(self).action_path == old(self).action_path,
    {
        self.tasks.push(Task { action, path });
    }

    pub fn push(&mut self, action: AliasAction)
        ensures
            final(self).tasks@.len() == old(self).tasks@.len() + 1,
            final(self).tasks@.drop_last() == old(self).tasks@,
            final(self).tasks@.last().action == action,
            final(self).tasks@.last().path@ == Seq::<char>::empty(),
            final(self).action_path == old(self).action_path,
    {
        self.push_file(action, String::new());
    }

    pub fn pushpath(&mut self, path: String)
        ensures
            final(self).action_path == path,
            final(self).tasks == old(self).tasks,
    {
        self.action_path = path;
    }

    pub fn getpath(&mut self) -> (r: String)
        ensures
            r == old(self).action_path,
            *final(self) == *old(self),
    {
        self.action_path.clone()
    }

    pub fn clear(&mut self)
        ensures
            final(self).tasks@.len() == 0,
            final(self).action_path@ == Seq::<char>::empty(),
    {
        self.tasks.clear();
        self.action_path = String::new();
    }

    pub fn is_empty(&self) -> (r: bool)
        ensures
            r == (self.tasks@.len() == 0),
    {
        self.tasks.len() == 0
    }

    pub fn len(&self) -> (r: usize)
        ensures
            r == self.tasks@.len(),
    {
        self.tasks.len()
    }

    pub fn get(&self, index: usize) -> (r: Option<&Task>)
        ensures
            index < self.tasks@.len() ==> r == Some(&self.tasks@[index as int]),
            index >= self.tasks@.len() ==> r.is_none(),
    {
        if index < self.tasks.len() {
            Some(&self.tasks[index])
        } else {
            None
        }
    }

    /// Takes the first task (queue order).
    pub fn pull(&mut self) -> (r: Option<Task>)
        ensures
            old(self).tasks@.len() == 0 ==> r.is_none() && final(self).tasks@ == old(self).tasks@,
            old(self).tasks@.len() > 0 ==> r == Some(old(self).tasks@[0]) && final(self).tasks@ == old(self).tasks@.drop_first(),
            final(self).action_path == old(self).action_path,
    {
        if self.tasks.len() == 0 {
            None
        } else {
            Some(self.tasks.remove(0))
        }
    }

    /// Takes the last task (stack order).
    pub fn pop(&mut self) -> (r: Option<Task>)
        ensures
            old(self).tasks@.len() == 0 ==> r.is_none() && final(self).tasks@ == old(self).tasks@,
            old(self).tasks@.len() > 0 ==> r == Some(old(self).tasks@.last()) && final(self).tasks@ == old(self).tasks@.drop_last(),
            final(self).action_path == old(self).action_path,
    {
        if self.tasks.len() == 0 {
            None
        } else {
            self.tasks.pop()
        }
    }

    /// The tasks in order, as a slice to iterate.
    pub fn iter(&self) -> (r: &[Task])
        ensures
            r@ == self.tasks@,
    {
        self.tasks.as_slice()
    }

    /// All tasks, consuming the queue.
    pub fn into_tasks(self) -> (r: Vec<Task>)
        ensures
            r@ == self.tasks@,
    {
        self.tasks
    }
}

// --- Binaries ---

#[derive(Debug, Clone, Copy, PartialEq, Eq)]
pub enum BinarySubsystem {
    Gui,
    Cui,
    Script,
    Unavail,
    Unknown,
}

/// An editor program: where it is, its arguments, and how it runs.
#[derive(Debug, Clone)]
pub struct BinaryProfile {
    pub exe: String,
    pub args: Vec<String>,
    pub subsystem: BinarySubsystem,
    pub is_32bit: bool,
}

impl BinaryProfile {
    /// A "Safe" constructor for when things go wrong
    pub fn fallback(name: &str) -> (p: Self)
        ensures
            p.exe@ == name@,
            p.args@.len() == 0,
            p.subsystem == BinarySubsystem::Cui,
            !p.is_32bit,
    {
        BinaryProfile { exe: owned(name), args: Vec::new(), subsystem: BinarySubsystem::Cui, is_32bit: false }
    }
}

// --- Icons ---

#[derive(Debug, Clone, Copy, PartialEq, Eq)]
pub enum AliasIcon {
    NoIcon,
    Win32,
    Doskey,
    Disk,
    Alert,
    Success,
    Info,
    Say,
    Whisper,
    Shout,
    Scream,
    Fail,
    Hint,
    Environment,
    Okay,
    Tools,
    File,
    Path,
    Text,
    Question,
}

pub open spec fn icon_index(id: AliasIcon) -> int {
    match id {
        AliasIcon::NoIcon => 0,
        AliasIcon::Win32 => 1,
        AliasIcon::Doskey => 2,
        AliasIcon::Disk => 3,
        AliasIcon::Alert => 4,
        AliasIcon::Success => 5,
        AliasIcon::Info => 6,
        AliasIcon::Say => 7,
        AliasIcon::Whisper => 8,
        AliasIcon::Shout => 9,
        AliasIcon::Scream => 10,
        AliasIcon::Fail => 11,
        AliasIcon::Hint => 12,
        AliasIcon::Environment => 13,
        AliasIcon::Okay => 14,
        AliasIcon::Tools => 15,
        AliasIcon::File => 16,
        AliasIcon::Path => 17,
        AliasIcon::Text => 18,
        AliasIcon::Question => 19,
    }
}

impl AliasIcon {
    /// The row of this icon in `ICON_MATRIX`.
    pub fn index(&self) -> (r: usize)
        ensures
            r == icon_index(*self),
    {
        match self {
            AliasIcon::NoIcon => 0,
            AliasIcon::Win32 => 1,
            AliasIcon::Doskey => 2,
            AliasIcon::Disk => 3,
            AliasIcon::Alert => 4,
            AliasIcon::Success => 5,
            AliasIcon::Info => 6,
            AliasIcon::Say => 7,
            AliasIcon::Whisper => 8,
            AliasIcon::Shout => 9,
            AliasIcon::Scream => 10,
            AliasIcon::Fail => 11,
            AliasIcon::Hint => 12,
            AliasIcon::Environment => 13,
            AliasIcon::Okay => 14,
            AliasIcon::Tools => 15,
            AliasIcon::File => 16,
            AliasIcon::Path => 17,
            AliasIcon::Text => 18,
            AliasIcon::Question => 19,
        }
    }
}

pub const ICON_TYPES: usize = 20;

/// Each icon as plain text (column 0) and as a pictogram (column 1).
pub const ICON_MATRIX: [[&'static str; 2]; ICON_TYPES] = [
    ["", ""],
    ["W", "⚡"],
    ["K", "🔑"],
    ["D", "💽"],
    ["!!", "⚠️"],
    ["OK", "✨"],
    ["I", "ℹ️"],
    ["-", "📜"],
    ["_", "➢"],
    ["!", "🚫"],
    ["!!", "⛔"],
    ["X", "❌"],
    ["H", "💡"],
    ["E", "♻️"],
    ["+", "✅"],
    ["#", "🛠️"],
    ["F", "📁"],
    ["P", "🛣️"],
    ["T", "️💬"],
    ["?", "🤔"],
];

// --- Reports ---

#[derive(Debug, Clone, Default)]
pub struct PurgeReport {
    pub cleared: Vec<String>,
    pub failed: Vec<(String, u32)>,
}

impl PurgeReport {
    pub fn is_fully_clean(&self) -> (r: bool)
        ensures
            r == (self.failed@.len() == 0),
    {
        self.failed.len() == 0
    }
}

/// What the diagnostics found about the binary, the alias file and the registry.
#[derive(Debug, Clone)]
pub struct DiagnosticReport {
    pub binary_path: Option<String>,
    pub resolved_path: String,
    pub env_file: String,
    pub env_opts: String,
    pub file_exists: bool,
    pub is_readonly: bool,
    pub drive_responsive: bool,
    pub registry_status: RegistryStatus,
    pub api_status: Option<String>,
}

#[derive(Debug, Clone)]
pub enum RegistryStatus {
    Uninitialized,
    Synced,
    Mismatch(String),
    NotFound,
}

impl RegistryStatus {
    pub fn is_synced(&self) -> (r: bool)
        ensures
            r == (*self is Synced),
    {
        matches!(self, RegistryStatus::Synced)
    }
}

/// One alias as the system (`os_value`) and the file (`file_value`) know it.
#[derive(Debug, Clone)]
pub struct AliasEntryMesh {
    pub name: String,
    pub os_value: Option<String>,
    pub file_value: Option<String>,
}

impl AliasEntryMesh {
    pub fn is_empty_definition(&self) -> (r: bool)
        ensures
            r == (self.os_value.is_none() && self.file_value.is_none()),
    {
        self.os_value.is_none() && self.file_value.is_none()
    }
}

#[derive(Debug)]
pub enum ProviderType {
    NotLinked,
    Win32,
    Wrapper,
    Hybrid,
    Custom(String),
}

// --- Display settings ---

#[derive(Debug, Clone, Copy, PartialEq, Eq, PartialOrd, Ord)]
pub enum VerbosityLevel {
    Mute,
    Silent,
    Normal,
    Loud,
}

pub open spec fn level_rank(l: VerbosityLevel) -> int {
    match l {
        VerbosityLevel::Mute => 0,
        VerbosityLevel::Silent => 1,
        VerbosityLevel::Normal => 2,
        VerbosityLevel::Loud => 3,
    }
}

impl VerbosityLevel {
    /// The position of this level from Mute (0) to Loud (3).
    pub fn rank(&self) -> (r: u8)
        ensures
            r == level_rank(*self),
    {
        match self {
            VerbosityLevel::Mute => 0,
            VerbosityLevel::Silent => 1,
            VerbosityLevel::Normal => 2,
            VerbosityLevel::Loud => 3,
        }
    }
}

#[derive(Debug, Clone, Copy)]
pub enum HelpMode {
    Short,
    Full,
}

#[derive(Debug, Clone, Copy, PartialEq, Ord, PartialOrd, Eq, Hash)]
pub enum ShowFeature {
    Off,
    On,
}

impl ShowFeature {
    pub fn is_on(&self) -> (r: bool)
        ensures
            r == (*self is On),
    {
        matches!(self, ShowFeature::On)
    }

    /// The other setting: On for Off and Off for On.
    pub fn toggled(self) -> (r: ShowFeature)
        ensures
            (r is On) == (self is Off),
    {
        match self {
            ShowFeature::On => ShowFeature::Off,
            ShowFeature::Off => ShowFeature::On,
        }
    }
}

impl core::ops::Not for ShowFeature {
    type Output = ShowFeature;

    fn not(self) -> (r: ShowFeature) {
        self.toggled()
    }
}

impl vstd::std_specs::ops::NotSpecImpl for ShowFeature {
    open spec fn obeys_not_spec() -> bool {
        true
    }

    open spec fn not_req(self) -> bool {
        true
    }

    open spec fn not_spec(self) -> ShowFeature {
        match self {
            ShowFeature::On => ShowFeature::Off,
            ShowFeature::Off => ShowFeature::On,
        }
    }
}

#[derive(Debug, Clone, Copy, PartialEq, Eq)]
pub enum ShowTips {
    On,
    Off,
    Random,
}

impl ShowTips {
    pub fn is_on(&self) -> (r: bool)
        ensures
            r == (*self is On),
    {
        matches!(self, ShowTips::On)
    }

    pub fn random(&self) -> (r: bool)
        ensures
            r == (*self is Random),
    {
        matches!(self, ShowTips::Random)
    }
}

pub type ShowIcons = ShowFeature;

pub type DisplayTip = ShowFeature;

} // verus!
