//! How loud the tool speaks: verbosity presets, icons, tips and the errors it reports.
use vstd::prelude::*;
use crate::text::{chars_of, concat, concat3, owned, pad_right, push_padded, push_str, string_of};
use crate::model::{
    AliasError, AliasIcon, ICON_MATRIX, ShowFeature, ShowTips, VerbosityLevel, icon_index,
    level_rank,
};

verus! {

pub const TIPS_ARRAY: [&'static str; 40] = [
    "Tired of Notepad? Set 'EDITOR=code' in your env to use VS Code for --edalias.",
    "Tired of Notepad? Set 'VISUAL=code' in your env to use VS Code for --edalias.",
    "Use --temp to keep an alias in RAM only—it vanishes when you close the window.",
    "The Audit (alias --which) checks if your File, and the system are in sync.",
    "You can use $* in your values! e.g., 'alias g=git $*' passes all args to git.",
    "Hate icons? Set 'ALIAS_OPTS=--no-icons' in your system environment to hide them.",
    "Too noisy? Set 'ALIAS_OPTS=--quiet' to reduce the output.",
    "Run 'alias --reload' to force-sync your current session with your config file.",
    "alias --setup hooks into the registry so your macros 'just work' in every window.",
    "Type 'alias <name>' (without an '=') to see what a specific macro does.",
    "Atomic saving ensures your alias file is never corrupted by a mid-write crash.",
    "Put flags in 'ALIAS_OPTS' to set global defaults like --quiet or --no-tips.",
    "--which finds 'Phantom' aliases—RAM macros no longer in your config file.",
    "Setting an alias to empty (alias x=) is a shortcut for the --remove command.",
    "A 'Pending' audit status means your file changed but you haven't run --reload.",
    "Diagnostics do a 1-byte 'heartbeat' to verify your drive is responsive.",
    "Deletions ignore case to prevent messy 'G=git' and 'g=git' duplicates.",
    "--setup hooks the AutoRun registry so macros work in every new window.",
    "The tool detects 'Read-Only' files and warns you before attempting a strike.",
    "Use --file <path> to use a custom alias list without changing env vars.",
    "The Triple Audit aligns icons in a vertical [WDF] block for easy scanning.",
    "Checking registry sync ensures your AutoRun points to the right alias.exe.",
    "Use a filename 'set ALIAS_FILE=' in your env to use a default aliases file",
    "Tired of resetting your aliases every time? try --setup",
    "The tool uses an 'Atomic Rename' when saving, so your alias file is never corrupted if a crash occurs during a write.",
    "Flags placed in the 'ALIAS_OPTS' env var are auto-injected, letting you set global defaults like --quiet or --no-tips.",
    "Running --which identifies 'Phantom' aliases—macros stuck in your RAM that no longer exist in your config file.",
    "Setting an alias to an empty value (e.g., 'alias x=') is a fast shortcut for the permanent --remove command.",
    "The 'Triple Audit' compares the Win32 Kernel, Doskey wrapper, and your File to find every possible synchronization gap.",
    "A 'Pending' status in the audit means you've saved a change to your file but haven't run 'alias --reload' to activate it.",
    "The tool performs a 1-byte 'heartbeat' read on your config file to verify your drive is actually alive and responsive.",
    "Case-insensitivity is enforced during deletions to prevent messy duplicates like 'G=git' and 'g=git' in your file.",
    "The --setup flag hooks your aliases into the 'AutoRun' registry so they are available in every new console window.",
    "The tool automatically detects if your alias file is 'Read-Only' and will warn you before attempting a strike.",
    "You can use --file <path> to temporarily use a different alias collection without changing your environment variables.",
    "Diagnostics check your registry sync status to ensure your AutoRun command matches the current location of alias.exe.",
    "Transactional logic ensures that if a file write fails, the RAM state isn't updated, keeping your system in a known state.",
    "The 'Triple Audit' alignment uses 2-column spacing for icons to ensure the [WDF] block stays perfectly vertical.",
    "The tool identifies 'Legacy Wrappers' vs 'Win32 Kernel' aliases to help debug issues with different terminal types.",
    "Your current binary location is tracked in diagnostics to help you find where alias.exe is actually running from.",
];

/// Whether `t` is one of the tips.
pub open spec fn is_tip(t: &'static str) -> bool {
    exists|i: int| 0 <= i < 40 && t == #[trigger] TIPS_ARRAY[i]
}

// ---------------------------------------------------------------------------
// Randomness
// ---------------------------------------------------------------------------

/// Calls `RandomState::new`: a hasher builder with random keys, seeded anew for each call.
/// Nothing is claimed of it.
#[verifier::external_body]
fn fresh_random_state() -> std::collections::hash_map::RandomState {
    std::collections::hash_map::RandomState::new()
}

/// Calls `BuildHasher::hash_one` on `state` for the byte 0. Nothing is claimed of the value:
/// it depends on the keys the state was seeded with.
#[verifier::external_body]
fn hash_zero(state: &std::collections::hash_map::RandomState) -> u64 {
    std::hash::BuildHasher::hash_one(state, 0u8)
}

/// An unpredictable 64-bit number: the hash of a fixed byte under freshly seeded keys.
fn random_u64() -> u64 {
    let state = fresh_random_state();
    hash_zero(&state)
}

/// A random index below `limit` (0 when `limit` is 0).
pub fn random_num_bounded(limit: usize) -> (r: usize)
    ensures
        limit == 0 ==> r == 0,
        limit > 0 ==> r < limit,
{
    if limit == 0 {
        return 0;
    }
    let x = random_u64();
    let l: u128 = limit as u128;
    let m: u128 = (x as u128) % l;
    m as usize
}

/// The tip at position `draw`.
pub fn tip_at(draw: usize) -> (r: &'static str)
    requires
        draw < 40,
    ensures
        r == TIPS_ARRAY[draw as int],
        is_tip(r),
{
    TIPS_ARRAY[draw]
}

/// Whether a tip shows for the random `seed` (one time in ten), and which one `draw` picks.
pub fn tip_for_roll(seed: usize, draw: usize) -> (r: Option<&'static str>)
    requires
        draw < 40,
    ensures
        seed % 10 == 0 ==> r == Some(TIPS_ARRAY[draw as int]),
        seed % 10 != 0 ==> r.is_none(),
{
    if seed % 10 == 0 {
        Some(tip_at(draw))
    } else {
        None
    }
}

/// A tip picked at random.
pub fn get_random_tip() -> (r: &'static str)
    ensures
        is_tip(r),
{
    let draw = random_num_bounded(40);
    tip_at(draw)
}

/// One time in ten, a tip picked at random; otherwise nothing.
pub fn random_tip_show() -> (r: Option<&'static str>)
    ensures
        match r {
            Some(t) => is_tip(t),
            None => true,
        },
{
    let seed = random_num_bounded(usize::MAX);
    let draw = random_num_bounded(40);
    tip_for_roll(seed, draw)
}

// ---------------------------------------------------------------------------
// Verbosity
// ---------------------------------------------------------------------------

/// How much the tool says, with or without icons and tips.
#[derive(Clone, Debug)]
pub struct Verbosity {
    pub level: VerbosityLevel,
    pub show_icons: ShowFeature,
    pub show_tips: ShowTips,
    pub display_tip: Option<&'static str>,
    pub in_startup: bool,
    pub in_setup: bool,
}

/// A tip drawn as the tips setting asks: always for On, never for Off, one time in ten for Random.
pub open spec fn tip_fits(tips: ShowTips, t: Option<&'static str>) -> bool {
    match tips {
        ShowTips::On => t.is_some() && is_tip(t.unwrap()),
        ShowTips::Off => t.is_none(),
        ShowTips::Random => t.is_none() || is_tip(t.unwrap()),
    }
}

/// The icon text of `id`: the pictogram when icons are on, the plain letters otherwise.
pub open spec fn icon_str_spec(id: AliasIcon, icons: ShowFeature) -> &'static str {
    ICON_MATRIX[icon_index(id)][if icons is On {
        1int
    } else {
        0int
    }]
}

/// A message with its icon in front (`icon message`), or the bare message when icons are off
/// or the message is empty.
pub open spec fn icon_format_spec(v: Verbosity, icon: AliasIcon, msg: Seq<char>) -> Seq<char> {
    if !(v.show_icons is On) || msg.len() == 0 {
        msg
    } else {
        icon_str_spec(icon, v.show_icons)@ + " "@ + msg
    }
}

impl Verbosity {
    /// A verbosity with the given level, icons and tips (the tip drawn as `show_tips` asks).
    pub fn voice(level: VerbosityLevel, show_icons: ShowFeature, show_tips: ShowTips) -> (v: Self)
        ensures
            v.level == level,
            v.show_icons == show_icons,
            v.show_tips == show_tips,
            tip_fits(show_tips, v.display_tip),
            !v.in_startup,
            !v.in_setup,
    {
        let display_tip = match show_tips {
            ShowTips::On => Some(get_random_tip()),
            ShowTips::Off => None,
            ShowTips::Random => random_tip_show(),
        };
        Verbosity { level, show_icons, show_tips, display_tip, in_startup: false, in_setup: false }
    }

    pub fn is_silent(&self) -> (r: bool)
        ensures
            r == (level_rank(self.level) <= 1),
    {
        self.level.rank() <= 1
    }

    pub fn normal() -> (v: Self)
        ensures
            v.level == VerbosityLevel::Normal,
            v.show_icons == ShowFeature::On,
            v.show_tips == ShowTips::Random,
            tip_fits(ShowTips::Random, v.display_tip),
            !v.in_startup,
            !v.in_setup,
    {
        Verbosity {
            level: VerbosityLevel::Normal,
            show_icons: ShowFeature::On,
            show_tips: ShowTips::Random,
            display_tip: random_tip_show(),
            in_startup: false,
            in_setup: false,
        }
    }

    pub fn loud() -> (v: Self)
        ensures
            v.level == VerbosityLevel::Loud,
            v.show_icons == ShowFeature::On,
            v.show_tips == ShowTips::On,
            tip_fits(ShowTips::Random, v.display_tip),
            !v.in_startup,
            !v.in_setup,
    {
        Verbosity {
            level: VerbosityLevel::Loud,
            show_icons: ShowFeature::On,
            show_tips: ShowTips::On,
            display_tip: random_tip_show(),
            in_startup: false,
            in_setup: false,
        }
    }

    pub fn silent() -> (v: Self)
        ensures
            v.level == VerbosityLevel::Silent,
            v.show_icons == ShowFeature::Off,
            v.show_tips == ShowTips::Off,
            v.display_tip.is_none(),
            !v.in_startup,
            !v.in_setup,
    {
        Verbosity {
            level: VerbosityLevel::Silent,
            show_icons: ShowFeature::Off,
            show_tips: ShowTips::Off,
            display_tip: None,
            in_startup: false,
            in_setup: false,
        }
    }

    pub fn mute() -> (v: Self)
        ensures
            v.level == VerbosityLevel::Mute,
            v.show_icons == ShowFeature::Off,
            v.show_tips == ShowTips::Off,
            v.display_tip.is_none(),
            !v.in_startup,
            !v.in_setup,
    {
        Verbosity {
            level: VerbosityLevel::Mute,
            show_icons: ShowFeature::Off,
            show_tips: ShowTips::Off,
            display_tip: None,
            in_startup: false,
            in_setup: false,
        }
    }

    pub fn get_icon_str(&self, id: AliasIcon) -> (r: &'static str)
        ensures
            r == icon_str_spec(id, self.show_icons),
    {
        let col: usize = if self.show_icons.is_on() {
            1
        } else {
            0
        };
        ICON_MATRIX[id.index()][col]
    }

    pub fn icon_format(&self, icon: AliasIcon, msg: &str) -> (r: String)
        ensures
            r@ == icon_format_spec(*self, icon, msg@),
    {
        let mv = chars_of(msg);
        if !self.show_icons.is_on() || mv.len() == 0 {
            return owned(msg);
        }
        concat3(self.get_icon_str(icon), " ", msg)
    }

    pub fn show_audit(&self) -> (r: bool)
        ensures
            r == (level_rank(self.level) >= 2),
    {
        self.level.rank() >= 2
    }

    pub fn show_xmas_lights(&self) -> (r: bool)
        ensures
            r == (self.show_icons is On && level_rank(self.level) >= 2),
    {
        self.show_icons.is_on() && self.show_audit()
    }

    pub fn text(&self, msg: &str) -> (r: String)
        ensures
            r@ == msg@,
    {
        owned(msg)
    }

    /// Whether a whisper of `msg` is spoken: a non-empty message at Silent or louder.
    pub fn whisper_allows(&self, msg: &str) -> (r: bool)
        ensures
            r == (msg@.len() > 0 && level_rank(self.level) >= 1),
    {
        let mv = chars_of(msg);
        !(mv.len() == 0 || self.level.rank() < 1)
    }

    /// Whether a plain message is said: a non-empty message at Normal or louder.
    pub fn say_allows(&self, msg: &str) -> (r: bool)
        ensures
            r == (msg@.len() > 0 && level_rank(self.level) >= 2),
    {
        let mv = chars_of(msg);
        !(mv.len() == 0 || self.level.rank() < 2)
    }

    /// Whether a shout is spoken: a non-empty message at any level but Mute.
    pub fn shout_allows(&self, msg: &str) -> (r: bool)
        ensures
            r == (msg@.len() > 0 && level_rank(self.level) >= 1),
    {
        let mv = chars_of(msg);
        !(mv.len() == 0 || self.level.rank() <= 0)
    }

    /// Whether a scream is spoken: any non-empty message, whatever the level.
    pub fn scream_allows(&self, msg: &str) -> (r: bool)
        ensures
            r == (msg@.len() > 0),
    {
        let mv = chars_of(msg);
        mv.len() != 0
    }
}

// ---------------------------------------------------------------------------
// Reported errors
// ---------------------------------------------------------------------------

/// An error with a code: the message formatted with the Fail icon, the code truncated to a byte.
pub fn failure(verbosity: &Verbosity, code: u64, message: &str) -> (e: AliasError)
    ensures
        e.message@ == icon_format_spec(*verbosity, AliasIcon::Fail, message@),
        e.code == (code % 256) as u8,
{
    let c: u8 = (code % 256) as u8;
    AliasError { message: verbosity.icon_format(AliasIcon::Fail, message), code: c }
}

/// An error from the system: the OS error number (truncated to a byte) is the code, 1 when
/// the error has none.
pub fn failure_os(verbosity: &Verbosity, raw_os_error: Option<i32>, message: &str) -> (e: AliasError)
    ensures
        e.message@ == icon_format_spec(*verbosity, AliasIcon::Fail, message@),
        e.code == match raw_os_error {
            Some(n) => (n as int % 256) as u8,
            None => 1u8,
        },
{
    let code: u8 = match raw_os_error {
        Some(n) => {
            let m: i32 = n % 256;
            let m2: i32 = if m < 0 {
                m + 256
            } else {
                m
            };
            assert(m2 == n as int % 256);
            m2 as u8
        },
        None => 1,
    };
    AliasError { message: verbosity.icon_format(AliasIcon::Fail, message), code }
}

// ---------------------------------------------------------------------------
// Aligned lines
// ---------------------------------------------------------------------------

/// The audit block: a mark for each of Win32, Doskey and the file that holds the alias, and
/// a blank of the icon's width for each that does not.
pub open spec fn audit_marks(v: Verbosity, wdf: (bool, bool, bool)) -> Seq<char> {
    let spacer = if v.show_icons is On {
        "  "@
    } else {
        " "@
    };
    (if wdf.0 {
        icon_str_spec(AliasIcon::Win32, v.show_icons)@
    } else {
        spacer
    }) + (if wdf.1 {
        icon_str_spec(AliasIcon::Doskey, v.show_icons)@
    } else {
        spacer
    }) + (if wdf.2 {
        icon_str_spec(AliasIcon::File, v.show_icons)@
    } else {
        spacer
    })
}

/// An audit line without its end: `name=value` (`<EMPTY>` for an empty value) padded to
/// `width`, then the audit block; nothing when muted.
#[verifier::opaque]
pub open spec fn align_spec(v: Verbosity, name: Seq<char>, value: Seq<char>, width: int, wdf: (bool, bool, bool)) -> Seq<char> {
    if v.level is Mute {
        Seq::empty()
    } else {
        let shown = if value.len() == 0 {
            "<EMPTY>"@
        } else {
            value
        };
        pad_right(name + "="@ + shown, width) + " ["@ + audit_marks(v, wdf) + "]"@
    }
}

/// A property line: the label padded to `width`, `: `, the value, then the audit block when
/// any mark is set; nothing when muted.
pub open spec fn property_spec(v: Verbosity, label: Seq<char>, value: Seq<char>, width: int, wdf: (bool, bool, bool)) -> Option<Seq<char>> {
    if v.level is Mute {
        None
    } else {
        let block = if wdf.0 || wdf.1 || wdf.2 {
            " ["@ + audit_marks(v, wdf) + "]"@
        } else {
            Seq::empty()
        };
        Some(pad_right(label, width) + ": "@ + value + block)
    }
}

impl Verbosity {
    fn push_marks(&self, buf: &mut Vec<char>, wdf: (bool, bool, bool))
        ensures
            final(buf)@ == old(buf)@ + audit_marks(*self, wdf),
    {
        let spacer = if self.show_icons.is_on() {
            "  "
        } else {
            " "
        };
        let w = if wdf.0 {
            self.get_icon_str(AliasIcon::Win32)
        } else {
            spacer
        };
        let d = if wdf.1 {
            self.get_icon_str(AliasIcon::Doskey)
        } else {
            spacer
        };
        let f = if wdf.2 {
            self.get_icon_str(AliasIcon::File)
        } else {
            spacer
        };
        let ghost start = buf@;
        push_str(buf, w);
        push_str(buf, d);
        push_str(buf, f);
        assert(buf@ =~= start + audit_marks(*self, wdf));
    }

    /// The text of an audit line (the caller ends the line).
    pub fn align(&self, name: &str, value: &str, width: u128, wdf: (bool, bool, bool)) -> (r: String)
        ensures
            r@ == align_spec(*self, name@, value@, width as int, wdf),
    {
        reveal(align_spec);
        if matches!(self.level, VerbosityLevel::Mute) {
            return String::new();
        }
        let vv = chars_of(value);
        let shown = if vv.len() == 0 {
            "<EMPTY>"
        } else {
            value
        };
        let line = concat3(name, "=", shown);
        let mut buf: Vec<char> = Vec::new();
        push_padded(&mut buf, line.as_str(), width);
        push_str(&mut buf, " [");
        self.push_marks(&mut buf, wdf);
        push_str(&mut buf, "]");
        let ghost shown_v = if value@.len() == 0 {
            "<EMPTY>"@
        } else {
            value@
        };
        assert(buf@ =~= pad_right(name@ + "="@ + shown_v, width as int) + " ["@ + audit_marks(*self, wdf) + "]"@);
        string_of(buf.as_slice())
    }

    /// The text of a property line, or `None` when muted.
    pub fn property(&self, label: &str, value: &str, width: u128, wdf: (bool, bool, bool)) -> (r: Option<String>)
        ensures
            match r {
                Some(s) => property_spec(*self, label@, value@, width as int, wdf) == Some(s@),
                None => property_spec(*self, label@, value@, width as int, wdf).is_none(),
            },
    {
        if matches!(self.level, VerbosityLevel::Mute) {
            return None;
        }
        let mut buf: Vec<char> = Vec::new();
        push_padded(&mut buf, label, width);
        push_str(&mut buf, ": ");
        push_str(&mut buf, value);
        let ghost line = buf@;
        if wdf.0 || wdf.1 || wdf.2 {
            push_str(&mut buf, " [");
            self.push_marks(&mut buf, wdf);
            push_str(&mut buf, "]");
            assert(buf@ =~= line + (" ["@ + audit_marks(*self, wdf) + "]"@));
        } else {
            assert(buf@ =~= line + Seq::<char>::empty());
        }
        Some(string_of(buf.as_slice()))
    }
}

// ---------------------------------------------------------------------------
// What each voice prints
// ---------------------------------------------------------------------------

/// What `say` prints of `msg`: the line at Normal or louder, nothing for an empty message.
pub open spec fn said(v: Verbosity, msg: Seq<char>) -> Seq<char> {
    if msg.len() > 0 && level_rank(v.level) >= 2 {
        msg + "\n"@
    } else {
        Seq::empty()
    }
}

/// What `shout` (or `whisper`) prints of `msg`: the line unless muted, nothing for an empty
/// message.
pub open spec fn shouted(v: Verbosity, msg: Seq<char>) -> Seq<char> {
    if msg.len() > 0 && level_rank(v.level) >= 1 {
        msg + "\n"@
    } else {
        Seq::empty()
    }
}

impl Verbosity {
    /// The text `say` prints for `msg`.
    pub fn said_text(&self, msg: &str) -> (r: String)
        ensures
            r@ == said(*self, msg@),
    {
        if self.say_allows(msg) {
            concat(msg, "\n")
        } else {
            String::new()
        }
    }

    /// The text `shout` and `whisper` print for `msg`.
    pub fn shouted_text(&self, msg: &str) -> (r: String)
        ensures
            r@ == shouted(*self, msg@),
    {
        if self.shout_allows(msg) {
            concat(msg, "\n")
        } else {
            String::new()
        }
    }
}

} // verus!
