//! What kind of program an editor is (a Windows GUI or console binary, a script), read from
//! its file name and its PE header, and how the editor command line is taken apart.
use vstd::prelude::*;
use crate::text::{chars_of, owned, string_of, views};
use crate::names::{is_script_extension, script_ext_spec};
use crate::model::{AliasIcon, BinaryProfile, BinarySubsystem};
use crate::voice::{Verbosity, icon_format_spec};

verus! {

// ---------------------------------------------------------------------------
// The PE header
// ---------------------------------------------------------------------------

/// The little-endian 16-bit number at `i`.
pub open spec fn le16(b: Seq<u8>, i: int) -> int {
    b[i] as int + 256 * (b[i + 1] as int)
}

/// The little-endian 32-bit number at `i`.
pub open spec fn le32(b: Seq<u8>, i: int) -> int {
    b[i] as int + 256 * (b[i + 1] as int) + 65536 * (b[i + 2] as int) + 16777216 * (b[i + 3] as int)
}

/// The subsystem a PE header's subsystem field names: 2 is a GUI program, 3 a console one.
pub open spec fn subsystem_of(code: int) -> BinarySubsystem {
    if code == 2 {
        BinarySubsystem::Gui
    } else if code == 3 {
        BinarySubsystem::Cui
    } else {
        BinarySubsystem::Unknown
    }
}

/// What the header of the file with bytes `b` says: `None` when the file ends before a field
/// that must be read; `Unknown` when it is not a PE image (no `MZ`, or no `PE\0\0` at the
/// offset stored at byte 60); otherwise the subsystem (the 16-bit field 92 bytes after the
/// signature) and whether the machine is 32-bit x86 (`0x014c`, right after the signature).
pub open spec fn pe_spec(b: Seq<u8>) -> Option<(BinarySubsystem, bool)> {
    if b.len() < 64 {
        None
    } else if !(b[0] == 0x4d && b[1] == 0x5a) {
        Some((BinarySubsystem::Unknown, false))
    } else {
        let off = le32(b, 60);
        if off + 4 > b.len() {
            None
        } else if !(b[off] == 0x50 && b[off + 1] == 0x45 && b[off + 2] == 0 && b[off + 3] == 0) {
            Some((BinarySubsystem::Unknown, false))
        } else if off + 6 > b.len() {
            None
        } else if off + 94 > b.len() {
            None
        } else {
            Some((subsystem_of(le16(b, off + 92)), le16(b, off + 4) == 0x014c))
        }
    }
}

/// Reads the subsystem and the bitness from the bytes of a program file (see `pe_spec`).
pub fn peek_pe_metadata(bytes: &[u8]) -> (r: Option<(BinarySubsystem, bool)>)
    ensures
        r == pe_spec(bytes@),
{
    let n = bytes.len();
    if n < 64 {
        return None;
    }
    if !(bytes[0] == 0x4d && bytes[1] == 0x5a) {
        return Some((BinarySubsystem::Unknown, false));
    }
    let off: u64 = bytes[60] as u64 + 256 * (bytes[61] as u64) + 65536 * (bytes[62] as u64)
        + 16777216 * (bytes[63] as u64);
    assert(off == le32(bytes@, 60));
    let len: u64 = n as u64;
    if off + 4 > len {
        return None;
    }
    let o = off as usize;
    if !(bytes[o] == 0x50 && bytes[o + 1] == 0x45 && bytes[o + 2] == 0 && bytes[o + 3] == 0) {
        return Some((BinarySubsystem::Unknown, false));
    }
    if off + 6 > len {
        return None;
    }
    let machine: u64 = bytes[o + 4] as u64 + 256 * (bytes[o + 5] as u64);
    let is_32bit = machine == 0x014c;
    if off + 94 > len {
        return None;
    }
    let code: u64 = bytes[o + 92] as u64 + 256 * (bytes[o + 93] as u64);
    let sub = if code == 2 {
        BinarySubsystem::Gui
    } else if code == 3 {
        BinarySubsystem::Cui
    } else {
        BinarySubsystem::Unknown
    };
    Some((sub, is_32bit))
}

// ---------------------------------------------------------------------------
// Identifying a program
// ---------------------------------------------------------------------------

/// Whether a program with this (lower-cased, dotted) extension runs as a script: its
/// extension is a script one and not `.exe` or `.com`.
pub open spec fn is_script_spec(ext: Option<Seq<char>>, pathext: Seq<char>) -> bool {
    match ext {
        Some(e) => script_ext_spec(e, pathext) && e != ".exe"@ && e != ".com"@,
        None => false,
    }
}

/// Whether the header of the program must be read: it is reachable and not a script.
pub fn needs_peek(accessible: bool, ext: Option<&str>, pathext: &str) -> (r: bool)
    ensures
        r == (accessible && !is_script_spec(
            match ext {
                Some(e) => Some(e@),
                None => None,
            },
            pathext@,
        )),
{
    accessible && !is_script(ext, pathext)
}

fn is_script(ext: Option<&str>, pathext: &str) -> (r: bool)
    ensures
        r == is_script_spec(
            match ext {
                Some(e) => Some(e@),
                None => None,
            },
            pathext@,
        ),
{
    match ext {
        Some(e) => {
            if !is_script_extension(e, pathext) {
                return false;
            }
            let ev = chars_of(e);
            !crate::action::is_lit(ev.as_slice(), ".exe") && !crate::action::is_lit(ev.as_slice(), ".com")
        },
        None => false,
    }
}

/// The profile of the program at `exe`: unavailable when it cannot be reached; a script when
/// its extension (lower-cased, with its dot) is a script one other than `.exe`/`.com`;
/// otherwise what its header said (`pe`, when it could be read), or a console program.
pub fn identify_binary(
    exe: &str,
    accessible: bool,
    ext: Option<&str>,
    pathext: &str,
    pe: Option<(BinarySubsystem, bool)>,
) -> (r: BinaryProfile)
    ensures
        r.exe@ == exe@,
        r.args@.len() == 0,
        !accessible ==> r.subsystem == BinarySubsystem::Unavail && !r.is_32bit,
        accessible && is_script_spec(
            match ext {
                Some(e) => Some(e@),
                None => None,
            },
            pathext@,
        ) ==> r.subsystem == BinarySubsystem::Script && !r.is_32bit,
        accessible && !is_script_spec(
            match ext {
                Some(e) => Some(e@),
                None => None,
            },
            pathext@,
        ) ==> match pe {
            Some((s, b)) => r.subsystem == s && r.is_32bit == b,
            None => r.subsystem == BinarySubsystem::Cui && !r.is_32bit,
        },
{
    let mut profile = BinaryProfile {
        exe: owned(exe),
        args: Vec::new(),
        subsystem: BinarySubsystem::Cui,
        is_32bit: false,
    };
    if !accessible {
        profile.subsystem = BinarySubsystem::Unavail;
        return profile;
    }
    if is_script(ext, pathext) {
        profile.subsystem = BinarySubsystem::Script;
        return profile;
    }
    match pe {
        Some((sub, is_32)) => {
            profile.subsystem = sub;
            profile.is_32bit = is_32;
        },
        None => {},
    }
    profile
}

// ---------------------------------------------------------------------------
// The editor command line
// ---------------------------------------------------------------------------

/// What `shlex::split` returns for a string: its words, or `None` when the string cannot be
/// split (an open quote, a trailing backslash).
pub uninterp spec fn shlex_words(s: Seq<char>) -> Option<Seq<Seq<char>>>;

/// Calls `shlex::split`. Claims only that the result is `shlex_words` of the input: the same
/// string always splits the same way.
#[verifier::external_body]
fn shlex_split(s: &str) -> (r: Option<Vec<String>>)
    ensures
        match r {
            Some(v) => shlex_words(s@) == Some(views(v@)),
            None => shlex_words(s@).is_none(),
        },
{
    shlex::split(s)
}

/// The editor command: the one asked for, else `VISUAL`, else `EDITOR`, else `notepad`, with
/// each backslash turned into a slash.
pub open spec fn editor_choice_spec(editor: Option<Seq<char>>, visual: Option<Seq<char>>, env_editor: Option<Seq<char>>) -> Seq<char> {
    slashed(
        match editor {
            Some(e) => e,
            None => match visual {
                Some(v) => v,
                None => match env_editor {
                    Some(e) => e,
                    None => "notepad"@,
                },
            },
        },
    )
}

/// `s` with each backslash turned into a slash.
pub open spec fn slashed(s: Seq<char>) -> Seq<char> {
    s.map_values(|c: char| if c == '\\' { '/' } else { c })
}

pub open spec fn opt_view(o: Option<String>) -> Option<Seq<char>> {
    match o {
        Some(s) => Some(s@),
        None => None,
    }
}

/// The editor command: the one asked for, else the `VISUAL` value, else the `EDITOR` value,
/// else `notepad`; backslashes become slashes.
pub fn editor_choice(editor: &Option<String>, visual: Option<String>, env_editor: Option<String>) -> (r: String)
    ensures
        r@ == editor_choice_spec(opt_view(*editor), opt_view(visual), opt_view(env_editor)),
{
    let raw: String = match editor {
        Some(e) => e.clone(),
        None => match visual {
            Some(v) => v,
            None => match env_editor {
                Some(e) => e,
                None => owned("notepad"),
            },
        },
    };
    let v = chars_of(raw.as_str());
    let mut out: Vec<char> = Vec::new();
    let mut i: usize = 0;
    while i < v.len()
        invariant
            i <= v@.len(),
            out@ == slashed(v@.take(i as int)),
        decreases v@.len() - i,
    {
        let c = v[i];
        out.push(if c == '\\' {
            '/'
        } else {
            c
        });
        proof {
            assert(out@ =~= slashed(v@.take(i + 1)));
        }
        i = i + 1;
    }
    assert(v@.take(v@.len() as int) =~= v@);
    string_of(out.as_slice())
}

/// The words of the editor command from what the split gave: those words when there are
/// any, `notepad` alone when the split failed or gave none.
pub open spec fn editor_args_spec(split: Option<Seq<Seq<char>>>) -> Seq<Seq<char>> {
    match split {
        Some(w) => if w.len() > 0 {
            w
        } else {
            seq!["notepad"@]
        },
        None => seq!["notepad"@],
    }
}

/// The words of the editor command from the result of the split.
pub fn editor_args_from(split: Option<Vec<String>>) -> (r: Vec<String>)
    ensures
        views(r@) == editor_args_spec(match split {
            Some(v) => Some(views(v@)),
            None => None,
        }),
{
    match split {
        Some(v) => {
            if v.len() > 0 {
                return v;
            }
            let mut d: Vec<String> = Vec::new();
            d.push(owned("notepad"));
            assert(views(d@) =~= seq!["notepad"@]);
            d
        },
        None => {
            let mut d: Vec<String> = Vec::new();
            d.push(owned("notepad"));
            assert(views(d@) =~= seq!["notepad"@]);
            d
        },
    }
}

/// The words of an editor command, split as a shell would.
pub fn editor_args(command: &str) -> (r: Vec<String>)
    ensures
        views(r@) == editor_args_spec(shlex_words(command@)),
{
    let split = shlex_split(command);
    editor_args_from(split)
}

/// The profile of the editor with its command words in place.
pub fn with_args(profile: BinaryProfile, args: Vec<String>) -> (r: BinaryProfile)
    ensures
        r.exe == profile.exe,
        r.subsystem == profile.subsystem,
        r.is_32bit == profile.is_32bit,
        r.args == args,
{
    BinaryProfile { args, ..profile }
}

// ---------------------------------------------------------------------------
// Launching the editor
// ---------------------------------------------------------------------------

/// How the editor is started: the program, its arguments, whether the 32-bit compatibility
/// layer is asked for, and the message said first.
pub struct LaunchPlan {
    pub program: String,
    pub args: Vec<String>,
    pub compat: bool,
    pub note: String,
}

/// How the editor of `profile` is started on the file `target`: a GUI program directly with
/// its words and the file; anything else through `cmd /C`; the compatibility layer for a
/// 32-bit program.
pub fn launch_plan(profile: &BinaryProfile, target: &str, verbosity: &Verbosity) -> (r: LaunchPlan)
    ensures
        ({
            let all = views(profile.args@).push(target@);
            &&& r.note@ == icon_format_spec(*verbosity, AliasIcon::Say, "Launching "@ + all[0] + "..."@)
            &&& r.compat == profile.is_32bit
            &&& (profile.subsystem is Gui ==> r.program@ == all[0] && views(r.args@) == all.skip(1))
            &&& (!(profile.subsystem is Gui) ==> r.program@ == "cmd"@ && views(r.args@) == seq!["/C"@] + all)
        }),
{
    let ghost all = views(profile.args@).push(target@);
    let mut words: Vec<String> = Vec::new();
    let mut i: usize = 0;
    while i < profile.args.len()
        invariant
            i <= profile.args@.len(),
            views(words@) == views(profile.args@).take(i as int),
        decreases profile.args@.len() - i,
    {
        let ghost before = views(words@);
        let c = profile.args[i].clone();
        let ghost cv = c@;
        assert(cv == views(profile.args@)[i as int]);
        words.push(c);
        proof {
            assert(views(words@) =~= before.push(cv));
            assert(views(words@) =~= views(profile.args@).take(i + 1));
        }
        i = i + 1;
    }
    let ghost before_t = views(words@);
    assert(before_t =~= views(profile.args@));
    words.push(owned(target));
    proof {
        assert(views(words@) =~= before_t.push(target@));
        assert(views(words@) =~= all);
    }
    let msg = crate::text::concat3("Launching ", words[0].as_str(), "...");
    let note = verbosity.icon_format(AliasIcon::Say, msg.as_str());
    if matches!(profile.subsystem, BinarySubsystem::Gui) {
        let program = words.remove(0);
        proof {
            assert(views(words@) =~= all.skip(1));
        }
        LaunchPlan { program, args: words, compat: profile.is_32bit, note }
    } else {
        let mut args: Vec<String> = Vec::new();
        args.push(owned("/C"));
        let ghost head = views(args@);
        args.append(&mut words);
        proof {
            assert(head =~= seq!["/C"@]);
            assert(views(args@) =~= seq!["/C"@] + all);
        }
        LaunchPlan { program: owned("cmd"), args, compat: profile.is_32bit, note }
    }
}

} // verus!

verus! {

/// Law: a program read as a PE image is marked 32-bit exactly when the two bytes right after
/// its `PE\0\0` signature (found at the offset stored little-endian at byte 60) are `4C 01`,
/// the x86 machine code; every other machine, such as x64 or ARM64, is not 32-bit.
pub proof fn lemma_pe_bitness(b: Seq<u8>)
    ensures
        pe_spec(b) matches Some((_, x32)) ==> (x32 <==> ({
            let off = b[60] as int + 256 * (b[61] as int) + 65536 * (b[62] as int) + 16777216 * (b[63] as int);
            &&& b.len() >= 64
            &&& b[0] == 0x4d && b[1] == 0x5a
            &&& off + 6 <= b.len()
            &&& b[off] == 0x50 && b[off + 1] == 0x45 && b[off + 2] == 0 && b[off + 3] == 0
            &&& b[off + 4] == 0x4c && b[off + 5] == 0x01
        })),
{
    if b.len() >= 64 && b[0] == 0x4d && b[1] == 0x5a {
        let off = le32(b, 60);
        if off + 6 <= b.len() {
            let lo = b[off + 4] as int;
            let hi = b[off + 5] as int;
            assert(lo + 256 * hi == 0x014c <==> (lo == 0x4c && hi == 0x01)) by (nonlinear_arith)
                requires
                    0 <= lo < 256,
                    0 <= hi < 256,
            ;
        }
    }
}

} // verus!

verus! {

/// Law: a PE image's subsystem is read from the two bytes 92 bytes after its signature:
/// `02 00` is a GUI program, `03 00` a console program, anything else unknown.
pub proof fn lemma_pe_subsystem(b: Seq<u8>)
    ensures
        pe_spec(b) matches Some((sub, _)) ==> ({
            let off = b[60] as int + 256 * (b[61] as int) + 65536 * (b[62] as int) + 16777216 * (b[63] as int);
            let is_pe = b.len() >= 64 && b[0] == 0x4d && b[1] == 0x5a && off + 94 <= b.len()
                && b[off] == 0x50 && b[off + 1] == 0x45 && b[off + 2] == 0 && b[off + 3] == 0;
            &&& (sub is Gui <==> (is_pe && b[off + 92] == 2 && b[off + 93] == 0))
            &&& (sub is Cui <==> (is_pe && b[off + 92] == 3 && b[off + 93] == 0))
        }),
{
    if b.len() >= 64 && b[0] == 0x4d && b[1] == 0x5a {
        let off = le32(b, 60);
        if off + 94 <= b.len() {
            let lo = b[off + 92] as int;
            let hi = b[off + 93] as int;
            assert(lo + 256 * hi == 2 <==> (lo == 2 && hi == 0)) by (nonlinear_arith)
                requires
                    0 <= lo < 256,
                    0 <= hi < 256,
            ;
            assert(lo + 256 * hi == 3 <==> (lo == 3 && hi == 0)) by (nonlinear_arith)
                requires
                    0 <= lo < 256,
                    0 <= hi < 256,
            ;
        }
    }
}

} // verus!
