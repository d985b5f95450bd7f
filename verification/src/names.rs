//! What makes an alias name, a data line of an alias file, and a path or extension text.
use vstd::prelude::*;
use crate::text::{
    Trim, alphabetic, alphanumeric, char_is_alphabetic, char_is_alphanumeric, chars_eq, chars_of,
    concat, contains_char, has_sub, is_ascii_digit, is_whitespace, is_ws, lowercase, owned,
    slice_of, split_char, split_once, split_once_spec, split_spec, starts_with, string_of,
    to_lower, to_upper, trim_class, trim_spec, trim_ws, uppercase,
};
use crate::model::{DEFAULT_EXTS_EXE, UNC_GLOBAL_PATH, UNC_PATH};

verus! {

/// The device names that Windows reserves.
pub const RESERVED_NAMES: [&'static str; 22] = [
    "CON",
    "PRN",
    "AUX",
    "NUL",
    "COM1",
    "COM2",
    "COM3",
    "COM4",
    "COM5",
    "COM6",
    "COM7",
    "COM8",
    "COM9",
    "LPT1",
    "LPT2",
    "LPT3",
    "LPT4",
    "LPT5",
    "LPT6",
    "LPT7",
    "LPT8",
    "LPT9",
];

/// Whether `u` is one of the reserved device names.
pub open spec fn reserved_spec(u: Seq<char>) -> bool {
    exists|i: int| 0 <= i < 22 && u == (#[trigger] RESERVED_NAMES[i])@
}

/// Whether `u` is one of the reserved device names.
pub fn is_reserved(u: &[char]) -> (r: bool)
    ensures
        r == reserved_spec(u@),
{
    let mut i: usize = 0;
    while i < 22
        invariant
            i <= 22,
            forall|j: int| 0 <= j < i ==> u@ != (#[trigger] RESERVED_NAMES[j])@,
        decreases 22 - i,
    {
        let name = chars_of(RESERVED_NAMES[i]);
        if chars_eq(u, name.as_slice()) {
            return true;
        }
        i = i + 1;
    }
    false
}

/// The characters that a name may not hold: quotes, colon, caret, `&`, `|`, `<`, `>` and parentheses.
pub open spec fn is_animal(c: char) -> bool {
    c == '\u{22}' || c == '\'' || c == ':' || c == '^' || c == '&' || c == '|' || c == '<' || c
        == '>' || c == '(' || c == ')'
}

/// Very permissive: a non-empty name whose first character is a letter, an ASCII digit or `_`.
pub open spec fn valid_loose_spec(s: Seq<char>) -> bool {
    s.len() > 0 && (alphabetic(s[0]) || is_ascii_digit(s[0]) || s[0] == '_')
}

/// A name without spaces or surrounding whitespace, starting with a letter or `_`, made of
/// letters, digits, `_` and `-`.
pub open spec fn valid_permissive_spec(s: Seq<char>) -> bool {
    &&& s.len() > 0
    &&& !s.contains(' ')
    &&& trim_ws(s) == s
    &&& (alphabetic(s[0]) || s[0] == '_')
    &&& forall|i: int| 0 <= i < s.len() ==> alphanumeric(#[trigger] s[i]) || s[i] == '_' || s[i] == '-'
    &&& valid_loose_spec(s)
}

/// The gatekeeper: a permissive name that is not a reserved device name (in any case) and
/// holds none of the shell's special characters.
pub open spec fn valid_name_spec(s: Seq<char>) -> bool {
    &&& s.len() > 0
    &&& !s.contains(' ')
    &&& trim_ws(s) == s
    &&& !reserved_spec(uppercase(s))
    &&& forall|i: int| 0 <= i < s.len() ==> !is_animal(#[trigger] s[i])
    &&& (alphabetic(s[0]) || s[0] == '_')
    &&& valid_permissive_spec(s)
}

/// A name of printable ASCII without spaces or `=`.
pub open spec fn valid_ascii_spec(s: Seq<char>) -> bool {
    &&& s.len() > 0
    &&& !s.contains(' ')
    &&& !s.contains('=')
    &&& forall|i: int| 0 <= i < s.len() ==> '!' <= #[trigger] s[i] && s[i] <= '~'
}

// Progressively looser checks, can pick up anywhere in the chain
pub fn is_valid_name(name: &str) -> (r: bool)
    ensures
        r == valid_name_spec(name@),
{
    let v = chars_of(name);
    if v.len() == 0 || contains_char(v.as_slice(), ' ') {
        return false;
    }
    let t = trim_class(v.as_slice(), Trim::Space);
    if !chars_eq(t.as_slice(), v.as_slice()) {
        return false;
    }
    let up = to_upper(name);
    let upv = chars_of(up.as_str());
    if is_reserved(upv.as_slice()) {
        return false;
    }
    let mut i: usize = 0;
    while i < v.len()
        invariant
            v@ == name@,
            i <= v@.len(),
            forall|j: int| 0 <= j < i ==> !is_animal(#[trigger] v@[j]),
        decreases v@.len() - i,
    {
        let c = v[i];
        if c == '\u{22}' || c == '\'' || c == ':' || c == '^' || c == '&' || c == '|' || c == '<'
            || c == '>' || c == '(' || c == ')' {
            return false;
        }
        i = i + 1;
    }
    let first = v[0];
    if char_is_alphabetic(first) || first == '_' {
        return is_valid_name_permissive(name);
    }
    false
}

/// Printable ASCII only, no spaces and no `=`.
pub fn is_valid_name_ascii(name: &str) -> (r: bool)
    ensures
        r == valid_ascii_spec(name@),
{
    let v = chars_of(name);
    if v.len() == 0 {
        return false;
    }
    if contains_char(v.as_slice(), ' ') || contains_char(v.as_slice(), '=') {
        return false;
    }
    let mut i: usize = 0;
    while i < v.len()
        invariant
            v@ == name@,
            i <= v@.len(),
            forall|j: int| 0 <= j < i ==> '!' <= #[trigger] v@[j] && v@[j] <= '~',
        decreases v@.len() - i,
    {
        if !('!' <= v[i] && v[i] <= '~') {
            return false;
        }
        i = i + 1;
    }
    true
}

// Broader match to more allow 2 bytes
pub fn is_valid_name_permissive(name: &str) -> (r: bool)
    ensures
        r == valid_permissive_spec(name@),
{
    let v = chars_of(name);
    if v.len() == 0 || contains_char(v.as_slice(), ' ') {
        return false;
    }
    let t = trim_class(v.as_slice(), Trim::Space);
    if !chars_eq(t.as_slice(), v.as_slice()) {
        return false;
    }
    let first = v[0];
    if !(char_is_alphabetic(first) || first == '_') {
        return false;
    }
    let mut i: usize = 0;
    while i < v.len()
        invariant
            v@ == name@,
            i <= v@.len(),
            forall|j: int|
                0 <= j < i ==> alphanumeric(#[trigger] v@[j]) || v@[j] == '_' || v@[j] == '-',
        decreases v@.len() - i,
    {
        let c = v[i];
        if !(char_is_alphanumeric(c) || c == '_' || c == '-') {
            return false;
        }
        i = i + 1;
    }
    is_valid_name_loose(name)
}

// very permissive
pub fn is_valid_name_loose(name: &str) -> (r: bool)
    ensures
        r == valid_loose_spec(name@),
{
    let v = chars_of(name);
    if v.len() == 0 {
        return false;
    }
    let first = v[0];
    char_is_alphabetic(first) || ('0' <= first && first <= '9') || first == '_'
}

/// Law: every name the gatekeeper accepts is accepted by the permissive check, and every
/// name the permissive check accepts is accepted by the loose one.
pub proof fn lemma_validity_chain(s: Seq<char>)
    ensures
        valid_name_spec(s) ==> valid_permissive_spec(s),
        valid_permissive_spec(s) ==> valid_loose_spec(s),
{
}

// ---------------------------------------------------------------------------
// Alias file lines
// ---------------------------------------------------------------------------

/// The name and value of a data line of an alias file: the trimmed line must start with a
/// letter, a digit or `_` and hold an `=`; the name is trimmed, the value kept as written.
pub open spec fn data_line_spec(line: Seq<char>) -> Option<(Seq<char>, Seq<char>)> {
    let t = trim_ws(line);
    if t.len() == 0 || !(alphanumeric(t[0]) || t[0] == '_') {
        None
    } else {
        match split_once_spec(t, '=') {
            Some((n, v)) => Some((trim_ws(n), v)),
            None => None,
        }
    }
}

/// The name and value of a data line (`None` for comments, blank lines and lines without `=`).
pub fn is_data_line(line: &str) -> (r: Option<(String, String)>)
    ensures
        match r {
            Some((n, v)) => data_line_spec(line@) == Some((n@, v@)),
            None => data_line_spec(line@).is_none(),
        },
{
    let lv = chars_of(line);
    let t = trim_class(lv.as_slice(), Trim::Space);
    if t.len() == 0 {
        return None;
    }
    let c = t[0];
    if !(char_is_alphanumeric(c) || c == '_') {
        return None;
    }
    match split_once(t.as_slice(), '=') {
        Some((n, v)) => {
            let tn = trim_class(n.as_slice(), Trim::Space);
            Some((string_of(tn.as_slice()), string_of(v.as_slice())))
        },
        None => None,
    }
}

/// Whether two values mean the same once surrounding double quotes are dropped.
pub open spec fn functional_eq_spec(a: Seq<char>, b: Seq<char>) -> bool {
    trim_spec(a, Trim::Char('\u{22}')) == trim_spec(b, Trim::Char('\u{22}'))
}

pub fn functional_cmp(a: &str, b: &str) -> (r: bool)
    ensures
        r == functional_eq_spec(a@, b@),
{
    let av = chars_of(a);
    let bv = chars_of(b);
    let at = trim_class(av.as_slice(), Trim::Char('\u{22}'));
    let bt = trim_class(bv.as_slice(), Trim::Char('\u{22}'));
    chars_eq(at.as_slice(), bt.as_slice())
}

/// A line of the system's alias list, `name=value`, with NULs dropped at both ends and
/// whitespace trimmed around name and value; `None` when there is no `=` or no name.
pub open spec fn alias_line_spec(line: Seq<char>) -> Option<(Seq<char>, Seq<char>)> {
    let l = trim_spec(line, Trim::Char('\0'));
    if l.len() == 0 {
        None
    } else {
        match split_once_spec(l, '=') {
            Some((n, v)) => if trim_ws(n).len() == 0 {
                None
            } else {
                Some((trim_ws(n), trim_ws(v)))
            },
            None => None,
        }
    }
}

pub fn parse_alias_line(line: &str) -> (r: Option<(String, String)>)
    ensures
        match r {
            Some((n, v)) => alias_line_spec(line@) == Some((n@, v@)),
            None => alias_line_spec(line@).is_none(),
        },
{
    let lv = chars_of(line);
    let l = trim_class(lv.as_slice(), Trim::Char('\0'));
    if l.len() == 0 {
        return None;
    }
    match split_once(l.as_slice(), '=') {
        Some((n, v)) => {
            let name = trim_class(n.as_slice(), Trim::Space);
            let value = trim_class(v.as_slice(), Trim::Space);
            if name.len() == 0 {
                return None;
            }
            Some((string_of(name.as_slice()), string_of(value.as_slice())))
        },
        None => None,
    }
}

// ---------------------------------------------------------------------------
// Paths and extensions
// ---------------------------------------------------------------------------

/// A path without the extended-length prefix: `\\?\UNC\server` becomes `\\server` and
/// `\\?\C:\x` becomes `C:\x`.
pub open spec fn normalize_spec(s: Seq<char>) -> Seq<char> {
    if UNC_GLOBAL_PATH@.is_prefix_of(s) {
        "\\\\"@ + s.skip(UNC_GLOBAL_PATH@.len() as int)
    } else if UNC_PATH@.is_prefix_of(s) {
        s.skip(UNC_PATH@.len() as int)
    } else {
        s
    }
}

pub fn normalize_path(path: String) -> (r: String)
    ensures
        r@ == normalize_spec(path@),
{
    let v = chars_of(path.as_str());
    let g = chars_of(UNC_GLOBAL_PATH);
    if starts_with(v.as_slice(), g.as_slice()) {
        let rest = slice_of(v.as_slice(), g.len(), v.len());
        assert(rest@ =~= v@.skip(g@.len() as int));
        let rs = string_of(rest.as_slice());
        return concat("\\\\", rs.as_str());
    }
    let u = chars_of(UNC_PATH);
    if starts_with(v.as_slice(), u.as_slice()) {
        let rest = slice_of(v.as_slice(), u.len(), v.len());
        assert(rest@ =~= v@.skip(u@.len() as int));
        return string_of(rest.as_slice());
    }
    path
}

/// Whether `e` is one of the `;`-separated entries of `list`.
pub open spec fn in_list_spec(list: Seq<char>, e: Seq<char>) -> bool {
    split_spec(list, ';').contains(e)
}

fn in_list(list: &[char], e: &[char]) -> (r: bool)
    ensures
        r == in_list_spec(list@, e@),
{
    let parts = split_char(list, ';');
    let ghost pv = parts@.map_values(|v: Vec<char>| v@);
    let mut i: usize = 0;
    while i < parts.len()
        invariant
            pv == parts@.map_values(|v: Vec<char>| v@),
            pv == split_spec(list@, ';'),
            i <= parts@.len(),
            forall|j: int| 0 <= j < i ==> pv[j] != e@,
        decreases parts@.len() - i,
    {
        if chars_eq(parts[i].as_slice(), e) {
            assert(pv[i as int] == e@);
            return true;
        }
        i = i + 1;
    }
    false
}

/// Whether an extension (with its dot, any case) names a binary container: `.com`, `.exe`, `.scr`.
pub open spec fn exe_ext_spec(ext: Seq<char>) -> bool {
    in_list_spec(lowercase(DEFAULT_EXTS_EXE@), lowercase(ext))
}

pub fn is_exe_extension(ext: &str) -> (r: bool)
    ensures
        r == exe_ext_spec(ext@),
{
    let e = to_lower(ext);
    let list = to_lower(DEFAULT_EXTS_EXE);
    let ev = chars_of(e.as_str());
    let lv = chars_of(list.as_str());
    in_list(lv.as_slice(), ev.as_slice())
}

/// Whether an extension is a script one: listed in `pathext` (the `PATHEXT` list, any case)
/// and not a binary container.
pub open spec fn script_ext_spec(ext: Seq<char>, pathext: Seq<char>) -> bool {
    in_list_spec(lowercase(pathext), lowercase(ext)) && !exe_ext_spec(lowercase(ext))
}

/// Whether `ext` is a script extension, given the `PATHEXT` list in force.
pub fn is_script_extension(ext: &str, pathext: &str) -> (r: bool)
    ensures
        r == script_ext_spec(ext@, pathext@),
{
    let e = to_lower(ext);
    let p = to_lower(pathext);
    let ev = chars_of(e.as_str());
    let pv = chars_of(p.as_str());
    in_list(pv.as_slice(), ev.as_slice()) && !is_exe_extension(e.as_str())
}

/// An extension, lower-cased, with exactly one leading dot added when it has none.
pub open spec fn ext_with_dot_spec(ext: Seq<char>) -> Seq<char> {
    if ext.len() > 0 && ext[0] == '.' {
        lowercase(ext)
    } else {
        "."@ + lowercase(ext)
    }
}

pub fn ext_with_dot(ext: &str) -> (r: String)
    ensures
        r@ == ext_with_dot_spec(ext@),
{
    let v = chars_of(ext);
    let low = to_lower(ext);
    if v.len() > 0 && v[0] == '.' {
        low
    } else {
        concat(".", low.as_str())
    }
}

} // verus!

verus! {

/// Law: a data line is cut at its first `=` and nowhere else: the trimmed line is the raw name
/// (which holds no `=`), then `=`, then the value whole, and the name is that raw name trimmed.
pub proof fn lemma_data_line_split(line: Seq<char>)
    ensures
        data_line_spec(line) matches Some((n, v)) ==> exists|raw: Seq<char>|
            #![trigger trim_ws(raw)]
            !raw.contains('=') && trim_ws(raw) == n && trim_ws(line) == raw + "="@ + v,
{
    if let Some((n, v)) = data_line_spec(line) {
        reveal_strlit("=");
        let t = trim_ws(line);
        crate::text::lemma_first_index(t, '=');
        let i = crate::text::first_index(t, '=');
        let raw = t.take(i);
        assert forall|k: int| 0 <= k < raw.len() implies raw[k] != '=' by {
            assert(raw[k] == t[k]);
        }
        assert(t =~= raw + "="@ + t.skip(i + 1));
        assert(trim_ws(raw) == n);
    }
}

} // verus!
