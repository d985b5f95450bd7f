//! Comparing what the system holds with what the alias file holds, and the text of the
//! audits that show it.
use vstd::prelude::*;
use crate::text::{
    byte_len, chars_of, concat, concat3, contains_sub, has_sub, push_str, str_bytes, str_eq, string_of,
};
use crate::model::{AliasEntryMesh, AliasIcon, DiagnosticReport, RegistryStatus, level_rank};
use crate::names::{functional_cmp, functional_eq_spec, is_valid_name, valid_name_spec};
use crate::voice::{Verbosity, align_spec, icon_format_spec, property_spec, said, shouted};

verus! {

// ---------------------------------------------------------------------------
// Named pairs
// ---------------------------------------------------------------------------

pub open spec fn pair_views(l: Seq<(String, String)>) -> Seq<(Seq<char>, Seq<char>)> {
    l.map_values(|p: (String, String)| (p.0@, p.1@))
}

/// The position of the first pair named `k`, or -1.
pub open spec fn first_named(m: Seq<(Seq<char>, Seq<char>)>, k: Seq<char>) -> int
    decreases m.len(),
{
    if m.len() == 0 {
        -1
    } else {
        let r = first_named(m.drop_last(), k);
        if r >= 0 {
            r
        } else if m.last().0 == k {
            m.len() - 1
        } else {
            -1
        }
    }
}

pub proof fn lemma_first_named(m: Seq<(Seq<char>, Seq<char>)>, k: Seq<char>)
    ensures
        -1 <= first_named(m, k) < m.len(),
        first_named(m, k) >= 0 ==> m[first_named(m, k)].0 == k,
        first_named(m, k) >= 0 ==> forall|j: int| 0 <= j < first_named(m, k) ==> m[j].0 != k,
        first_named(m, k) < 0 ==> forall|j: int| 0 <= j < m.len() ==> m[j].0 != k,
    decreases m.len(),
{
    if m.len() > 0 {
        let d = m.drop_last();
        lemma_first_named(d, k);
        let r = first_named(m, k);
        if r >= 0 {
            assert forall|j: int| 0 <= j < r implies m[j].0 != k by {
                assert(d[j] == m[j]);
            }
        } else {
            assert forall|j: int| 0 <= j < m.len() implies m[j].0 != k by {
                if j < m.len() - 1 {
                    assert(d[j] == m[j]);
                }
            }
        }
    }
}

/// `first_named` read on a prefix that already holds a match.
pub proof fn lemma_first_named_prefix(m: Seq<(Seq<char>, Seq<char>)>, k: Seq<char>, i: int)
    requires
        0 <= i <= m.len(),
    ensures
        first_named(m.take(i), k) >= 0 ==> first_named(m, k) == first_named(m.take(i), k),
        first_named(m.take(i), k) < 0 ==> forall|j: int| 0 <= j < i ==> m[j].0 != k,
    decreases m.len() - i,
{
    lemma_first_named(m.take(i), k);
    if first_named(m.take(i), k) < 0 {
        assert forall|j: int| 0 <= j < i implies m[j].0 != k by {
            assert(m.take(i)[j] == m[j]);
        }
    }
    if i < m.len() {
        lemma_first_named_prefix(m, k, i + 1);
        assert(m.take(i + 1).drop_last() =~= m.take(i));
    } else {
        assert(m.take(i) =~= m);
    }
}

/// The first pair named `k` taken out: its value, and the pairs without it.
pub open spec fn pluck(m: Seq<(Seq<char>, Seq<char>)>, k: Seq<char>) -> (Option<Seq<char>>, Seq<(Seq<char>, Seq<char>)>) {
    let i = first_named(m, k);
    if i >= 0 {
        (Some(m[i].1), m.remove(i))
    } else {
        (None, m)
    }
}

/// Sets `k` to `v`: in place where `k` is already named, at the end otherwise.
pub open spec fn put(m: Seq<(Seq<char>, Seq<char>)>, k: Seq<char>, v: Seq<char>) -> Seq<(Seq<char>, Seq<char>)> {
    let i = first_named(m, k);
    if i >= 0 {
        m.update(i, (k, v))
    } else {
        m.push((k, v))
    }
}

/// The pairs collected into a map: one pair per name, in the order of first appearance,
/// with the last value given for it.
pub open spec fn collect_pairs(l: Seq<(Seq<char>, Seq<char>)>) -> Seq<(Seq<char>, Seq<char>)>
    decreases l.len(),
{
    if l.len() == 0 {
        Seq::empty()
    } else {
        put(collect_pairs(l.drop_last()), l.last().0, l.last().1)
    }
}

fn find_named(m: &Vec<(String, String)>, k: &str) -> (r: Option<usize>)
    ensures
        match r {
            Some(i) => first_named(pair_views(m@), k@) == i && i < m@.len(),
            None => first_named(pair_views(m@), k@) < 0,
        },
{
    let ghost mv = pair_views(m@);
    let mut i: usize = 0;
    while i < m.len()
        invariant
            i <= m@.len(),
            mv == pair_views(m@),
            first_named(mv.take(i as int), k@) < 0,
        decreases m@.len() - i,
    {
        proof {
            assert(mv.take(i + 1).drop_last() =~= mv.take(i as int));
            assert(mv[i as int] == (m@[i as int].0@, m@[i as int].1@));
        }
        if str_eq(m[i].0.as_str(), k) {
            proof {
                lemma_first_named_prefix(mv, k@, i + 1);
            }
            return Some(i);
        }
        i = i + 1;
    }
    proof {
        assert(mv.take(i as int) =~= mv);
    }
    None
}

fn pluck_exec(m: &mut Vec<(String, String)>, k: &str) -> (r: Option<String>)
    ensures
        (match r {
            Some(s) => Some(s@),
            None => None,
        }, pair_views(final(m)@)) == pluck(pair_views(old(m)@), k@),
{
    let ghost mv = pair_views(m@);
    match find_named(m, k) {
        Some(i) => {
            let (_, v) = m.remove(i);
            proof {
                assert(pair_views(m@) =~= mv.remove(i as int));
            }
            Some(v)
        },
        None => None,
    }
}

fn put_exec(m: &mut Vec<(String, String)>, k: String, v: String)
    ensures
        pair_views(final(m)@) == put(pair_views(old(m)@), k@, v@),
{
    let ghost mv = pair_views(m@);
    let ghost kv = (k@, v@);
    match find_named(m, k.as_str()) {
        Some(i) => {
            m.set(i, (k, v));
            proof {
                assert(pair_views(m@) =~= mv.update(i as int, kv));
            }
        },
        None => {
            m.push((k, v));
            proof {
                assert(pair_views(m@) =~= mv.push(kv));
            }
        },
    }
}

// ---------------------------------------------------------------------------
// The mesh of the system and the file
// ---------------------------------------------------------------------------

pub ghost struct MeshView {
    pub name: Seq<char>,
    pub os_value: Option<Seq<char>>,
    pub file_value: Option<Seq<char>>,
}

pub open spec fn opt_chars(o: Option<String>) -> Option<Seq<char>> {
    match o {
        Some(s) => Some(s@),
        None => None,
    }
}

pub open spec fn mesh_view(e: AliasEntryMesh) -> MeshView {
    MeshView { name: e.name@, os_value: opt_chars(e.os_value), file_value: opt_chars(e.file_value) }
}

pub open spec fn mesh_views(l: Seq<AliasEntryMesh>) -> Seq<MeshView> {
    l.map_values(|e: AliasEntryMesh| mesh_view(e))
}

/// The first `i` file entries met against the system's pairs `m0`: the entries so far and
/// the system pairs not yet met.
pub open spec fn mesh_run(files: Seq<(Seq<char>, Seq<char>)>, m0: Seq<(Seq<char>, Seq<char>)>, i: int) -> (Seq<MeshView>, Seq<(Seq<char>, Seq<char>)>)
    decreases i,
{
    if i <= 0 {
        (Seq::empty(), m0)
    } else {
        let (acc, m) = mesh_run(files, m0, i - 1);
        let f = files[i - 1];
        let (o, m2) = pluck(m, f.0);
        (acc.push(MeshView { name: f.0, os_value: o, file_value: Some(f.1) }), m2)
    }
}

/// The mesh: the file's entries in file order, each with the system's value for its name
/// (taken once), then the system's remaining aliases, one per name.
pub open spec fn mesh_spec(os: Seq<(Seq<char>, Seq<char>)>, files: Seq<(Seq<char>, Seq<char>)>) -> Seq<MeshView> {
    let (acc, rest) = mesh_run(files, collect_pairs(os), files.len() as int);
    acc + rest.map_values(|p: (Seq<char>, Seq<char>)| MeshView { name: p.0, os_value: Some(p.1), file_value: None })
}

/// Meets the system's aliases with the file's: the file's entries first, in file order, each
/// with the system's value for its name; then every alias the system holds and the file does
/// not. A name the system lists twice keeps its last value.
pub fn mesh_logic(os_list: Vec<(String, String)>, file_list: Vec<(String, String)>) -> (r: Vec<AliasEntryMesh>)
    ensures
        mesh_views(r@) == mesh_spec(pair_views(os_list@), pair_views(file_list@)),
{
    let ghost osv = pair_views(os_list@);
    let ghost fv = pair_views(file_list@);
    let mut map: Vec<(String, String)> = Vec::new();
    let n = os_list.len();
    let mut os_rest = os_list;
    let mut i: usize = 0;
    while i < n
        invariant
            i <= n,
            n == osv.len(),
            pair_views(os_rest@) == osv.subrange(i as int, n as int),
            pair_views(map@) == collect_pairs(osv.take(i as int)),
        decreases n - i,
    {
        let ghost rv = pair_views(os_rest@);
        assert(rv.len() == os_rest@.len());
        let (k, v) = os_rest.remove(0);
        proof {
            assert(rv[0] == (k@, v@));
            assert(pair_views(os_rest@) =~= rv.drop_first());
            assert(osv.take(i + 1).drop_last() =~= osv.take(i as int));
            assert(osv.take(i + 1).last() == rv[0]);
        }
        put_exec(&mut map, k, v);
        i = i + 1;
    }
    assert(osv.take(n as int) =~= osv);
    let ghost m0 = pair_views(map@);
    let mut out: Vec<AliasEntryMesh> = Vec::new();
    let fnum = file_list.len();
    let mut f_rest = file_list;
    let mut j: usize = 0;
    while j < fnum
        invariant
            j <= fnum,
            fnum == fv.len(),
            pair_views(f_rest@) == fv.subrange(j as int, fnum as int),
            (mesh_views(out@), pair_views(map@)) == mesh_run(fv, m0, j as int),
        decreases fnum - j,
    {
        let ghost rv = pair_views(f_rest@);
        assert(rv.len() == f_rest@.len());
        let (name, value) = f_rest.remove(0);
        proof {
            assert(rv[0] == (name@, value@));
            assert(rv[0] == fv[j as int]);
            assert(pair_views(f_rest@) =~= rv.drop_first());
        }
        let os_value = pluck_exec(&mut map, name.as_str());
        let ghost before = mesh_views(out@);
        let e = AliasEntryMesh { name, os_value, file_value: Some(value) };
        let ghost ev = mesh_view(e);
        out.push(e);
        proof {
            assert(mesh_views(out@) =~= before.push(ev));
        }
        j = j + 1;
    }
    let ghost acc = mesh_views(out@);
    let ghost rest = pair_views(map@);
    let rn = map.len();
    let mut k: usize = 0;
    while k < rn
        invariant
            k <= rn,
            rn == rest.len(),
            pair_views(map@) == rest.subrange(k as int, rn as int),
            mesh_views(out@) == acc + rest.take(k as int).map_values(
                |p: (Seq<char>, Seq<char>)| MeshView { name: p.0, os_value: Some(p.1), file_value: None },
            ),
        decreases rn - k,
    {
        let ghost mv = pair_views(map@);
        assert(mv.len() == map@.len());
        let (name, value) = map.remove(0);
        proof {
            assert(mv[0] == (name@, value@));
            assert(pair_views(map@) =~= mv.drop_first());
        }
        let ghost before = mesh_views(out@);
        let e = AliasEntryMesh { name, os_value: Some(value), file_value: None };
        let ghost ev = mesh_view(e);
        out.push(e);
        proof {
            assert(mesh_views(out@) =~= before.push(ev));
            assert(rest.take(k + 1).map_values(
                |p: (Seq<char>, Seq<char>)| MeshView { name: p.0, os_value: Some(p.1), file_value: None },
            ) =~= rest.take(k as int).map_values(
                |p: (Seq<char>, Seq<char>)| MeshView { name: p.0, os_value: Some(p.1), file_value: None },
            ).push(ev));
        }
        k = k + 1;
    }
    assert(rest.take(rn as int) =~= rest);
    out
}

// ---------------------------------------------------------------------------
// The audit of a mesh
// ---------------------------------------------------------------------------

/// The width of an entry in the audit: the bytes of `name=value` (`<MISSING>` when the
/// system has no value).
pub open spec fn audit_width(e: MeshView) -> nat {
    byte_len(
        e.name + "="@ + match e.os_value {
            Some(o) => o,
            None => "<MISSING>"@,
        },
    )
}

pub open spec fn max_audit_width(es: Seq<MeshView>) -> nat
    decreases es.len(),
{
    if es.len() == 0 {
        0
    } else {
        let a = max_audit_width(es.drop_last());
        let b = audit_width(es.last());
        if a >= b {
            a
        } else {
            b
        }
    }
}

/// The widest entry, or 20 for an empty mesh.
pub open spec fn display_width(es: Seq<MeshView>) -> int {
    if es.len() == 0 {
        20
    } else {
        max_audit_width(es) as int
    }
}

pub open spec fn entry_corrupt(e: MeshView) -> bool {
    !valid_name_spec(e.name)
}

/// A macro the system holds that the alias file lacks.
pub open spec fn entry_phantom(e: MeshView) -> bool {
    e.os_value is Some && e.file_value is None
}

pub open spec fn entry_drift(e: MeshView) -> bool {
    e.os_value is Some && e.file_value is Some && e.os_value.unwrap() != e.file_value.unwrap()
}

/// The audit text of one entry.
pub open spec fn entry_text(v: Verbosity, e: MeshView, width: int) -> Seq<char> {
    align_spec(
        v,
        e.name,
        match e.os_value {
            Some(o) => o,
            None => Seq::empty(),
        },
        width + 5,
        (e.os_value is Some, false, e.file_value is Some),
    ) + (if entry_corrupt(e) {
        " !! CORRUPT: Alias contains illegal characters "@
    } else {
        Seq::empty()
    }) + phantom_note(v, entry_phantom(e)) + "\n"@ + (if entry_drift(e) {
        shouted(v, "Desync for "@ + e.name + ": File has '"@ + e.file_value.unwrap() + "'"@)
    } else {
        Seq::empty()
    })
}

pub open spec fn entries_text(v: Verbosity, es: Seq<MeshView>, width: int) -> Seq<char>
    decreases es.len(),
{
    if es.len() == 0 {
        Seq::empty()
    } else {
        entries_text(v, es.drop_last(), width) + entry_text(v, es.last(), width)
    }
}

pub open spec fn any_flagged(es: Seq<MeshView>) -> bool {
    exists|i: int| 0 <= i < es.len() && (entry_corrupt(#[trigger] es[i]) || entry_drift(es[i]) || entry_phantom(es[i]))
}

/// What the audit of a mesh prints: one aligned line per entry (with a note for an illegal
/// name, a note for a macro the file lacks (a phantom), and a shouted line for a value that
/// differs), then a tip when anything was flagged
/// and the level is Normal or louder.
pub open spec fn display_audit_spec(v: Verbosity, es: Seq<MeshView>) -> Seq<char> {
    entries_text(v, es, display_width(es)) + if any_flagged(es) && level_rank(v.level) >= 2 {
        said(v, icon_format_spec(v, AliasIcon::NoIcon, "\n"@)) + said(
            v,
            icon_format_spec(v, AliasIcon::Info, "Tip: Run `alias --reload` to fix corrupted or out-of-sync macros."@),
        )
    } else {
        Seq::empty()
    }
}

fn entry_width(e: &AliasEntryMesh) -> (r: u128)
    ensures
        r == audit_width(mesh_view(*e)),
        r <= 4 * (usize::MAX as int),
{
    let val: &str = match &e.os_value {
        Some(o) => o.as_str(),
        None => "<MISSING>",
    };
    let line = concat3(e.name.as_str(), "=", val);
    str_bytes(line.as_str())
}

/// The text the audit of `mesh_list` prints.
pub fn display_audit(mesh_list: &[AliasEntryMesh], verbosity: &Verbosity) -> (r: String)
    ensures
        r@ == display_audit_spec(*verbosity, mesh_views(mesh_list@)),
{
    let ghost es = mesh_views(mesh_list@);
    let n = mesh_list.len();
    let mut widest: u128 = 0;
    let mut i: usize = 0;
    while i < n
        invariant
            i <= n,
            n == mesh_list@.len(),
            es == mesh_views(mesh_list@),
            widest == max_audit_width(es.take(i as int)),
            widest <= 4 * (usize::MAX as int),
        decreases n - i,
    {
        let w = entry_width(&mesh_list[i]);
        proof {
            assert(es.take(i + 1).drop_last() =~= es.take(i as int));
            assert(es.take(i + 1).last() == mesh_view(mesh_list@[i as int]));
        }
        if w > widest {
            widest = w;
        }
        i = i + 1;
    }
    assert(es.take(n as int) =~= es);
    let width: u128 = if n == 0 {
        20
    } else {
        widest
    };
    let mut buf: Vec<char> = Vec::new();
    let mut flagged = false;
    let mut j: usize = 0;
    while j < n
        invariant
            j <= n,
            n == mesh_list@.len(),
            es == mesh_views(mesh_list@),
            width == display_width(es),
            width <= 4 * (usize::MAX as int),
            buf@ == entries_text(*verbosity, es.take(j as int), width as int),
            flagged == exists|k: int| 0 <= k < j && (entry_corrupt(#[trigger] es[k]) || entry_drift(es[k]) || entry_phantom(es[k])),
        decreases n - j,
    {
        let e = &mesh_list[j];
        let ghost ev = mesh_view(*e);
        assert(ev == es[j as int]);
        let ghost start = buf@;
        let os_val: &str = match &e.os_value {
            Some(o) => o.as_str(),
            None => "",
        };
        proof {
            reveal_strlit("");
        }
        let line = verbosity.align(
            e.name.as_str(),
            os_val,
            width + 5,
            (e.os_value.is_some(), false, e.file_value.is_some()),
        );
        push_str(&mut buf, line.as_str());
        let corrupt = !is_valid_name(e.name.as_str());
        if corrupt {
            push_str(&mut buf, " !! CORRUPT: Alias contains illegal characters ");
        }
        let ghost pre = buf@;
        let phantom = e.os_value.is_some() && e.file_value.is_none();
        if phantom {
            push_str(&mut buf, " ");
            let mark = verbosity.icon_format(AliasIcon::Alert, "<- PHANTOM (Not in File)");
            push_str(&mut buf, mark.as_str());
        }
        assert(buf@ =~= pre + phantom_note(*verbosity, entry_phantom(ev)));
        push_str(&mut buf, "\n");
        let ghost mid = buf@;
        proof {
            let os_v = match ev.os_value {
                Some(o) => o,
                None => Seq::<char>::empty(),
            };
            assert(os_val@ == os_v);
            assert(mid =~= start + (align_spec(*verbosity, ev.name, os_v, width + 5, (ev.os_value is Some, false, ev.file_value is Some)) + (if entry_corrupt(ev) {
                " !! CORRUPT: Alias contains illegal characters "@
            } else {
                Seq::empty()
            }) + phantom_note(*verbosity, entry_phantom(ev)) + "\n"@));
        }
        let mut drift = false;
        match (&e.os_value, &e.file_value) {
            (Some(os), Some(fi)) => {
                if !str_eq(os.as_str(), fi.as_str()) {
                    drift = true;
                    let head = concat3("Desync for ", e.name.as_str(), ": File has '");
                    let msg = concat3(head.as_str(), fi.as_str(), "'");
                    let shout = verbosity.shouted_text(msg.as_str());
                    push_str(&mut buf, shout.as_str());
                }
            },
            _ => {},
        }
        proof {
            assert(drift == entry_drift(ev));
            assert(es.take(j + 1).drop_last() =~= es.take(j as int));
            assert(es.take(j + 1).last() == ev);
            assert(buf@ =~= start + entry_text(*verbosity, ev, width as int));
            if corrupt || drift || phantom {
                assert(entry_corrupt(es[j as int]) || entry_drift(es[j as int]) || entry_phantom(es[j as int]));
            }
        }
        flagged = flagged || corrupt || drift || phantom;
        j = j + 1;
    }
    assert(es.take(n as int) =~= es);
    if flagged && verbosity.show_audit() {
        let gap = verbosity.icon_format(AliasIcon::NoIcon, "\n");
        let gap_said = verbosity.said_text(gap.as_str());
        push_str(&mut buf, gap_said.as_str());
        let tip = verbosity.icon_format(
            AliasIcon::Info,
            "Tip: Run `alias --reload` to fix corrupted or out-of-sync macros.",
        );
        let tip_said = verbosity.said_text(tip.as_str());
        push_str(&mut buf, tip_said.as_str());
    }
    string_of(buf.as_slice())
}

// ---------------------------------------------------------------------------
// The triple audit: Win32, the Doskey wrapper and the file
// ---------------------------------------------------------------------------

/// The bytes of `name`, `=` and `value`.
pub open spec fn pair_width(p: (Seq<char>, Seq<char>)) -> nat {
    byte_len(p.0) + byte_len(p.1) + 1
}

pub open spec fn max_pair_width(l: Seq<(Seq<char>, Seq<char>)>) -> nat
    decreases l.len(),
{
    if l.len() == 0 {
        0
    } else {
        let a = max_pair_width(l.drop_last());
        let b = pair_width(l.last());
        if a >= b {
            a
        } else {
            b
        }
    }
}

/// The column width of the triple audit: the widest pair of all three sources (35 when
/// there is none), plus 5.
pub open spec fn triple_width(all: Seq<(Seq<char>, Seq<char>)>) -> int {
    (if all.len() == 0 {
        35
    } else {
        max_pair_width(all) as int
    }) + 5
}

/// The note after a Win32 value that another source holds differently.
pub open spec fn drift_note(v: Verbosity, tag: Seq<char>, w: Seq<char>, other: Option<Seq<char>>) -> Seq<char> {
    match other {
        Some(x) => if !functional_eq_spec(w, x) {
            " "@ + icon_format_spec(v, AliasIcon::Alert, "!!"@) + " "@ + tag + ": '"@ + x + "'"@
        } else {
            Seq::empty()
        },
        None => Seq::empty(),
    }
}

pub open spec fn drifts(w: Seq<char>, other: Option<Seq<char>>) -> bool {
    other is Some && !functional_eq_spec(w, other.unwrap())
}

/// The first `i` Win32 aliases: the text so far, the wrapper and file pairs not yet met, and
/// whether anything was flagged.
pub open spec fn win_pass(
    v: Verbosity,
    ws: Seq<(Seq<char>, Seq<char>)>,
    d: Seq<(Seq<char>, Seq<char>)>,
    f: Seq<(Seq<char>, Seq<char>)>,
    width: int,
    i: int,
) -> (Seq<char>, Seq<(Seq<char>, Seq<char>)>, Seq<(Seq<char>, Seq<char>)>, bool)
    decreases i,
{
    if i <= 0 {
        (Seq::empty(), d, f, false)
    } else {
        let (t, d1, f1, flag) = win_pass(v, ws, d, f, width, i - 1);
        let (line, d2, f2, fl) = win_step(v, ws[i - 1].0, ws[i - 1].1, d1, f1, width);
        (t + line, d2, f2, flag || fl)
    }
}

/// The note of a macro in memory that the alias file lacks (a phantom).
pub open spec fn phantom_note(v: Verbosity, missing: bool) -> Seq<char> {
    if missing {
        " "@ + icon_format_spec(v, AliasIcon::Alert, "<- PHANTOM (Not in File)"@)
    } else {
        Seq::empty()
    }
}

/// The line of one Win32 alias `name`/`wv` against the wrapper and file pairs not yet met;
/// one the file lacks is marked a phantom.
pub open spec fn win_step(
    v: Verbosity,
    name: Seq<char>,
    wv: Seq<char>,
    d1: Seq<(Seq<char>, Seq<char>)>,
    f1: Seq<(Seq<char>, Seq<char>)>,
    width: int,
) -> (Seq<char>, Seq<(Seq<char>, Seq<char>)>, Seq<(Seq<char>, Seq<char>)>, bool) {
    let (dv, d2) = pluck(d1, name);
    let (fv, f2) = pluck(f1, name);
    let corrupt = !valid_name_spec(name);
    let line = align_spec(v, name, wv, width, (true, dv is Some, fv is Some)) + (if corrupt {
        " "@ + icon_format_spec(v, AliasIcon::Fail, "!! CORRUPT NAME"@)
    } else {
        Seq::empty()
    }) + drift_note(v, "D"@, wv, dv) + drift_note(v, "F"@, wv, fv) + phantom_note(v, fv is None) + "\n"@;
    (line, d2, f2, corrupt || drifts(wv, dv) || drifts(wv, fv) || fv is None)
}

/// The first `i` wrapper aliases that Win32 does not hold: the text and the file pairs not
/// yet met.
pub open spec fn phantom_pass(
    v: Verbosity,
    ds: Seq<(Seq<char>, Seq<char>)>,
    f: Seq<(Seq<char>, Seq<char>)>,
    width: int,
    i: int,
) -> (Seq<char>, Seq<(Seq<char>, Seq<char>)>)
    decreases i,
{
    if i <= 0 {
        (Seq::empty(), f)
    } else {
        let (t, f1) = phantom_pass(v, ds, f, width, i - 1);
        let name = ds[i - 1].0;
        let (fv, f2) = pluck(f1, name);
        let line = align_spec(v, name, ds[i - 1].1, width, (false, true, fv is Some)) + " "@
            + icon_format_spec(v, AliasIcon::Alert, "<- PHANTOM (Not in Kernel)"@) + (if !valid_name_spec(name) {
            " !! CORRUPT"@
        } else {
            Seq::empty()
        }) + "\n"@;
        (t + line, f2)
    }
}

/// The lines of the file aliases that neither Win32 nor the wrapper holds.
pub open spec fn pending_text(v: Verbosity, fs: Seq<(Seq<char>, Seq<char>)>, width: int) -> Seq<char>
    decreases fs.len(),
{
    if fs.len() == 0 {
        Seq::empty()
    } else {
        let p = fs.last();
        pending_text(v, fs.drop_last(), width) + align_spec(v, p.0, p.1, width, (false, false, true))
            + " "@ + icon_format_spec(v, AliasIcon::Alert, "<- PENDING (Not in RAM)"@) + (if !valid_name_spec(p.0) {
            " !! CORRUPT"@
        } else {
            Seq::empty()
        }) + "\n"@
    }
}

/// What the triple audit prints: a header; a line per Win32 alias, with notes for an illegal
/// name, for a wrapper or file value that differs (quotes aside) and for a macro the file
/// lacks (a phantom); a line per wrapper alias
/// Win32 lacks (a phantom); a line per file alias neither holds (pending); and a tip when
/// anything was flagged.
pub open spec fn triple_audit_spec(
    v: Verbosity,
    w: Seq<(Seq<char>, Seq<char>)>,
    d: Seq<(Seq<char>, Seq<char>)>,
    f: Seq<(Seq<char>, Seq<char>)>,
) -> Seq<char> {
    let width = triple_width(w + d + f);
    let header = said(v, icon_format_spec(v, AliasIcon::Info, "Triple Audit [W=Win32, D=Doskey, F=File]\n"@));
    let (t1, d1, f1, flag) = win_pass(v, w, d, f, width, w.len() as int);
    let (t2, f2) = phantom_pass(v, d1, f1, width, d1.len() as int);
    let t3 = pending_text(v, f2, width);
    header + t1 + t2 + t3 + if flag || d1.len() > 0 || f2.len() > 0 {
        said(v, icon_format_spec(v, AliasIcon::NoIcon, ""@)) + said(
            v,
            icon_format_spec(v, AliasIcon::Info, "Tip: Run `alias --reload` to synchronize all layers."@),
        )
    } else {
        Seq::empty()
    }
}

fn widest_pair(l: &Vec<(String, String)>, start: u128) -> (r: u128)
    requires
        start <= 12 * (usize::MAX as int),
    ensures
        r == if max_pair_width(pair_views(l@)) >= start {
            max_pair_width(pair_views(l@)) as int
        } else {
            start as int
        },
        r <= 12 * (usize::MAX as int),
{
    let ghost lv = pair_views(l@);
    let mut best = start;
    let mut i: usize = 0;
    while i < l.len()
        invariant
            i <= l@.len(),
            lv == pair_views(l@),
            start <= 12 * (usize::MAX as int),
            best == if max_pair_width(lv.take(i as int)) >= start {
                max_pair_width(lv.take(i as int)) as int
            } else {
                start as int
            },
            best <= 12 * (usize::MAX as int),
        decreases l@.len() - i,
    {
        let a = str_bytes(l[i].0.as_str());
        let b = str_bytes(l[i].1.as_str());
        let w = a + b + 1;
        proof {
            assert(lv.take(i + 1).drop_last() =~= lv.take(i as int));
            assert(lv.take(i + 1).last() == (l@[i as int].0@, l@[i as int].1@));
        }
        if w > best {
            best = w;
        }
        i = i + 1;
    }
    assert(lv.take(l@.len() as int) =~= lv);
    best
}

proof fn lemma_max_pair_width_concat(a: Seq<(Seq<char>, Seq<char>)>, b: Seq<(Seq<char>, Seq<char>)>)
    ensures
        max_pair_width(a + b) == if max_pair_width(b) >= max_pair_width(a) {
            max_pair_width(b)
        } else {
            max_pair_width(a)
        },
    decreases b.len(),
{
    if b.len() == 0 {
        assert(a + b =~= a);
    } else {
        assert((a + b).drop_last() =~= a + b.drop_last());
        lemma_max_pair_width_concat(a, b.drop_last());
    }
}

proof fn lemma_max_pair_width_zero(a: Seq<(Seq<char>, Seq<char>)>)
    ensures
        a.len() > 0 ==> max_pair_width(a) >= 1,
    decreases a.len(),
{
    if a.len() > 0 {
        lemma_max_pair_width_zero(a.drop_last());
    }
}

fn note_drift(buf: &mut Vec<char>, v: &Verbosity, tag: &str, w: &str, other: &Option<String>) -> (r: bool)
    ensures
        final(buf)@ == old(buf)@ + drift_note(*v, tag@, w@, opt_chars(*other)),
        r == drifts(w@, opt_chars(*other)),
{
    match other {
        Some(x) => {
            if !functional_cmp(w, x.as_str()) {
                let ghost start = buf@;
                push_str(buf, " ");
                let mark = v.icon_format(AliasIcon::Alert, "!!");
                push_str(buf, mark.as_str());
                push_str(buf, " ");
                push_str(buf, tag);
                push_str(buf, ": '");
                push_str(buf, x.as_str());
                push_str(buf, "'");
                assert(buf@ =~= start + drift_note(*v, tag@, w@, opt_chars(*other)));
                true
            } else {
                assert(buf@ =~= buf@ + Seq::<char>::empty());
                false
            }
        },
        None => {
            assert(buf@ =~= buf@ + Seq::<char>::empty());
            false
        },
    }
}

#[verifier::rlimit(40)]
fn win_line(
    v: &Verbosity,
    name: &str,
    w_val: &str,
    d: &mut Vec<(String, String)>,
    f: &mut Vec<(String, String)>,
    width: u128,
    buf: &mut Vec<char>,
) -> (flag: bool)
    ensures
    ({
        let (t, d1, f1, fl) = win_step(*v, name@, w_val@, pair_views(old(d)@), pair_views(old(f)@), width as int);
        &&& final(buf)@ == old(buf)@ + t
        &&& pair_views(final(d)@) == d1
        &&& pair_views(final(f)@) == f1
        &&& flag == fl
    }),
{
    let ghost before = buf@;
    let dv = pluck_exec(d, name);
    let fv = pluck_exec(f, name);
    let line = v.align(name, w_val, width, (true, dv.is_some(), fv.is_some()));
    push_str(buf, line.as_str());
    let ghost s1 = buf@;
    let corrupt = !is_valid_name(name);
    let ghost corrupt_text = if corrupt {
        " "@ + icon_format_spec(*v, AliasIcon::Fail, "!! CORRUPT NAME"@)
    } else {
        Seq::<char>::empty()
    };
    if corrupt {
        push_str(buf, " ");
        let mark = v.icon_format(AliasIcon::Fail, "!! CORRUPT NAME");
        push_str(buf, mark.as_str());
    }
    assert(buf@ =~= s1 + corrupt_text);
    let ghost s2 = buf@;
    let d_drift = note_drift(buf, v, "D", w_val, &dv);
    let ghost s3 = buf@;
    let f_drift = note_drift(buf, v, "F", w_val, &fv);
    let ghost s4 = buf@;
    let missing = fv.is_none();
    if missing {
        push_str(buf, " ");
        let mark = v.icon_format(AliasIcon::Alert, "<- PHANTOM (Not in File)");
        push_str(buf, mark.as_str());
    }
    assert(buf@ =~= s4 + phantom_note(*v, missing));
    let ghost s5 = buf@;
    push_str(buf, "\n");
    proof {
        assert(s1 == before + align_spec(*v, name@, w_val@, width as int, (true, dv is Some, fv is Some)));
        assert(s3 == s2 + drift_note(*v, "D"@, w_val@, opt_chars(dv)));
        assert(s4 == s3 + drift_note(*v, "F"@, w_val@, opt_chars(fv)));
        assert(buf@ =~= before + (align_spec(*v, name@, w_val@, width as int, (true, dv is Some, fv is Some)) + corrupt_text + drift_note(*v, "D"@, w_val@, opt_chars(dv)) + drift_note(*v, "F"@, w_val@, opt_chars(fv)) + phantom_note(*v, opt_chars(fv) is None) + "\n"@));
    }
    corrupt || d_drift || f_drift || missing
}

fn win_pass_exec(
    v: &Verbosity,
    ws: &Vec<(String, String)>,
    d: &mut Vec<(String, String)>,
    f: &mut Vec<(String, String)>,
    width: u128,
    buf: &mut Vec<char>,
) -> (flag: bool)
    ensures
        ({
            let (t, d1, f1, fl) = win_pass(*v, pair_views(ws@), pair_views(old(d)@), pair_views(old(f)@), width as int, ws@.len() as int);
            &&& final(buf)@ == old(buf)@ + t
            &&& pair_views(final(d)@) == d1
            &&& pair_views(final(f)@) == f1
            &&& flag == fl
        }),
{
    let ghost wv = pair_views(ws@);
    let ghost d0 = pair_views(d@);
    let ghost f0 = pair_views(f@);
    let ghost start = buf@;
    let mut flag = false;
    let mut i: usize = 0;
    while i < ws.len()
        invariant
            i <= ws@.len(),
            wv == pair_views(ws@),
            ({
                let (t, d1, f1, fl) = win_pass(*v, wv, d0, f0, width as int, i as int);
                &&& buf@ == start + t
                &&& pair_views(d@) == d1
                &&& pair_views(f@) == f1
                &&& flag == fl
            }),
        decreases ws@.len() - i,
    {
        let name = ws[i].0.as_str();
        let w_val = ws[i].1.as_str();
        assert(wv[i as int] == (name@, w_val@));
        let fl = win_line(v, name, w_val, d, f, width, buf);
        flag = flag || fl;
        i = i + 1;
    }
    flag
}

fn phantom_pass_exec(
    v: &Verbosity,
    ds: &Vec<(String, String)>,
    f: &mut Vec<(String, String)>,
    width: u128,
    buf: &mut Vec<char>,
)
    ensures
        ({
            let (t, f1) = phantom_pass(*v, pair_views(ds@), pair_views(old(f)@), width as int, ds@.len() as int);
            &&& final(buf)@ == old(buf)@ + t
            &&& pair_views(final(f)@) == f1
        }),
{
    let ghost dv = pair_views(ds@);
    let ghost f0 = pair_views(f@);
    let ghost start = buf@;
    let mut i: usize = 0;
    while i < ds.len()
        invariant
            i <= ds@.len(),
            dv == pair_views(ds@),
            ({
                let (t, f1) = phantom_pass(*v, dv, f0, width as int, i as int);
                &&& buf@ == start + t
                &&& pair_views(f@) == f1
            }),
        decreases ds@.len() - i,
    {
        let name = ds[i].0.as_str();
        let d_val = ds[i].1.as_str();
        assert(dv[i as int] == (name@, d_val@));
        let ghost before = buf@;
        let fv = pluck_exec(f, name);
        let line = v.align(name, d_val, width, (false, true, fv.is_some()));
        push_str(buf, line.as_str());
        push_str(buf, " ");
        let mark = v.icon_format(AliasIcon::Alert, "<- PHANTOM (Not in Kernel)");
        push_str(buf, mark.as_str());
        if !is_valid_name(name) {
            push_str(buf, " !! CORRUPT");
        }
        push_str(buf, "\n");
        proof {
            let corrupt_text = if !valid_name_spec(name@) {
                " !! CORRUPT"@
            } else {
                Seq::<char>::empty()
            };
            assert(buf@ =~= before + (align_spec(*v, name@, d_val@, width as int, (false, true, fv is Some)) + " "@ + icon_format_spec(*v, AliasIcon::Alert, "<- PHANTOM (Not in Kernel)"@) + corrupt_text + "\n"@));
        }
        i = i + 1;
    }
}

fn pending_exec(v: &Verbosity, fs: &Vec<(String, String)>, width: u128, buf: &mut Vec<char>)
    ensures
        final(buf)@ == old(buf)@ + pending_text(*v, pair_views(fs@), width as int),
{
    let ghost fv = pair_views(fs@);
    let ghost start = buf@;
    let mut i: usize = 0;
    while i < fs.len()
        invariant
            i <= fs@.len(),
            fv == pair_views(fs@),
            buf@ == start + pending_text(*v, fv.take(i as int), width as int),
        decreases fs@.len() - i,
    {
        let name = fs[i].0.as_str();
        let f_val = fs[i].1.as_str();
        assert(fv[i as int] == (name@, f_val@));
        let ghost before = buf@;
        let line = v.align(name, f_val, width, (false, false, true));
        push_str(buf, line.as_str());
        push_str(buf, " ");
        let mark = v.icon_format(AliasIcon::Alert, "<- PENDING (Not in RAM)");
        push_str(buf, mark.as_str());
        if !is_valid_name(name) {
            push_str(buf, " !! CORRUPT");
        }
        push_str(buf, "\n");
        proof {
            assert(fv.take(i + 1).drop_last() =~= fv.take(i as int));
            assert(fv.take(i + 1).last() == (name@, f_val@));
            let corrupt_text = if !valid_name_spec(name@) {
                " !! CORRUPT"@
            } else {
                Seq::<char>::empty()
            };
            assert(buf@ =~= before + (align_spec(*v, name@, f_val@, width as int, (false, false, true)) + " "@ + icon_format_spec(*v, AliasIcon::Alert, "<- PENDING (Not in RAM)"@) + corrupt_text + "\n"@));
        }
        i = i + 1;
    }
    assert(fv.take(fs@.len() as int) =~= fv);
}

/// The text the triple audit of the Win32 aliases, the wrapper's aliases and the file's
/// aliases prints.
pub fn perform_triple_audit(
    verbosity: &Verbosity,
    win32_pairs: Vec<(String, String)>,
    wrap_pairs: Vec<(String, String)>,
    file_pairs: Vec<(String, String)>,
) -> (r: String)
    ensures
        r@ == triple_audit_spec(*verbosity, pair_views(win32_pairs@), pair_views(wrap_pairs@), pair_views(file_pairs@)),
{
    let ghost w = pair_views(win32_pairs@);
    let ghost d = pair_views(wrap_pairs@);
    let ghost f = pair_views(file_pairs@);
    let b1 = widest_pair(&win32_pairs, 0);
    let b2 = widest_pair(&wrap_pairs, b1);
    let b3 = widest_pair(&file_pairs, b2);
    proof {
        lemma_max_pair_width_concat(w, d);
        lemma_max_pair_width_concat(w + d, f);
        lemma_max_pair_width_zero(w + d + f);
        assert(pair_views(win32_pairs@).len() == win32_pairs@.len());
        assert(pair_views(wrap_pairs@).len() == wrap_pairs@.len());
        assert(pair_views(file_pairs@).len() == file_pairs@.len());
    }
    let any = win32_pairs.len() > 0 || wrap_pairs.len() > 0 || file_pairs.len() > 0;
    let width: u128 = (if any {
        b3
    } else {
        35
    }) + 5;
    assert(width == triple_width(w + d + f));
    let mut buf: Vec<char> = Vec::new();
    let head = verbosity.icon_format(AliasIcon::Info, "Triple Audit [W=Win32, D=Doskey, F=File]\n");
    let head_said = verbosity.said_text(head.as_str());
    push_str(&mut buf, head_said.as_str());
    let mut wrap = wrap_pairs;
    let mut file = file_pairs;
    let flag = win_pass_exec(verbosity, &win32_pairs, &mut wrap, &mut file, width, &mut buf);
    phantom_pass_exec(verbosity, &wrap, &mut file, width, &mut buf);
    pending_exec(verbosity, &file, width, &mut buf);
    proof {
        assert(pair_views(wrap@).len() == wrap@.len());
        assert(pair_views(file@).len() == file@.len());
    }
    if flag || wrap.len() > 0 || file.len() > 0 {
        let gap = verbosity.icon_format(AliasIcon::NoIcon, "");
        let gap_said = verbosity.said_text(gap.as_str());
        push_str(&mut buf, gap_said.as_str());
        let tip = verbosity.icon_format(AliasIcon::Info, "Tip: Run `alias --reload` to synchronize all layers.");
        let tip_said = verbosity.said_text(tip.as_str());
        push_str(&mut buf, tip_said.as_str());
    }
    string_of(buf.as_slice())
}

// ---------------------------------------------------------------------------
// The diagnostics report
// ---------------------------------------------------------------------------

/// A property line of the diagnostics (label column 15 wide), with its end.
pub open spec fn diag_line(v: Verbosity, label: Seq<char>, value: Seq<char>) -> Seq<char> {
    match property_spec(v, label, value, 15, (false, false, false)) {
        Some(l) => l + "\n"@,
        None => Seq::empty(),
    }
}

pub open spec fn file_status_spec(v: Verbosity, r: DiagnosticReport) -> Seq<char> {
    if !r.file_exists {
        icon_format_spec(v, AliasIcon::Fail, "MISSING"@)
    } else if r.is_readonly {
        icon_format_spec(v, AliasIcon::Alert, "READ-ONLY"@)
    } else {
        icon_format_spec(v, AliasIcon::Okay, "WRITABLE"@)
    }
}

pub open spec fn drive_spec(v: Verbosity, r: DiagnosticReport) -> Seq<char> {
    if r.drive_responsive {
        icon_format_spec(v, AliasIcon::Okay, "RESPONSIVE"@)
    } else {
        icon_format_spec(v, AliasIcon::Fail, "TIMEOUT / UNREACHABLE"@)
    }
}

pub open spec fn registry_spec(v: Verbosity, s: RegistryStatus) -> Seq<char> {
    match s {
        RegistryStatus::Uninitialized => icon_format_spec(v, AliasIcon::Shout, "Not checked"@),
        RegistryStatus::Synced => icon_format_spec(v, AliasIcon::Okay, "SYNCED"@),
        RegistryStatus::NotFound => icon_format_spec(v, AliasIcon::Alert, "NOT FOUND (Run --setup)"@),
        RegistryStatus::Mismatch(m) => icon_format_spec(v, AliasIcon::Alert, "MISMATCH: "@ + m@),
    }
}

/// The Win32 line: the Win32 icon when the status says `CONNECTED`, the Fail icon otherwise.
pub open spec fn api_spec(v: Verbosity, api: Seq<char>) -> Seq<char> {
    icon_format_spec(
        v,
        if has_sub(api, "CONNECTED"@) {
            AliasIcon::Win32
        } else {
            AliasIcon::Fail
        },
        api,
    )
}

/// What the diagnostics print: a heading, the binary (when known), the environment and the
/// resolved file, the file's state, the drive, the registry, the Win32 link (when known), and
/// a closing line.
pub open spec fn diagnostics_spec(r: DiagnosticReport, v: Verbosity) -> Seq<char> {
    shouted(v, icon_format_spec(v, AliasIcon::Tools, "--- Alias Tool Diagnostics ---"@)) + (match r.binary_path {
        Some(p) => diag_line(v, "Binary Loc"@, p@),
        None => Seq::empty(),
    }) + diag_line(v, "File Var"@, r.env_file@) + diag_line(v, "Env Var"@, r.env_opts@) + diag_line(
        v,
        "Resolved"@,
        r.resolved_path@,
    ) + diag_line(v, "File Status"@, file_status_spec(v, r)) + diag_line(v, "Drive"@, drive_spec(v, r))
        + diag_line(v, "Registry"@, registry_spec(v, r.registry_status)) + (match r.api_status {
        Some(api) => diag_line(v, "Win32 API"@, api_spec(v, api@)),
        None => Seq::empty(),
    }) + shouted(v, icon_format_spec(v, AliasIcon::Info, "Diagnostic check complete."@))
}

fn push_diag(buf: &mut Vec<char>, v: &Verbosity, label: &str, value: &str)
    ensures
        final(buf)@ == old(buf)@ + diag_line(*v, label@, value@),
{
    match v.property(label, value, 15, (false, false, false)) {
        Some(l) => {
            let ghost start = buf@;
            push_str(buf, l.as_str());
            push_str(buf, "\n");
            assert(buf@ =~= start + (l@ + "\n"@));
        },
        None => {
            assert(buf@ =~= buf@ + Seq::<char>::empty());
        },
    }
}

/// The text the diagnostics of `report` print.
pub fn render_diagnostics(report: DiagnosticReport, verbosity: &Verbosity) -> (r: String)
    ensures
        r@ == diagnostics_spec(report, *verbosity),
{
    let v = verbosity;
    let mut buf: Vec<char> = Vec::new();
    let head = v.icon_format(AliasIcon::Tools, "--- Alias Tool Diagnostics ---");
    let head_line = v.shouted_text(head.as_str());
    push_str(&mut buf, head_line.as_str());
    let ghost s0 = buf@;
    match &report.binary_path {
        Some(p) => push_diag(&mut buf, v, "Binary Loc", p.as_str()),
        None => {},
    }
    assert(buf@ =~= s0 + match report.binary_path {
        Some(p) => diag_line(*v, "Binary Loc"@, p@),
        None => Seq::empty(),
    });
    push_diag(&mut buf, v, "File Var", report.env_file.as_str());
    push_diag(&mut buf, v, "Env Var", report.env_opts.as_str());
    push_diag(&mut buf, v, "Resolved", report.resolved_path.as_str());
    let file_status = if !report.file_exists {
        v.icon_format(AliasIcon::Fail, "MISSING")
    } else if report.is_readonly {
        v.icon_format(AliasIcon::Alert, "READ-ONLY")
    } else {
        v.icon_format(AliasIcon::Okay, "WRITABLE")
    };
    push_diag(&mut buf, v, "File Status", file_status.as_str());
    let drive = if report.drive_responsive {
        v.icon_format(AliasIcon::Okay, "RESPONSIVE")
    } else {
        v.icon_format(AliasIcon::Fail, "TIMEOUT / UNREACHABLE")
    };
    push_diag(&mut buf, v, "Drive", drive.as_str());
    let reg = match &report.registry_status {
        RegistryStatus::Uninitialized => v.icon_format(AliasIcon::Shout, "Not checked"),
        RegistryStatus::Synced => v.icon_format(AliasIcon::Okay, "SYNCED"),
        RegistryStatus::NotFound => v.icon_format(AliasIcon::Alert, "NOT FOUND (Run --setup)"),
        RegistryStatus::Mismatch(m) => {
            let msg = concat("MISMATCH: ", m.as_str());
            v.icon_format(AliasIcon::Alert, msg.as_str())
        },
    };
    push_diag(&mut buf, v, "Registry", reg.as_str());
    let ghost s1 = buf@;
    match &report.api_status {
        Some(api) => {
            let av = chars_of(api.as_str());
            let needle = chars_of("CONNECTED");
            let icon = if contains_sub(av.as_slice(), needle.as_slice()) {
                AliasIcon::Win32
            } else {
                AliasIcon::Fail
            };
            let line = v.icon_format(icon, api.as_str());
            push_diag(&mut buf, v, "Win32 API", line.as_str());
        },
        None => {},
    }
    assert(buf@ =~= s1 + match report.api_status {
        Some(api) => diag_line(*v, "Win32 API"@, api_spec(*v, api@)),
        None => Seq::empty(),
    });
    let tail = v.icon_format(AliasIcon::Info, "Diagnostic check complete.");
    let tail_line = v.shouted_text(tail.as_str());
    push_str(&mut buf, tail_line.as_str());
    string_of(buf.as_slice())
}

// ---------------------------------------------------------------------------
// The mesh misses no alias of the system
// ---------------------------------------------------------------------------

pub open spec fn has_name(m: Seq<(Seq<char>, Seq<char>)>, k: Seq<char>) -> bool {
    exists|j: int| 0 <= j < m.len() && (#[trigger] m[j]).0 == k
}

pub open spec fn met_with_value(acc: Seq<MeshView>, k: Seq<char>) -> bool {
    exists|t: int| 0 <= t < acc.len() && (#[trigger] acc[t]).name == k && acc[t].os_value is Some
}

proof fn lemma_has_name_first(m: Seq<(Seq<char>, Seq<char>)>, k: Seq<char>)
    requires
        has_name(m, k),
    ensures
        first_named(m, k) >= 0,
{
    lemma_first_named(m, k);
}

proof fn lemma_put_keeps(m: Seq<(Seq<char>, Seq<char>)>, k2: Seq<char>, v: Seq<char>, k: Seq<char>)
    requires
        has_name(m, k) || k == k2,
    ensures
        has_name(put(m, k2, v), k),
{
    lemma_first_named(m, k2);
    let i = first_named(m, k2);
    let p = put(m, k2, v);
    if k == k2 {
        if i >= 0 {
            assert(p[i].0 == k);
        } else {
            assert(p[m.len() as int].0 == k);
        }
    } else {
        let j = choose|j: int| 0 <= j < m.len() && (#[trigger] m[j]).0 == k;
        if i >= 0 {
            assert(j != i);
            assert(p[j] == m[j]);
        } else {
            assert(p[j] == m[j]);
        }
    }
}

proof fn lemma_collect_has(l: Seq<(Seq<char>, Seq<char>)>, k: Seq<char>)
    requires
        has_name(l, k),
    ensures
        has_name(collect_pairs(l), k),
    decreases l.len(),
{
    let j = choose|j: int| 0 <= j < l.len() && (#[trigger] l[j]).0 == k;
    if j == l.len() - 1 {
        lemma_put_keeps(collect_pairs(l.drop_last()), l.last().0, l.last().1, k);
    } else {
        assert(l.drop_last()[j] == l[j]);
        lemma_collect_has(l.drop_last(), k);
        lemma_put_keeps(collect_pairs(l.drop_last()), l.last().0, l.last().1, k);
    }
}

proof fn lemma_mesh_run_covers(files: Seq<(Seq<char>, Seq<char>)>, m0: Seq<(Seq<char>, Seq<char>)>, i: int, k: Seq<char>)
    requires
        0 <= i <= files.len(),
        has_name(m0, k),
    ensures
        met_with_value(mesh_run(files, m0, i).0, k) || has_name(mesh_run(files, m0, i).1, k),
    decreases i,
{
    if i > 0 {
        lemma_mesh_run_covers(files, m0, i - 1, k);
        let (acc, m) = mesh_run(files, m0, i - 1);
        let f = files[i - 1];
        let (o, m2) = pluck(m, f.0);
        let acc2 = acc.push(MeshView { name: f.0, os_value: o, file_value: Some(f.1) });
        assert(mesh_run(files, m0, i) == (acc2, m2));
        if met_with_value(acc, k) {
            let t = choose|t: int| 0 <= t < acc.len() && (#[trigger] acc[t]).name == k && acc[t].os_value is Some;
            assert(acc2[t] == acc[t]);
        } else {
            lemma_first_named(m, f.0);
            let idx = first_named(m, f.0);
            if f.0 == k {
                lemma_has_name_first(m, k);
                assert(acc2[acc.len() as int].name == k);
            } else {
                let j = choose|j: int| 0 <= j < m.len() && (#[trigger] m[j]).0 == k;
                if idx >= 0 {
                    assert(j != idx);
                    if j < idx {
                        assert(m2[j] == m[j]);
                    } else {
                        assert(m2[j - 1] == m[j]);
                    }
                } else {
                    assert(m2[j] == m[j]);
                }
            }
        }
    }
}

/// Every alias the system holds appears in the mesh with the system's value set: the file's
/// entries carry the ones the file names, the rest are appended.
pub proof fn lemma_mesh_covers_system(os: Seq<(Seq<char>, Seq<char>)>, files: Seq<(Seq<char>, Seq<char>)>)
    ensures
        forall|j: int| 0 <= j < os.len() ==> met_with_value(mesh_spec(os, files), #[trigger] os[j].0),
{
    assert forall|j: int| 0 <= j < os.len() implies met_with_value(mesh_spec(os, files), #[trigger] os[j].0) by {
        let k = os[j].0;
        assert(has_name(os, k));
        lemma_collect_has(os, k);
        lemma_mesh_run_covers(files, collect_pairs(os), files.len() as int, k);
        let (acc, rest) = mesh_run(files, collect_pairs(os), files.len() as int);
        let tail = rest.map_values(|p: (Seq<char>, Seq<char>)| MeshView { name: p.0, os_value: Some(p.1), file_value: None });
        let mesh = mesh_spec(os, files);
        assert(mesh == acc + tail);
        if met_with_value(acc, k) {
            let t = choose|t: int| 0 <= t < acc.len() && (#[trigger] acc[t]).name == k && acc[t].os_value is Some;
            assert(mesh[t] == acc[t]);
        } else {
            let r = choose|r: int| 0 <= r < rest.len() && (#[trigger] rest[r]).0 == k;
            assert(mesh[acc.len() + r] == tail[r]);
        }
    }
}

/// The text of the audit of the system's aliases against the file's.
pub fn perform_audit(os_pairs: Vec<(String, String)>, file_pairs: Vec<(String, String)>, verbosity: &Verbosity) -> (r: String)
    ensures
        r@ == display_audit_spec(*verbosity, mesh_spec(pair_views(os_pairs@), pair_views(file_pairs@))),
{
    let mesh = mesh_logic(os_pairs, file_pairs);
    display_audit(mesh.as_slice(), verbosity)
}

} // verus!
verus! {

/// Law: in the triple audit, a Win32 alias whose value in the alias file differs from the
/// Win32 value (quotes aside) is flagged, and its line shows the file's value as ` F: '...'`,
/// whatever the wrapper holds.
pub proof fn lemma_file_drift_flagged(
    v: Verbosity,
    name: Seq<char>,
    wv: Seq<char>,
    d1: Seq<(Seq<char>, Seq<char>)>,
    f1: Seq<(Seq<char>, Seq<char>)>,
    width: int,
    x: Seq<char>,
)
    requires
        pluck(f1, name).0 == Some(x),
        !functional_eq_spec(wv, x),
    ensures
        win_step(v, name, wv, d1, f1, width).3,
        exists|k: int|
            0 <= k && k + (" F: '"@ + x + "'"@).len() <= win_step(v, name, wv, d1, f1, width).0.len()
                && #[trigger] win_step(v, name, wv, d1, f1, width).0.subrange(k, k + (" F: '"@ + x + "'"@).len())
                == " F: '"@ + x + "'"@,
{
    reveal_strlit(" F: '");
    reveal_strlit(" ");
    reveal_strlit("F");
    reveal_strlit(": '");
    let (dv, d2) = pluck(d1, name);
    let fv = Some(x);
    let corrupt = !valid_name_spec(name);
    let pre = align_spec(v, name, wv, width, (true, dv is Some, fv is Some)) + (if corrupt {
        " "@ + icon_format_spec(v, AliasIcon::Fail, "!! CORRUPT NAME"@)
    } else {
        Seq::empty()
    }) + drift_note(v, "D"@, wv, dv);
    let head = " "@ + icon_format_spec(v, AliasIcon::Alert, "!!"@);
    let note = " F: '"@ + x + "'"@;
    assert(drift_note(v, "F"@, wv, fv) =~= head + note);
    let line = win_step(v, name, wv, d1, f1, width).0;
    let post = phantom_note(v, fv is None) + "\n"@;
    assert(line =~= pre + head + note + post);
    let k = (pre + head).len() as int;
    assert(line.subrange(k, k + note.len()) =~= note);
}

} // verus!

verus! {

/// Law: the diagnostics' file status of an existing alias file tells read-only from
/// writable: a read-only file's status ends with `READ-ONLY`, a writable file's with
/// `WRITABLE`, so the two never read alike.
pub proof fn lemma_file_status_readonly(v: Verbosity, r: DiagnosticReport)
    requires
        r.file_exists,
    ensures
        ({
            let s = file_status_spec(v, r);
            let w = if r.is_readonly { "READ-ONLY"@ } else { "WRITABLE"@ };
            s.len() >= w.len() && s.skip(s.len() - w.len()) == w
        }),
        file_status_spec(v, DiagnosticReport { is_readonly: true, ..r })
            != file_status_spec(v, DiagnosticReport { is_readonly: false, ..r }),
{
    reveal_strlit("READ-ONLY");
    reveal_strlit("WRITABLE");
    let ro = file_status_spec(v, DiagnosticReport { is_readonly: true, ..r });
    let rw = file_status_spec(v, DiagnosticReport { is_readonly: false, ..r });
    let s = file_status_spec(v, r);
    let w = if r.is_readonly { "READ-ONLY"@ } else { "WRITABLE"@ };
    assert(s.skip(s.len() - w.len()) =~= w);
    assert(ro.skip(ro.len() - 9) =~= "READ-ONLY"@);
    assert(rw.skip(rw.len() - 8) =~= "WRITABLE"@);
    assert(ro.last() == 'Y');
    assert(rw.last() == 'E');
}

} // verus!

verus! {

/// Law: in the triple audit, a Win32 alias whose value in the wrapper differs from the Win32
/// value (quotes aside) is flagged, and its line shows the wrapper's value as ` D: '...'`,
/// whatever the alias file holds.
pub proof fn lemma_wrapper_drift_flagged(
    v: Verbosity,
    name: Seq<char>,
    wv: Seq<char>,
    d1: Seq<(Seq<char>, Seq<char>)>,
    f1: Seq<(Seq<char>, Seq<char>)>,
    width: int,
    x: Seq<char>,
)
    requires
        pluck(d1, name).0 == Some(x),
        !functional_eq_spec(wv, x),
    ensures
        win_step(v, name, wv, d1, f1, width).3,
        exists|k: int|
            0 <= k && k + (" D: '"@ + x + "'"@).len() <= win_step(v, name, wv, d1, f1, width).0.len()
                && #[trigger] win_step(v, name, wv, d1, f1, width).0.subrange(k, k + (" D: '"@ + x + "'"@).len())
                == " D: '"@ + x + "'"@,
{
    reveal_strlit(" D: '");
    reveal_strlit(" ");
    reveal_strlit("D");
    reveal_strlit(": '");
    let dv = Some(x);
    let (fv, f2) = pluck(f1, name);
    let corrupt = !valid_name_spec(name);
    let pre = align_spec(v, name, wv, width, (true, dv is Some, fv is Some)) + (if corrupt {
        " "@ + icon_format_spec(v, AliasIcon::Fail, "!! CORRUPT NAME"@)
    } else {
        Seq::empty()
    });
    let head = " "@ + icon_format_spec(v, AliasIcon::Alert, "!!"@);
    let note = " D: '"@ + x + "'"@;
    assert(drift_note(v, "D"@, wv, dv) =~= head + note);
    let line = win_step(v, name, wv, d1, f1, width).0;
    let post = drift_note(v, "F"@, wv, fv) + phantom_note(v, fv is None) + "\n"@;
    assert(line =~= pre + head + note + post);
    let k = (pre + head).len() as int;
    assert(line.subrange(k, k + note.len()) =~= note);
}

} // verus!
