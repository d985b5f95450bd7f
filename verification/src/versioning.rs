//! The version of a package counted from its history: milestone commits, and the lines of
//! logic each milestone added.
use vstd::prelude::*;
use crate::text::{chars_of, lines, lines_spec, owned, starts_with, str_eq, trim_class, trim_ws, views, Trim};

verus! {

/// A version: the package, the numbers, and when it was counted.
#[derive(Debug, Clone)]
pub struct Versioning {
    pub lib: &'static str,
    pub major: u32,
    pub minor: u32,
    pub patch: u32,
    pub compile: u32,
    pub timestamp: &'static str,
}

/// What counting the history gives.
pub struct VersionData {
    pub pkg_name: String,
    pub major: u32,
    pub minor: u32,
    pub patch: u32,
    pub compile: u32,
    pub timestamp: String,
}

// ---------------------------------------------------------------------------
// One diff
// ---------------------------------------------------------------------------

/// Whether a diff line adds or removes a line (and is not a file header).
pub open spec fn is_change(line: Seq<char>) -> bool {
    ("+"@.is_prefix_of(line) || "-"@.is_prefix_of(line)) && !"+++"@.is_prefix_of(line)
        && !"---"@.is_prefix_of(line)
}

/// Whether the changed text is no logic: blank, or a comment.
pub open spec fn is_noise(content: Seq<char>) -> bool {
    content.len() == 0 || "//"@.is_prefix_of(content) || "/*"@.is_prefix_of(content) || "*"@.is_prefix_of(
        content,
    )
}

/// Whether a diff line changes a line of logic.
pub open spec fn is_logic_change(line: Seq<char>) -> bool {
    is_change(line) && !is_noise(trim_ws(line.drop_first()))
}

/// The lines of logic changed (churn) and added, over the lines of a diff.
pub open spec fn churn_counts(ls: Seq<Seq<char>>) -> (nat, nat)
    decreases ls.len(),
{
    if ls.len() == 0 {
        (0, 0)
    } else {
        let (c, a) = churn_counts(ls.drop_last());
        if is_logic_change(ls.last()) {
            (c + 1, if "+"@.is_prefix_of(ls.last()) {
                a + 1
            } else {
                a
            })
        } else {
            (c, a)
        }
    }
}

proof fn lemma_churn_bounds(ls: Seq<Seq<char>>)
    ensures
        churn_counts(ls).0 <= ls.len(),
        churn_counts(ls).1 <= churn_counts(ls).0,
    decreases ls.len(),
{
    if ls.len() > 0 {
        lemma_churn_bounds(ls.drop_last());
    }
}

/// The lines of logic a diff changes and adds (`git diff -U0` output): lines that start with
/// `+` or `-` (not the `+++`/`---` headers) whose text, trimmed, is neither empty nor a comment.
pub fn diff_churn(text: &str) -> (r: (u64, u64))
    ensures
        (r.0 as nat, r.1 as nat) == churn_counts(lines_spec(text@)),
{
    let ls = lines(text);
    let ghost lv = views(ls@);
    let plus = chars_of("+");
    let minus = chars_of("-");
    let ppp = chars_of("+++");
    let mmm = chars_of("---");
    let s1 = chars_of("//");
    let s2 = chars_of("/*");
    let s3 = chars_of("*");
    let mut churn: u64 = 0;
    let mut adds: u64 = 0;
    let mut i: usize = 0;
    while i < ls.len()
        invariant
            i <= ls@.len(),
            lv == views(ls@),
            plus@ == "+"@,
            minus@ == "-"@,
            ppp@ == "+++"@,
            mmm@ == "---"@,
            s1@ == "//"@,
            s2@ == "/*"@,
            s3@ == "*"@,
            (churn as nat, adds as nat) == churn_counts(lv.take(i as int)),
            churn <= i,
        decreases ls@.len() - i,
    {
        proof {
            assert(lv.take(i + 1).drop_last() =~= lv.take(i as int));
            assert(lv.take(i + 1).last() == ls@[i as int]@);
            lemma_churn_bounds(lv.take(i as int));
        }
        let line = chars_of(ls[i].as_str());
        let l = line.as_slice();
        let is_plus = starts_with(l, plus.as_slice());
        if (is_plus || starts_with(l, minus.as_slice())) && !starts_with(l, ppp.as_slice())
            && !starts_with(l, mmm.as_slice()) {
            proof {
                reveal_strlit("+");
                reveal_strlit("-");
            }
            assert(l@.len() >= 1);
            let rest = crate::text::slice_of(l, 1, l.len());
            assert(rest@ =~= line@.drop_first());
            let content = trim_class(rest.as_slice(), Trim::Space);
            let c = content.as_slice();
            if !(content.len() == 0 || starts_with(c, s1.as_slice()) || starts_with(c, s2.as_slice())
                || starts_with(c, s3.as_slice())) {
                churn = churn + 1;
                if is_plus {
                    adds = adds + 1;
                }
            }
        }
        i = i + 1;
    }
    assert(lv.take(ls@.len() as int) =~= lv);
    (churn, adds)
}

// ---------------------------------------------------------------------------
// The milestones
// ---------------------------------------------------------------------------

/// The milestone commits, newest first: the lines of the log, with the first commit of the
/// repository added last when the log holds some commits but not that one.
pub open spec fn milestones_spec(log: Seq<char>, first_commit: Seq<char>) -> Seq<Seq<char>> {
    let hs = lines_spec(log);
    if hs.len() > 0 && !hs.contains(first_commit) && first_commit.len() > 0 {
        hs.push(first_commit)
    } else {
        hs
    }
}

/// The milestone commits from the log's output and the repository's first commit.
pub fn milestone_hashes(log: &str, first_commit: &str) -> (r: Vec<String>)
    ensures
        views(r@) == milestones_spec(log@, first_commit@),
{
    let mut hs = lines(log);
    let ghost hv = views(hs@);
    if hs.len() == 0 {
        return hs;
    }
    let mut found = false;
    let mut i: usize = 0;
    while i < hs.len()
        invariant
            i <= hs@.len(),
            hv == views(hs@),
            found == exists|j: int| 0 <= j < i && hv[j] == first_commit@,
        decreases hs@.len() - i,
    {
        assert(hv[i as int] == hs@[i as int]@);
        if str_eq(hs[i].as_str(), first_commit) {
            found = true;
        }
        i = i + 1;
    }
    proof {
        if found {
            let j = choose|j: int| 0 <= j < hs@.len() && hv[j] == first_commit@;
            assert(hv.contains(first_commit@));
        } else {
            assert(!hv.contains(first_commit@));
        }
    }
    if !found && !first_commit.is_empty() {
        hs.push(owned(first_commit));
        proof {
            assert(views(hs@) =~= hv.push(first_commit@));
        }
    }
    hs
}

/// The pairs of consecutive milestones, newer first: each is diffed against the one before it.
pub fn hash_windows(hashes: &Vec<String>) -> (r: Vec<(String, String)>)
    ensures
        r@.len() == if hashes@.len() >= 2 {
            hashes@.len() - 1
        } else {
            0
        },
        forall|i: int| 0 <= i < r@.len() ==> (#[trigger] r@[i]).0@ == hashes@[i]@ && r@[i].1@ == hashes@[i + 1]@,
{
    let mut out: Vec<(String, String)> = Vec::new();
    if hashes.len() < 2 {
        return out;
    }
    let n = hashes.len();
    let mut i: usize = 0;
    while i < n - 1
        invariant
            n == hashes@.len(),
            n >= 2,
            i <= n - 1,
            out@.len() == i,
            forall|k: int| 0 <= k < i ==> (#[trigger] out@[k]).0@ == hashes@[k]@ && out@[k].1@ == hashes@[k + 1]@,
        decreases hashes@.len() - i,
    {
        out.push((hashes[i].clone(), hashes[i + 1].clone()));
        i = i + 1;
    }
    out
}

// ---------------------------------------------------------------------------
// The version
// ---------------------------------------------------------------------------

/// The version counted from the diffs between milestones: each diff that adds 100 or more
/// lines of logic is a minor step, one that adds 10 or more a patch; every changed line of
/// logic counts towards the build number.
pub open spec fn tally(diffs: Seq<Seq<char>>) -> (nat, nat, nat)
    decreases diffs.len(),
{
    if diffs.len() == 0 {
        (0, 0, 0)
    } else {
        let (mi, pa, co) = tally(diffs.drop_last());
        let (c, a) = churn_counts(lines_spec(diffs.last()));
        (if a >= 100 {
            mi + 1
        } else {
            mi
        }, if a < 100 && a >= 10 {
            pa + 1
        } else {
            pa
        }, co + c)
    }
}

/// Each milestone moves the version by at most one step: there are no more minor steps, and no
/// more patches, than diffs.
pub proof fn lemma_tally_bounds(d: Seq<Seq<char>>)
    ensures
        tally(d).0 <= d.len(),
        tally(d).1 <= d.len(),
    decreases d.len(),
{
    if d.len() > 0 {
        lemma_tally_bounds(d.drop_last());
    }
}

/// The version of `pkg_name` from the diffs between its milestones (`git diff -U0` output,
/// newest first) and the time it was counted.
pub fn calculate_reality(pkg_name: &str, major: u32, diffs: &Vec<String>, timestamp: &str) -> (r: VersionData)
    requires
        tally(views(diffs@)).2 <= u32::MAX,
        diffs@.len() <= u32::MAX,
    ensures
        r.pkg_name@ == pkg_name@,
        r.major == major,
        (r.minor as nat, r.patch as nat, r.compile as nat) == tally(views(diffs@)),
        r.timestamp@ == timestamp@,
{
    let ghost dv = views(diffs@);
    let mut minor: u64 = 0;
    let mut patch: u64 = 0;
    let mut compile: u64 = 0;
    let mut i: usize = 0;
    while i < diffs.len()
        invariant
            i <= diffs@.len(),
            dv == views(diffs@),
            (minor as nat, patch as nat, compile as nat) == tally(dv.take(i as int)),
            tally(dv).2 <= u32::MAX,
            diffs@.len() <= u32::MAX,
        decreases diffs@.len() - i,
    {
        proof {
            assert(dv.take(i + 1).drop_last() =~= dv.take(i as int));
            assert(dv.take(i + 1).last() == diffs@[i as int]@);
            lemma_tally_bounds(dv.take(i + 1));
            lemma_tally_prefix(dv, i + 1);
        }
        let (c, a) = diff_churn(diffs[i].as_str());
        if a >= 100 {
            minor = minor + 1;
        } else if a >= 10 {
            patch = patch + 1;
        }
        compile = compile + c;
        i = i + 1;
    }
    assert(dv.take(diffs@.len() as int) =~= dv);
    proof {
        lemma_tally_bounds(dv);
    }
    VersionData {
        pkg_name: owned(pkg_name),
        major,
        minor: minor as u32,
        patch: patch as u32,
        compile: compile as u32,
        timestamp: owned(timestamp),
    }
}

proof fn lemma_tally_prefix(d: Seq<Seq<char>>, i: int)
    requires
        0 <= i <= d.len(),
    ensures
        tally(d.take(i)).2 <= tally(d).2,
    decreases d.len() - i,
{
    if i < d.len() {
        lemma_tally_prefix(d, i + 1);
        assert(d.take(i + 1).drop_last() =~= d.take(i));
    } else {
        assert(d.take(i) =~= d);
    }
}

} // verus!
