//! The Homebrew back end: where `brew` lives, the command lines it is run
//! with, and what its search / list / outdated output becomes.
use vstd::prelude::*;
use crate::package::{hits_view, installed_view, HitView, InstalledPackage, InstalledView, PackageHit};
use crate::text::{
    chars_of, lines, matches_at, matches_at_exec, next_line, owned, push_owned, string_of_range,
    strings_view, trim, trim_bounds, words, words_in,
};
use crate::winget::first_n;

verus! {

/// The `brew` executable: the Apple-silicon location when it exists there,
/// else the Intel one.
pub open spec fn spec_exe(homebrew_present: bool) -> Seq<char> {
    if homebrew_present {
        "/opt/homebrew/bin/brew"@
    } else {
        "/usr/local/bin/brew"@
    }
}

pub fn exe(homebrew_present: bool) -> (s: &'static str)
    ensures
        s@ == spec_exe(homebrew_present),
{
    if homebrew_present {
        "/opt/homebrew/bin/brew"
    } else {
        "/usr/local/bin/brew"
    }
}

// ───────────────────────── command lines ─────────────────────────

pub open spec fn spec_search_args(query: Seq<char>) -> Seq<Seq<char>> {
    seq!["search"@, "--formula"@, query]
}

pub fn search_args(query: &str) -> (a: Vec<String>)
    ensures
        strings_view(a@) == spec_search_args(query@),
{
    let mut a: Vec<String> = Vec::new();
    push_owned(&mut a, "search");
    push_owned(&mut a, "--formula");
    push_owned(&mut a, query);
    assert(strings_view(a@) =~= spec_search_args(query@));
    a
}

/// `brew install pkg` or `brew upgrade pkg`; `--quiet` for a silent run.
pub open spec fn spec_op_args(install: bool, pkg: Seq<char>, silent: bool) -> Seq<Seq<char>> {
    let verb = if install {
        "install"@
    } else {
        "upgrade"@
    };
    if silent {
        seq![verb, pkg, "--quiet"@]
    } else {
        seq![verb, pkg]
    }
}

pub fn op_args(install: bool, pkg: &str, silent: bool) -> (a: Vec<String>)
    ensures
        strings_view(a@) == spec_op_args(install, pkg@, silent),
{
    let mut a: Vec<String> = Vec::new();
    if install {
        push_owned(&mut a, "install");
    } else {
        push_owned(&mut a, "upgrade");
    }
    push_owned(&mut a, pkg);
    if silent {
        push_owned(&mut a, "--quiet");
    }
    assert(strings_view(a@) =~= spec_op_args(install, pkg@, silent));
    a
}

pub open spec fn spec_upgrade_all_args() -> Seq<Seq<char>> {
    seq!["upgrade"@]
}

pub fn upgrade_all_args() -> (a: Vec<String>)
    ensures
        strings_view(a@) == spec_upgrade_all_args(),
{
    let mut a: Vec<String> = Vec::new();
    push_owned(&mut a, "upgrade");
    assert(strings_view(a@) =~= spec_upgrade_all_args());
    a
}

pub open spec fn spec_list_args(outdated: bool) -> Seq<Seq<char>> {
    if outdated {
        seq!["outdated"@, "--formula"@]
    } else {
        seq!["list"@, "--formula"@]
    }
}

/// `brew list --formula`, or `brew outdated --formula`.
pub fn list_args(outdated: bool) -> (a: Vec<String>)
    ensures
        strings_view(a@) == spec_list_args(outdated),
{
    let mut a: Vec<String> = Vec::new();
    if outdated {
        push_owned(&mut a, "outdated");
    } else {
        push_owned(&mut a, "list");
    }
    push_owned(&mut a, "--formula");
    assert(strings_view(a@) =~= spec_list_args(outdated));
    a
}

// ───────────────────────── search ─────────────────────────

/// Search output lines that hold formula names: not a `==>` heading, not blank.
pub open spec fn is_name_line(l: Seq<char>) -> bool {
    !matches_at(l, "==>"@, 0) && trim(l).len() > 0
}

/// All words of the name lines, in order.
pub open spec fn search_words(ls: Seq<Seq<char>>) -> Seq<Seq<char>>
    decreases ls.len(),
{
    if ls.len() == 0 {
        Seq::empty()
    } else {
        (if is_name_line(ls[0]) {
            words(ls[0])
        } else {
            Seq::empty()
        }) + search_words(ls.drop_first())
    }
}

pub open spec fn brew_hit(w: Seq<char>) -> HitView {
    HitView { name: w, id: w, version: Seq::empty(), source: "brew"@ }
}

/// At most this many search results are shown.
pub open spec fn brew_search_limit() -> nat {
    24
}

/// The search results for `brew search` output: one per formula name.
pub open spec fn spec_search_hits(stdout: Seq<char>) -> Seq<HitView> {
    first_n(search_words(lines(stdout)), brew_search_limit()).map_values(|w: Seq<char>| brew_hit(w))
}

pub fn search_hits(stdout: &str) -> (r: Vec<PackageHit>)
    ensures
        hits_view(r@) == spec_search_hits(stdout@),
{
    let s = chars_of(stdout);
    let n = s.len();
    let dash = chars_of("==>");
    let mut all: Vec<String> = Vec::new();
    let mut pos: usize = 0;
    assert(s@.subrange(0, n as int) =~= s@);
    assert(strings_view(all@) + search_words(lines(s@)) =~= search_words(lines(s@)));
    while pos < n
        invariant
            n == s@.len(),
            pos <= n,
            dash@ == "==>"@,
            search_words(lines(s@)) == strings_view(all@) + search_words(
                lines(s@.subrange(pos as int, n as int)),
            ),
        decreases n - pos,
    {
        let (end, next) = next_line(s.as_slice(), pos);
        let ghost ls = lines(s@.subrange(pos as int, n as int));
        let ghost l = s@.subrange(pos as int, end as int);
        assert(ls[0] == l);
        assert(ls.drop_first() =~= lines(s@.subrange(next as int, n as int)));
        let (a, b) = trim_bounds(s.as_slice(), pos, end);
        let ghost before = strings_view(all@);
        if !matches_at_exec(s.as_slice(), pos, end, dash.as_slice(), 0) && a < b {
            let ws = words_in(s.as_slice(), pos, end);
            let mut k: usize = 0;
            while k < ws.len()
                invariant
                    k <= ws@.len(),
                    strings_view(all@) == before + strings_view(ws@).subrange(0, k as int),
                decreases ws.len() - k,
            {
                let w = ws[k].clone();
                let ghost b2 = strings_view(all@);
                all.push(w);
                assert(strings_view(all@) =~= b2.push(strings_view(ws@)[k as int]));
                assert(strings_view(ws@).subrange(0, k + 1) =~= strings_view(ws@).subrange(
                    0,
                    k as int,
                ).push(strings_view(ws@)[k as int]));
                k = k + 1;
            }
            assert(strings_view(ws@).subrange(0, ws@.len() as int) =~= words(l));
            assert(before + words(l) + search_words(lines(s@.subrange(next as int, n as int)))
                =~= before + (words(l) + search_words(lines(s@.subrange(next as int, n as int)))));
        } else {
            assert(Seq::<Seq<char>>::empty() + search_words(
                lines(s@.subrange(next as int, n as int)),
            ) =~= search_words(lines(s@.subrange(next as int, n as int))));
        }
        pos = next;
    }
    assert(s@.subrange(n as int, n as int) =~= Seq::<char>::empty());
    assert(strings_view(all@) + Seq::<Seq<char>>::empty() =~= strings_view(all@));
    let ghost allv = strings_view(all@);
    let m = if all.len() < 24 {
        all.len()
    } else {
        24
    };
    let mut hits: Vec<PackageHit> = Vec::new();
    let mut i: usize = 0;
    while i < m
        invariant
            m <= all@.len(),
            allv == strings_view(all@),
            i <= m,
            hits_view(hits@) == allv.take(i as int).map_values(|w: Seq<char>| brew_hit(w)),
        decreases m - i,
    {
        let ghost before = hits_view(hits@);
        let h = PackageHit {
            name: all[i].clone(),
            id: all[i].clone(),
            version: String::new(),
            source: owned("brew"),
        };
        hits.push(h);
        assert(hits_view(hits@) =~= before.push(brew_hit(allv[i as int])));
        assert(allv.take(i + 1) =~= allv.take(i as int).push(allv[i as int]));
        i = i + 1;
    }
    assert(first_n(allv, brew_search_limit()) =~= allv.take(m as int));
    hits
}

// ───────────────────────── installed ─────────────────────────

/// The trimmed, non-blank lines of `brew list`.
pub open spec fn installed_names(ls: Seq<Seq<char>>) -> Seq<Seq<char>>
    decreases ls.len(),
{
    if ls.len() == 0 {
        Seq::empty()
    } else {
        (if trim(ls[0]).len() > 0 {
            seq![trim(ls[0])]
        } else {
            Seq::empty()
        }) + installed_names(ls.drop_first())
    }
}

/// The first word of every line of `brew outdated` that has one.
pub open spec fn outdated_names(ls: Seq<Seq<char>>) -> Seq<Seq<char>>
    decreases ls.len(),
{
    if ls.len() == 0 {
        Seq::empty()
    } else {
        (if words(ls[0]).len() > 0 {
            seq![words(ls[0])[0]]
        } else {
            Seq::empty()
        }) + outdated_names(ls.drop_first())
    }
}

pub open spec fn brew_installed(name: Seq<char>, outdated: Seq<Seq<char>>) -> InstalledView {
    InstalledView {
        name: name,
        id: name,
        version: Seq::empty(),
        available: Seq::empty(),
        has_update: outdated.contains(name),
        is_arp: false,
    }
}

/// The installed formulae, each marked outdated when `brew outdated` names it.
pub open spec fn spec_installed(list_stdout: Seq<char>, outdated_stdout: Seq<char>) -> Seq<
    InstalledView,
> {
    let outdated = outdated_names(lines(outdated_stdout));
    installed_names(lines(list_stdout)).map_values(|n: Seq<char>| brew_installed(n, outdated))
}

fn list_names(stdout: &str) -> (r: Vec<String>)
    ensures
        strings_view(r@) == installed_names(lines(stdout@)),
{
    let s = chars_of(stdout);
    let n = s.len();
    let mut out: Vec<String> = Vec::new();
    let mut pos: usize = 0;
    assert(s@.subrange(0, n as int) =~= s@);
    assert(strings_view(out@) + installed_names(lines(s@)) =~= installed_names(lines(s@)));
    while pos < n
        invariant
            n == s@.len(),
            pos <= n,
            installed_names(lines(s@)) == strings_view(out@) + installed_names(
                lines(s@.subrange(pos as int, n as int)),
            ),
        decreases n - pos,
    {
        let (end, next) = next_line(s.as_slice(), pos);
        let ghost ls = lines(s@.subrange(pos as int, n as int));
        let ghost l = s@.subrange(pos as int, end as int);
        let ghost rest = installed_names(lines(s@.subrange(next as int, n as int)));
        assert(ls[0] == l);
        assert(ls.drop_first() =~= lines(s@.subrange(next as int, n as int)));
        let (a, b) = trim_bounds(s.as_slice(), pos, end);
        let ghost before = strings_view(out@);
        if a < b {
            out.push(string_of_range(s.as_slice(), a, b));
            assert(strings_view(out@) =~= before.push(trim(l)));
            assert(before.push(trim(l)) + rest =~= before + (seq![trim(l)] + rest));
        } else {
            assert(Seq::<Seq<char>>::empty() + rest =~= rest);
        }
        pos = next;
    }
    assert(s@.subrange(n as int, n as int) =~= Seq::<char>::empty());
    assert(strings_view(out@) + Seq::<Seq<char>>::empty() =~= strings_view(out@));
    out
}

fn first_words(stdout: &str) -> (r: Vec<String>)
    ensures
        strings_view(r@) == outdated_names(lines(stdout@)),
{
    let s = chars_of(stdout);
    let n = s.len();
    let mut out: Vec<String> = Vec::new();
    let mut pos: usize = 0;
    assert(s@.subrange(0, n as int) =~= s@);
    assert(strings_view(out@) + outdated_names(lines(s@)) =~= outdated_names(lines(s@)));
    while pos < n
        invariant
            n == s@.len(),
            pos <= n,
            outdated_names(lines(s@)) == strings_view(out@) + outdated_names(
                lines(s@.subrange(pos as int, n as int)),
            ),
        decreases n - pos,
    {
        let (end, next) = next_line(s.as_slice(), pos);
        let ghost ls = lines(s@.subrange(pos as int, n as int));
        let ghost l = s@.subrange(pos as int, end as int);
        let ghost rest = outdated_names(lines(s@.subrange(next as int, n as int)));
        assert(ls[0] == l);
        assert(ls.drop_first() =~= lines(s@.subrange(next as int, n as int)));
        let ws = words_in(s.as_slice(), pos, end);
        let ghost before = strings_view(out@);
        if ws.len() > 0 {
            let w = ws[0].clone();
            assert(w@ == words(l)[0]);
            out.push(w);
            assert(strings_view(out@) =~= before.push(words(l)[0]));
            assert(before.push(words(l)[0]) + rest =~= before + (seq![words(l)[0]] + rest));
        } else {
            assert(Seq::<Seq<char>>::empty() + rest =~= rest);
        }
        pos = next;
    }
    assert(s@.subrange(n as int, n as int) =~= Seq::<char>::empty());
    assert(strings_view(out@) + Seq::<Seq<char>>::empty() =~= strings_view(out@));
    out
}

fn contains_name(names: &Vec<String>, name: &str) -> (b: bool)
    ensures
        b == strings_view(names@).contains(name@),
{
    let mut i: usize = 0;
    while i < names.len()
        invariant
            i <= names@.len(),
            forall|k: int| 0 <= k < i ==> names@[k]@ != name@,
        decreases names.len() - i,
    {
        if crate::text::same_text(names[i].as_str(), name) {
            assert(strings_view(names@)[i as int] == name@);
            return true;
        }
        i = i + 1;
    }
    false
}

pub fn installed(list_stdout: &str, outdated_stdout: &str) -> (r: Vec<InstalledPackage>)
    ensures
        installed_view(r@) == spec_installed(list_stdout@, outdated_stdout@),
{
    let names = list_names(list_stdout);
    let outdated = first_words(outdated_stdout);
    let ghost nv = strings_view(names@);
    let ghost ov = strings_view(outdated@);
    let mut out: Vec<InstalledPackage> = Vec::new();
    let mut i: usize = 0;
    while i < names.len()
        invariant
            i <= names@.len(),
            nv == strings_view(names@),
            ov == strings_view(outdated@),
            installed_view(out@) == nv.take(i as int).map_values(
                |n: Seq<char>| brew_installed(n, ov),
            ),
        decreases names.len() - i,
    {
        let name = names[i].clone();
        let has_update = contains_name(&outdated, name.as_str());
        let ghost before = installed_view(out@);
        out.push(
            InstalledPackage {
                name: name.clone(),
                id: name,
                version: String::new(),
                available: String::new(),
                has_update,
                is_arp: false,
            },
        );
        assert(installed_view(out@) =~= before.push(brew_installed(nv[i as int], ov)));
        assert(nv.take(i + 1) =~= nv.take(i as int).push(nv[i as int]));
        i = i + 1;
    }
    assert(nv.take(names@.len() as int) =~= nv);
    out
}

/// A brew search shows at most 24 results, each named by itself.
pub proof fn law_brew_search_limit(stdout: Seq<char>)
    ensures
        spec_search_hits(stdout).len() <= 24,
        forall|i: int| 0 <= i < spec_search_hits(stdout).len() ==> (#[trigger] spec_search_hits(stdout)[i]).id
            == spec_search_hits(stdout)[i].name,
{
}

} // verus!
