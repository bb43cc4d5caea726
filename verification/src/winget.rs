//! The `winget` back end: the command lines it is run with, and what its
//! search / list / upgrade tables become.
use vstd::prelude::*;
use crate::package::{hits_view, installed_view, HitView, InstalledPackage, InstalledView, PackageHit};
use crate::table::{parse_table, rows_view, spec_parse_table, RowView, TableRow};
use crate::text::{
    chars_of, matches_at, matches_at_exec, owned, push_owned, push_str, string_of, strings_view,
    trim, trim_bounds,
};

verus! {

// ───────────────────────── command lines ─────────────────────────

/// The operations run on one package.
#[derive(Clone, Copy, PartialEq, Eq, Structural, Debug)]
pub enum WingetOp {
    Install,
    Upgrade,
    Uninstall,
}

pub open spec fn silent_flags() -> Seq<Seq<char>> {
    seq!["--silent"@, "--disable-interactivity"@]
}

/// The arguments of `winget` for an operation on `pkg`; `silent` adds the
/// flags for an unattended run.
pub open spec fn spec_op_args(op: WingetOp, pkg: Seq<char>, silent: bool) -> Seq<Seq<char>> {
    let base = match op {
        WingetOp::Install => seq![
            "install"@,
            "--id"@,
            pkg,
            "--exact"@,
            "--accept-package-agreements"@,
            "--accept-source-agreements"@,
        ],
        WingetOp::Upgrade => seq![
            "upgrade"@,
            "--id"@,
            pkg,
            "--exact"@,
            "--accept-package-agreements"@,
            "--accept-source-agreements"@,
        ],
        WingetOp::Uninstall => seq!["uninstall"@, "--id"@, pkg, "--exact"@],
    };
    if silent {
        base + silent_flags()
    } else {
        base
    }
}

pub fn op_args(op: WingetOp, pkg: &str, silent: bool) -> (args: Vec<String>)
    ensures
        strings_view(args@) == spec_op_args(op, pkg@, silent),
{
    let mut a: Vec<String> = Vec::new();
    match op {
        WingetOp::Install => {
            push_owned(&mut a, "install");
            push_owned(&mut a, "--id");
            push_owned(&mut a, pkg);
            push_owned(&mut a, "--exact");
            push_owned(&mut a, "--accept-package-agreements");
            push_owned(&mut a, "--accept-source-agreements");
        },
        WingetOp::Upgrade => {
            push_owned(&mut a, "upgrade");
            push_owned(&mut a, "--id");
            push_owned(&mut a, pkg);
            push_owned(&mut a, "--exact");
            push_owned(&mut a, "--accept-package-agreements");
            push_owned(&mut a, "--accept-source-agreements");
        },
        WingetOp::Uninstall => {
            push_owned(&mut a, "uninstall");
            push_owned(&mut a, "--id");
            push_owned(&mut a, pkg);
            push_owned(&mut a, "--exact");
        },
    }
    let ghost base = strings_view(a@);
    if silent {
        push_owned(&mut a, "--silent");
        push_owned(&mut a, "--disable-interactivity");
        assert(strings_view(a@) =~= base + silent_flags());
    }
    assert(strings_view(a@) =~= spec_op_args(op, pkg@, silent));
    a
}

pub open spec fn spec_search_args(query: Seq<char>) -> Seq<Seq<char>> {
    seq!["search"@, query, "--accept-source-agreements"@]
}

pub fn search_args(query: &str) -> (args: Vec<String>)
    ensures
        strings_view(args@) == spec_search_args(query@),
{
    let mut a: Vec<String> = Vec::new();
    push_owned(&mut a, "search");
    push_owned(&mut a, query);
    push_owned(&mut a, "--accept-source-agreements");
    assert(strings_view(a@) =~= spec_search_args(query@));
    a
}

pub open spec fn spec_list_args() -> Seq<Seq<char>> {
    seq!["list"@, "--accept-source-agreements"@]
}

pub fn list_args() -> (args: Vec<String>)
    ensures
        strings_view(args@) == spec_list_args(),
{
    let mut a: Vec<String> = Vec::new();
    push_owned(&mut a, "list");
    push_owned(&mut a, "--accept-source-agreements");
    assert(strings_view(a@) =~= spec_list_args());
    a
}

pub open spec fn spec_upgradable_args() -> Seq<Seq<char>> {
    seq!["upgrade"@, "--accept-source-agreements"@]
}

/// The listing of packages with an available upgrade.
pub fn upgradable_args() -> (args: Vec<String>)
    ensures
        strings_view(args@) == spec_upgradable_args(),
{
    let mut a: Vec<String> = Vec::new();
    push_owned(&mut a, "upgrade");
    push_owned(&mut a, "--accept-source-agreements");
    assert(strings_view(a@) =~= spec_upgradable_args());
    a
}

pub open spec fn spec_upgrade_all_args() -> Seq<Seq<char>> {
    seq!["upgrade"@, "--all"@, "--accept-package-agreements"@, "--accept-source-agreements"@]
}

pub fn upgrade_all_args() -> (args: Vec<String>)
    ensures
        strings_view(args@) == spec_upgrade_all_args(),
{
    let mut a: Vec<String> = Vec::new();
    push_owned(&mut a, "upgrade");
    push_owned(&mut a, "--all");
    push_owned(&mut a, "--accept-package-agreements");
    push_owned(&mut a, "--accept-source-agreements");
    assert(strings_view(a@) =~= spec_upgrade_all_args());
    a
}

/// The arguments of `cmd` that run `winget` with `args` (winget is an app
/// execution alias that only works reliably through `cmd /c`).
pub open spec fn spec_cmd_args(args: Seq<Seq<char>>) -> Seq<Seq<char>> {
    seq!["/c"@, "winget"@] + args
}

pub fn cmd_args(args: &Vec<String>) -> (r: Vec<String>)
    ensures
        strings_view(r@) == spec_cmd_args(strings_view(args@)),
{
    let mut r: Vec<String> = Vec::new();
    push_owned(&mut r, "/c");
    push_owned(&mut r, "winget");
    let mut i: usize = 0;
    while i < args.len()
        invariant
            i <= args@.len(),
            strings_view(r@) == seq!["/c"@, "winget"@] + strings_view(args@).subrange(0, i as int),
        decreases args.len() - i,
    {
        let ghost before = strings_view(r@);
        let a = args[i].clone();
        assert(a@ == strings_view(args@)[i as int]);
        r.push(a);
        assert(strings_view(r@) =~= before.push(strings_view(args@)[i as int]));
        assert(strings_view(args@).subrange(0, i + 1) =~= strings_view(args@).subrange(
            0,
            i as int,
        ).push(strings_view(args@)[i as int]));
        i = i + 1;
        assert(strings_view(r@) =~= seq!["/c"@, "winget"@] + strings_view(args@).subrange(
            0,
            i as int,
        ));
    }
    assert(strings_view(args@).subrange(0, args@.len() as int) =~= strings_view(args@));
    r
}

/// The notice shown before a failed silent run is tried again interactively.
pub open spec fn spec_retry_notice(op: WingetOp) -> Seq<char> {
    match op {
        WingetOp::Install => "⚠  Silent install failed — retrying without --silent (an installer window may appear)…"@,
        _ => "⚠  Silent update failed — retrying without --silent (an installer window may appear)…"@,
    }
}

pub fn retry_notice(op: WingetOp) -> (s: String)
    ensures
        s@ == spec_retry_notice(op),
{
    match op {
        WingetOp::Install => owned(
            "⚠  Silent install failed — retrying without --silent (an installer window may appear)…",
        ),
        _ => owned(
            "⚠  Silent update failed — retrying without --silent (an installer window may appear)…",
        ),
    }
}

// ───────────────────────── errors ─────────────────────────

pub open spec fn winget_error_text(stderr: Seq<char>) -> Seq<char> {
    "winget error: "@ + trim(stderr)
}

/// `"winget error: "` followed by the trimmed error output.
pub fn winget_error(stderr: &str) -> (s: String)
    ensures
        s@ == winget_error_text(stderr@),
{
    let e = chars_of(stderr);
    assert(e@.subrange(0, e@.len() as int) =~= e@);
    let (a, b) = trim_bounds(e.as_slice(), 0, e.len());
    let mut v: Vec<char> = Vec::new();
    push_str(&mut v, "winget error: ");
    let ghost start = v@;
    let mut i = a;
    while i < b
        invariant
            a <= i <= b <= e@.len(),
            v@ == start + e@.subrange(a as int, i as int),
        decreases b - i,
    {
        v.push(e[i]);
        i = i + 1;
        assert(v@ =~= start + e@.subrange(a as int, i as int));
    }
    string_of(v.as_slice())
}

// ───────────────────────── search ─────────────────────────

pub open spec fn hit_of_row(r: RowView) -> HitView {
    HitView { name: r.name, id: r.id, version: r.version, source: r.source }
}

/// At most this many search results are shown.
pub open spec fn search_limit() -> nat {
    30
}

pub open spec fn first_n<A>(s: Seq<A>, n: nat) -> Seq<A> {
    if s.len() < n {
        s
    } else {
        s.take(n as int)
    }
}

/// The search results for a `winget search` run: an error when it failed
/// without printing anything, else the first 30 rows of its table.
pub open spec fn spec_search_results(success: bool, stdout: Seq<char>, stderr: Seq<char>) -> Result<
    Seq<HitView>,
    Seq<char>,
> {
    if !success && stdout.len() == 0 {
        Err(winget_error_text(stderr))
    } else {
        Ok(first_n(spec_parse_table(stdout)->0, search_limit()).map_values(|r: RowView| hit_of_row(r)))
    }
}

/// What the table parser needs to succeed for a search run.
pub open spec fn search_parsable(success: bool, stdout: Seq<char>) -> bool {
    (!success && stdout.len() == 0) || spec_parse_table(stdout) is Some
}

fn hit_from_row(r: &TableRow) -> (h: PackageHit)
    ensures
        h@ == hit_of_row(r@),
{
    PackageHit {
        name: r.name.clone(),
        id: r.id.clone(),
        version: r.version.clone(),
        source: r.source.clone(),
    }
}

pub fn search_results(success: bool, stdout: &str, stderr: &str) -> (r: Result<
    Vec<PackageHit>,
    String,
>)
    requires
        search_parsable(success, stdout@),
    ensures
        match r {
            Ok(v) => spec_search_results(success, stdout@, stderr@) == Ok::<Seq<HitView>, Seq<char>>(hits_view(v@)),
            Err(e) => spec_search_results(success, stdout@, stderr@) == Err::<Seq<HitView>, Seq<char>>(e@),
        },
{
    if !success && stdout.is_empty() {
        return Err(winget_error(stderr));
    }
    let rows = parse_table(stdout);
    let n = if rows.len() < 30 {
        rows.len()
    } else {
        30
    };
    let ghost all = rows_view(rows@);
    let mut hits: Vec<PackageHit> = Vec::new();
    let mut i: usize = 0;
    while i < n
        invariant
            n <= rows@.len(),
            all == rows_view(rows@),
            i <= n,
            hits_view(hits@) == all.take(i as int).map_values(|r: RowView| hit_of_row(r)),
        decreases n - i,
    {
        let h = hit_from_row(&rows[i]);
        let ghost before = hits_view(hits@);
        assert(h@ == hit_of_row(all[i as int]));
        hits.push(h);
        assert(hits_view(hits@) =~= before.push(hit_of_row(all[i as int])));
        assert(all.take(i + 1) =~= all.take(i as int).push(all[i as int]));
        i = i + 1;
        assert(hits_view(hits@) =~= all.take(i as int).map_values(|r: RowView| hit_of_row(r)));
    }
    assert(first_n(all, search_limit()) =~= all.take(n as int));
    Ok(hits)
}

// ───────────────────────── installed packages ─────────────────────────

/// The available version that the upgrade table lists for `id` (the last
/// row with that id wins); empty when it lists none.
pub open spec fn last_available(ups: Seq<RowView>, id: Seq<char>) -> Seq<char>
    decreases ups.len(),
{
    if ups.len() == 0 {
        Seq::empty()
    } else if ups.last().id.len() > 0 && ups.last().id == id {
        ups.last().available
    } else {
        last_available(ups.drop_last(), id)
    }
}

pub open spec fn installed_of(r: RowView, ups: Seq<RowView>) -> InstalledView {
    let available = last_available(ups, r.id);
    InstalledView {
        name: r.name,
        id: r.id,
        version: r.version,
        available: available,
        has_update: available.len() > 0,
        is_arp: matches_at(r.id, "ARP\\"@, 0),
    }
}

/// The installed packages from the output of `winget list` and
/// `winget upgrade`: an error when the list is empty and winget complained,
/// else every listed row with the upgrade it has, if any.
pub open spec fn spec_installed_listing(
    list_stdout: Seq<char>,
    list_stderr: Seq<char>,
    upgrade_stdout: Seq<char>,
) -> Result<Seq<InstalledView>, Seq<char>> {
    let all = spec_parse_table(list_stdout)->0;
    if all.len() == 0 && trim(list_stderr).len() > 0 {
        Err(winget_error_text(list_stderr))
    } else {
        let ups = spec_parse_table(upgrade_stdout)->0;
        Ok(all.map_values(|r: RowView| installed_of(r, ups)))
    }
}

/// What the table parser needs to succeed for a listing.
pub open spec fn listing_parsable(
    list_stdout: Seq<char>,
    list_stderr: Seq<char>,
    upgrade_stdout: Seq<char>,
) -> bool {
    &&& spec_parse_table(list_stdout) is Some
    &&& (spec_parse_table(list_stdout)->0.len() == 0 && trim(list_stderr).len() > 0)
        || spec_parse_table(upgrade_stdout) is Some
}

fn available_for(ups: &Vec<TableRow>, id: &str) -> (a: String)
    ensures
        a@ == last_available(rows_view(ups@), id@),
{
    let mut j = ups.len();
    assert(rows_view(ups@).take(j as int) =~= rows_view(ups@));
    while j > 0
        invariant
            j <= ups@.len(),
            last_available(rows_view(ups@), id@) == last_available(
                rows_view(ups@).take(j as int),
                id@,
            ),
        decreases j,
    {
        let ghost t = rows_view(ups@).take(j as int);
        assert(t.drop_last() =~= rows_view(ups@).take(j - 1));
        assert(t.last() == ups@[j - 1]@);
        if !ups[j - 1].id.as_str().is_empty() && crate::text::same_text(ups[j - 1].id.as_str(), id) {
            return ups[j - 1].available.clone();
        }
        j = j - 1;
    }
    String::new()
}

fn starts_with_arp(id: &str) -> (b: bool)
    ensures
        b == matches_at(id@, "ARP\\"@, 0),
{
    let v = chars_of(id);
    let p = chars_of("ARP\\");
    assert(v@.subrange(0, v@.len() as int) =~= v@);
    matches_at_exec(v.as_slice(), 0, v.len(), p.as_slice(), 0)
}

pub fn installed_listing(list_stdout: &str, list_stderr: &str, upgrade_stdout: &str) -> (r: Result<
    Vec<InstalledPackage>,
    String,
>)
    requires
        listing_parsable(list_stdout@, list_stderr@, upgrade_stdout@),
    ensures
        match r {
            Ok(v) => spec_installed_listing(list_stdout@, list_stderr@, upgrade_stdout@) == Ok::<Seq<InstalledView>, Seq<char>>(installed_view(v@)),
            Err(e) => spec_installed_listing(list_stdout@, list_stderr@, upgrade_stdout@) == Err::<Seq<InstalledView>, Seq<char>>(e@),
        },
{
    let all = parse_table(list_stdout);
    if all.len() == 0 {
        let e = chars_of(list_stderr);
        assert(e@.subrange(0, e@.len() as int) =~= e@);
        let (a, b) = trim_bounds(e.as_slice(), 0, e.len());
        if a < b {
            return Err(winget_error(list_stderr));
        }
    }
    let ups = parse_table(upgrade_stdout);
    let ghost allv = rows_view(all@);
    let ghost upsv = rows_view(ups@);
    let mut out: Vec<InstalledPackage> = Vec::new();
    let mut i: usize = 0;
    while i < all.len()
        invariant
            i <= all@.len(),
            allv == rows_view(all@),
            upsv == rows_view(ups@),
            installed_view(out@) == allv.take(i as int).map_values(
                |r: RowView| installed_of(r, upsv),
            ),
        decreases all.len() - i,
    {
        let row = &all[i];
        let available = available_for(&ups, row.id.as_str());
        let has_update = !available.as_str().is_empty();
        let is_arp = starts_with_arp(row.id.as_str());
        let ghost before = installed_view(out@);
        assert(row@ == allv[i as int]);
        out.push(
            InstalledPackage {
                name: row.name.clone(),
                id: row.id.clone(),
                version: row.version.clone(),
                available,
                has_update,
                is_arp,
            },
        );
        assert(installed_view(out@) =~= before.push(installed_of(allv[i as int], upsv)));
        assert(allv.take(i + 1) =~= allv.take(i as int).push(allv[i as int]));
        i = i + 1;
        assert(installed_view(out@) =~= allv.take(i as int).map_values(
            |r: RowView| installed_of(r, upsv),
        ));
    }
    assert(allv.take(all@.len() as int) =~= allv);
    Ok(out)
}

/// A search shows at most 30 results.
pub proof fn law_search_limit(success: bool, stdout: Seq<char>, stderr: Seq<char>)
    ensures
        spec_search_results(success, stdout, stderr) matches Ok(hits) ==> hits.len() <= 30,
{
}

/// The listing has one entry per listed package, in the same order; an
/// entry has an update exactly when an available version is known, and is
/// an Add/Remove Programs entry exactly when its id starts with `ARP\`.
pub proof fn law_listing_entries(list_stdout: Seq<char>, list_stderr: Seq<char>, upgrade_stdout: Seq<char>)
    ensures
        spec_installed_listing(list_stdout, list_stderr, upgrade_stdout) matches Ok(v) ==> {
            &&& v.len() == spec_parse_table(list_stdout)->0.len()
            &&& forall|i: int| 0 <= i < v.len() ==> {
                &&& (#[trigger] v[i]).id == spec_parse_table(list_stdout)->0[i].id
                &&& v[i].has_update == (v[i].available.len() > 0)
                &&& v[i].is_arp == matches_at(v[i].id, "ARP\\"@, 0)
            }
        },
{
}

proof fn lemma_last_available(ups: Seq<RowView>, id: Seq<char>)
    ensures
        (id.len() == 0 || forall|j: int| 0 <= j < ups.len() ==> ups[j].id != id) ==> last_available(
            ups,
            id,
        ).len() == 0,
        forall|j: int|
            0 <= j < ups.len() && id.len() > 0 && #[trigger] ups[j].id == id && (forall|k: int|
                j < k < ups.len() ==> ups[k].id != id) ==> last_available(ups, id)
                == ups[j].available,
    decreases ups.len(),
{
    if ups.len() > 0 {
        let init = ups.drop_last();
        lemma_last_available(init, id);
        assert forall|j: int|
            0 <= j < ups.len() && id.len() > 0 && #[trigger] ups[j].id == id && (forall|k: int|
                j < k < ups.len() ==> ups[k].id != id) implies last_available(ups, id)
            == ups[j].available by {
            if j < ups.len() - 1 {
                assert(ups[ups.len() - 1].id != id);
                assert(init[j] == ups[j]);
                assert forall|k: int| j < k < init.len() implies init[k].id != id by {
                    assert(init[k] == ups[k]);
                }
            }
        }
        if id.len() == 0 || forall|j: int| 0 <= j < ups.len() ==> ups[j].id != id {
            assert(ups.last().id != id || id.len() == 0);
            assert forall|j: int| 0 <= j < init.len() implies init[j].id != id || id.len() == 0 by {
                assert(init[j] == ups[j]);
            }
        }
    }
}

/// An installed package gets the Available cell of the last upgrade row
/// whose id equals its own exactly (an id that merely begins the same way
/// does not count), and has an update when that cell is not empty; with no
/// such row it has no available version and no update.
pub proof fn law_available_by_exact_id(r: RowView, ups: Seq<RowView>)
    ensures
        (r.id.len() == 0 || forall|j: int| 0 <= j < ups.len() ==> ups[j].id != r.id) ==> {
            &&& installed_of(r, ups).available.len() == 0
            &&& !installed_of(r, ups).has_update
        },
        forall|j: int|
            0 <= j < ups.len() && r.id.len() > 0 && #[trigger] ups[j].id == r.id && (forall|k: int|
                j < k < ups.len() ==> ups[k].id != r.id) ==> {
                &&& installed_of(r, ups).available == ups[j].available
                &&& installed_of(r, ups).has_update == (ups[j].available.len() > 0)
            },
        installed_of(r, ups).id == r.id,
{
    lemma_last_available(ups, r.id);
}

/// A search run that printed anything is never an error: its results are
/// the first 30 rows of the table it printed, in order (none when the table
/// has no rows). Only a failed run that printed nothing is an error.
pub proof fn law_search_errors_only_without_output(
    success: bool,
    stdout: Seq<char>,
    stderr: Seq<char>,
)
    requires
        search_parsable(success, stdout),
    ensures
        spec_search_results(success, stdout, stderr) is Err <==> (!success && stdout.len() == 0),
        stdout.len() > 0 ==> (spec_search_results(success, stdout, stderr) matches Ok(hits) && {
            let rows = spec_parse_table(stdout)->0;
            &&& hits.len() == if rows.len() < 30 {
                rows.len()
            } else {
                30
            }
            &&& forall|i: int|
                0 <= i < hits.len() ==> {
                    &&& (#[trigger] hits[i]).id == rows[i].id
                    &&& hits[i].name == rows[i].name
                    &&& hits[i].version == rows[i].version
                    &&& hits[i].source == rows[i].source
                }
        }),
{
}

} // verus!
