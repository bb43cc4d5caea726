//! The unattended auto-update run started by the scheduled task: which
//! packages it updates, in which order, how each outcome is judged, and the
//! log it writes.
use vstd::prelude::*;
use crate::detect::{
    detect_app_running, detect_network_error, display_line, spec_app_running, spec_display_line,
    spec_network_error,
};
use crate::order::{sorted_strings, str_leq};
use crate::prefs::keys_of;
use crate::text::{
    chars_of, decimal, decimal_string, lines, next_line, push_owned, push_str, spec_to_lowercase,
    string_of, string_of_range, strings_view, two_digit_string, two_digits,
};

verus! {

/// How the upgrade of one package ended.
#[derive(Clone, Copy, PartialEq, Eq, Structural, Debug)]
pub enum Outcome {
    Success,
    AppRunning,
    NetworkError,
    Error,
}

/// The arguments of `cmd` for the unattended upgrade of `pkg`.
pub open spec fn spec_upgrade_args(pkg: Seq<char>) -> Seq<Seq<char>> {
    seq![
        "/c"@,
        "winget"@,
        "upgrade"@,
        "--id"@,
        pkg,
        "--exact"@,
        "--silent"@,
        "--accept-package-agreements"@,
        "--accept-source-agreements"@,
    ]
}

pub fn upgrade_args(pkg: &str) -> (a: Vec<String>)
    ensures
        strings_view(a@) == spec_upgrade_args(pkg@),
{
    let mut a: Vec<String> = Vec::new();
    push_owned(&mut a, "/c");
    push_owned(&mut a, "winget");
    push_owned(&mut a, "upgrade");
    push_owned(&mut a, "--id");
    push_owned(&mut a, pkg);
    push_owned(&mut a, "--exact");
    push_owned(&mut a, "--silent");
    push_owned(&mut a, "--accept-package-agreements");
    push_owned(&mut a, "--accept-source-agreements");
    assert(strings_view(a@) =~= spec_upgrade_args(pkg@));
    a
}

/// The outcome of a finished upgrade, judged on its lower-cased standard
/// output followed by its error output.
pub open spec fn spec_outcome(success: bool, lower: Seq<char>, exit_code: Option<i32>) -> Outcome {
    if success {
        Outcome::Success
    } else if spec_app_running(lower, exit_code) {
        Outcome::AppRunning
    } else if spec_network_error(lower) {
        Outcome::NetworkError
    } else {
        Outcome::Error
    }
}

/// Judges a finished upgrade from its exit status and output.
pub fn upgrade_outcome(success: bool, stdout: &str, stderr: &str, exit_code: Option<i32>) -> (o:
    Outcome)
    ensures
        o == spec_outcome(success, spec_to_lowercase(stdout@ + stderr@), exit_code),
{
    let mut v = chars_of(stdout);
    push_str(&mut v, stderr);
    let combined = string_of(v.as_slice());
    if success {
        Outcome::Success
    } else if detect_app_running(combined.as_str(), exit_code) {
        Outcome::AppRunning
    } else if detect_network_error(combined.as_str()) {
        Outcome::NetworkError
    } else {
        Outcome::Error
    }
}

/// The log lines for an upgrade's standard output: its meaningful lines,
/// indented by two spaces.
pub open spec fn output_log(ls: Seq<Seq<char>>) -> Seq<Seq<char>>
    decreases ls.len(),
{
    if ls.len() == 0 {
        Seq::empty()
    } else {
        (match spec_display_line(ls[0]) {
            Some(t) => seq!["  "@ + t],
            None => Seq::empty(),
        }) + output_log(ls.drop_first())
    }
}

pub fn output_log_lines(stdout: &str) -> (r: Vec<String>)
    ensures
        strings_view(r@) == output_log(lines(stdout@)),
{
    let s = chars_of(stdout);
    let n = s.len();
    let mut out: Vec<String> = Vec::new();
    let mut pos: usize = 0;
    assert(s@.subrange(0, n as int) =~= s@);
    assert(strings_view(out@) + output_log(lines(s@)) =~= output_log(lines(s@)));
    while pos < n
        invariant
            n == s@.len(),
            pos <= n,
            output_log(lines(s@)) == strings_view(out@) + output_log(
                lines(s@.subrange(pos as int, n as int)),
            ),
        decreases n - pos,
    {
        let (end, next) = next_line(s.as_slice(), pos);
        let ghost ls = lines(s@.subrange(pos as int, n as int));
        let ghost l = s@.subrange(pos as int, end as int);
        let ghost rest = output_log(lines(s@.subrange(next as int, n as int)));
        assert(ls[0] == l);
        assert(ls.drop_first() =~= lines(s@.subrange(next as int, n as int)));
        let raw = string_of_range(s.as_slice(), pos, end);
        let ghost before = strings_view(out@);
        match display_line(raw.as_str()) {
            Some(t) => {
                let mut v: Vec<char> = Vec::new();
                push_str(&mut v, "  ");
                push_str(&mut v, t.as_str());
                out.push(string_of(v.as_slice()));
                assert(strings_view(out@) =~= before.push("  "@ + t@));
                assert(before.push("  "@ + t@) + rest =~= before + (seq!["  "@ + t@] + rest));
            },
            None => {
                assert(Seq::<Seq<char>>::empty() + rest =~= rest);
            },
        }
        pos = next;
    }
    assert(s@.subrange(n as int, n as int) =~= Seq::<char>::empty());
    assert(strings_view(out@) + Seq::<Seq<char>>::empty() =~= strings_view(out@));
    out
}

/// The log line for an upgrade that could not be started.
pub open spec fn spawn_error_text(msg: Seq<char>) -> Seq<char> {
    "  [spawn error] "@ + msg
}

pub fn spawn_error_line(msg: &str) -> (s: String)
    ensures
        s@ == spawn_error_text(msg@),
{
    let mut v: Vec<char> = Vec::new();
    push_str(&mut v, "  [spawn error] ");
    push_str(&mut v, msg);
    string_of(v.as_slice())
}

// ───────────────────────── the run ─────────────────────────

/// The packages the run updates: every package of the preferences, in the
/// order of their names.
pub open spec fn spec_queued(prefs: Seq<(Seq<char>, bool)>) -> Seq<Seq<char>> {
    keys_of(prefs).sort_by(str_leq())
}

pub fn queued_packages(prefs: &Vec<(String, bool)>) -> (r: Vec<String>)
    ensures
        strings_view(r@) == spec_queued(prefs.deep_view()),
{
    let mut keys: Vec<String> = Vec::new();
    let mut i: usize = 0;
    while i < prefs.len()
        invariant
            i <= prefs@.len(),
            strings_view(keys@) == keys_of(prefs.deep_view()).take(i as int),
        decreases prefs.len() - i,
    {
        let ghost before = strings_view(keys@);
        let k = prefs[i].0.clone();
        assert(k@ == prefs.deep_view()[i as int].0);
        keys.push(k);
        assert(strings_view(keys@) =~= before.push(k@));
        assert(keys_of(prefs.deep_view()).take(i + 1) =~= keys_of(prefs.deep_view()).take(
            i as int,
        ).push(k@));
        i = i + 1;
    }
    assert(keys_of(prefs.deep_view()).take(prefs@.len() as int) =~= keys_of(prefs.deep_view()));
    sorted_strings(&keys)
}

pub open spec fn rule_text() -> Seq<char> {
    Seq::new(60, |i: int| '─')
}

/// The first lines of the log, for a run started at `time`.
pub open spec fn header_lines(time: Seq<char>) -> Seq<Seq<char>> {
    seq!["Brewinget auto-update — "@ + time, rule_text(), Seq::empty()]
}

pub fn log_header(time: &str) -> (r: Vec<String>)
    ensures
        strings_view(r@) == header_lines(time@),
{
    let mut r: Vec<String> = Vec::new();
    let mut v: Vec<char> = Vec::new();
    push_str(&mut v, "Brewinget auto-update — ");
    push_str(&mut v, time);
    r.push(string_of(v.as_slice()));
    let mut line: Vec<char> = Vec::new();
    let mut k: usize = 0;
    while k < 60
        invariant
            k <= 60,
            line@ == Seq::new(k as nat, |i: int| '─'),
        decreases 60 - k,
    {
        line.push('─');
        k = k + 1;
        assert(line@ =~= Seq::new(k as nat, |i: int| '─'));
    }
    r.push(string_of(line.as_slice()));
    r.push(String::new());
    assert(strings_view(r@) =~= header_lines(time@));
    r
}

/// `items` joined by `", "`.
pub open spec fn comma_list(items: Seq<Seq<char>>) -> Seq<char>
    decreases items.len(),
{
    if items.len() == 0 {
        Seq::empty()
    } else if items.len() == 1 {
        items[0]
    } else {
        comma_list(items.drop_last()) + ", "@ + items.last()
    }
}

fn comma_list_exec(items: &Vec<String>) -> (r: Vec<char>)
    ensures
        r@ == comma_list(strings_view(items@)),
{
    let ghost iv = strings_view(items@);
    let mut v: Vec<char> = Vec::new();
    let mut i: usize = 0;
    assert(iv.take(0) =~= Seq::<Seq<char>>::empty());
    while i < items.len()
        invariant
            i <= items@.len(),
            iv == strings_view(items@),
            v@ == comma_list(iv.take(i as int)),
        decreases items.len() - i,
    {
        let ghost t = iv.take(i + 1);
        assert(t.drop_last() =~= iv.take(i as int));
        assert(t.last() == items@[i as int]@);
        if i > 0 {
            push_str(&mut v, ", ");
        } else {
            assert(v@ =~= Seq::<char>::empty());
        }
        push_str(&mut v, items[i].as_str());
        i = i + 1;
        if i == 1 {
            assert(v@ =~= t[0]);
        }
    }
    assert(iv.take(items@.len() as int) =~= iv);
    v
}

pub open spec fn nothing_text() -> Seq<char> {
    "No packages flagged for auto-update. Nothing to do."@
}

pub open spec fn package_heading(index: nat, total: nat, pkg: Seq<char>) -> Seq<char> {
    "── ["@ + decimal(index) + "/"@ + decimal(total) + "] "@ + pkg + " ──"@
}

pub open spec fn outcome_text(o: Outcome) -> Seq<char> {
    match o {
        Outcome::Success => "  ✓ Updated."@,
        Outcome::AppRunning => "  ⚠  Skipped — application is running."@,
        Outcome::NetworkError => "  ✕ Network unavailable — will retry next scheduled run."@,
        Outcome::Error => "  ✕ Update failed."@,
    }
}

pub open spec fn summary_text(n_ok: nat, n_err: nat) -> Seq<char> {
    "── Summary: "@ + decimal(n_ok) + " updated, "@ + decimal(n_err) + " failed/skipped ──"@
}

#[derive(Clone, Copy)]
struct Tally {
    index: usize,
    n_ok: usize,
    n_err: usize,
}

/// An auto-update run in progress.
pub struct AutoUpdate {
    packages: Vec<String>,
    at: Tally,
}

pub struct AutoView {
    pub packages: Seq<Seq<char>>,
    pub index: nat,
    pub n_ok: nat,
    pub n_err: nat,
}

impl View for AutoUpdate {
    type V = AutoView;

    closed spec fn view(&self) -> AutoView {
        AutoView {
            packages: strings_view(self.packages@),
            index: self.at.index as nat,
            n_ok: self.at.n_ok as nat,
            n_err: self.at.n_err as nat,
        }
    }
}

impl AutoView {
    /// Every package dealt with is counted once, as updated or as failed.
    pub open spec fn wf(self) -> bool {
        &&& self.index <= self.packages.len()
        &&& self.n_ok + self.n_err == self.index
    }

    pub open spec fn done(self) -> bool {
        self.index == self.packages.len()
    }
}

/// The run over these preferences and the log lines it begins with.
pub open spec fn auto_start(prefs: Seq<(Seq<char>, bool)>) -> (AutoView, Seq<Seq<char>>) {
    let q = spec_queued(prefs);
    (
        AutoView { packages: q, index: 0, n_ok: 0, n_err: 0 },
        if q.len() == 0 {
            seq![nothing_text()]
        } else {
            seq!["Packages queued: "@ + comma_list(q), Seq::empty()]
        },
    )
}

/// The state and log lines after the current package ended with `o`.
pub open spec fn auto_record(v: AutoView, o: Outcome) -> (AutoView, Seq<Seq<char>>) {
    let w = AutoView {
        index: v.index + 1,
        n_ok: if o == Outcome::Success {
            v.n_ok + 1
        } else {
            v.n_ok
        },
        n_err: if o == Outcome::Success {
            v.n_err
        } else {
            v.n_err + 1
        },
        ..v
    };
    let ls = seq![outcome_text(o), Seq::empty()];
    (
        w,
        if w.index == v.packages.len() {
            ls + seq![summary_text(w.n_ok, w.n_err)]
        } else {
            ls
        },
    )
}

fn decimal_into(v: &mut Vec<char>, n: usize)
    ensures
        final(v)@ == old(v)@ + decimal(n as nat),
{
    push_str(v, decimal_string(n).as_str());
}

impl AutoUpdate {
    #[verifier::type_invariant]
    closed spec fn inv(self) -> bool {
        self@.wf()
    }

    /// Starts a run over the preferences.
    pub fn start(prefs: &Vec<(String, bool)>) -> (r: (AutoUpdate, Vec<String>))
        ensures
            (r.0@, strings_view(r.1@)) == auto_start(prefs.deep_view()),
            r.0@.wf(),
    {
        let packages = queued_packages(prefs);
        let mut lines: Vec<String> = Vec::new();
        if packages.len() == 0 {
            push_owned(&mut lines, "No packages flagged for auto-update. Nothing to do.");
            assert(strings_view(lines@) =~= seq![nothing_text()]);
        } else {
            let mut v: Vec<char> = Vec::new();
            push_str(&mut v, "Packages queued: ");
            let list = comma_list_exec(&packages);
            push_str(&mut v, string_of(list.as_slice()).as_str());
            lines.push(string_of(v.as_slice()));
            lines.push(String::new());
            assert(strings_view(lines@) =~= seq![
                "Packages queued: "@ + comma_list(strings_view(packages@)),
                Seq::empty(),
            ]);
        }
        (AutoUpdate { packages, at: Tally { index: 0, n_ok: 0, n_err: 0 } }, lines)
    }

    /// The next package to update, with the log line that introduces it;
    /// `None` when the run is over.
    pub fn next_package(&self) -> (r: Option<(String, String)>)
        ensures
            match r {
                Some((pkg, heading)) => !self@.done() && pkg@ == self@.packages[self@.index as int]
                    && heading@ == package_heading(
                    self@.index + 1,
                    self@.packages.len(),
                    pkg@,
                ),
                None => self@.done(),
            },
    {
        proof {
            use_type_invariant(self);
        }
        if self.at.index >= self.packages.len() {
            return None;
        }
        let pkg = self.packages[self.at.index].clone();
        let mut v: Vec<char> = Vec::new();
        push_str(&mut v, "── [");
        decimal_into(&mut v, self.at.index + 1);
        push_str(&mut v, "/");
        decimal_into(&mut v, self.packages.len());
        push_str(&mut v, "] ");
        push_str(&mut v, pkg.as_str());
        push_str(&mut v, " ──");
        Some((pkg, string_of(v.as_slice())))
    }

    /// Records how the current package ended; returns the log lines.
    pub fn record(&mut self, o: Outcome) -> (r: Vec<String>)
        requires
            !old(self)@.done(),
        ensures
            (final(self)@, strings_view(r@)) == auto_record(old(self)@, o),
            final(self)@.wf(),
    {
        proof {
            use_type_invariant(&*self);
        }
        let total = self.packages.len();
        let at = self.at;
        let mut lines: Vec<String> = Vec::new();
        let counted = match o {
            Outcome::Success => {
                push_owned(&mut lines, "  ✓ Updated.");
                assert(strings_view(lines@) =~= seq![outcome_text(o)]);
                Tally { n_ok: at.n_ok + 1, ..at }
            },
            Outcome::AppRunning => {
                push_owned(&mut lines, "  ⚠  Skipped — application is running.");
                assert(strings_view(lines@) =~= seq![outcome_text(o)]);
                Tally { n_err: at.n_err + 1, ..at }
            },
            Outcome::NetworkError => {
                push_owned(&mut lines, "  ✕ Network unavailable — will retry next scheduled run.");
                assert(strings_view(lines@) =~= seq![outcome_text(o)]);
                Tally { n_err: at.n_err + 1, ..at }
            },
            Outcome::Error => {
                push_owned(&mut lines, "  ✕ Update failed.");
                assert(strings_view(lines@) =~= seq![outcome_text(o)]);
                Tally { n_err: at.n_err + 1, ..at }
            },
        };
        let ghost first = strings_view(lines@);
        lines.push(String::new());
        assert(strings_view(lines@) =~= first.push(Seq::<char>::empty()));
        let next = Tally { index: at.index + 1, ..counted };
        let ghost ls = seq![outcome_text(o), Seq::<char>::empty()];
        assert(strings_view(lines@) =~= ls);
        if next.index == total {
            let mut v: Vec<char> = Vec::new();
            push_str(&mut v, "── Summary: ");
            decimal_into(&mut v, next.n_ok);
            push_str(&mut v, " updated, ");
            decimal_into(&mut v, next.n_err);
            push_str(&mut v, " failed/skipped ──");
            lines.push(string_of(v.as_slice()));
            assert(strings_view(lines@) =~= ls + seq![
                summary_text(next.n_ok as nat, next.n_err as nat),
            ]);
        }
        self.at = next;
        lines
    }
}

/// The run visits the packages in the order of their names.
pub proof fn law_queue_sorted(prefs: Seq<(Seq<char>, bool)>)
    ensures
        vstd::relations::sorted_by(spec_queued(prefs), str_leq()),
        spec_queued(prefs).to_multiset() == keys_of(prefs).to_multiset(),
{
    crate::order::law_str_order_total();
    keys_of(prefs).lemma_sort_by_ensures(str_leq());
}

/// When the run is over, its summary accounts for every queued package.
pub proof fn law_summary_accounts_for_all(v: AutoView, o: Outcome)
    requires
        v.wf(),
        !v.done(),
    ensures
        auto_record(v, o).0.wf(),
        auto_record(v, o).0.done() ==> auto_record(v, o).0.n_ok + auto_record(v, o).0.n_err
            == v.packages.len(),
        auto_record(v, o).0.index == v.index + 1,
{
}

/// The program runs unattended when one of its arguments is `--auto-update`.
pub open spec fn spec_is_auto_update(args: Seq<Seq<char>>) -> bool {
    args.contains("--auto-update"@)
}

pub fn is_auto_update(args: &Vec<String>) -> (b: bool)
    ensures
        b == spec_is_auto_update(strings_view(args@)),
{
    let mut i: usize = 0;
    while i < args.len()
        invariant
            i <= args@.len(),
            forall|k: int| 0 <= k < i ==> args@[k]@ != "--auto-update"@,
        decreases args.len() - i,
    {
        if crate::text::same_text(args[i].as_str(), "--auto-update") {
            assert(strings_view(args@)[i as int] == "--auto-update"@);
            return true;
        }
        i = i + 1;
    }
    false
}

// ───────────────────────── time stamps ─────────────────────────

/// The local date and time a run starts at, as the clock reads it.
#[derive(Clone, Copy, Debug, PartialEq, Eq, Structural)]
pub struct TimeStamp {
    pub year: i32,
    pub month: u32,
    pub day: u32,
    pub hour: u32,
    pub minute: u32,
    pub second: u32,
}

/// The decimal digits of `n`, zero-padded to at least `width` digits.
pub open spec fn padded(n: nat, width: nat) -> Seq<char> {
    if decimal(n).len() < width {
        Seq::new((width - decimal(n).len()) as nat, |i: int| '0') + decimal(n)
    } else {
        decimal(n)
    }
}

/// A year the way `%Y` writes it: four digits from 0 to 9999, zero-padded;
/// beyond that range with its sign, and still at least four digits.
pub open spec fn year_text(y: int) -> Seq<char> {
    if 0 <= y <= 9999 {
        padded(y as nat, 4)
    } else if y < 0 {
        seq!['-'] + padded((-y) as nat, 4)
    } else {
        seq!['+'] + decimal(y as nat)
    }
}

/// The name of the log of a run started at `t`:
/// `auto-update-YYYY-MM-DD-HH-MM-SS.log`.
pub open spec fn log_name_text(t: TimeStamp) -> Seq<char> {
    "auto-update-"@ + year_text(t.year as int) + "-"@ + two_digits(t.month as nat) + "-"@
        + two_digits(t.day as nat) + "-"@ + two_digits(t.hour as nat) + "-"@ + two_digits(
        t.minute as nat,
    ) + "-"@ + two_digits(t.second as nat) + ".log"@
}

/// The time `t` in the log header: `YYYY-MM-DD HH:MM:SS`.
pub open spec fn log_time_text(t: TimeStamp) -> Seq<char> {
    year_text(t.year as int) + "-"@ + two_digits(t.month as nat) + "-"@ + two_digits(t.day as nat)
        + " "@ + two_digits(t.hour as nat) + ":"@ + two_digits(t.minute as nat) + ":"@ + two_digits(
        t.second as nat,
    )
}

fn push_padded(v: &mut Vec<char>, n: usize, width: usize)
    ensures
        final(v)@ == old(v)@ + padded(n as nat, width as nat),
{
    let d = chars_of(decimal_string(n).as_str());
    let mut k: usize = d.len();
    let ghost start = v@;
    while k < width
        invariant
            d@ == decimal(n as nat),
            d.len() <= k <= width || (k == d.len() && k >= width),
            v@ == start + Seq::new((k - d.len()) as nat, |i: int| '0'),
        decreases width - k,
    {
        v.push('0');
        k = k + 1;
        assert(v@ =~= start + Seq::new((k - d.len()) as nat, |i: int| '0'));
    }
    let ghost zeros = v@;
    push_str(v, decimal_string(n).as_str());
    if d.len() >= width {
        assert(zeros =~= start);
    }
    assert(v@ =~= start + padded(n as nat, width as nat));
}

fn push_year(v: &mut Vec<char>, y: i32)
    ensures
        final(v)@ == old(v)@ + year_text(y as int),
{
    if 0 <= y && y <= 9999 {
        push_padded(v, y as usize, 4);
    } else if y < 0 {
        let ghost start = v@;
        v.push('-');
        let m: i64 = -(y as i64);
        push_padded(v, m as usize, 4);
        assert(v@ =~= start + (seq!['-'] + padded((-y) as nat, 4)));
    } else {
        let ghost start = v@;
        v.push('+');
        push_str(v, decimal_string(y as usize).as_str());
        assert(v@ =~= start + (seq!['+'] + decimal(y as nat)));
    }
}

fn push_two(v: &mut Vec<char>, n: u32)
    ensures
        final(v)@ == old(v)@ + two_digits(n as nat),
{
    push_str(v, two_digit_string(n as usize).as_str());
}

/// The name of the log file of a run started at `t`.
pub fn log_file_name(t: &TimeStamp) -> (r: String)
    ensures
        r@ == log_name_text(*t),
{
    let mut v: Vec<char> = Vec::new();
    push_str(&mut v, "auto-update-");
    push_year(&mut v, t.year);
    push_str(&mut v, "-");
    push_two(&mut v, t.month);
    push_str(&mut v, "-");
    push_two(&mut v, t.day);
    push_str(&mut v, "-");
    push_two(&mut v, t.hour);
    push_str(&mut v, "-");
    push_two(&mut v, t.minute);
    push_str(&mut v, "-");
    push_two(&mut v, t.second);
    push_str(&mut v, ".log");
    assert(v@ =~= log_name_text(*t));
    string_of(v.as_slice())
}

/// The time `t` as the log header shows it.
pub fn log_time(t: &TimeStamp) -> (r: String)
    ensures
        r@ == log_time_text(*t),
{
    let mut v: Vec<char> = Vec::new();
    push_year(&mut v, t.year);
    push_str(&mut v, "-");
    push_two(&mut v, t.month);
    push_str(&mut v, "-");
    push_two(&mut v, t.day);
    push_str(&mut v, " ");
    push_two(&mut v, t.hour);
    push_str(&mut v, ":");
    push_two(&mut v, t.minute);
    push_str(&mut v, ":");
    push_two(&mut v, t.second);
    assert(v@ =~= log_time_text(*t));
    string_of(v.as_slice())
}

/// The first lines of the log of a run started at `t`.
pub fn log_header_at(t: &TimeStamp) -> (r: Vec<String>)
    ensures
        strings_view(r@) == header_lines(log_time_text(*t)),
{
    let time = log_time(t);
    log_header(time.as_str())
}

/// The log file of a run started at `t`: its name in the log directory below
/// `%LOCALAPPDATA%`; no file when the variable is not set.
pub fn log_file_path(local_app_data: Option<&str>, t: &TimeStamp) -> (r: Result<String, ()>)
    ensures
        r is Err <==> local_app_data is None,
        r is Ok ==> exists|dd: Seq<char>, d: Seq<char>|
            #![auto]
            crate::prefs::data_dir_result(
                crate::prefs::Platform::Windows,
                crate::prefs::opt_view(local_app_data),
                Ok(dd),
            ) && crate::prefs::file_in(d, dd, "logs"@) && crate::prefs::file_in(
                r->Ok_0@,
                d,
                log_name_text(*t),
            ),
{
    match crate::prefs::logs_dir(local_app_data) {
        Ok(d) => {
            let name = log_file_name(t);
            let f = crate::prefs::join_path(d.as_str(), name.as_str());
            proof {
                let dd = choose|dd: Seq<char>|
                    #[trigger] crate::prefs::data_dir_result(
                        crate::prefs::Platform::Windows,
                        crate::prefs::opt_view(local_app_data),
                        Ok(dd),
                    ) && crate::prefs::file_in(d@, dd, "logs"@);
                assert(crate::prefs::file_in(d@, dd, "logs"@));
                assert(crate::prefs::file_in(f@, d@, name@));
            }
            Ok(f)
        },
        Err(_) => Err(()),
    }
}

} // verus!
