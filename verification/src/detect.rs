//! Reading the output of a package-manager run: terminal noise removal and
//! the classification of failures.
use vstd::prelude::*;
use crate::text::{
    after_last, after_last_start, ascii_alphabetic, chars_of, contains, contains_in, is_alpha,
    lemma_contains_within,
    spec_to_lowercase, string_of, string_of_range, to_lowercase, trim, trim_bounds,
};

verus! {

// ───────────────────────── ANSI escapes ─────────────────────────

/// What follows a CSI sequence body: everything up to and including the
/// first ASCII letter is dropped (all of it if there is no letter).
pub open spec fn skip_csi(s: Seq<char>) -> Seq<char>
    decreases s.len(),
{
    if s.len() == 0 {
        s
    } else if is_alpha(s[0]) {
        s.drop_first()
    } else {
        skip_csi(s.drop_first())
    }
}

pub proof fn lemma_skip_csi_len(s: Seq<char>)
    ensures
        skip_csi(s).len() <= s.len(),
    decreases s.len(),
{
    if s.len() > 0 && !is_alpha(s[0]) {
        lemma_skip_csi_len(s.drop_first());
    }
}

/// `s` without ANSI escape codes: `ESC [` up to its final letter is removed,
/// a lone `ESC` is removed, everything else is kept.
pub open spec fn spec_strip_ansi(s: Seq<char>) -> Seq<char>
    decreases s.len(),
{
    if s.len() == 0 {
        s
    } else if s[0] == '\x1b' {
        if s.len() >= 2 && s[1] == '[' {
            proof {
                lemma_skip_csi_len(s.subrange(2, s.len() as int));
            }
            spec_strip_ansi(skip_csi(s.subrange(2, s.len() as int)))
        } else {
            spec_strip_ansi(s.drop_first())
        }
    } else {
        seq![s[0]] + spec_strip_ansi(s.drop_first())
    }
}

fn strip_ansi_chars(s: &[char]) -> (out: Vec<char>)
    ensures
        out@ == spec_strip_ansi(s@),
{
    let n = s.len();
    let mut out: Vec<char> = Vec::new();
    let mut i: usize = 0;
    assert(s@.subrange(0, n as int) =~= s@);
    while i < n
        invariant
            n == s@.len(),
            i <= n,
            spec_strip_ansi(s@) == out@ + spec_strip_ansi(s@.subrange(i as int, n as int)),
        decreases n - i,
    {
        let ghost t = s@.subrange(i as int, n as int);
        assert(t.drop_first() =~= s@.subrange(i + 1, n as int));
        if s[i] == '\x1b' {
            if i + 1 < n && s[i + 1] == '[' {
                let mut j = i + 2;
                assert(t.subrange(2, t.len() as int) =~= s@.subrange(i + 2, n as int));
                while j < n && !ascii_alphabetic(s[j])
                    invariant
                        n == s@.len(),
                        i + 2 <= j <= n,
                        skip_csi(s@.subrange(i + 2, n as int)) == skip_csi(
                            s@.subrange(j as int, n as int),
                        ),
                    decreases n - j,
                {
                    assert(s@.subrange(j as int, n as int).drop_first() =~= s@.subrange(
                        j + 1,
                        n as int,
                    ));
                    j = j + 1;
                }
                if j < n {
                    assert(s@.subrange(j as int, n as int).drop_first() =~= s@.subrange(
                        j + 1,
                        n as int,
                    ));
                    i = j + 1;
                } else {
                    assert(s@.subrange(j as int, n as int) =~= Seq::<char>::empty());
                    i = n;
                }
            } else {
                i = i + 1;
            }
        } else {
            let ghost old_out = out@;
            out.push(s[i]);
            assert(out@ + spec_strip_ansi(s@.subrange(i + 1, n as int)) =~= old_out + (seq![t[0]]
                + spec_strip_ansi(t.drop_first())));
            i = i + 1;
        }
    }
    assert(s@.subrange(n as int, n as int) =~= Seq::<char>::empty());
    assert(out@ + Seq::<char>::empty() =~= out@);
    out
}

/// Strips ANSI escape codes so terminal colours do not pollute the log.
pub fn strip_ansi(s: &str) -> (r: String)
    ensures
        r@ == spec_strip_ansi(s@),
{
    let cs = chars_of(s);
    let out = strip_ansi_chars(cs.as_slice());
    string_of(out.as_slice())
}

// ───────────────────────── noise filter ─────────────────────────

/// A line is worth showing when it holds at least one ASCII letter.
pub open spec fn spec_is_meaningful(line: Seq<char>) -> bool {
    exists|i: int| 0 <= i < line.len() && is_alpha(line[i])
}

fn has_alpha(s: &[char], lo: usize, hi: usize) -> (b: bool)
    requires
        lo <= hi <= s@.len(),
    ensures
        b == spec_is_meaningful(s@.subrange(lo as int, hi as int)),
{
    let mut i = lo;
    while i < hi
        invariant
            lo <= i <= hi <= s@.len(),
            forall|k: int| lo <= k < i ==> !is_alpha(s@[k]),
        decreases hi - i,
    {
        if ascii_alphabetic(s[i]) {
            assert(is_alpha(s@.subrange(lo as int, hi as int)[i - lo]));
            return true;
        }
        i = i + 1;
    }
    assert forall|k: int| 0 <= k < hi - lo implies !is_alpha(
        s@.subrange(lo as int, hi as int)[k],
    ) by {
        assert(!is_alpha(s@[lo + k]));
    }
    false
}

/// Returns true if a log line is worth showing: spinner frames and block
/// progress bars carry no ASCII letter and are dropped.
pub fn is_meaningful(line: &str) -> (b: bool)
    ensures
        b == spec_is_meaningful(line@),
{
    let cs = chars_of(line);
    assert(cs@.subrange(0, cs@.len() as int) =~= cs@);
    has_alpha(cs.as_slice(), 0, cs.len())
}

/// The text shown for one raw output line: escape codes removed, only the
/// last `'\r'` frame kept, trimmed; nothing when it carries no letter.
pub open spec fn spec_display_line(raw: Seq<char>) -> Option<Seq<char>> {
    let t = trim(after_last(spec_strip_ansi(raw), '\r'));
    if spec_is_meaningful(t) {
        Some(t)
    } else {
        None
    }
}

/// The line to show or log for a raw output line, if any.
pub fn display_line(raw: &str) -> (r: Option<String>)
    ensures
        r matches Some(t) ==> spec_display_line(raw@) == Some(t@),
        r is None ==> spec_display_line(raw@) is None,
{
    let cs = chars_of(raw);
    let clean = strip_ansi_chars(cs.as_slice());
    let n = clean.len();
    let k = after_last_start(clean.as_slice(), 0, n, '\r');
    assert(clean@.subrange(0, n as int) =~= clean@);
    let (a, b) = trim_bounds(clean.as_slice(), k, n);
    if has_alpha(clean.as_slice(), a, b) {
        Some(string_of_range(clean.as_slice(), a, b))
    } else {
        None
    }
}

// ───────────────────────── failure classification ─────────────────────────

fn has(s: &[char], pat: &str) -> (b: bool)
    ensures
        b == contains(s@, pat@),
{
    let p = chars_of(pat);
    assert(s@.subrange(0, s@.len() as int) =~= s@);
    contains_in(s, 0, s.len(), p.as_slice())
}

/// Exit codes that mean a running process blocked the installer:
/// 1603 (Windows Installer generic failure) and 0x80070005 (access denied).
pub open spec fn blocking_exit_code(exit_code: Option<i32>) -> bool {
    exit_code == Some(1603i32) || exit_code == Some(-2147024891i32)
}

/// Phrases (English and Danish) that say the application is still running.
pub open spec fn mentions_app_running(lower: Seq<char>) -> bool {
    ||| contains(lower, "currently running"@)
    ||| contains(lower, "in use"@)
    ||| contains(lower, "close the application"@)
    ||| contains(lower, "please close"@)
    ||| contains(lower, "running process"@)
    ||| contains(lower, "file is in use"@)
    ||| contains(lower, "another instance"@)
    ||| contains(lower, "kørende"@)
    ||| contains(lower, "luk programmet"@)
    ||| contains(lower, "er i brug"@)
    ||| contains(lower, "er åben"@)
    ||| contains(lower, "lukke programmet"@)
}

/// Whether output already in lower case, with this exit code, says that a
/// running process blocked the install or update.
pub open spec fn spec_app_running(lower: Seq<char>, exit_code: Option<i32>) -> bool {
    blocking_exit_code(exit_code) || mentions_app_running(lower)
}

/// The decision of `detect_app_running`, given the lower-cased output.
pub fn app_running_in_lowercase(lower: &str, exit_code: Option<i32>) -> (b: bool)
    ensures
        b == spec_app_running(lower@, exit_code),
{
    match exit_code {
        Some(c) => {
            if c == 1603i32 || c == -2147024891i32 {
                return true;
            }
        },
        None => {},
    }
    let l = chars_of(lower);
    let s = l.as_slice();
    has(s, "currently running") || has(s, "in use") || has(s, "close the application") || has(
        s,
        "please close",
    ) || has(s, "running process") || has(s, "file is in use") || has(s, "another instance")
        || has(s, "kørende") || has(s, "luk programmet") || has(s, "er i brug") || has(
        s,
        "er åben",
    ) || has(s, "lukke programmet")
}

/// Returns true when the captured output / exit code signals that a running
/// process blocked the install or update. English and Danish phrases are
/// checked because winget writes in the system locale.
pub fn detect_app_running(output: &str, exit_code: Option<i32>) -> (b: bool)
    ensures
        b == spec_app_running(spec_to_lowercase(output@), exit_code),
{
    let lower = to_lowercase(output);
    app_running_in_lowercase(lower.as_str(), exit_code)
}

/// Phrases (English and Danish) of winget's network failures.
pub open spec fn spec_network_error(lower: Seq<char>) -> bool {
    ||| contains(lower, "no internet"@)
    ||| contains(lower, "network"@)
    ||| contains(lower, "unable to connect"@)
    ||| contains(lower, "source is not available"@)
    ||| contains(lower, "failed to update source"@)
    ||| contains(lower, "internet forbindelse"@)
    ||| contains(lower, "netværk"@)
}

/// The decision of `detect_network_error`, given the lower-cased output.
pub fn network_error_in_lowercase(lower: &str) -> (b: bool)
    ensures
        b == spec_network_error(lower@),
{
    let l = chars_of(lower);
    let s = l.as_slice();
    has(s, "no internet") || has(s, "network") || has(s, "unable to connect") || has(
        s,
        "source is not available",
    ) || has(s, "failed to update source") || has(s, "internet forbindelse") || has(
        s,
        "netværk",
    )
}

/// Whether winget's output reports a network failure.
pub fn detect_network_error(output: &str) -> (b: bool)
    ensures
        b == spec_network_error(spec_to_lowercase(output@)),
{
    let lower = to_lowercase(output);
    network_error_in_lowercase(lower.as_str())
}

// ───────────────────────── completion status ─────────────────────────

/// How an install, update or uninstall ended.
#[derive(Clone, Copy, PartialEq, Eq, Structural, Debug)]
pub enum OpStatus {
    Success,
    AppRunning,
    Error,
}

impl OpStatus {
    /// The status word the front end receives.
    pub open spec fn spec_name(self) -> Seq<char> {
        match self {
            OpStatus::Success => "success"@,
            OpStatus::AppRunning => "app-running"@,
            OpStatus::Error => "error"@,
        }
    }

    pub fn name(&self) -> (s: &'static str)
        ensures
            s@ == self.spec_name(),
    {
        match self {
            OpStatus::Success => "success",
            OpStatus::AppRunning => "app-running",
            OpStatus::Error => "error",
        }
    }
}

/// The status for a run that succeeded or not, given its lower-cased output.
pub open spec fn spec_status(ok: bool, lower: Seq<char>, exit_code: Option<i32>) -> OpStatus {
    if ok {
        OpStatus::Success
    } else if spec_app_running(lower, exit_code) {
        OpStatus::AppRunning
    } else {
        OpStatus::Error
    }
}

/// Classifies a finished run: success, blocked by a running app, or error.
pub fn completion_status(ok: bool, output: &str, exit_code: Option<i32>) -> (st: OpStatus)
    ensures
        st == spec_status(ok, spec_to_lowercase(output@), exit_code),
{
    if ok {
        OpStatus::Success
    } else if detect_app_running(output, exit_code) {
        OpStatus::AppRunning
    } else {
        OpStatus::Error
    }
}

// ───────────────────────── laws ─────────────────────────

pub open spec fn escape_free(s: Seq<char>) -> bool {
    forall|i: int| 0 <= i < s.len() ==> s[i] != '\x1b'
}

/// Stripped text holds no escape character.
pub proof fn law_strip_ansi_escape_free(s: Seq<char>)
    ensures
        escape_free(spec_strip_ansi(s)),
    decreases s.len(),
{
    if s.len() == 0 {
    } else if s[0] == '\x1b' {
        if s.len() >= 2 && s[1] == '[' {
            lemma_skip_csi_len(s.subrange(2, s.len() as int));
            law_strip_ansi_escape_free(skip_csi(s.subrange(2, s.len() as int)));
        } else {
            law_strip_ansi_escape_free(s.drop_first());
        }
    } else {
        law_strip_ansi_escape_free(s.drop_first());
        let r = spec_strip_ansi(s.drop_first());
        assert forall|i: int| 0 <= i < (seq![s[0]] + r).len() implies (seq![s[0]] + r)[i]
            != '\x1b' by {
            if i > 0 {
                assert((seq![s[0]] + r)[i] == r[i - 1]);
            }
        }
    }
}

/// Text without escape characters is left as it is.
pub proof fn law_strip_ansi_keeps_plain(s: Seq<char>)
    requires
        escape_free(s),
    ensures
        spec_strip_ansi(s) == s,
    decreases s.len(),
{
    if s.len() > 0 {
        assert(s[0] != '\x1b');
        assert(escape_free(s.drop_first()));
        law_strip_ansi_keeps_plain(s.drop_first());
        assert(seq![s[0]] + s.drop_first() =~= s);
    }
}

/// Stripping twice is stripping once.
pub proof fn law_strip_ansi_idempotent(s: Seq<char>)
    ensures
        spec_strip_ansi(spec_strip_ansi(s)) == spec_strip_ansi(s),
{
    law_strip_ansi_escape_free(s);
    law_strip_ansi_keeps_plain(spec_strip_ansi(s));
}

/// `idx` picks, in increasing order, positions of `b` that spell `a`.
pub open spec fn embeds(idx: Seq<int>, a: Seq<char>, b: Seq<char>) -> bool {
    &&& idx.len() == a.len()
    &&& forall|i: int| 0 <= i < idx.len() ==> 0 <= #[trigger] idx[i] < b.len() && b[idx[i]] == a[i]
    &&& forall|i: int, j: int| 0 <= i < j < idx.len() ==> idx[i] < idx[j]
}

/// `a` is `b` with some characters left out.
pub open spec fn is_subsequence(a: Seq<char>, b: Seq<char>) -> bool {
    exists|idx: Seq<int>| embeds(idx, a, b)
}

proof fn lemma_skip_csi_suffix(s: Seq<char>)
    ensures
        skip_csi(s) == s.subrange(s.len() - skip_csi(s).len(), s.len() as int),
    decreases s.len(),
{
    if s.len() == 0 {
        assert(s.subrange(0, 0) =~= s);
    } else if is_alpha(s[0]) {
        assert(s.drop_first() =~= s.subrange(1, s.len() as int));
    } else {
        lemma_skip_csi_suffix(s.drop_first());
        lemma_skip_csi_len(s.drop_first());
        let u = skip_csi(s.drop_first());
        assert(s.drop_first().subrange(s.len() - 1 - u.len(), s.len() - 1) =~= s.subrange(
            s.len() - u.len(),
            s.len() as int,
        ));
    }
}

proof fn lemma_embeds_shift(idx: Seq<int>, a: Seq<char>, b: Seq<char>, o: int)
    requires
        0 <= o <= b.len(),
        embeds(idx, a, b.subrange(o, b.len() as int)),
    ensures
        embeds(idx.map_values(|x: int| x + o), a, b),
{
    let sh = idx.map_values(|x: int| x + o);
    assert forall|i: int| 0 <= i < sh.len() implies 0 <= #[trigger] sh[i] < b.len() && b[sh[i]]
        == a[i] by {
        assert(b.subrange(o, b.len() as int)[idx[i]] == b[idx[i] + o]);
    }
}

/// The positions of `s` that the stripped text keeps.
proof fn lemma_strip_ansi_embeds(s: Seq<char>) -> (idx: Seq<int>)
    ensures
        embeds(idx, spec_strip_ansi(s), s),
    decreases s.len(),
{
    if s.len() == 0 {
        Seq::empty()
    } else if s[0] == '\x1b' && s.len() >= 2 && s[1] == '[' {
        let t = s.subrange(2, s.len() as int);
        lemma_skip_csi_len(t);
        lemma_skip_csi_suffix(t);
        let u = skip_csi(t);
        let o = s.len() - u.len();
        assert(s.subrange(o, s.len() as int) =~= u);
        let inner = lemma_strip_ansi_embeds(u);
        lemma_embeds_shift(inner, spec_strip_ansi(s), s, o);
        inner.map_values(|x: int| x + o)
    } else {
        let inner = lemma_strip_ansi_embeds(s.drop_first());
        assert(s.subrange(1, s.len() as int) =~= s.drop_first());
        lemma_embeds_shift(inner, spec_strip_ansi(s.drop_first()), s, 1);
        let sh = inner.map_values(|x: int| x + 1);
        if s[0] == '\x1b' {
            sh
        } else {
            let r = spec_strip_ansi(s.drop_first());
            let idx = seq![0int] + sh;
            assert forall|i: int| 0 <= i < idx.len() implies 0 <= #[trigger] idx[i] < s.len()
                && s[idx[i]] == (seq![s[0]] + r)[i] by {
                if i > 0 {
                    assert(idx[i] == sh[i - 1]);
                }
            }
            assert forall|i: int, j: int| 0 <= i < j < idx.len() implies idx[i] < idx[j] by {
                if i > 0 {
                    assert(idx[i] == sh[i - 1]);
                }
                assert(idx[j] == sh[j - 1]);
            }
            idx
        }
    }
}

/// Stripping only leaves characters out: what remains appears in the input,
/// in the same order.
pub proof fn law_strip_ansi_subsequence(s: Seq<char>)
    ensures
        is_subsequence(spec_strip_ansi(s), s),
{
    let idx = lemma_strip_ansi_embeds(s);
    assert(embeds(idx, spec_strip_ansi(s), s));
}

/// A running app detected in (lower-cased) output is still detected when
/// more output comes before or after it.
pub proof fn law_app_running_survives_more_output(
    p: Seq<char>,
    lower: Seq<char>,
    q: Seq<char>,
    exit_code: Option<i32>,
)
    requires
        spec_app_running(lower, exit_code),
    ensures
        spec_app_running(p + lower + q, exit_code),
{
    assert forall|pat: Seq<char>| contains(lower, pat) implies #[trigger] contains(
        p + lower + q,
        pat,
    ) by {
        lemma_contains_within(p, lower, q, pat);
    }
}

/// A network failure detected in (lower-cased) output is still detected
/// when more output comes before or after it.
pub proof fn law_network_error_survives_more_output(p: Seq<char>, lower: Seq<char>, q: Seq<char>)
    requires
        spec_network_error(lower),
    ensures
        spec_network_error(p + lower + q),
{
    assert forall|pat: Seq<char>| contains(lower, pat) implies #[trigger] contains(
        p + lower + q,
        pat,
    ) by {
        lemma_contains_within(p, lower, q, pat);
    }
}

/// A blocking exit code means the app is running, whatever the output says;
/// a successful run is a success, whatever the output says.
pub proof fn law_status_precedence(lower: Seq<char>, code: Option<i32>)
    ensures
        blocking_exit_code(code) ==> spec_status(false, lower, code) == OpStatus::AppRunning,
        spec_status(true, lower, code) == OpStatus::Success,
{
}

/// A displayed line is trimmed and holds a letter.
pub proof fn law_display_line_meaningful(raw: Seq<char>)
    ensures
        spec_display_line(raw) matches Some(t) ==> spec_is_meaningful(t) && t == trim(
            after_last(spec_strip_ansi(raw), '\r'),
        ),
{
}

} // verus!
