//! One package operation and its attempts. Install and update have a
//! fallback: a silent attempt that fails is tried once more without the
//! silent flags (some installers do not support them), and the outputs of
//! both attempts are judged together. Uninstall and update-all make a single
//! attempt.
use vstd::prelude::*;

verus! {

/// The attempts of one operation so far.
pub struct OpRun {
    silent: bool,
    fallback: bool,
    retried: bool,
    output: String,
}

pub struct OpRunView {
    pub silent: bool,
    pub fallback: bool,
    pub retried: bool,
    pub output: Seq<char>,
}

impl View for OpRun {
    type V = OpRunView;

    closed spec fn view(&self) -> OpRunView {
        OpRunView {
            silent: self.silent,
            fallback: self.fallback,
            retried: self.retried,
            output: self.output@,
        }
    }
}

/// What to do after an attempt.
#[derive(Debug, PartialEq, Eq)]
pub enum OpStep {
    /// Run the same command again without the silent flags.
    RetryWithoutSilent,
    /// The operation is over; `output` holds the output of every attempt.
    Finished { ok: bool, output: String, exit_code: Option<i32> },
}

pub enum OpStepView {
    RetryWithoutSilent,
    Finished { ok: bool, output: Seq<char>, exit_code: Option<i32> },
}

impl View for OpStep {
    type V = OpStepView;

    open spec fn view(&self) -> OpStepView {
        match self {
            OpStep::RetryWithoutSilent => OpStepView::RetryWithoutSilent,
            OpStep::Finished { ok, output, exit_code } => OpStepView::Finished {
                ok: *ok,
                output: output@,
                exit_code: *exit_code,
            },
        }
    }
}

/// A fresh operation; `fallback` says whether a failed silent attempt is
/// tried again without the silent flags.
pub open spec fn op_start(silent: bool, fallback: bool) -> OpRunView {
    OpRunView { silent, fallback, retried: false, output: Seq::empty() }
}

/// Whether the next attempt passes the silent flags.
pub open spec fn op_next_silent(v: OpRunView) -> bool {
    v.silent && !v.retried
}

/// The state and step after an attempt that ended with `ok`, `output`, `exit_code`.
pub open spec fn op_record(v: OpRunView, ok: bool, output: Seq<char>, exit_code: Option<i32>) -> (
    OpRunView,
    OpStepView,
) {
    if !ok && v.silent && v.fallback && !v.retried {
        (OpRunView { retried: true, output: output, ..v }, OpStepView::RetryWithoutSilent)
    } else {
        (v, OpStepView::Finished { ok, output: v.output + output, exit_code })
    }
}

impl OpRun {
    /// An install or update: a failed silent attempt is retried once
    /// without the silent flags.
    pub fn new(silent: bool) -> (r: OpRun)
        ensures
            r@ == op_start(silent, true),
    {
        OpRun { silent, fallback: true, retried: false, output: String::new() }
    }

    /// An uninstall or update-all: a single attempt, silent or not.
    pub fn without_fallback(silent: bool) -> (r: OpRun)
        ensures
            r@ == op_start(silent, false),
    {
        OpRun { silent, fallback: false, retried: false, output: String::new() }
    }

    /// Whether the next attempt is to pass the silent flags.
    pub fn next_silent(&self) -> (b: bool)
        ensures
            b == op_next_silent(self@),
    {
        self.silent && !self.retried
    }

    /// The attempts after one more, which ended with `ok`, `output` and
    /// `exit_code`, and what comes next.
    pub fn record(&self, ok: bool, output: String, exit_code: Option<i32>) -> (r: (OpRun, OpStep))
        ensures
            (r.0@, r.1@) == op_record(self@, ok, output@, exit_code),
    {
        if !ok && self.silent && self.fallback && !self.retried {
            (
                OpRun { silent: self.silent, fallback: self.fallback, retried: true, output },
                OpStep::RetryWithoutSilent,
            )
        } else {
            let mut v = crate::text::chars_of(self.output.as_str());
            crate::text::push_str(&mut v, output.as_str());
            (
                OpRun {
                    silent: self.silent,
                    fallback: self.fallback,
                    retried: self.retried,
                    output: self.output.clone(),
                },
                OpStep::Finished { ok, output: crate::text::string_of(v.as_slice()), exit_code },
            )
        }
    }
}

/// An operation is retried only after a failed silent first attempt.
pub proof fn law_retry_only_after_silent_failure(
    v: OpRunView,
    ok: bool,
    output: Seq<char>,
    exit_code: Option<i32>,
)
    ensures
        op_record(v, ok, output, exit_code).1 is RetryWithoutSilent ==> !ok && v.silent
            && v.fallback && !v.retried && op_next_silent(v),
        op_record(v, ok, output, exit_code).1 is RetryWithoutSilent ==> !op_next_silent(
            op_record(v, ok, output, exit_code).0,
        ),
{
}

/// There are at most two attempts: after a retry, the next outcome finishes.
pub proof fn law_at_most_two_attempts(
    v: OpRunView,
    ok1: bool,
    out1: Seq<char>,
    code1: Option<i32>,
    ok2: bool,
    out2: Seq<char>,
    code2: Option<i32>,
)
    requires
        !v.retried,
    ensures
        ({
            let (w, s1) = op_record(v, ok1, out1, code1);
            s1 is RetryWithoutSilent ==> op_record(w, ok2, out2, code2).1 == (OpStepView::Finished {
                ok: ok2,
                output: out1 + out2,
                exit_code: code2,
            })
        }),
{
}

/// A first attempt that succeeds, is not silent, or has no fallback, finishes
/// with its own outcome.
pub proof fn law_first_attempt_final(
    silent: bool,
    fallback: bool,
    ok: bool,
    output: Seq<char>,
    code: Option<i32>,
)
    requires
        ok || !silent || !fallback,
    ensures
        op_record(op_start(silent, fallback), ok, output, code).1 == (OpStepView::Finished {
            ok,
            output,
            exit_code: code,
        }),
{
    assert(Seq::<char>::empty() + output =~= output);
}

/// The line shown when a command could not be started.
pub open spec fn spawn_failure_text(msg: Seq<char>) -> Seq<char> {
    "Error: "@ + msg
}

pub fn spawn_failure_line(msg: &str) -> (s: String)
    ensures
        s@ == spawn_failure_text(msg@),
{
    let mut v: Vec<char> = Vec::new();
    crate::text::push_str(&mut v, "Error: ");
    crate::text::push_str(&mut v, msg);
    crate::text::string_of(v.as_slice())
}

} // verus!
