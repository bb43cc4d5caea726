//! The automatic-update schedule and the Task Scheduler scripts that
//! register or remove it.
use vstd::prelude::*;
use crate::text::{chars_of, owned, push_str, same_text, string_of, trim, trim_bounds, two_digit_string, two_digits, decimal, decimal_string};

verus! {

/// When the automatic update runs.
#[derive(Clone, Debug)]
pub struct ScheduleConfig {
    pub enabled: bool,
    /// `"daily"`, `"weekly"` or `"custom"`.
    pub frequency: String,
    /// 0 = Sunday … 6 = Saturday; used when weekly.
    pub day_of_week: u8,
    pub hour: u8,
    pub minute: u8,
    /// Hours between runs; used when custom.
    pub interval_hours: u32,
}

pub fn default_frequency() -> (s: String)
    ensures
        s@ == "daily"@,
{
    owned("daily")
}

/// Monday.
pub fn default_day() -> (d: u8)
    ensures
        d == 1,
{
    1
}

pub fn default_hour() -> (h: u8)
    ensures
        h == 2,
{
    2
}

pub fn default_interval() -> (h: u32)
    ensures
        h == 12,
{
    12
}

impl ScheduleConfig {
    /// Disabled, daily at 02:00 (Monday and a 12-hour interval when the
    /// frequency is changed).
    pub open spec fn spec_default(c: ScheduleConfig) -> bool {
        &&& !c.enabled
        &&& c.frequency@ == "daily"@
        &&& c.day_of_week == 1
        &&& c.hour == 2
        &&& c.minute == 0
        &&& c.interval_hours == 12
    }
}

impl Default for ScheduleConfig {
    fn default() -> (c: Self)
        ensures
            ScheduleConfig::spec_default(c),
    {
        ScheduleConfig {
            enabled: false,
            frequency: default_frequency(),
            day_of_week: default_day(),
            hour: default_hour(),
            minute: 0,
            interval_hours: default_interval(),
        }
    }
}

/// The schedule in effect, given what was read from the schedule file:
/// the stored schedule, or the default one when there is no file or it
/// could not be read or parsed (`None`).
pub fn loaded_schedule(stored: Option<ScheduleConfig>) -> (c: ScheduleConfig)
    ensures
        match stored {
            Some(s) => c == s,
            None => ScheduleConfig::spec_default(c),
        },
{
    match stored {
        Some(s) => s,
        None => ScheduleConfig::default(),
    }
}

// ───────────────────────── scripts ─────────────────────────

/// `s` with every `'` doubled, for a single-quoted PowerShell string.
pub open spec fn escape_quotes(s: Seq<char>) -> Seq<char>
    decreases s.len(),
{
    if s.len() == 0 {
        s
    } else {
        escape_quotes(s.drop_last()) + (if s.last() == '\'' {
            seq!['\'', '\'']
        } else {
            seq![s.last()]
        })
    }
}

fn escape_quotes_exec(s: &str) -> (r: Vec<char>)
    ensures
        r@ == escape_quotes(s@),
{
    let cs = chars_of(s);
    let mut out: Vec<char> = Vec::new();
    let mut i: usize = 0;
    while i < cs.len()
        invariant
            i <= cs@.len(),
            out@ == escape_quotes(cs@.take(i as int)),
        decreases cs.len() - i,
    {
        let ghost t = cs@.take(i + 1);
        assert(t.drop_last() =~= cs@.take(i as int));
        let c = cs[i];
        if c == '\'' {
            out.push('\'');
            out.push('\'');
        } else {
            out.push(c);
        }
        i = i + 1;
        assert(out@ =~= escape_quotes(t));
    }
    assert(cs@.take(cs@.len() as int) =~= cs@);
    out
}

pub open spec fn day_names() -> Seq<Seq<char>> {
    seq![
        "Sunday"@,
        "Monday"@,
        "Tuesday"@,
        "Wednesday"@,
        "Thursday"@,
        "Friday"@,
        "Saturday"@,
    ]
}

/// The weekday of a weekly schedule; Monday when the number is out of range.
pub open spec fn day_name(day: u8) -> Seq<char> {
    if day < 7 {
        day_names()[day as int]
    } else {
        "Monday"@
    }
}

fn day_name_exec(day: u8) -> (s: &'static str)
    ensures
        s@ == day_name(day),
{
    if day == 0 {
        "Sunday"
    } else if day == 1 {
        "Monday"
    } else if day == 2 {
        "Tuesday"
    } else if day == 3 {
        "Wednesday"
    } else if day == 4 {
        "Thursday"
    } else if day == 5 {
        "Friday"
    } else if day == 6 {
        "Saturday"
    } else {
        "Monday"
    }
}

/// `HH:MM`.
pub open spec fn time_text(hour: u8, minute: u8) -> Seq<char> {
    two_digits(hour as nat) + ":"@ + two_digits(minute as nat)
}

/// The PowerShell expression that builds the task's trigger.
pub open spec fn trigger_expr(c: ScheduleConfig) -> Seq<char> {
    if c.frequency@ == "weekly"@ {
        "New-ScheduledTaskTrigger -Weekly -DaysOfWeek "@ + day_name(c.day_of_week) + " -At '"@
            + time_text(c.hour, c.minute) + "'"@
    } else if c.frequency@ == "custom"@ {
        let h: nat = if c.interval_hours < 1 {
            1
        } else {
            c.interval_hours as nat
        };
        "New-ScheduledTaskTrigger -Once -At (Get-Date) -RepetitionInterval (New-TimeSpan -Hours "@
            + decimal(h)
            + ") -RepetitionDuration (New-TimeSpan -Days 9999)"@
    } else {
        "New-ScheduledTaskTrigger -Daily -At '"@ + time_text(c.hour, c.minute) + "'"@
    }
}

/// The script that registers (or replaces) the scheduled task running
/// `exe --auto-update`.
pub open spec fn register_script(c: ScheduleConfig, exe: Seq<char>) -> Seq<char> {
    "$action   = New-ScheduledTaskAction -Execute '"@ + escape_quotes(exe)
        + "' -Argument '--auto-update'\n$trigger  = "@ + trigger_expr(c)
        + "\n$settings = New-ScheduledTaskSettingsSet -ExecutionTimeLimit (New-TimeSpan -Hours 2) -MultipleInstances IgnoreNew -StartWhenAvailable\nRegister-ScheduledTask -TaskName 'Brewinget Auto-Update' -Action $action -Trigger $trigger -Settings $settings -RunLevel Highest -Force | Out-Null"@
}

/// The script that removes the scheduled task if it exists.
pub open spec fn remove_script() -> Seq<char> {
    "if (Get-ScheduledTask -TaskName 'Brewinget Auto-Update' -ErrorAction SilentlyContinue) {\n    Unregister-ScheduledTask -TaskName 'Brewinget Auto-Update' -Confirm:$false\n}"@
}

fn push_chars(v: &mut Vec<char>, w: &Vec<char>)
    ensures
        final(v)@ == old(v)@ + w@,
{
    let ghost start = v@;
    let mut i: usize = 0;
    while i < w.len()
        invariant
            i <= w@.len(),
            v@ == start + w@.subrange(0, i as int),
        decreases w.len() - i,
    {
        v.push(w[i]);
        i = i + 1;
        assert(v@ =~= start + w@.subrange(0, i as int));
    }
    assert(w@.subrange(0, w@.len() as int) =~= w@);
}

fn trigger_text(c: &ScheduleConfig) -> (s: String)
    ensures
        s@ == trigger_expr(*c),
{
    let mut v: Vec<char> = Vec::new();
    if same_text(c.frequency.as_str(), "weekly") {
        push_str(&mut v, "New-ScheduledTaskTrigger -Weekly -DaysOfWeek ");
        push_str(&mut v, day_name_exec(c.day_of_week));
        push_str(&mut v, " -At '");
        push_str(&mut v, two_digit_string(c.hour as usize).as_str());
        push_str(&mut v, ":");
        push_str(&mut v, two_digit_string(c.minute as usize).as_str());
        push_str(&mut v, "'");
    } else if same_text(c.frequency.as_str(), "custom") {
        let h: u32 = if c.interval_hours < 1 {
            1
        } else {
            c.interval_hours
        };
        push_str(
            &mut v,
            "New-ScheduledTaskTrigger -Once -At (Get-Date) -RepetitionInterval (New-TimeSpan -Hours ",
        );
        push_str(&mut v, decimal_string(h as usize).as_str());
        push_str(&mut v, ") -RepetitionDuration (New-TimeSpan -Days 9999)");
    } else {
        push_str(&mut v, "New-ScheduledTaskTrigger -Daily -At '");
        push_str(&mut v, two_digit_string(c.hour as usize).as_str());
        push_str(&mut v, ":");
        push_str(&mut v, two_digit_string(c.minute as usize).as_str());
        push_str(&mut v, "'");
    }
    string_of(v.as_slice())
}

/// The script registering the scheduled task for `config`, started as
/// `exe --auto-update`.
pub fn create_task(config: &ScheduleConfig, exe: &str) -> (script: String)
    ensures
        script@ == register_script(*config, exe@),
{
    let mut v: Vec<char> = Vec::new();
    push_str(&mut v, "$action   = New-ScheduledTaskAction -Execute '");
    let e = escape_quotes_exec(exe);
    push_chars(&mut v, &e);
    push_str(&mut v, "' -Argument '--auto-update'\n$trigger  = ");
    push_str(&mut v, trigger_text(config).as_str());
    push_str(
        &mut v,
        "\n$settings = New-ScheduledTaskSettingsSet -ExecutionTimeLimit (New-TimeSpan -Hours 2) -MultipleInstances IgnoreNew -StartWhenAvailable\nRegister-ScheduledTask -TaskName 'Brewinget Auto-Update' -Action $action -Trigger $trigger -Settings $settings -RunLevel Highest -Force | Out-Null",
    );
    string_of(v.as_slice())
}

/// The script removing the scheduled task, if there is one.
pub fn delete_task() -> (script: String)
    ensures
        script@ == remove_script(),
{
    owned(
        "if (Get-ScheduledTask -TaskName 'Brewinget Auto-Update' -ErrorAction SilentlyContinue) {\n    Unregister-ScheduledTask -TaskName 'Brewinget Auto-Update' -Confirm:$false\n}",
    )
}

/// What saving a schedule asks of the Task Scheduler.
#[derive(Debug, PartialEq, Eq)]
pub enum TaskPlan {
    /// Run this script; its failure is the failure of the save.
    Register(String),
    /// Run this script; its failure does not matter.
    Remove(String),
}

pub enum TaskPlanView {
    Register(Seq<char>),
    Remove(Seq<char>),
}

impl View for TaskPlan {
    type V = TaskPlanView;

    open spec fn view(&self) -> TaskPlanView {
        match self {
            TaskPlan::Register(s) => TaskPlanView::Register(s@),
            TaskPlan::Remove(s) => TaskPlanView::Remove(s@),
        }
    }
}

/// An enabled schedule is registered; a disabled one is removed.
pub open spec fn spec_task_plan(c: ScheduleConfig, exe: Seq<char>) -> TaskPlanView {
    if c.enabled {
        TaskPlanView::Register(register_script(c, exe))
    } else {
        TaskPlanView::Remove(remove_script())
    }
}

pub fn task_plan(config: &ScheduleConfig, exe: &str) -> (p: TaskPlan)
    ensures
        p@ == spec_task_plan(*config, exe@),
{
    if config.enabled {
        TaskPlan::Register(create_task(config, exe))
    } else {
        TaskPlan::Remove(delete_task())
    }
}

/// The program path used in the task: the running executable's path, or
/// `brewinget.exe` when it cannot be found.
pub open spec fn spec_exe_path(current: Option<Seq<char>>) -> Seq<char> {
    match current {
        Some(p) => p,
        None => "brewinget.exe"@,
    }
}

pub fn exe_path(current: Option<String>) -> (p: String)
    ensures
        p@ == spec_exe_path(match current {
            Some(s) => Some(s@),
            None => None,
        }),
{
    match current {
        Some(s) => s,
        None => owned("brewinget.exe"),
    }
}

/// The result of a PowerShell run: fine when it succeeded, else a Task
/// Scheduler error with its trimmed error output (its standard output when
/// the error output is blank).
pub open spec fn spec_ps_result(success: bool, stdout: Seq<char>, stderr: Seq<char>) -> Result<(), Seq<char>> {
    if success {
        Ok(())
    } else if trim(stderr).len() > 0 {
        Err("Task Scheduler error: "@ + trim(stderr))
    } else {
        Err("Task Scheduler error: "@ + trim(stdout))
    }
}

fn trimmed(s: &str) -> (r: Vec<char>)
    ensures
        r@ == trim(s@),
{
    let cs = chars_of(s);
    assert(cs@.subrange(0, cs@.len() as int) =~= cs@);
    let (a, b) = trim_bounds(cs.as_slice(), 0, cs.len());
    let mut out: Vec<char> = Vec::new();
    let mut i = a;
    while i < b
        invariant
            a <= i <= b <= cs@.len(),
            out@ == cs@.subrange(a as int, i as int),
        decreases b - i,
    {
        out.push(cs[i]);
        i = i + 1;
        assert(out@ =~= cs@.subrange(a as int, i as int));
    }
    out
}

pub fn ps_result(success: bool, stdout: &str, stderr: &str) -> (r: Result<(), String>)
    ensures
        match r {
            Ok(()) => spec_ps_result(success, stdout@, stderr@) == Ok::<(), Seq<char>>(()),
            Err(e) => spec_ps_result(success, stdout@, stderr@) == Err::<(), Seq<char>>(e@),
        },
{
    if success {
        return Ok(());
    }
    let mut v: Vec<char> = Vec::new();
    push_str(&mut v, "Task Scheduler error: ");
    let e = trimmed(stderr);
    if e.len() > 0 {
        push_chars(&mut v, &e);
    } else {
        let o = trimmed(stdout);
        push_chars(&mut v, &o);
    }
    Err(string_of(v.as_slice()))
}

/// Reads a single-quoted PowerShell literal body back: `''` stands for `'`.
pub open spec fn unescape_quotes(s: Seq<char>) -> Seq<char>
    decreases s.len(),
{
    if s.len() >= 2 && s.last() == '\'' && s[s.len() - 2] == '\'' {
        unescape_quotes(s.subrange(0, s.len() - 2)).push('\'')
    } else if s.len() > 0 {
        unescape_quotes(s.drop_last()).push(s.last())
    } else {
        s
    }
}

/// The quoted program path in the script denotes exactly the program path.
pub proof fn law_escape_round_trip(s: Seq<char>)
    ensures
        unescape_quotes(escape_quotes(s)) == s,
    decreases s.len(),
{
    if s.len() > 0 {
        law_escape_round_trip(s.drop_last());
        let e = escape_quotes(s.drop_last());
        if s.last() == '\'' {
            let t = e + seq!['\'', '\''];
            assert(t.subrange(0, t.len() - 2) =~= e);
        } else {
            let t = e + seq![s.last()];
            assert(t.drop_last() =~= e);
        }
        assert(s.drop_last().push(s.last()) =~= s);
    }
}

/// A custom schedule repeats at least every hour; a weekly schedule names a
/// real weekday.
pub proof fn law_trigger_sane(c: ScheduleConfig)
    ensures
        c.frequency@ == "weekly"@ ==> day_names().contains(day_name(c.day_of_week)),
{
    if c.day_of_week < 7 {
        assert(day_names()[c.day_of_week as int] == day_name(c.day_of_week));
    } else {
        assert(day_names()[1] == day_name(c.day_of_week));
    }
}

/// Day numbers run from 0 = Sunday to 6 = Saturday: each of them names a
/// different weekday, in the order of `day_names` (Sunday first); only a
/// number of 7 or more falls back to Monday. So two weekly schedules that
/// differ only in a valid day never get the same trigger.
pub proof fn law_weekly_day_numbers(d: u8, e: u8, c: ScheduleConfig)
    ensures
        d < 7 ==> day_name(d) == day_names()[d as int],
        d >= 7 ==> day_name(d) == "Monday"@,
        d < 7 && e < 7 && d != e ==> day_name(d) != day_name(e),
        c.frequency@ == "weekly"@ && d < 7 && e < 7 && d != e ==> trigger_expr(
            ScheduleConfig { day_of_week: d, ..c },
        ) != trigger_expr(ScheduleConfig { day_of_week: e, ..c }),
{
    reveal_strlit("Sunday");
    reveal_strlit("Monday");
    reveal_strlit("Tuesday");
    reveal_strlit("Wednesday");
    reveal_strlit("Thursday");
    reveal_strlit("Friday");
    reveal_strlit("Saturday");
    if d < 7 && e < 7 && d != e {
        let a = day_name(d);
        let b = day_name(e);
        assert(a != b) by {
            if a == b {
                if d == 0 || d == 1 || d == 2 || d == 3 || d == 4 || d == 5 || d == 6 {
                    assert(a.len() == b.len());
                    assert(a[0] == b[0] && a[1] == b[1] && a[2] == b[2]);
                }
            }
        }
        if c.frequency@ == "weekly"@ {
            let p = "New-ScheduledTaskTrigger -Weekly -DaysOfWeek "@;
            let q = " -At '"@ + time_text(c.hour, c.minute) + "'"@;
            let x = trigger_expr(ScheduleConfig { day_of_week: d, ..c });
            let y = trigger_expr(ScheduleConfig { day_of_week: e, ..c });
            assert(ScheduleConfig { day_of_week: d, ..c }.frequency@ == "weekly"@);
            assert(ScheduleConfig { day_of_week: e, ..c }.frequency@ == "weekly"@);
            assert(x =~= p + a + q);
            assert(y =~= p + b + q);
            if x == y {
                assert((p + a + q).subrange(p.len() as int, x.len() - q.len()) =~= a);
                assert((p + b + q).subrange(p.len() as int, y.len() - q.len()) =~= b);
                assert(a.len() == b.len()) by {
                    assert(x.len() == p.len() + a.len() + q.len());
                    assert(y.len() == p.len() + b.len() + q.len());
                }
            }
        }
    }
}

} // verus!
