use brewinget::schedule::{
    create_task, default_day, default_frequency, default_hour, default_interval, delete_task, exe_path,
    loaded_schedule, ps_result, task_plan, ScheduleConfig, TaskPlan,
};

const TASK_NAME: &str = "Brewinget Auto-Update";

fn cfg(enabled: bool, frequency: &str, day: u8, hour: u8, minute: u8, interval: u32) -> ScheduleConfig {
    ScheduleConfig {
        enabled,
        frequency: frequency.to_string(),
        day_of_week: day,
        hour,
        minute,
        interval_hours: interval,
    }
}

fn expected_script(exe: &str, trigger_expr: &str) -> String {
    format!(
        "$action   = New-ScheduledTaskAction -Execute '{exe}' -Argument '--auto-update'\n\
         $trigger  = {trigger_expr}\n\
         $settings = New-ScheduledTaskSettingsSet -ExecutionTimeLimit (New-TimeSpan -Hours 2) \
                       -MultipleInstances IgnoreNew -StartWhenAvailable\n\
         Register-ScheduledTask -TaskName '{TASK_NAME}' -Action $action -Trigger $trigger \
           -Settings $settings -RunLevel Highest -Force | Out-Null"
    )
}

#[test]
fn defaults() {
    assert_eq!(default_frequency(), "daily");
    assert_eq!(default_day(), 1);
    assert_eq!(default_hour(), 2);
    assert_eq!(default_interval(), 12);
    let c = ScheduleConfig::default();
    assert!(!c.enabled);
    assert_eq!(c.frequency, "daily");
    assert_eq!((c.day_of_week, c.hour, c.minute, c.interval_hours), (1, 2, 0, 12));
}

#[test]
fn daily_script_escapes_quotes() {
    let s = create_task(&cfg(true, "daily", 1, 2, 5, 12), "C:\\Program Files\\O'Brien\\brewinget.exe");
    assert_eq!(
        s,
        expected_script(
            "C:\\Program Files\\O''Brien\\brewinget.exe",
            "New-ScheduledTaskTrigger -Daily -At '02:05'"
        )
    );
}

#[test]
fn weekly_script() {
    let s = create_task(&cfg(true, "weekly", 3, 14, 30, 12), "b.exe");
    assert_eq!(
        s,
        expected_script("b.exe", "New-ScheduledTaskTrigger -Weekly -DaysOfWeek Wednesday -At '14:30'")
    );
    // An out-of-range weekday falls back to Monday.
    let s = create_task(&cfg(true, "weekly", 9, 0, 0, 12), "b.exe");
    assert_eq!(s, expected_script("b.exe", "New-ScheduledTaskTrigger -Weekly -DaysOfWeek Monday -At '00:00'"));
}

#[test]
fn custom_script_at_least_hourly() {
    let trig = |h: u32| {
        format!(
            "New-ScheduledTaskTrigger -Once -At (Get-Date) \
             -RepetitionInterval (New-TimeSpan -Hours {h}) \
             -RepetitionDuration (New-TimeSpan -Days 9999)"
        )
    };
    assert_eq!(create_task(&cfg(true, "custom", 1, 2, 0, 6), "b.exe"), expected_script("b.exe", &trig(6)));
    assert_eq!(create_task(&cfg(true, "custom", 1, 2, 0, 0), "b.exe"), expected_script("b.exe", &trig(1)));
}

#[test]
fn unknown_frequency_is_daily() {
    let s = create_task(&cfg(true, "hourly", 1, 23, 59, 12), "x");
    assert_eq!(s, expected_script("x", "New-ScheduledTaskTrigger -Daily -At '23:59'"));
}

#[test]
fn delete_script() {
    let expected = format!(
        "if (Get-ScheduledTask -TaskName '{TASK_NAME}' -ErrorAction SilentlyContinue) {{\n    \
             Unregister-ScheduledTask -TaskName '{TASK_NAME}' -Confirm:$false\n\
         }}"
    );
    assert_eq!(delete_task(), expected);
}

#[test]
fn plan_follows_enabled_flag() {
    let on = cfg(true, "daily", 1, 2, 0, 12);
    assert_eq!(task_plan(&on, "b.exe"), TaskPlan::Register(create_task(&on, "b.exe")));
    let off = cfg(false, "daily", 1, 2, 0, 12);
    assert_eq!(task_plan(&off, "b.exe"), TaskPlan::Remove(delete_task()));
}

#[test]
fn exe_path_fallback() {
    assert_eq!(exe_path(None), "brewinget.exe");
    assert_eq!(exe_path(Some("C:\\b.exe".to_string())), "C:\\b.exe");
}

#[test]
fn powershell_results() {
    assert_eq!(ps_result(true, "out", "err"), Ok(()));
    assert_eq!(ps_result(false, "out", "  access denied \n"), Err("Task Scheduler error: access denied".to_string()));
    assert_eq!(ps_result(false, " some output ", "  \n"), Err("Task Scheduler error: some output".to_string()));
    assert_eq!(ps_result(false, "", ""), Err("Task Scheduler error: ".to_string()));
}

#[test]
fn schedule_falls_back_to_default() {
    let d = loaded_schedule(None);
    assert!(!d.enabled);
    assert_eq!(d.frequency, "daily");
    assert_eq!((d.day_of_week, d.hour, d.minute, d.interval_hours), (1, 2, 0, 12));
    let stored = ScheduleConfig {
        enabled: true,
        frequency: "weekly".to_string(),
        day_of_week: 5,
        hour: 7,
        minute: 30,
        interval_hours: 6,
    };
    let c = loaded_schedule(Some(stored));
    assert!(c.enabled);
    assert_eq!(c.frequency, "weekly");
    assert_eq!((c.day_of_week, c.hour, c.minute, c.interval_hours), (5, 7, 30, 6));
}
