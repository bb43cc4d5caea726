use brewinget::headless::{
    is_auto_update, log_file_name, log_file_path, log_header_at, log_header, log_time, TimeStamp, output_log_lines, queued_packages, spawn_error_line, upgrade_args,
    upgrade_outcome, AutoUpdate, Outcome,
};

fn strs(v: &[&str]) -> Vec<String> {
    v.iter().map(|s| s.to_string()).collect()
}

#[test]
fn unattended_upgrade_arguments() {
    assert_eq!(
        upgrade_args("Git.Git"),
        strs(&[
            "/c", "winget", "upgrade", "--id", "Git.Git", "--exact", "--silent",
            "--accept-package-agreements", "--accept-source-agreements"
        ])
    );
}

#[test]
fn outcomes() {
    assert_eq!(upgrade_outcome(true, "network down", "", Some(1603)), Outcome::Success);
    assert_eq!(upgrade_outcome(false, "", "", Some(1603)), Outcome::AppRunning);
    assert_eq!(upgrade_outcome(false, "Network error", "", Some(1)), Outcome::NetworkError);
    // Standard output and error output are read together.
    assert_eq!(upgrade_outcome(false, "Failed to update ", "SOURCE", None), Outcome::NetworkError);
    assert_eq!(upgrade_outcome(false, "in", " use", None), Outcome::AppRunning);
    // A running app wins over a network message.
    assert_eq!(upgrade_outcome(false, "network; file is in use", "", None), Outcome::AppRunning);
    assert_eq!(upgrade_outcome(false, "bad", "worse", Some(2)), Outcome::Error);
}

#[test]
fn log_of_output() {
    let out = "\x1b[1mDownloading\x1b[0m\n ██ \n  -\r  Done \r\n\nInstalling 2/3\n";
    assert_eq!(output_log_lines(out), strs(&["  Downloading", "  Done", "  Installing 2/3"]));
    assert!(output_log_lines("").is_empty());
    assert_eq!(spawn_error_line("not found"), "  [spawn error] not found");
}

#[test]
fn queue_is_sorted_by_name() {
    let prefs = vec![
        ("b".to_string(), true),
        ("a".to_string(), false),
        ("C".to_string(), true),
        ("ab".to_string(), true),
    ];
    assert_eq!(queued_packages(&prefs), strs(&["C", "a", "ab", "b"]));
    assert!(queued_packages(&vec![]).is_empty());
}

#[test]
fn header() {
    let h = log_header("2024-01-01 02:00:00");
    assert_eq!(h.len(), 3);
    assert_eq!(h[0], "Brewinget auto-update — 2024-01-01 02:00:00");
    assert_eq!(h[1], "─".repeat(60));
    assert_eq!(h[2], "");
}

#[test]
fn auto_update_run() {
    let prefs = vec![("Zoom.Zoom".to_string(), true), ("Git.Git".to_string(), true)];
    let (mut run, lines) = AutoUpdate::start(&prefs);
    assert_eq!(lines, strs(&["Packages queued: Git.Git, Zoom.Zoom", ""]));
    let (pkg, heading) = run.next_package().unwrap();
    assert_eq!(pkg, "Git.Git");
    assert_eq!(heading, "── [1/2] Git.Git ──");
    assert_eq!(run.record(Outcome::Success), strs(&["  ✓ Updated.", ""]));
    let (pkg, heading) = run.next_package().unwrap();
    assert_eq!(pkg, "Zoom.Zoom");
    assert_eq!(heading, "── [2/2] Zoom.Zoom ──");
    assert_eq!(
        run.record(Outcome::NetworkError),
        strs(&[
            "  ✕ Network unavailable — will retry next scheduled run.",
            "",
            "── Summary: 1 updated, 1 failed/skipped ──"
        ])
    );
    assert_eq!(run.next_package(), None);
}

#[test]
fn auto_update_nothing_to_do() {
    let (run, lines) = AutoUpdate::start(&vec![]);
    assert_eq!(lines, strs(&["No packages flagged for auto-update. Nothing to do."]));
    assert_eq!(run.next_package(), None);
}

#[test]
fn auto_update_other_outcomes() {
    let (mut run, _) = AutoUpdate::start(&vec![("A".to_string(), false)]);
    run.next_package();
    assert_eq!(
        run.record(Outcome::AppRunning),
        strs(&["  ⚠  Skipped — application is running.", "", "── Summary: 0 updated, 1 failed/skipped ──"])
    );
    let (mut run, _) = AutoUpdate::start(&vec![("A".to_string(), true), ("B".to_string(), true)]);
    assert_eq!(run.record(Outcome::Error), strs(&["  ✕ Update failed.", ""]));
}

#[test]
fn auto_update_flag() {
    assert!(is_auto_update(&strs(&["brewinget.exe", "--auto-update"])));
    assert!(!is_auto_update(&strs(&["brewinget.exe"])));
    assert!(!is_auto_update(&strs(&["brewinget.exe", "--auto-updates"])));
}

fn stamp(year: i32, month: u32, day: u32, hour: u32, minute: u32, second: u32) -> TimeStamp {
    TimeStamp { year, month, day, hour, minute, second }
}

#[test]
fn time_stamped_log_file() {
    let t = stamp(2024, 1, 5, 2, 3, 4);
    assert_eq!(log_file_name(&t), "auto-update-2024-01-05-02-03-04.log");
    assert_eq!(log_file_name(&stamp(2031, 12, 31, 23, 59, 58)), "auto-update-2031-12-31-23-59-58.log");
    assert_eq!(log_time(&t), "2024-01-05 02:03:04");
    assert_eq!(log_file_path(None, &t), Err(()));
    let p = log_file_path(Some("C:\\L"), &t).unwrap();
    let sep = std::path::MAIN_SEPARATOR;
    assert_eq!(p, format!("C:\\L{sep}Brewinget{sep}logs{sep}auto-update-2024-01-05-02-03-04.log"));
    let h = log_header_at(&t);
    assert_eq!(h, vec![
        "Brewinget auto-update — 2024-01-05 02:03:04".to_string(),
        "─".repeat(60),
        String::new(),
    ]);
}

#[test]
fn years_outside_four_digits() {
    assert_eq!(log_time(&stamp(987, 6, 7, 8, 9, 10)), "0987-06-07 08:09:10");
    assert_eq!(log_time(&stamp(5, 6, 7, 8, 9, 10)), "0005-06-07 08:09:10");
    assert_eq!(log_time(&stamp(12345, 6, 7, 8, 9, 10)), "+12345-06-07 08:09:10");
    assert_eq!(log_time(&stamp(-5, 6, 7, 8, 9, 10)), "-0005-06-07 08:09:10");
    assert_eq!(log_time(&stamp(-12345, 6, 7, 8, 9, 10)), "-12345-06-07 08:09:10");
}
