use brewinget::detect::{
    app_running_in_lowercase, completion_status, detect_app_running, detect_network_error,
    display_line, is_meaningful, network_error_in_lowercase, strip_ansi, OpStatus,
};

#[test]
fn strip_ansi_removes_colour_codes() {
    assert_eq!(strip_ansi("\x1b[31mred\x1b[0m text"), "red text");
    assert_eq!(strip_ansi("plain"), "plain");
    assert_eq!(strip_ansi(""), "");
}

#[test]
fn strip_ansi_edge_cases() {
    // A lone ESC is dropped, the next character kept.
    assert_eq!(strip_ansi("a\x1bb"), "ab");
    // ESC at the end.
    assert_eq!(strip_ansi("abc\x1b"), "abc");
    // An unterminated sequence swallows the rest.
    assert_eq!(strip_ansi("a\x1b[12;3"), "a");
    // The sequence ends at its first letter.
    assert_eq!(strip_ansi("\x1b[2Kx\x1b[1;32my"), "xy");
}

#[test]
fn strip_ansi_is_idempotent() {
    let once = strip_ansi("\x1b[1mbold\x1b[0m \x1bX \x1b[");
    assert_eq!(strip_ansi(&once), once);
    assert!(!once.contains('\x1b'));
}

#[test]
fn meaningful_lines() {
    assert!(is_meaningful("Downloading"));
    assert!(is_meaningful("1024 KB / 83.2 MB"));
    assert!(!is_meaningful("████████░░░░"));
    assert!(!is_meaningful("\\|/-"));
    assert!(!is_meaningful(""));
    assert!(!is_meaningful("é 42"));
}

#[test]
fn display_line_keeps_last_frame() {
    assert_eq!(
        display_line("\x1b[32m  - \r  Downloading foo  \x1b[0m"),
        Some("Downloading foo".to_string())
    );
    assert_eq!(display_line("  \\ "), None);
    assert_eq!(display_line("Found it\r  ███ "), None);
    assert_eq!(display_line("  Successfully installed  "), Some("Successfully installed".to_string()));
}

#[test]
fn app_running_by_exit_code() {
    assert!(detect_app_running("", Some(1603)));
    assert!(detect_app_running("", Some(-2147024891)));
    assert!(!detect_app_running("", Some(1)));
    assert!(!detect_app_running("", None));
}

#[test]
fn app_running_by_text_any_case() {
    assert!(detect_app_running("The application is CURRENTLY RUNNING.", Some(1)));
    assert!(detect_app_running("Please Close the Application first", None));
    assert!(detect_app_running("Programmet er I BRUG", None));
    assert!(detect_app_running("LUK PROGRAMMET", None));
    assert!(detect_app_running("Vinduet ER ÅBEN", None));
    assert!(!detect_app_running("Installer failed with exit code: 1", Some(1)));
}

#[test]
fn lowercase_decision_does_not_fold_case() {
    assert!(app_running_in_lowercase("file in use", None));
    assert!(!app_running_in_lowercase("FILE IN USE", None));
    assert!(app_running_in_lowercase("FILE IN USE", Some(1603)));
    assert!(network_error_in_lowercase("no internet"));
    assert!(!network_error_in_lowercase("NO INTERNET"));
}

#[test]
fn network_errors() {
    assert!(detect_network_error("No Internet connection"));
    assert!(detect_network_error("Failed to update source: winget"));
    assert!(detect_network_error("NETVÆRK fejl"));
    assert!(detect_network_error("Ingen Internet Forbindelse"));
    assert!(!detect_network_error("Successfully installed"));
}

#[test]
fn completion_statuses() {
    assert_eq!(completion_status(true, "currently running", Some(1603)), OpStatus::Success);
    assert_eq!(completion_status(false, "", Some(1603)), OpStatus::AppRunning);
    assert_eq!(completion_status(false, "Another Instance is open", Some(2)), OpStatus::AppRunning);
    assert_eq!(completion_status(false, "boom", Some(1)), OpStatus::Error);
    assert_eq!(OpStatus::Success.name(), "success");
    assert_eq!(OpStatus::AppRunning.name(), "app-running");
    assert_eq!(OpStatus::Error.name(), "error");
}

fn is_subsequence(a: &str, b: &str) -> bool {
    let mut rest = b.chars();
    a.chars().all(|c| rest.any(|d| d == c))
}

#[test]
fn stripped_text_is_a_subsequence() {
    for s in ["\x1b[1;32mgreen\x1b[0m text", "a\x1bb\x1b[", "plain", "\x1b[2K\rdone"] {
        let r = strip_ansi(s);
        assert!(is_subsequence(&r, s), "{r:?} from {s:?}");
    }
    assert_eq!(strip_ansi("\x1b[1;32mgreen\x1b[0m text"), "green text");
}

#[test]
fn detection_survives_more_output() {
    let core = "The file is in use by another process";
    assert!(detect_app_running(core, None));
    assert!(detect_app_running(&format!("Downloading...\n{core}\nDone"), None));
    assert!(app_running_in_lowercase("before in use after", None));
    let net = "Failed to update source: winget";
    assert!(detect_network_error(net));
    assert!(detect_network_error(&format!("Found package\n{net}\n0x8a15000f")));
}
