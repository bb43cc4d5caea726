use brewinget::prefs::{
    auto_update_json, auto_update_path, auto_update_prefs, data_dir, data_dir_var, logs_dir,
    schedule_path, Platform,
};

fn sep() -> char {
    std::path::MAIN_SEPARATOR
}

#[test]
fn data_dir_variables() {
    assert_eq!(data_dir_var(Platform::Windows), Some("LOCALAPPDATA"));
    assert_eq!(data_dir_var(Platform::MacOs), Some("HOME"));
    assert_eq!(data_dir_var(Platform::Other), None);
}

#[test]
fn data_dir_paths() {
    let s = sep();
    let d = data_dir(Platform::Windows, Some("C:\\Users\\me\\AppData\\Local")).unwrap();
    assert_eq!(d, format!("C:\\Users\\me\\AppData\\Local{s}Brewinget"));
    let d = data_dir(Platform::MacOs, Some("/Users/me")).unwrap();
    assert_eq!(d, format!("/Users/me{s}Library/Application Support/Brewinget"));
    let f = auto_update_path(Platform::MacOs, Some("/Users/me")).unwrap();
    assert_eq!(f, format!("/Users/me{s}Library/Application Support/Brewinget{s}auto-update.json"));
    // A base that already ends in a separator gets no second one.
    let d = data_dir(Platform::MacOs, Some("/Users/me/")).unwrap();
    assert_eq!(d, "/Users/me/Library/Application Support/Brewinget");
    // An empty base leaves the component alone.
    assert_eq!(data_dir(Platform::Windows, Some("")).unwrap(), "Brewinget");
}

#[test]
fn data_dir_errors() {
    assert_eq!(data_dir(Platform::Windows, None), Err("LOCALAPPDATA not set".to_string()));
    assert_eq!(data_dir(Platform::MacOs, None), Err("HOME not set".to_string()));
    assert_eq!(data_dir(Platform::Other, Some("/x")), Err("unsupported platform".to_string()));
    assert_eq!(auto_update_path(Platform::Other, None), Err("unsupported platform".to_string()));
    assert_eq!(schedule_path(None), Err("LOCALAPPDATA not set".to_string()));
    assert_eq!(logs_dir(None), Err("LOCALAPPDATA not set".to_string()));
}

#[test]
fn local_files() {
    let sp = sep();
    assert_eq!(schedule_path(Some("C:\\L")).unwrap(), format!("C:\\L{sp}Brewinget{sp}schedule.json"));
    assert_eq!(logs_dir(Some("C:\\L")).unwrap(), format!("C:\\L{sp}Brewinget{sp}logs"));
}

#[test]
fn prefs_from_json() {
    let p = auto_update_prefs(b"{\"b\": true, \"a\": false}");
    assert_eq!(p, vec![("a".to_string(), false), ("b".to_string(), true)]);
    assert_eq!(auto_update_prefs(b"not json"), vec![]);
    assert_eq!(auto_update_prefs(b"[1, 2]"), vec![]);
    assert_eq!(auto_update_prefs(b"{}"), vec![]);
}

#[test]
fn prefs_to_json_round_trip() {
    let p = vec![("Git.Git".to_string(), true), ("7zip.7zip".to_string(), false)];
    let json = auto_update_json(&p).unwrap();
    assert_eq!(json, "{\n  \"7zip.7zip\": false,\n  \"Git.Git\": true\n}");
    let back = auto_update_prefs(json.as_bytes());
    assert_eq!(back, vec![("7zip.7zip".to_string(), false), ("Git.Git".to_string(), true)]);
}
