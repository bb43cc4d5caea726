use brewinget::brew::{exe, installed, list_args, op_args, search_args, search_hits, upgrade_all_args};
use brewinget::package::{InstalledPackage, PackageHit};

fn strs(v: &[&str]) -> Vec<String> {
    v.iter().map(|s| s.to_string()).collect()
}

fn hit(n: &str) -> PackageHit {
    PackageHit { name: n.to_string(), id: n.to_string(), version: String::new(), source: "brew".to_string() }
}

#[test]
fn brew_location() {
    assert_eq!(exe(true), "/opt/homebrew/bin/brew");
    assert_eq!(exe(false), "/usr/local/bin/brew");
}

#[test]
fn brew_arguments() {
    assert_eq!(search_args("wget"), strs(&["search", "--formula", "wget"]));
    assert_eq!(op_args(true, "git", false), strs(&["install", "git"]));
    assert_eq!(op_args(true, "git", true), strs(&["install", "git", "--quiet"]));
    assert_eq!(op_args(false, "git", true), strs(&["upgrade", "git", "--quiet"]));
    assert_eq!(upgrade_all_args(), strs(&["upgrade"]));
    assert_eq!(list_args(false), strs(&["list", "--formula"]));
    assert_eq!(list_args(true), strs(&["outdated", "--formula"]));
}

#[test]
fn brew_search_words() {
    let out = "==> Formulae\nwget  wget2\n\n   \n==> Casks\nfoo\n";
    assert_eq!(search_hits(out), vec![hit("wget"), hit("wget2"), hit("foo")]);
    assert_eq!(search_hits(""), vec![]);
}

#[test]
fn brew_search_limit() {
    let mut out = String::new();
    for i in 0..30 {
        out.push_str(&format!("f{} ", i));
    }
    let hits = search_hits(&out);
    assert_eq!(hits.len(), 24);
    assert_eq!(hits[23], hit("f23"));
}

#[test]
fn brew_installed_marks_outdated() {
    let v = installed("git\n  wget \n\n", "wget (1.0) < 1.1\n\n");
    let pkg = |n: &str, u: bool| InstalledPackage {
        name: n.to_string(),
        id: n.to_string(),
        version: String::new(),
        available: String::new(),
        has_update: u,
        is_arp: false,
    };
    assert_eq!(v, vec![pkg("git", false), pkg("wget", true)]);
}
