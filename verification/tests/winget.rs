use brewinget::package::{InstalledPackage, PackageHit};
use brewinget::winget::{
    cmd_args, installed_listing, list_args, op_args, retry_notice, search_args, search_results,
    upgradable_args, upgrade_all_args, winget_error, WingetOp,
};

fn strs(v: &[&str]) -> Vec<String> {
    v.iter().map(|s| s.to_string()).collect()
}

#[test]
fn operation_arguments() {
    assert_eq!(
        op_args(WingetOp::Install, "Git.Git", false),
        strs(&["install", "--id", "Git.Git", "--exact", "--accept-package-agreements", "--accept-source-agreements"])
    );
    assert_eq!(
        op_args(WingetOp::Upgrade, "Git.Git", true),
        strs(&[
            "upgrade", "--id", "Git.Git", "--exact", "--accept-package-agreements",
            "--accept-source-agreements", "--silent", "--disable-interactivity"
        ])
    );
    assert_eq!(
        op_args(WingetOp::Uninstall, "Git.Git", true),
        strs(&["uninstall", "--id", "Git.Git", "--exact", "--silent", "--disable-interactivity"])
    );
    assert_eq!(search_args("vscode"), strs(&["search", "vscode", "--accept-source-agreements"]));
    assert_eq!(list_args(), strs(&["list", "--accept-source-agreements"]));
    assert_eq!(upgradable_args(), strs(&["upgrade", "--accept-source-agreements"]));
    assert_eq!(
        upgrade_all_args(),
        strs(&["upgrade", "--all", "--accept-package-agreements", "--accept-source-agreements"])
    );
    assert_eq!(cmd_args(&strs(&["list", "-q"])), strs(&["/c", "winget", "list", "-q"]));
}

#[test]
fn notices_and_errors() {
    assert_eq!(
        retry_notice(WingetOp::Install),
        "⚠  Silent install failed — retrying without --silent (an installer window may appear)…"
    );
    assert_eq!(
        retry_notice(WingetOp::Upgrade),
        "⚠  Silent update failed — retrying without --silent (an installer window may appear)…"
    );
    assert_eq!(winget_error("  oops \n"), "winget error: oops");
}

const SEARCH: &str = "Name               Id                          Version   Source\n-----------------------------------------------------------------\nVisual Studio Code Microsoft.VisualStudioCode  1.85.0    winget\n";

#[test]
fn search_success_and_failure() {
    assert_eq!(search_results(false, "", " no source \n"), Err("winget error: no source".to_string()));
    let hits = search_results(true, SEARCH, "").unwrap();
    assert_eq!(
        hits,
        vec![PackageHit {
            name: "Visual Studio Code".to_string(),
            id: "Microsoft.VisualStudioCode".to_string(),
            version: "1.85.0".to_string(),
            source: "winget".to_string(),
        }]
    );
    // A failed run that still printed a table is read.
    assert_eq!(search_results(false, SEARCH, "warn").unwrap().len(), 1);
    // No table: no results.
    assert_eq!(search_results(true, "No package found matching input criteria.", ""), Ok(vec![]));
}

#[test]
fn search_shows_at_most_thirty() {
    let mut out = String::from("Name  Id    Version\n-------------------\n");
    for i in 0..35 {
        out.push_str(&format!("N{:02}   I{:02}   1.0\n", i, i));
    }
    let hits = search_results(true, &out, "").unwrap();
    assert_eq!(hits.len(), 30);
    assert_eq!(hits[0].id, "I00");
    assert_eq!(hits[29].id, "I29");
}

const LIST: &str = "Name     Id                  Version\n------------------------------------\nGit      Git.Git             2.43.0\nFoo App  ARP\\Machine\\X64\\Foo 1.0\n";
const UPGRADES: &str = "Name  Id       Version Available Source\n---------------------------------------\nGit   Git.Git  2.43.0  2.44.0    winget\n";

#[test]
fn listing_merges_upgrades() {
    let v = installed_listing(LIST, "", UPGRADES).unwrap();
    assert_eq!(
        v,
        vec![
            InstalledPackage {
                name: "Git".to_string(),
                id: "Git.Git".to_string(),
                version: "2.43.0".to_string(),
                available: "2.44.0".to_string(),
                has_update: true,
                is_arp: false,
            },
            InstalledPackage {
                name: "Foo App".to_string(),
                id: "ARP\\Machine\\X64\\Foo".to_string(),
                version: "1.0".to_string(),
                available: "".to_string(),
                has_update: false,
                is_arp: true,
            },
        ]
    );
}

#[test]
fn listing_last_upgrade_row_wins() {
    let ups = "Name  Id       Version Available Source\n---------------------------------------\nGit   Git.Git  2.43.0  2.44.0    winget\nGit   Git.Git  2.43.0  2.45.0    winget\n";
    let v = installed_listing(LIST, "", ups).unwrap();
    assert_eq!(v[0].available, "2.45.0");
}

#[test]
fn listing_errors() {
    assert_eq!(installed_listing("", "  access denied \n", ""), Err("winget error: access denied".to_string()));
    assert_eq!(installed_listing("", "   ", ""), Ok(vec![]));
    // Error output does not matter once packages are listed.
    assert_eq!(installed_listing(LIST, "warning", "").unwrap().len(), 2);
}
