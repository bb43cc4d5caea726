//! Where the tool keeps its files, and the per-package auto-update
//! preferences stored as JSON.
use vstd::prelude::*;
use crate::text::{owned, push_str, string_of};

verus! {

// ───────────────────────── paths ─────────────────────────

/// The platform the tool runs on.
#[derive(Clone, Copy, PartialEq, Eq, Structural, Debug)]
pub enum Platform {
    Windows,
    MacOs,
    Other,
}

/// `base` and `rel` joined with the separator `sep`, the way `PathBuf::push`
/// joins a relative component: the component alone after an empty base, no
/// separator after a base that already ends in one, else exactly one.
pub open spec fn join_with(base: Seq<char>, rel: Seq<char>, sep: char) -> Seq<char> {
    if base.len() == 0 {
        rel
    } else if base.last() == '/' || base.last() == sep {
        base + rel
    } else {
        base + seq![sep] + rel
    }
}

/// `base` and `rel` joined the way `Path::join` does for a plain relative
/// component, with the platform's separator: `/`, or `\` (where `/`
/// separates too).
pub open spec fn joined(r: Seq<char>, base: Seq<char>, rel: Seq<char>) -> bool {
    ||| r == join_with(base, rel, '/')
    ||| r == join_with(base, rel, '\\')
}

/// A base path without a verbatim or UNC prefix (it does not start with a
/// backslash) that is not a lone drive such as `C:`, and a component that is
/// relative and has no drive prefix.
pub open spec fn plain_join(base: Seq<char>, rel: Seq<char>) -> bool {
    &&& !(base.len() > 0 && base[0] == '\\')
    &&& !(base.len() == 2 && base[1] == ':')
    &&& rel.len() > 0
    &&& rel[0] != '/'
    &&& rel[0] != '\\'
    &&& forall|i: int| 0 <= i < rel.len() ==> rel[i] != ':'
}

/// Calls `Path::join` and converts the result back to a string (lossless, as
/// both parts are UTF-8). For a plain base and component the result is the
/// base, then one separator unless the base is empty or already ends in one,
/// then the component; which separator is the platform's (`MAIN_SEPARATOR`)
/// is left open. Nothing is said of other inputs (verbatim prefixes are
/// normalised, absolute components replace the base, a lone drive gets no
/// separator).
#[verifier::external_body]
pub(crate) fn path_join(base: &str, rel: &str) -> (r: String)
    ensures
        plain_join(base@, rel@) ==> joined(r@, base@, rel@),
{
    std::path::Path::new(base).join(rel).to_string_lossy().into_owned()
}

/// The environment variable that holds the base of the data directory.
pub open spec fn spec_data_dir_var(p: Platform) -> Option<Seq<char>> {
    match p {
        Platform::Windows => Some("LOCALAPPDATA"@),
        Platform::MacOs => Some("HOME"@),
        Platform::Other => None,
    }
}

pub fn data_dir_var(p: Platform) -> (r: Option<&'static str>)
    ensures
        match r {
            Some(s) => spec_data_dir_var(p) == Some(s@),
            None => spec_data_dir_var(p) is None,
        },
{
    match p {
        Platform::Windows => Some("LOCALAPPDATA"),
        Platform::MacOs => Some("HOME"),
        Platform::Other => None,
    }
}

/// The data directory below the variable's value.
pub open spec fn data_subdir(p: Platform) -> Seq<char> {
    match p {
        Platform::MacOs => "Library/Application Support/Brewinget"@,
        _ => "Brewinget"@,
    }
}

/// Why there is no data directory.
pub open spec fn data_dir_error(p: Platform) -> Seq<char> {
    match p {
        Platform::Windows => "LOCALAPPDATA not set"@,
        Platform::MacOs => "HOME not set"@,
        Platform::Other => "unsupported platform"@,
    }
}

/// What holds of the data directory found from the variable's value `var`.
pub open spec fn data_dir_result(p: Platform, var: Option<Seq<char>>, r: Result<Seq<char>, Seq<char>>) -> bool {
    match r {
        Ok(d) => p != Platform::Other && var is Some && (plain_join(var->0, data_subdir(p))
            ==> joined(d, var->0, data_subdir(p))),
        Err(e) => (p == Platform::Other || var is None) && e == data_dir_error(p),
    }
}

pub open spec fn opt_view(o: Option<&str>) -> Option<Seq<char>> {
    match o {
        Some(s) => Some(s@),
        None => None,
    }
}

pub open spec fn result_view(r: Result<String, String>) -> Result<Seq<char>, Seq<char>> {
    match r {
        Ok(s) => Ok(s@),
        Err(e) => Err(e@),
    }
}

/// The directory of the tool's own files, given the value of the variable
/// named by `data_dir_var` (`None` when it is not set).
pub fn data_dir(p: Platform, var: Option<&str>) -> (r: Result<String, String>)
    ensures
        data_dir_result(p, opt_view(var), result_view(r)),
{
    match p {
        Platform::Windows => match var {
            Some(base) => Ok(path_join(base, "Brewinget")),
            None => Err(owned("LOCALAPPDATA not set")),
        },
        Platform::MacOs => match var {
            Some(home) => Ok(path_join(home, "Library/Application Support/Brewinget")),
            None => Err(owned("HOME not set")),
        },
        Platform::Other => Err(owned("unsupported platform")),
    }
}

/// The file in `dir` named `name`, under the same joining rule.
pub open spec fn file_in(r: Seq<char>, dir: Seq<char>, name: Seq<char>) -> bool {
    plain_join(dir, name) ==> joined(r, dir, name)
}

/// `name` inside the directory `dir`.
pub(crate) fn join_path(dir: &str, name: &str) -> (r: String)
    ensures
        file_in(r@, dir@, name@),
{
    path_join(dir, name)
}

/// The auto-update preferences file: `auto-update.json` in the data directory.
pub fn auto_update_path(p: Platform, var: Option<&str>) -> (r: Result<String, String>)
    ensures
        match r {
            Ok(f) => exists|d: Seq<char>| #[trigger] data_dir_result(p, opt_view(var), Ok(d))
                && file_in(f@, d, "auto-update.json"@),
            Err(e) => data_dir_result(p, opt_view(var), Err(e@)),
        },
{
    match data_dir(p, var) {
        Ok(d) => {
            let f = path_join(d.as_str(), "auto-update.json");
            assert(data_dir_result(p, opt_view(var), Ok(d@)));
            Ok(f)
        },
        Err(e) => Err(e),
    }
}

/// The scheduler's settings file: `Brewinget\schedule.json` below `%LOCALAPPDATA%`.
pub fn schedule_path(local_app_data: Option<&str>) -> (r: Result<String, String>)
    ensures
        match r {
            Ok(f) => exists|d: Seq<char>| #[trigger] data_dir_result(Platform::Windows, opt_view(local_app_data), Ok(d))
                && file_in(f@, d, "schedule.json"@),
            Err(e) => local_app_data is None && e@ == "LOCALAPPDATA not set"@,
        },
{
    match data_dir(Platform::Windows, local_app_data) {
        Ok(d) => {
            let f = path_join(d.as_str(), "schedule.json");
            assert(data_dir_result(Platform::Windows, opt_view(local_app_data), Ok(d@)));
            Ok(f)
        },
        Err(e) => Err(e),
    }
}

/// The log directory: `Brewinget\logs` below `%LOCALAPPDATA%`.
pub fn logs_dir(local_app_data: Option<&str>) -> (r: Result<String, String>)
    ensures
        match r {
            Ok(f) => exists|d: Seq<char>| #[trigger] data_dir_result(Platform::Windows, opt_view(local_app_data), Ok(d))
                && file_in(f@, d, "logs"@),
            Err(e) => local_app_data is None && e@ == "LOCALAPPDATA not set"@,
        },
{
    match data_dir(Platform::Windows, local_app_data) {
        Ok(d) => {
            let f = path_join(d.as_str(), "logs");
            assert(data_dir_result(Platform::Windows, opt_view(local_app_data), Ok(d@)));
            Ok(f)
        },
        Err(e) => Err(e),
    }
}

// ───────────────────────── auto-update preferences ─────────────────────────

/// What `serde_json::from_slice` makes of these bytes as a map from package
/// id to flag: its entries, or `None` when the bytes are not such a map.
pub uninterp spec fn spec_prefs_from_json(bytes: Seq<u8>) -> Option<Seq<(Seq<char>, bool)>>;

pub open spec fn keys_of(entries: Seq<(Seq<char>, bool)>) -> Seq<Seq<char>> {
    entries.map_values(|e: (Seq<char>, bool)| e.0)
}

/// Calls `serde_json::from_slice` for a `BTreeMap<String, bool>` and lists
/// its entries; the result is named by `spec_prefs_from_json`. A map holds
/// each key once.
#[verifier::external_body]
fn prefs_from_json(bytes: &[u8]) -> (r: Option<Vec<(String, bool)>>)
    ensures
        match r {
            Some(v) => spec_prefs_from_json(bytes@) == Some(v.deep_view()) && keys_of(
                v.deep_view(),
            ).no_duplicates(),
            None => spec_prefs_from_json(bytes@) is None,
        },
{
    match serde_json::from_slice::<std::collections::BTreeMap<String, bool>>(bytes) {
        Ok(m) => Some(m.into_iter().collect()),
        Err(_) => None,
    }
}

/// The auto-update preferences read from the bytes of the preferences file:
/// none when the file holds no such map.
pub open spec fn spec_auto_update_prefs(bytes: Seq<u8>) -> Seq<(Seq<char>, bool)> {
    match spec_prefs_from_json(bytes) {
        Some(v) => v,
        None => Seq::empty(),
    }
}

pub fn auto_update_prefs(bytes: &[u8]) -> (r: Vec<(String, bool)>)
    ensures
        r.deep_view() == spec_auto_update_prefs(bytes@),
        keys_of(r.deep_view()).no_duplicates(),
{
    match prefs_from_json(bytes) {
        Some(v) => v,
        None => {
            let v: Vec<(String, bool)> = Vec::new();
            assert(v.deep_view() =~= Seq::<(Seq<char>, bool)>::empty());
            assert(keys_of(v.deep_view()) =~= Seq::<Seq<char>>::empty());
            v
        },
    }
}

/// What `serde_json::to_string_pretty` writes for the map with these entries.
pub uninterp spec fn spec_prefs_json(entries: Seq<(Seq<char>, bool)>) -> Seq<char>;

/// Calls `serde_json::to_string_pretty` on the map with these entries; the
/// text is named by `spec_prefs_json`. The call fails only for a failing
/// `Serialize` impl or a map with non-string keys, so it succeeds here.
#[verifier::external_body]
fn prefs_to_json(entries: &Vec<(String, bool)>) -> (r: Result<String, String>)
    requires
        keys_of(entries.deep_view()).no_duplicates(),
    ensures
        r is Ok,
        r is Ok ==> r->Ok_0@ == spec_prefs_json(entries.deep_view()),
{
    let m: std::collections::BTreeMap<String, bool> = entries.iter().cloned().collect();
    match serde_json::to_string_pretty(&m) {
        Ok(s) => Ok(s),
        Err(e) => Err(e.to_string()),
    }
}

/// The JSON text of the preferences file for these entries.
pub fn auto_update_json(prefs: &Vec<(String, bool)>) -> (r: Result<String, String>)
    requires
        keys_of(prefs.deep_view()).no_duplicates(),
    ensures
        r matches Ok(s) && s@ == spec_prefs_json(prefs.deep_view()),
{
    match prefs_to_json(prefs) {
        Ok(s) => Ok(s),
        Err(e) => {
            let mut v: Vec<char> = Vec::new();
            push_str(&mut v, "JSON error: ");
            push_str(&mut v, e.as_str());
            Err(string_of(v.as_slice()))
        },
    }
}

} // verus!
