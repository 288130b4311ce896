//! Names for the persisted log layout: the display name of a project (from
//! its manifest's `name` field when one is present, else the directory's base
//! name), and the sanitized directory and file names derived from it.

use vstd::prelude::*;
use vstd::string::StringExecFns;

use crate::paths::base_name_of;
use crate::paths::base_name;
use crate::paths::sanitize_component;
use crate::paths::sanitized;

verus! {

/// The top-level `name` string field of a manifest text, if the text parses
/// as a JSON object that carries one.
pub uninterp spec fn manifest_name_of(content: Seq<char>) -> Option<Seq<char>>;

/// Relies on `serde_json::from_str`, `Value::get` and `Value::as_str`:
/// parses the manifest text and reads its top-level `name` string field,
/// a pure function of the text alone. Any parse failure, a missing field
/// and a non-string field all yield `None`.
#[verifier::external_body]
fn manifest_name_field(content: &str) -> (r: Option<String>)
    ensures
        (r is Some) == (manifest_name_of(content@) is Some),
        r is Some ==> r->0@ == manifest_name_of(content@)->0,
{
    match serde_json::from_str::<serde_json::Value>(content) {
        Ok(v) => match v.get("name").and_then(|n| n.as_str()) {
            Some(s) => Some(s.to_string()),
            None => None,
        },
        Err(_) => None,
    }
}

/// The project name used when no manifest name is available: the base name
/// of the project directory, or a fixed placeholder if that is empty.
pub open spec fn fallback_project_name(project_path: Seq<char>) -> Seq<char> {
    if base_name_of(project_path).len() == 0 {
        "unknown_project"@
    } else {
        base_name_of(project_path)
    }
}

/// The display name of a project: the manifest's `name` field when the
/// manifest text is available and carries one, else the fallback name.
pub open spec fn project_name_of(manifest: Option<Seq<char>>, project_path: Seq<char>) -> Seq<
    char,
> {
    match manifest {
        Some(content) => match manifest_name_of(content) {
            Some(name) => name,
            None => fallback_project_name(project_path),
        },
        None => fallback_project_name(project_path),
    }
}

/// Derives the display name of the project at `project_path`, preferring the
/// `name` field of its manifest text when `manifest` holds one.
pub fn project_display_name(manifest: Option<&String>, project_path: &str) -> (r: String)
    ensures
        manifest is Some ==> r@ == project_name_of(Some(manifest->0@), project_path@),
        manifest is None ==> r@ == project_name_of(None, project_path@),
{
    let from_manifest = match manifest {
        Some(content) => manifest_name_field(content.as_str()),
        None => None,
    };
    match from_manifest {
        Some(name) => name,
        None => {
            let bn = base_name(project_path);
            if bn.as_str().is_empty() {
                String::from_str("unknown_project")
            } else {
                bn
            }
        },
    }
}

/// The log directory name for a project: its display name, sanitized.
pub open spec fn log_dir_name_of(project_name: Seq<char>) -> Seq<char> {
    sanitized(project_name)
}

/// The log file name for a script: the script name, sanitized, with the
/// log extension.
pub open spec fn log_file_name_of(script: Seq<char>) -> Seq<char> {
    sanitized(script) + ".log"@
}

/// Sanitizes a project name into a directory name.
pub fn log_dir_name(project_name: &str) -> (r: String)
    ensures
        r@ == log_dir_name_of(project_name@),
{
    sanitize_component(project_name)
}

/// Sanitizes a script name into a log file name.
pub fn log_file_name(script: &str) -> (r: String)
    ensures
        r@ == log_file_name_of(script@),
{
    let mut name = sanitize_component(script);
    name.append(".log");
    name
}

} // verus!
