//! The command resolver: from a run request (package manager, script name,
//! optional runtime-install path) to the exact shell invocation, the derived
//! `PATH` value and the legacy-crypto-provider toggle for the child process.
//!
//! Resolution is a pure function of its inputs. The only facts that come
//! from the machine — whether the runtime path names a file, and which
//! bundled package-manager entry points exist under the install directory —
//! are probed by the embedding program and handed in as `ResolverProbe`.
//! Resolution never fails: an unreachable interpreter surfaces later as a
//! non-zero exit of the spawned command, not as a resolver error.

use vstd::prelude::*;
use vstd::string::StrSliceExecFns;
use vstd::string::StringExecFns;

use crate::paths::is_sep;
use crate::paths::is_sep_char;
use crate::paths::parent_of;
use crate::paths::parent_dir;
use crate::strutil::contains_seq;
use crate::strutil::contains_sub;
use crate::strutil::push_char;
use crate::strutil::str_eq;

verus! {

/// The host's command-construction conventions.
#[derive(Clone, Copy, PartialEq, Eq, Structural, Debug)]
pub enum Platform {
    /// `cmd /C`, `\` separators, `;` path-list separator, `.cmd` launchers.
    Windows,
    /// `sh -c`, `/` separators, `:` path-list separator.
    Unix,
}

/// Filesystem facts about the chosen runtime install, probed by the caller.
#[derive(Clone, Copy, PartialEq, Eq, Structural, Debug)]
pub struct ResolverProbe {
    /// The runtime path names a file (the interpreter binary itself) rather
    /// than its install directory.
    pub node_path_is_file: bool,
    /// The install directory holds the bundled package-manager entry script
    /// (`node_modules/npm/bin/npm-cli.js`).
    pub bundled_cli_in_dir: bool,
    /// The entry script sits beside the install's `bin` directory instead
    /// (`../lib/node_modules/npm/bin/npm-cli.js`); only probed on Unix.
    pub bundled_cli_in_lib: bool,
    /// The install directory holds a platform-native launcher for the chosen
    /// package manager (`<name>.cmd`); only probed on Windows.
    pub native_launcher_in_dir: bool,
}

impl ResolverProbe {
    /// No runtime directory facts: used when no runtime override is given.
    pub fn none() -> (r: ResolverProbe)
        ensures
            r == (ResolverProbe {
                node_path_is_file: false,
                bundled_cli_in_dir: false,
                bundled_cli_in_lib: false,
                native_launcher_in_dir: false,
            }),
    {
        ResolverProbe {
            node_path_is_file: false,
            bundled_cli_in_dir: false,
            bundled_cli_in_lib: false,
            native_launcher_in_dir: false,
        }
    }
}

/// The path separator the platform's joins use.
pub open spec fn sep_of(p: Platform) -> char {
    if p is Windows {
        '\\'
    } else {
        '/'
    }
}

/// The separator between entries of the `PATH` list.
pub open spec fn path_list_sep_of(p: Platform) -> char {
    if p is Windows {
        ';'
    } else {
        ':'
    }
}

/// `dir` already ends in a separator the platform would accept.
pub open spec fn ends_with_sep(p: Platform, dir: Seq<char>) -> bool {
    dir.len() > 0 && (if p is Windows {
        is_sep(dir.last())
    } else {
        dir.last() == '/'
    })
}

/// `name` appended to `dir` with exactly one separator between them.
pub open spec fn joined(p: Platform, dir: Seq<char>, name: Seq<char>) -> Seq<char> {
    if ends_with_sep(p, dir) {
        dir + name
    } else {
        dir + seq![sep_of(p)] + name
    }
}

/// `s` wrapped in double quotes, so script and install names with spaces or
/// colons survive the shell.
pub open spec fn quoted(s: Seq<char>) -> Seq<char> {
    "\""@ + s + "\""@
}

/// The directory that holds the runtime: a path that names the interpreter
/// binary itself is resolved to its containing directory.
pub open spec fn runtime_dir_of(node_path: Seq<char>, is_file: bool) -> Seq<char> {
    if node_path.len() > 0 && is_file {
        parent_of(node_path)
    } else {
        node_path
    }
}

/// File name of the runtime interpreter binary.
pub open spec fn node_exe_file(p: Platform) -> Seq<char> {
    if p is Windows {
        "node.exe"@
    } else {
        "node"@
    }
}

/// Install-relative path of the bundled package-manager entry script.
pub open spec fn bundled_cli_rel(p: Platform) -> Seq<char> {
    if p is Windows {
        "node_modules\\npm\\bin\\npm-cli.js"@
    } else {
        "node_modules/npm/bin/npm-cli.js"@
    }
}

/// Path of the entry script that sits beside the install's `bin` directory.
pub open spec fn lib_cli_path(dir: Seq<char>) -> Seq<char> {
    joined(Platform::Unix, parent_of(dir), "lib/node_modules/npm/bin/npm-cli.js"@)
}

/// How the interpreter is invoked for the version probe: by quoted absolute
/// path when an install directory is chosen, else by bare name via `PATH`.
pub open spec fn node_invocation(p: Platform, dir: Seq<char>) -> Seq<char> {
    if dir.len() > 0 {
        quoted(joined(p, dir, node_exe_file(p)))
    } else {
        "node"@
    }
}

/// Package managers whose PATH-resolved form needs the `.cmd` launcher
/// suffix on Windows.
pub open spec fn wants_cmd_suffix(pm: Seq<char>) -> bool {
    pm == "npm"@ || pm == "pnpm"@ || pm == "yarn"@
}

/// How the package manager is invoked, by decreasing version-pinning:
/// the interpreter run against the bundled entry script; a native launcher
/// in the install directory; the bare name resolved via `PATH`.
pub open spec fn pm_invocation(
    p: Platform,
    dir: Seq<char>,
    pm: Seq<char>,
    probe: ResolverProbe,
) -> Seq<char> {
    if dir.len() > 0 {
        if probe.bundled_cli_in_dir {
            quoted(joined(p, dir, node_exe_file(p))) + " "@ + quoted(joined(p, dir, bundled_cli_rel(p)))
        } else if p is Windows {
            if probe.native_launcher_in_dir {
                quoted(joined(p, dir, pm + ".cmd"@))
            } else {
                pm
            }
        } else {
            if probe.bundled_cli_in_lib {
                quoted(joined(p, dir, node_exe_file(p))) + " "@ + quoted(lib_cli_path(dir))
            } else {
                pm
            }
        }
    } else {
        if p is Windows && wants_cmd_suffix(pm) {
            pm + ".cmd"@
        } else {
            pm
        }
    }
}

/// The whole command line: the interpreter's version probe, then
/// `<pm> run "<script>"` with the script name quoted.
pub open spec fn full_command_line(
    p: Platform,
    dir: Seq<char>,
    pm: Seq<char>,
    script: Seq<char>,
    probe: ResolverProbe,
) -> Seq<char> {
    node_invocation(p, dir) + " -v && "@ + pm_invocation(p, dir, pm, probe) + " run \""@ + script
        + "\""@
}

/// The child's `PATH`: the runtime directory prepended to the inherited
/// value when one is chosen, else the inherited value unchanged.
pub open spec fn derived_path_env(p: Platform, dir: Seq<char>, inherited: Seq<char>) -> Seq<
    char,
> {
    if dir.len() > 0 {
        dir + seq![path_list_sep_of(p)] + inherited
    } else {
        inherited
    }
}

/// The legacy crypto provider is enabled unless the runtime path names one
/// of the older major versions that would reject the flag.
pub open spec fn legacy_provider_wanted(node_path: Seq<char>) -> bool {
    !contains_seq(node_path, "v14."@) && !contains_seq(node_path, "v16."@) && !contains_seq(
        node_path,
        "v12."@,
    ) && !contains_seq(node_path, "v10."@)
}

/// The shell that carries the command line.
pub open spec fn shell_name(p: Platform) -> Seq<char> {
    if p is Windows {
        "cmd"@
    } else {
        "sh"@
    }
}

/// The shell's argument: on Windows the raw `/C`-wrapped command line (the
/// whole command quoted once more for `cmd`), on Unix the `-c` flag with the
/// command line passed separately.
pub open spec fn shell_arg_of(p: Platform, full: Seq<char>) -> Seq<char> {
    if p is Windows {
        " /C \""@ + full + "\""@
    } else {
        "-c"@
    }
}

/// A resolved run invocation: everything the embedding program needs to
/// spawn the child, besides the working directory.
pub struct ResolvedCommand {
    /// Shell executable to spawn.
    pub shell: String,
    /// Its single argument (Windows: the raw `/C`-wrapped command line;
    /// Unix: `-c`, with `command_line` passed as the next argument).
    pub shell_arg: String,
    /// The full command line, also echoed to log and output.
    pub command_line: String,
    /// Value for the child's `PATH` variable.
    pub path_env: String,
    /// Whether to set the legacy-crypto-provider toggle in the child's
    /// environment; when false the toggle must be absent even if inherited.
    pub set_legacy_provider: bool,
}

impl ResolvedCommand {
    /// The resolution contract: each field is the specified function of the
    /// request.
    pub open spec fn is_resolution_for(
        &self,
        p: Platform,
        node_path: Seq<char>,
        probe: ResolverProbe,
        pm: Seq<char>,
        script: Seq<char>,
        inherited: Seq<char>,
    ) -> bool {
        let dir = runtime_dir_of(node_path, probe.node_path_is_file);
        &&& self.shell@ == shell_name(p)
        &&& self.command_line@ == full_command_line(p, dir, pm, script, probe)
        &&& self.shell_arg@ == shell_arg_of(p, self.command_line@)
        &&& self.path_env@ == derived_path_env(p, dir, inherited)
        &&& self.set_legacy_provider == legacy_provider_wanted(node_path)
    }
}

/// The platform's path separator.
fn sep_char_of(p: Platform) -> (c: char)
    ensures
        c == sep_of(p),
{
    match p {
        Platform::Windows => '\\',
        Platform::Unix => '/',
    }
}

/// The platform's `PATH`-list separator.
fn path_list_sep_char_of(p: Platform) -> (c: char)
    ensures
        c == path_list_sep_of(p),
{
    match p {
        Platform::Windows => ';',
        Platform::Unix => ':',
    }
}

/// The interpreter's file name on this platform.
fn node_exe_file_str(p: Platform) -> (r: &'static str)
    ensures
        r@ == node_exe_file(p),
{
    match p {
        Platform::Windows => "node.exe",
        Platform::Unix => "node",
    }
}

/// The bundled entry script's install-relative path on this platform.
fn bundled_cli_rel_str(p: Platform) -> (r: &'static str)
    ensures
        r@ == bundled_cli_rel(p),
{
    match p {
        Platform::Windows => "node_modules\\npm\\bin\\npm-cli.js",
        Platform::Unix => "node_modules/npm/bin/npm-cli.js",
    }
}

/// Joins a relative name onto a directory with exactly one separator.
fn join_path(p: Platform, dir: &str, name: &str) -> (r: String)
    ensures
        r@ == joined(p, dir@, name@),
{
    let dlen = dir.unicode_len();
    let trailing = if dlen > 0 {
        let c = dir.get_char(dlen - 1);
        match p {
            Platform::Windows => is_sep_char(c),
            Platform::Unix => c == '/',
        }
    } else {
        false
    };
    let mut out = dir.to_owned();
    if !trailing {
        push_char(&mut out, sep_char_of(p));
        proof {
            assert(out@ =~= dir@ + seq![sep_of(p)]);
        }
    }
    out.append(name);
    out
}

/// Wraps a string in double quotes.
fn quote_str(s: &str) -> (r: String)
    ensures
        r@ == quoted(s@),
{
    let mut out = String::from_str("\"");
    out.append(s);
    out.append("\"");
    out
}

/// The quoted interpreter invocation next to a quoted entry-script path.
fn interpreter_with_script(p: Platform, dir: &str, script_path: &str) -> (r: String)
    ensures
        r@ == quoted(joined(p, dir@, node_exe_file(p))) + " "@ + quoted(script_path@),
{
    let mut out = quote_str(join_path(p, dir, node_exe_file_str(p)).as_str());
    out.append(" ");
    let q = quote_str(script_path);
    out.append(q.as_str());
    out
}

/// Resolves the shell invocation, derived `PATH` and environment toggle for
/// one run request. Never fails: every request resolves to some command.
pub fn resolve_command(
    p: Platform,
    node_path: &str,
    probe: &ResolverProbe,
    package_manager: &str,
    script: &str,
    inherited_path: &str,
) -> (r: ResolvedCommand)
    ensures
        r.is_resolution_for(p, node_path@, *probe, package_manager@, script@, inherited_path@),
{
    let dir: String = if node_path.unicode_len() > 0 && probe.node_path_is_file {
        parent_dir(node_path)
    } else {
        node_path.to_owned()
    };
    let dir_empty = dir.as_str().is_empty();

    let path_env: String = if !dir_empty {
        let mut pe = dir.clone();
        push_char(&mut pe, path_list_sep_char_of(p));
        pe.append(inherited_path);
        proof {
            assert(pe@ =~= dir@ + seq![path_list_sep_of(p)] + inherited_path@);
        }
        pe
    } else {
        proof {
            assert(dir@ =~= Seq::<char>::empty());
        }
        inherited_path.to_owned()
    };

    let node_inv: String = if !dir_empty {
        quote_str(join_path(p, dir.as_str(), node_exe_file_str(p)).as_str())
    } else {
        String::from_str("node")
    };

    let pm_inv: String = if !dir_empty {
        if probe.bundled_cli_in_dir {
            let cli = join_path(p, dir.as_str(), bundled_cli_rel_str(p));
            interpreter_with_script(p, dir.as_str(), cli.as_str())
        } else {
            match p {
                Platform::Windows => {
                    if probe.native_launcher_in_dir {
                        let mut launcher = package_manager.to_owned();
                        launcher.append(".cmd");
                        quote_str(join_path(p, dir.as_str(), launcher.as_str()).as_str())
                    } else {
                        package_manager.to_owned()
                    }
                },
                Platform::Unix => {
                    if probe.bundled_cli_in_lib {
                        let lib_cli = join_path(
                            Platform::Unix,
                            parent_dir(dir.as_str()).as_str(),
                            "lib/node_modules/npm/bin/npm-cli.js",
                        );
                        interpreter_with_script(p, dir.as_str(), lib_cli.as_str())
                    } else {
                        package_manager.to_owned()
                    }
                },
            }
        }
    } else {
        let suffix_wanted = match p {
            Platform::Windows => {
                str_eq(package_manager, "npm") || str_eq(package_manager, "pnpm") || str_eq(
                    package_manager,
                    "yarn",
                )
            },
            Platform::Unix => false,
        };
        if suffix_wanted {
            let mut withsuffix = package_manager.to_owned();
            withsuffix.append(".cmd");
            withsuffix
        } else {
            package_manager.to_owned()
        }
    };

    let mut command_line = node_inv;
    command_line.append(" -v && ");
    command_line.append(pm_inv.as_str());
    command_line.append(" run \"");
    command_line.append(script);
    command_line.append("\"");
    proof {
        let gdir = runtime_dir_of(node_path@, probe.node_path_is_file);
        assert(dir@ == gdir);
        assert(command_line@ =~= full_command_line(p, gdir, package_manager@, script@, *probe));
    }

    let shell: String = match p {
        Platform::Windows => String::from_str("cmd"),
        Platform::Unix => String::from_str("sh"),
    };
    let shell_arg: String = match p {
        Platform::Windows => {
            let mut a = String::from_str(" /C \"");
            a.append(command_line.as_str());
            a.append("\"");
            proof {
                assert(a@ =~= " /C \""@ + command_line@ + "\""@);
            }
            a
        },
        Platform::Unix => String::from_str("-c"),
    };

    let set_legacy_provider = !contains_sub(node_path, "v14.") && !contains_sub(node_path, "v16.")
        && !contains_sub(node_path, "v12.") && !contains_sub(node_path, "v10.");

    ResolvedCommand { shell, shell_arg, command_line, path_env, set_legacy_provider }
}

/// Name of the third-party binary-path override variable that is stripped
/// from every child's environment, so a stale native-addon path never leaks
/// across runtime switches.
pub fn stripped_env_var() -> (r: &'static str)
    ensures
        r@ == "SASS_BINARY_PATH"@,
{
    "SASS_BINARY_PATH"
}

/// Name of the environment variable that carries the legacy-crypto-provider
/// toggle, and the value it is set to when the toggle is wanted.
pub fn legacy_provider_env() -> (r: (&'static str, &'static str))
    ensures
        r.0@ == "NODE_OPTIONS"@,
        r.1@ == "--openssl-legacy-provider"@,
{
    ("NODE_OPTIONS", "--openssl-legacy-provider")
}

} // verus!
