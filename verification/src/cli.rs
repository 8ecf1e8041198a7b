//! Non-interactive command-line modes: flag routing, the machine-readable
//! diagnostic and snapshot reports, the exit-code convention, and the guard
//! that the dashboard only starts inside a repository.

use vstd::prelude::*;

use crate::commands::CommandResult;
use crate::config::ConfigLoadReport;
use crate::domain::{HgCapabilities, RepoSnapshot};
use crate::text::{spec_join, spec_split_ws, spec_trim};

verus! {

/// The usage text.
pub const HELP_TEXT: &'static str = "easyhg - lazygit-style terminal UI for Mercurial\n\nUSAGE:\n  easyhg [OPTIONS]\n\nOPTIONS:\n  -h, --help       Print help and exit\n  -V, --version    Print version and exit\n  --doctor         Print environment/repo diagnostics as JSON and exit\n  --snapshot-json  Print current repository snapshot as JSON and exit\n  --check-config   Validate config and print JSON report\n";

/// What the process should do, decided by its flags.
#[derive(Debug, Clone, Copy, PartialEq, Eq, Structural)]
pub enum CliMode {
    RunTui,
    PrintHelp,
    PrintVersion,
    Doctor,
    SnapshotJson,
    CheckConfig,
}

/// The mode one flag names, if any.
pub open spec fn spec_flag_mode(arg: Seq<char>) -> Option<CliMode> {
    if arg == "-h"@ || arg == "--help"@ {
        Some(CliMode::PrintHelp)
    } else if arg == "-V"@ || arg == "--version"@ {
        Some(CliMode::PrintVersion)
    } else if arg == "--doctor"@ {
        Some(CliMode::Doctor)
    } else if arg == "--snapshot-json"@ {
        Some(CliMode::SnapshotJson)
    } else if arg == "--check-config"@ {
        Some(CliMode::CheckConfig)
    } else {
        None
    }
}

/// What the argument list decides, scanning from `i` with the mode chosen so
/// far: an unknown option or two different modes reject the whole list.
pub open spec fn spec_cli_mode(args: Seq<Seq<char>>, i: int, mode: CliMode) -> Result<
    CliMode,
    Seq<char>,
>
    decreases args.len() - i,
{
    if i < 0 || i >= args.len() {
        Ok(mode)
    } else {
        match spec_flag_mode(args[i]) {
            None => Err("unknown option: "@ + args[i] + "\n\n"@ + HELP_TEXT@),
            Some(next) => if mode != CliMode::RunTui && mode != next {
                Err("options are mutually exclusive\n\n"@ + HELP_TEXT@)
            } else {
                spec_cli_mode(args, i + 1, next)
            },
        }
    }
}

/// Parses the command line (the first entry is the program name) into a
/// mode; flags are mutually exclusive.
pub fn parse_cli_mode(args: &Vec<String>) -> (r: Result<CliMode, String>)
    ensures
        match r {
            Ok(mode) => Ok::<CliMode, Seq<char>>(mode) == spec_cli_mode(
                args@.map_values(|a: String| a@),
                1,
                CliMode::RunTui,
            ),
            Err(e) => Err::<CliMode, Seq<char>>(e@) == spec_cli_mode(
                args@.map_values(|a: String| a@),
                1,
                CliMode::RunTui,
            ),
        },
{
    let ghost argv = args@.map_values(|a: String| a@);
    let n = args.len();
    let mut mode = CliMode::RunTui;
    let mut i: usize = 1;
    while i < n
        invariant
            1 <= i <= n || (n == 0 && i == 1),
            n == args@.len(),
            argv == args@.map_values(|a: String| a@),
            spec_cli_mode(argv, 1, CliMode::RunTui) == spec_cli_mode(argv, i as int, mode),
        decreases n - i,
    {
        let arg = &args[i];
        proof {
            assert(argv[i as int] == args@[i as int]@);
        }
        let next = if crate::text::str_eq(arg.as_str(), "-h") || crate::text::str_eq(
            arg.as_str(),
            "--help",
        ) {
            CliMode::PrintHelp
        } else if crate::text::str_eq(arg.as_str(), "-V") || crate::text::str_eq(
            arg.as_str(),
            "--version",
        ) {
            CliMode::PrintVersion
        } else if crate::text::str_eq(arg.as_str(), "--doctor") {
            CliMode::Doctor
        } else if crate::text::str_eq(arg.as_str(), "--snapshot-json") {
            CliMode::SnapshotJson
        } else if crate::text::str_eq(arg.as_str(), "--check-config") {
            CliMode::CheckConfig
        } else {
            let mut msg = "unknown option: ".to_owned();
            msg.append(arg.as_str());
            msg.append("\n\n");
            msg.append(HELP_TEXT);
            return Err(msg);
        };
        if mode != CliMode::RunTui && mode != next {
            let mut msg = "options are mutually exclusive\n\n".to_owned();
            msg.append(HELP_TEXT);
            return Err(msg);
        }
        mode = next;
        i = i + 1;
    }
    Ok(mode)
}

/// The exit code for a report: zero when everything was fine, two otherwise.
pub fn output_exit_code(ok: bool) -> (r: i32)
    ensures
        ok ==> r == 0,
        !ok ==> r == 2,
{
    if ok {
        0
    } else {
        2
    }
}

/// The configuration part of the diagnostic reports.
#[derive(Debug, Clone)]
pub struct CheckConfigOutput {
    pub ok: bool,
    pub path: Option<String>,
    pub issues: Vec<String>,
}

/// Builds the configuration report: fine exactly when no issue was found.
pub fn check_config_output(report: ConfigLoadReport) -> (r: CheckConfigOutput)
    ensures
        r.ok == (report.issues@.len() == 0),
        r.path == report.path,
        r.issues == report.issues,
{
    CheckConfigOutput {
        ok: report.issues.len() == 0,
        path: report.path,
        issues: report.issues,
    }
}

/// One probe of the diagnostic mode.
#[derive(Debug, Clone)]
pub struct ProbeOutput {
    pub command: String,
    pub ok: bool,
    pub error: Option<String>,
}

/// Judges one probe: a command that ran is fine exactly when it succeeded,
/// its trimmed stderr otherwise; one that could not run carries its error.
pub fn probe_outcome(command: String, result: &Result<CommandResult, String>) -> (r: ProbeOutput)
    ensures
        r.command == command,
        match result {
            Ok(out) => r.ok == out.success && (out.success ==> r.error is None) && (!out.success
                ==> (r.error matches Some(e) && e@ == spec_trim(out.stderr@))),
            Err(e) => !r.ok && (r.error matches Some(x) && x@ == e@),
        },
{
    match result {
        Ok(out) => {
            if out.success {
                ProbeOutput { command, ok: true, error: None }
            } else {
                let chars = crate::text::str_chars(out.stderr.as_str());
                let trimmed = crate::text::trim_chars(&chars);
                ProbeOutput {
                    command,
                    ok: false,
                    error: Some(crate::text::chars_string(&trimmed)),
                }
            }
        },
        Err(e) => ProbeOutput { command, ok: false, error: Some(e.clone()) },
    }
}

/// The full diagnostic report.
#[derive(Debug, Clone)]
pub struct DoctorOutput {
    pub ok: bool,
    pub timestamp_unix_secs: i64,
    pub cwd: String,
    pub config: CheckConfigOutput,
    pub capabilities: Option<HgCapabilities>,
    pub repo_root: Option<String>,
    pub branch: Option<String>,
    pub probes: Vec<ProbeOutput>,
    pub error: Option<String>,
}

/// Builds the diagnostic report: fine exactly when every probe succeeded,
/// the snapshot could be assembled, and the configuration is clean.
pub fn build_doctor_output(
    cwd: String,
    config: CheckConfigOutput,
    capabilities: Option<HgCapabilities>,
    probes: Vec<ProbeOutput>,
    snapshot_result: Result<RepoSnapshot, String>,
    timestamp_unix_secs: i64,
) -> (r: DoctorOutput)
    ensures
        r.ok == ((forall|i: int| 0 <= i < probes@.len() ==> (#[trigger] probes@[i]).ok)
            && (snapshot_result is Ok) && config.ok),
        r.timestamp_unix_secs == timestamp_unix_secs,
        r.cwd == cwd,
        match snapshot_result {
            Ok(snap) => r.repo_root == snap.repo_root && r.branch == snap.branch && r.error
                is None,
            Err(e) => r.repo_root is None && r.branch is None && (r.error matches Some(x) && x
                == e),
        },
        r.probes == probes,
{
    let mut probes_ok = true;
    let n = probes.len();
    let mut i: usize = 0;
    while i < n
        invariant
            0 <= i <= n,
            n == probes@.len(),
            probes_ok == (forall|j: int| 0 <= j < i ==> (#[trigger] probes@[j]).ok),
        decreases n - i,
    {
        if !probes[i].ok {
            probes_ok = false;
        }
        i = i + 1;
    }
    let mut repo_root: Option<String> = None;
    let mut branch: Option<String> = None;
    let mut error: Option<String> = None;
    let snapshot_ok: bool;
    match snapshot_result {
        Ok(snap) => {
            repo_root = snap.repo_root;
            branch = snap.branch;
            snapshot_ok = true;
        },
        Err(e) => {
            error = Some(e);
            snapshot_ok = false;
        },
    }
    let ok = probes_ok && snapshot_ok && config.ok;
    DoctorOutput {
        ok,
        timestamp_unix_secs,
        cwd,
        config,
        capabilities,
        repo_root,
        branch,
        probes,
        error,
    }
}

/// The machine-readable snapshot report.
#[derive(Debug, Clone)]
pub struct SnapshotOutput {
    pub ok: bool,
    pub timestamp_unix_secs: i64,
    pub snapshot: Option<RepoSnapshot>,
    pub error: Option<String>,
}

/// Builds the snapshot report: fine exactly when the refresh succeeded.
pub fn build_snapshot_output(
    timestamp_unix_secs: i64,
    result: Result<RepoSnapshot, String>,
) -> (r: SnapshotOutput)
    ensures
        r.ok == (result is Ok),
        r.timestamp_unix_secs == timestamp_unix_secs,
        match result {
            Ok(snap) => r.snapshot == Some(snap) && r.error is None,
            Err(e) => r.snapshot is None && r.error == Some(e),
        },
{
    match result {
        Ok(snapshot) => SnapshotOutput {
            ok: true,
            timestamp_unix_secs,
            snapshot: Some(snapshot),
            error: None,
        },
        Err(err) => SnapshotOutput {
            ok: false,
            timestamp_unix_secs,
            snapshot: None,
            error: Some(err),
        },
    }
}

/// Whitespace runs collapsed to single spaces.
pub fn compact_ws(text: &str) -> (r: String)
    ensures
        r@ == spec_join(spec_split_ws(text@), ' '),
{
    let chars = crate::text::str_chars(text);
    let words = crate::text::split_ws(&chars);
    let joined = crate::text::join_chars(&words, ' ');
    crate::text::chars_string(&joined)
}

/// Explains why the dashboard cannot start here, or nothing when the
/// directory is inside a repository: the root probe must have run, succeeded
/// and printed a root path.
pub fn repo_guard_error(cwd: &str, probe: &Result<CommandResult, String>) -> (r: Option<String>)
    ensures
        r is None <==> (probe matches Ok(out) && out.success && spec_trim(out.stdout@).len() > 0),
{
    match probe {
        Err(err) => {
            let mut msg =
                "easyhg: current directory is not inside a Mercurial repository\ncwd: ".to_owned();
            msg.append(cwd);
            msg.append(
                "\nhint: run this inside an hg repo (or use --doctor for diagnostics)\nerror: ",
            );
            msg.append(err.as_str());
            Some(msg)
        },
        Ok(out) => {
            let stdout_chars = crate::text::str_chars(out.stdout.as_str());
            let stdout_trim = crate::text::trim_chars(&stdout_chars);
            if out.success && stdout_trim.len() > 0 {
                return None;
            }
            let mut msg =
                "easyhg: current directory is not inside a Mercurial repository\ncwd: ".to_owned();
            msg.append(cwd);
            msg.append("\nhint: run this inside an hg repo (or use --doctor for diagnostics)");
            let stderr_chars = crate::text::str_chars(out.stderr.as_str());
            let stderr_trim = crate::text::trim_chars(&stderr_chars);
            if stderr_trim.len() > 0 {
                msg.append("\nhg: ");
                let stderr_s = crate::text::chars_string(&stderr_trim);
                let compacted = compact_ws(stderr_s.as_str());
                msg.append(compacted.as_str());
            }
            Some(msg)
        },
    }
}

} // verus!
