//! Mutating actions on the repository: the closed set of built-in actions,
//! the argument vector and human-readable preview of each, user-defined
//! command invocations, and captured results of executed commands.

use vstd::prelude::*;

use crate::text::{i64_string, spec_dec, spec_dec_i64, spec_join, spec_trim, usize_string};

verus! {

/// What running one external command produced.
#[derive(Debug, Clone, PartialEq, Eq)]
pub struct CommandResult {
    pub command_preview: String,
    pub success: bool,
    pub stdout: String,
    pub stderr: String,
}

/// Mathematical image of a command result.
pub ghost struct CommandResultView {
    pub command_preview: Seq<char>,
    pub success: bool,
    pub stdout: Seq<char>,
    pub stderr: Seq<char>,
}

impl View for CommandResult {
    type V = CommandResultView;

    open spec fn view(&self) -> CommandResultView {
        CommandResultView {
            command_preview: self.command_preview@,
            success: self.success,
            stdout: self.stdout@,
            stderr: self.stderr@,
        }
    }
}

impl CommandResult {
    /// A copy of the result with the same view.
    pub fn duplicate(&self) -> (r: CommandResult)
        ensures
            r@ == self@,
    {
        CommandResult {
            command_preview: self.command_preview.clone(),
            success: self.success,
            stdout: self.stdout.clone(),
            stderr: self.stderr.clone(),
        }
    }
}

/// How much of the repository a refresh gathers.
#[derive(Debug, Clone, Copy, PartialEq, Eq)]
pub struct SnapshotOptions {
    pub revision_limit: usize,
    pub include_revisions: bool,
}

/// One built-in mutating action.
#[derive(Debug, Clone, PartialEq, Eq)]
pub enum HgAction {
    Commit { message: String, files: Vec<String> },
    Pull,
    Push,
    Incoming,
    Outgoing,
    BookmarkCreate { name: String },
    UpdateToRevision { rev: i64 },
    UpdateToBookmark { name: String },
    ShelveCreate { name: String },
    Unshelve { name: String },
    ResolveMark { path: String },
    ResolveUnmark { path: String },
    RebaseSourceDest { source_rev: i64, dest_rev: i64 },
    RebaseContinue,
    RebaseAbort,
    HisteditBase { base_rev: i64 },
}

/// The human-readable preview of an action: the command line it stands for,
/// with the commit message elided and selected files counted.
pub open spec fn spec_action_preview(a: HgAction) -> Seq<char> {
    match a {
        HgAction::Commit { message: _, files } => if files@.len() == 0 {
            "hg commit -m <message>"@
        } else {
            "hg commit -m <message> <"@ + spec_dec(files@.len()) + " files>"@
        },
        HgAction::Pull => "hg pull -u"@,
        HgAction::Push => "hg push"@,
        HgAction::Incoming => "hg incoming"@,
        HgAction::Outgoing => "hg outgoing"@,
        HgAction::BookmarkCreate { name } => "hg bookmark "@ + name@,
        HgAction::UpdateToRevision { rev } => "hg update -r "@ + spec_dec_i64(rev as int),
        HgAction::UpdateToBookmark { name } => "hg update "@ + name@,
        HgAction::ShelveCreate { name } => "hg shelve --name "@ + name@,
        HgAction::Unshelve { name } => "hg unshelve --name "@ + name@,
        HgAction::ResolveMark { path } => "hg resolve -m "@ + path@,
        HgAction::ResolveUnmark { path } => "hg resolve -u "@ + path@,
        HgAction::RebaseSourceDest { source_rev, dest_rev } => "hg rebase -s "@ + spec_dec_i64(
            source_rev as int,
        ) + " -d "@ + spec_dec_i64(dest_rev as int),
        HgAction::RebaseContinue => "hg rebase --continue"@,
        HgAction::RebaseAbort => "hg rebase --abort"@,
        HgAction::HisteditBase { base_rev } => "hg histedit "@ + spec_dec_i64(base_rev as int),
    }
}

/// The argument vector that the action maps to: a pure value-to-argument
/// mapping, with no shell interpretation.
pub open spec fn spec_action_args(a: HgAction) -> Seq<Seq<char>> {
    match a {
        HgAction::Commit { message, files } => seq!["commit"@, "-m"@, message@] + files@.map_values(
            |f: String| f@,
        ),
        HgAction::Pull => seq!["pull"@, "-u"@],
        HgAction::Push => seq!["push"@],
        HgAction::Incoming => seq!["incoming"@],
        HgAction::Outgoing => seq!["outgoing"@],
        HgAction::BookmarkCreate { name } => seq!["bookmark"@, name@],
        HgAction::UpdateToRevision { rev } => seq!["update"@, "-r"@, spec_dec_i64(rev as int)],
        HgAction::UpdateToBookmark { name } => seq!["update"@, name@],
        HgAction::ShelveCreate { name } => seq!["shelve"@, "--name"@, name@],
        HgAction::Unshelve { name } => seq!["unshelve"@, "--name"@, name@],
        HgAction::ResolveMark { path } => seq!["resolve"@, "-m"@, path@],
        HgAction::ResolveUnmark { path } => seq!["resolve"@, "-u"@, path@],
        HgAction::RebaseSourceDest { source_rev, dest_rev } => seq![
            "rebase"@,
            "-s"@,
            spec_dec_i64(source_rev as int),
            "-d"@,
            spec_dec_i64(dest_rev as int),
        ],
        HgAction::RebaseContinue => seq!["rebase"@, "--continue"@],
        HgAction::RebaseAbort => seq!["rebase"@, "--abort"@],
        HgAction::HisteditBase { base_rev } => seq!["histedit"@, spec_dec_i64(base_rev as int)],
    }
}

impl HgAction {
    /// The command line this action stands for, message elided.
    pub fn command_preview(&self) -> (r: String)
        ensures
            r@ == spec_action_preview(*self),
    {
        match self {
            HgAction::Commit { message: _, files } => {
                if files.len() == 0 {
                    "hg commit -m <message>".to_owned()
                } else {
                    let mut s = "hg commit -m <message> <".to_owned();
                    let count = usize_string(files.len());
                    s.append(count.as_str());
                    s.append(" files>");
                    s
                }
            },
            HgAction::Pull => "hg pull -u".to_owned(),
            HgAction::Push => "hg push".to_owned(),
            HgAction::Incoming => "hg incoming".to_owned(),
            HgAction::Outgoing => "hg outgoing".to_owned(),
            HgAction::BookmarkCreate { name } => {
                let mut s = "hg bookmark ".to_owned();
                s.append(name.as_str());
                s
            },
            HgAction::UpdateToRevision { rev } => {
                let mut s = "hg update -r ".to_owned();
                let num = i64_string(*rev);
                s.append(num.as_str());
                s
            },
            HgAction::UpdateToBookmark { name } => {
                let mut s = "hg update ".to_owned();
                s.append(name.as_str());
                s
            },
            HgAction::ShelveCreate { name } => {
                let mut s = "hg shelve --name ".to_owned();
                s.append(name.as_str());
                s
            },
            HgAction::Unshelve { name } => {
                let mut s = "hg unshelve --name ".to_owned();
                s.append(name.as_str());
                s
            },
            HgAction::ResolveMark { path } => {
                let mut s = "hg resolve -m ".to_owned();
                s.append(path.as_str());
                s
            },
            HgAction::ResolveUnmark { path } => {
                let mut s = "hg resolve -u ".to_owned();
                s.append(path.as_str());
                s
            },
            HgAction::RebaseSourceDest { source_rev, dest_rev } => {
                let mut s = "hg rebase -s ".to_owned();
                let src = i64_string(*source_rev);
                s.append(src.as_str());
                s.append(" -d ");
                let dst = i64_string(*dest_rev);
                s.append(dst.as_str());
                s
            },
            HgAction::RebaseContinue => "hg rebase --continue".to_owned(),
            HgAction::RebaseAbort => "hg rebase --abort".to_owned(),
            HgAction::HisteditBase { base_rev } => {
                let mut s = "hg histedit ".to_owned();
                let num = i64_string(*base_rev);
                s.append(num.as_str());
                s
            },
        }
    }

    /// The argument vector to run this action with.
    pub fn args(&self) -> (r: Vec<String>)
        ensures
            r@.map_values(|s: String| s@) == spec_action_args(*self),
    {
        let mut out: Vec<String> = Vec::new();
        match self {
            HgAction::Commit { message, files } => {
                out.push("commit".to_owned());
                out.push("-m".to_owned());
                out.push(message.clone());
                let n = files.len();
                let mut i: usize = 0;
                proof {
                    assert(out@.map_values(|s: String| s@) =~= seq!["commit"@, "-m"@, message@]
                        + files@.map_values(|f: String| f@).take(0int));
                }
                while i < n
                    invariant
                        0 <= i <= n,
                        n == files@.len(),
                        out@.map_values(|s: String| s@) == seq!["commit"@, "-m"@, message@]
                            + files@.map_values(|f: String| f@).take(i as int),
                    decreases n - i,
                {
                    let f = files[i].clone();
                    proof {
                        let fv = files@.map_values(|x: String| x@);
                        assert(out@.push(f).map_values(|s: String| s@) =~= out@.map_values(
                            |s: String| s@,
                        ).push(f@));
                        assert(fv[i as int] == files@[i as int]@);
                        assert(seq!["commit"@, "-m"@, message@] + fv.take(i as int + 1)
                            =~= (seq!["commit"@, "-m"@, message@] + fv.take(i as int)).push(
                            fv[i as int],
                        ));
                    }
                    out.push(f);
                    i = i + 1;
                }
                proof {
                    let fv = files@.map_values(|x: String| x@);
                    assert(fv.take(n as int) =~= fv);
                }
            },
            HgAction::Pull => {
                out.push("pull".to_owned());
                out.push("-u".to_owned());
                proof {
                    assert(out@.map_values(|s: String| s@) =~= seq!["pull"@, "-u"@]);
                }
            },
            HgAction::Push => {
                out.push("push".to_owned());
                proof {
                    assert(out@.map_values(|s: String| s@) =~= seq!["push"@]);
                }
            },
            HgAction::Incoming => {
                out.push("incoming".to_owned());
                proof {
                    assert(out@.map_values(|s: String| s@) =~= seq!["incoming"@]);
                }
            },
            HgAction::Outgoing => {
                out.push("outgoing".to_owned());
                proof {
                    assert(out@.map_values(|s: String| s@) =~= seq!["outgoing"@]);
                }
            },
            HgAction::BookmarkCreate { name } => {
                out.push("bookmark".to_owned());
                out.push(name.clone());
                proof {
                    assert(out@.map_values(|s: String| s@) =~= seq!["bookmark"@, name@]);
                }
            },
            HgAction::UpdateToRevision { rev } => {
                out.push("update".to_owned());
                out.push("-r".to_owned());
                out.push(i64_string(*rev));
                proof {
                    assert(out@.map_values(|s: String| s@) =~= seq![
                        "update"@,
                        "-r"@,
                        spec_dec_i64(*rev as int),
                    ]);
                }
            },
            HgAction::UpdateToBookmark { name } => {
                out.push("update".to_owned());
                out.push(name.clone());
                proof {
                    assert(out@.map_values(|s: String| s@) =~= seq!["update"@, name@]);
                }
            },
            HgAction::ShelveCreate { name } => {
                out.push("shelve".to_owned());
                out.push("--name".to_owned());
                out.push(name.clone());
                proof {
                    assert(out@.map_values(|s: String| s@) =~= seq!["shelve"@, "--name"@, name@]);
                }
            },
            HgAction::Unshelve { name } => {
                out.push("unshelve".to_owned());
                out.push("--name".to_owned());
                out.push(name.clone());
                proof {
                    assert(out@.map_values(|s: String| s@) =~= seq![
                        "unshelve"@,
                        "--name"@,
                        name@,
                    ]);
                }
            },
            HgAction::ResolveMark { path } => {
                out.push("resolve".to_owned());
                out.push("-m".to_owned());
                out.push(path.clone());
                proof {
                    assert(out@.map_values(|s: String| s@) =~= seq!["resolve"@, "-m"@, path@]);
                }
            },
            HgAction::ResolveUnmark { path } => {
                out.push("resolve".to_owned());
                out.push("-u".to_owned());
                out.push(path.clone());
                proof {
                    assert(out@.map_values(|s: String| s@) =~= seq!["resolve"@, "-u"@, path@]);
                }
            },
            HgAction::RebaseSourceDest { source_rev, dest_rev } => {
                out.push("rebase".to_owned());
                out.push("-s".to_owned());
                out.push(i64_string(*source_rev));
                out.push("-d".to_owned());
                out.push(i64_string(*dest_rev));
                proof {
                    assert(out@.map_values(|s: String| s@) =~= seq![
                        "rebase"@,
                        "-s"@,
                        spec_dec_i64(*source_rev as int),
                        "-d"@,
                        spec_dec_i64(*dest_rev as int),
                    ]);
                }
            },
            HgAction::RebaseContinue => {
                out.push("rebase".to_owned());
                out.push("--continue".to_owned());
                proof {
                    assert(out@.map_values(|s: String| s@) =~= seq!["rebase"@, "--continue"@]);
                }
            },
            HgAction::RebaseAbort => {
                out.push("rebase".to_owned());
                out.push("--abort".to_owned());
                proof {
                    assert(out@.map_values(|s: String| s@) =~= seq!["rebase"@, "--abort"@]);
                }
            },
            HgAction::HisteditBase { base_rev } => {
                out.push("histedit".to_owned());
                out.push(i64_string(*base_rev));
                proof {
                    assert(out@.map_values(|s: String| s@) =~= seq![
                        "histedit"@,
                        spec_dec_i64(*base_rev as int),
                    ]);
                }
            },
        }
        out
    }
}

/// A user-defined command, already tokenized and template-substituted.
#[derive(Debug, Clone, PartialEq, Eq)]
pub struct CustomInvocation {
    pub program: String,
    pub args: Vec<String>,
    pub env: Vec<(String, String)>,
}

/// The preview of a custom invocation: program and arguments joined with
/// single spaces.
pub open spec fn spec_invocation_preview(inv: CustomInvocation) -> Seq<char> {
    spec_join(seq![inv.program@] + inv.args@.map_values(|a: String| a@), ' ')
}

impl CustomInvocation {
    /// The command line this invocation stands for.
    pub fn command_preview(&self) -> (r: String)
        ensures
            r@ == spec_invocation_preview(*self),
    {
        let ghost parts = seq![self.program@] + self.args@.map_values(|a: String| a@);
        let mut out = self.program.clone();
        let n = self.args.len();
        let mut i: usize = 0;
        proof {
            assert(crate::text::spec_join_prefix(parts, 1int, ' ') == parts[0]);
            assert(parts[0] == self.program@);
        }
        while i < n
            invariant
                0 <= i <= n,
                n == self.args@.len(),
                parts == seq![self.program@] + self.args@.map_values(|a: String| a@),
                parts.len() == n + 1,
                out@ == crate::text::spec_join_prefix(parts, i as int + 1, ' '),
            decreases n - i,
        {
            out.append(" ");
            out.append(self.args[i].as_str());
            proof {
                reveal_strlit(" ");
                assert(" "@ =~= seq![' ']);
                assert(parts[i as int + 1] == self.args@[i as int]@);
                crate::text::lemma_join_prefix_step(parts, i as int + 1, ' ');
            }
            i = i + 1;
        }
        proof {
            crate::text::lemma_join_prefix_full(parts, ' ');
            assert(parts.len() == n + 1);
        }
        out
    }
}

/// Captured output arranged for the detail pane: the non-empty streams, each
/// under a heading, separated by a blank line.
pub open spec fn spec_collect_output(out: CommandResultView) -> Seq<char> {
    let so = spec_trim(out.stdout);
    let se = spec_trim(out.stderr);
    if so.len() > 0 && se.len() > 0 {
        "stdout:\n"@ + crate::text::spec_trim_end(out.stdout) + "\n\nstderr:\n"@
            + crate::text::spec_trim_end(out.stderr)
    } else if so.len() > 0 {
        "stdout:\n"@ + crate::text::spec_trim_end(out.stdout)
    } else if se.len() > 0 {
        "stderr:\n"@ + crate::text::spec_trim_end(out.stderr)
    } else {
        Seq::empty()
    }
}

/// Arranges captured output for the detail pane.
pub fn collect_command_output(result: &CommandResult) -> (r: String)
    ensures
        r@ == spec_collect_output(result@),
{
    let stdout_chars = crate::text::str_chars(result.stdout.as_str());
    let stderr_chars = crate::text::str_chars(result.stderr.as_str());
    let so = crate::text::trim_chars(&stdout_chars);
    let se = crate::text::trim_chars(&stderr_chars);
    let so_end = crate::text::trim_end_chars(&stdout_chars);
    let se_end = crate::text::trim_end_chars(&stderr_chars);
    let mut out = String::new();
    if so.len() > 0 && se.len() > 0 {
        out.append("stdout:\n");
        let s1 = crate::text::chars_string(&so_end);
        out.append(s1.as_str());
        out.append("\n\nstderr:\n");
        let s2 = crate::text::chars_string(&se_end);
        out.append(s2.as_str());
    } else if so.len() > 0 {
        out.append("stdout:\n");
        let s1 = crate::text::chars_string(&so_end);
        out.append(s1.as_str());
    } else if se.len() > 0 {
        out.append("stderr:\n");
        let s2 = crate::text::chars_string(&se_end);
        out.append(s2.as_str());
    }
    out
}

/// The error message for a command that ran and exited non-zero: the preview,
/// with compacted stderr and stdout when present.
pub open spec fn spec_command_failed(out: CommandResultView) -> Seq<char> {
    let se = crate::parsehg::spec_compact(out.stderr);
    let so = crate::parsehg::spec_compact(out.stdout);
    if se.len() > 0 && so.len() > 0 {
        "command failed: "@ + out.command_preview + " (stderr: "@ + se + " | stdout: "@ + so
            + ")"@
    } else if se.len() > 0 {
        "command failed: "@ + out.command_preview + " (stderr: "@ + se + ")"@
    } else if so.len() > 0 {
        "command failed: "@ + out.command_preview + " (stdout: "@ + so + ")"@
    } else {
        "command failed: "@ + out.command_preview
    }
}

/// Builds the error message for a command that ran and exited non-zero.
pub fn command_failed(out: &CommandResult) -> (r: String)
    ensures
        r@ == spec_command_failed(out@),
{
    let se = crate::parsehg::compact_output(out.stderr.as_str());
    let so = crate::parsehg::compact_output(out.stdout.as_str());
    let se_len = se.as_str().unicode_len();
    let so_len = so.as_str().unicode_len();
    let mut msg = "command failed: ".to_owned();
    msg.append(out.command_preview.as_str());
    if se_len > 0 && so_len > 0 {
        msg.append(" (stderr: ");
        msg.append(se.as_str());
        msg.append(" | stdout: ");
        msg.append(so.as_str());
        msg.append(")");
    } else if se_len > 0 {
        msg.append(" (stderr: ");
        msg.append(se.as_str());
        msg.append(")");
    } else if so_len > 0 {
        msg.append(" (stdout: ");
        msg.append(so.as_str());
        msg.append(")");
    }
    msg
}

} // verus!
