//! Snapshot-assembly decisions: the structured-first/legacy-fallback policy
//! applied independently to the status, bookmark and revision queries, the
//! graph overlay, and the per-field error handling. The event loop runs the
//! queries; every decision about their output is made here.

use vstd::prelude::*;

use crate::commands::{spec_command_failed, CommandResult};
use crate::domain::{
    Bookmark, BookmarkView, ConflictEntry, ConflictEntryView, FileChange, FileChangeView,
    HgCapabilities, RepoSnapshot, Revision, RevisionView, Shelf, ShelfView,
};
use crate::text::{spec_contains_sub, spec_lines, spec_trim};

verus! {

/// What the first (structured-preferred) pass over a query's output decided.
pub enum FieldOutcome<T> {
    Done(T),
    NeedLegacy,
    Fail(String),
}

/// The working-copy status from the first pass: structured output is used
/// when the capability probe said it is supported; a failed structured call
/// or an undecodable document falls back to the legacy query; a failed
/// legacy-only call fails the refresh.
pub fn status_from_first(out: &CommandResult, used_json: bool) -> (r: FieldOutcome<
    Vec<FileChange>,
>)
    ensures
        match r {
            FieldOutcome::Done(files) => (used_json && out.success
                && crate::json::status_json_rows(out.stdout@) is Some && {
                let rows = crate::json::status_json_rows(out.stdout@)->Some_0;
                &&& files@.len() == rows.len()
                &&& forall|i: int|
                    0 <= i < rows.len() ==> (#[trigger] files@[i])@ == (FileChangeView {
                        path: rows[i].0,
                        status: crate::domain::spec_status_from_code(rows[i].1),
                    })
            }) || (!used_json && out.success && files@.map_values(|f: FileChange| f@)
                == crate::parsehg::spec_parse_status(out.stdout@)),
            FieldOutcome::NeedLegacy => used_json && (!out.success || crate::json::status_json_rows(
                out.stdout@,
            ) is None),
            FieldOutcome::Fail(e) => !used_json && !out.success && e@ == spec_command_failed(out@),
        },
{
    if used_json {
        if out.success {
            match crate::json::parse_status_json(out.stdout.as_str()) {
                Ok(files) => FieldOutcome::Done(files),
                Err(_) => FieldOutcome::NeedLegacy,
            }
        } else {
            FieldOutcome::NeedLegacy
        }
    } else {
        if out.success {
            FieldOutcome::Done(crate::parsehg::parse_status_plain(out.stdout.as_str()))
        } else {
            FieldOutcome::Fail(crate::commands::command_failed(out))
        }
    }
}

/// The working-copy status from the legacy fallback query; a failure here
/// fails the refresh.
pub fn status_from_legacy(out: &CommandResult) -> (r: Result<Vec<FileChange>, String>)
    ensures
        match r {
            Ok(files) => out.success && files@.map_values(|f: FileChange| f@)
                == crate::parsehg::spec_parse_status(out.stdout@),
            Err(e) => !out.success && e@ == spec_command_failed(out@),
        },
{
    if out.success {
        Ok(crate::parsehg::parse_status_plain(out.stdout.as_str()))
    } else {
        Err(crate::commands::command_failed(out))
    }
}

/// The bookmark list from the first pass, under the same policy.
pub fn bookmarks_from_first(out: &CommandResult, used_json: bool) -> (r: FieldOutcome<
    Vec<Bookmark>,
>)
    ensures
        match r {
            FieldOutcome::Done(bs) => (used_json && out.success && Some(
                bs@.map_values(|b: Bookmark| b@),
            ) == crate::json::bookmarks_json_rows(out.stdout@)) || (!used_json && out.success
                && bs@.map_values(|b: Bookmark| b@) == crate::parsehg::spec_parse_bookmarks(
                out.stdout@,
            )),
            FieldOutcome::NeedLegacy => used_json && (!out.success
                || crate::json::bookmarks_json_rows(out.stdout@) is None),
            FieldOutcome::Fail(e) => !used_json && !out.success && e@ == spec_command_failed(out@),
        },
{
    if used_json {
        if out.success {
            match crate::json::parse_bookmarks_json(out.stdout.as_str()) {
                Ok(bs) => FieldOutcome::Done(bs),
                Err(_) => FieldOutcome::NeedLegacy,
            }
        } else {
            FieldOutcome::NeedLegacy
        }
    } else {
        if out.success {
            FieldOutcome::Done(crate::parsehg::parse_bookmarks_plain(out.stdout.as_str()))
        } else {
            FieldOutcome::Fail(crate::commands::command_failed(out))
        }
    }
}

/// The bookmark list from the legacy fallback query.
pub fn bookmarks_from_legacy(out: &CommandResult) -> (r: Result<Vec<Bookmark>, String>)
    ensures
        match r {
            Ok(bs) => out.success && bs@.map_values(|b: Bookmark| b@)
                == crate::parsehg::spec_parse_bookmarks(out.stdout@),
            Err(e) => !out.success && e@ == spec_command_failed(out@),
        },
{
    if out.success {
        Ok(crate::parsehg::parse_bookmarks_plain(out.stdout.as_str()))
    } else {
        Err(crate::commands::command_failed(out))
    }
}

/// The revision list from the first pass: the structured query falls back
/// like the others; the legacy template parse can itself fail the refresh.
pub fn revisions_from_first(out: &CommandResult, used_json: bool) -> (r: FieldOutcome<
    Vec<Revision>,
>)
    ensures
        match r {
            FieldOutcome::Done(revs) => (used_json && out.success && Some(
                revs@.map_values(|x: Revision| x@),
            ) == crate::json::log_json_rows(out.stdout@)) || (!used_json && out.success && Some(
                revs@.map_values(|x: Revision| x@),
            ) == crate::parsehg::spec_parse_log(out.stdout@)),
            FieldOutcome::NeedLegacy => used_json && (!out.success || crate::json::log_json_rows(
                out.stdout@,
            ) is None),
            FieldOutcome::Fail(e) => !used_json && (!out.success && e@ == spec_command_failed(out@)
                || out.success && crate::parsehg::spec_parse_log(out.stdout@) is None),
        },
{
    if used_json {
        if out.success {
            match crate::json::parse_log_json(out.stdout.as_str()) {
                Ok(revs) => FieldOutcome::Done(revs),
                Err(_) => FieldOutcome::NeedLegacy,
            }
        } else {
            FieldOutcome::NeedLegacy
        }
    } else {
        if out.success {
            match crate::parsehg::parse_log_plain_template(out.stdout.as_str()) {
                Ok(revs) => FieldOutcome::Done(revs),
                Err(e) => FieldOutcome::Fail(e),
            }
        } else {
            FieldOutcome::Fail(crate::commands::command_failed(out))
        }
    }
}

/// The revision list from the legacy fallback query.
pub fn revisions_from_legacy(out: &CommandResult) -> (r: Result<Vec<Revision>, String>)
    ensures
        match r {
            Ok(revs) => out.success && Some(revs@.map_values(|x: Revision| x@))
                == crate::parsehg::spec_parse_log(out.stdout@),
            Err(e) => !out.success && e@ == spec_command_failed(out@) || out.success
                && crate::parsehg::spec_parse_log(out.stdout@) is None,
        },
{
    if out.success {
        crate::parsehg::parse_log_plain_template(out.stdout.as_str())
    } else {
        Err(crate::commands::command_failed(out))
    }
}

/// Overlays the graph-drawing output onto the revisions: a failed or absent
/// graph query, or one that yields no rows, leaves the list unchanged.
pub fn apply_graph(revisions: Vec<Revision>, graph: Option<&CommandResult>) -> (r: Vec<Revision>)
    ensures
        match graph {
            Some(out) => if out.success && crate::parsehg::spec_parse_graph(out.stdout@).len()
                > 0 {
                r@.map_values(|x: Revision| x@) == crate::parsehg::spec_merge(
                    revisions@.map_values(|x: Revision| x@),
                    crate::parsehg::spec_parse_graph(out.stdout@),
                )
            } else {
                r == revisions
            },
            None => r == revisions,
        },
{
    match graph {
        Some(out) => {
            if out.success {
                let rows = crate::parsehg::parse_log_graph(out.stdout.as_str());
                if rows.len() > 0 {
                    proof {
                        assert(rows@.map_values(|g: crate::parsehg::ParsedGraphRow| g@).len()
                            == rows@.len());
                    }
                    crate::parsehg::merge_log_graph(revisions, &rows)
                } else {
                    proof {
                        assert(rows@.map_values(|g: crate::parsehg::ParsedGraphRow| g@).len()
                            == rows@.len());
                    }
                    revisions
                }
            } else {
                revisions
            }
        },
        None => revisions,
    }
}

/// The conflict list; a failed resolve query fails the refresh.
pub fn conflicts_from_output(out: &CommandResult) -> (r: Result<Vec<ConflictEntry>, String>)
    ensures
        match r {
            Ok(cs) => out.success && cs@.map_values(|c: ConflictEntry| c@)
                == crate::parsehg::spec_parse_resolve(out.stdout@),
            Err(e) => !out.success && e@ == spec_command_failed(out@),
        },
{
    if out.success {
        Ok(crate::parsehg::parse_resolve_list(out.stdout.as_str()))
    } else {
        Err(crate::commands::command_failed(out))
    }
}

/// The shelf list; a failed shelve query fails the refresh.
pub fn shelves_from_output(out: &CommandResult) -> (r: Result<Vec<Shelf>, String>)
    ensures
        match r {
            Ok(ss) => out.success && ss@.map_values(|s: Shelf| s@)
                == crate::parsehg::spec_parse_shelves(out.stdout@),
            Err(e) => !out.success && e@ == spec_command_failed(out@),
        },
{
    if out.success {
        Ok(crate::parsehg::parse_shelve_list(out.stdout.as_str()))
    } else {
        Err(crate::commands::command_failed(out))
    }
}

/// The repository root; a failed root query aborts the whole refresh with
/// the captured output embedded.
pub fn root_from_output(out: &CommandResult) -> (r: Result<String, String>)
    ensures
        match r {
            Ok(root) => out.success && root@ == spec_trim(out.stdout@),
            Err(e) => !out.success && e@ == spec_command_failed(out@),
        },
{
    if !out.success {
        return Err(crate::commands::command_failed(out));
    }
    let chars = crate::text::str_chars(out.stdout.as_str());
    let trimmed = crate::text::trim_chars(&chars);
    Ok(crate::text::chars_string(&trimmed))
}

/// The branch name: the trimmed output of a successful branch query.
pub fn branch_from_output(out: &CommandResult) -> (r: Option<String>)
    ensures
        out.success ==> (r matches Some(b) && b@ == spec_trim(out.stdout@)),
        !out.success ==> r is None,
{
    if !out.success {
        return None;
    }
    let chars = crate::text::str_chars(out.stdout.as_str());
    let trimmed = crate::text::trim_chars(&chars);
    Some(crate::text::chars_string(&trimmed))
}

/// The first line of a version query that mentions "version", trimmed; or
/// "unknown".
pub open spec fn spec_version_line(lines: Seq<Seq<char>>) -> Seq<char>
    decreases lines.len(),
{
    if lines.len() == 0 {
        "unknown"@
    } else if spec_contains_sub(lines[0], "version"@) {
        spec_trim(lines[0])
    } else {
        spec_version_line(lines.drop_first())
    }
}

/// Extracts the version string from a version query's output.
pub fn version_from_stdout(raw: &str) -> (r: String)
    ensures
        r@ == spec_version_line(spec_lines(raw@)),
{
    let chars = crate::text::str_chars(raw);
    let lines = crate::text::lines_chars(&chars);
    let ghost line_views = lines@.map_values(|t: Vec<char>| t@);
    let n = lines.len();
    let mut i: usize = 0;
    proof {
        assert(line_views.skip(0int) =~= line_views);
    }
    while i < n
        invariant
            0 <= i <= n,
            n == lines@.len(),
            line_views == lines@.map_values(|t: Vec<char>| t@),
            line_views == spec_lines(raw@),
            spec_version_line(line_views) == spec_version_line(line_views.skip(i as int)),
        decreases n - i,
    {
        let ghost suffix = line_views.skip(i as int);
        proof {
            assert(suffix[0] == line_views[i as int]);
            assert(suffix.drop_first() =~= line_views.skip(i + 1));
        }
        if crate::text::contains_sub(&lines[i], "version") {
            let trimmed = crate::text::trim_chars(&lines[i]);
            return crate::text::chars_string(&trimmed);
        }
        i = i + 1;
    }
    proof {
        assert(line_views.skip(n as int) =~= Seq::<Seq<char>>::empty());
    }
    "unknown".to_owned()
}

/// Builds one consistent snapshot from the assembled parts: the rebase state
/// is derived from the marker flag and the conflict list, and partial
/// results are never surfaced.
pub fn assemble_snapshot(
    repo_root: String,
    branch: Option<String>,
    files: Vec<FileChange>,
    revisions: Vec<Revision>,
    bookmarks: Vec<Bookmark>,
    shelves: Vec<Shelf>,
    conflicts: Vec<ConflictEntry>,
    rebase_in_progress: bool,
    capabilities: HgCapabilities,
) -> (r: RepoSnapshot)
    ensures
        r.repo_root == Some(repo_root),
        r.branch == branch,
        r.files == files,
        r.revisions == revisions,
        r.bookmarks == bookmarks,
        r.shelves == shelves,
        r.conflicts == conflicts,
        r.capabilities == capabilities,
        r.rebase.in_progress == rebase_in_progress,
        r.rebase.unresolved_conflicts == crate::domain::spec_unresolved(conflicts@),
        r.rebase.resolved_conflicts == crate::domain::spec_resolved(conflicts@),
        r.rebase.total_conflicts == conflicts@.len(),
{
    let rebase = crate::domain::build_rebase_state(rebase_in_progress, &conflicts);
    RepoSnapshot {
        repo_root: Some(repo_root),
        branch,
        files,
        revisions,
        bookmarks,
        shelves,
        conflicts,
        rebase,
        capabilities,
    }
}

} // verus!
