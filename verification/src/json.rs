//! The structured-output parsers. The tool's JSON output is decoded by
//! serde_json behind trusted wrappers; what each decoder yields on a given
//! text is given a name, and everything downstream is verified against those
//! names.

use vstd::prelude::*;

use crate::domain::{
    Bookmark, BookmarkView, FileChange, FileChangeView, Revision, RevisionView,
};

verus! {

/// What decoding a status JSON document yields: one (path, status token)
/// pair per entry, or nothing when the text is not such a document.
pub uninterp spec fn status_json_rows(s: Seq<char>) -> Option<Seq<(Seq<char>, Seq<char>)>>;

/// Relies on serde_json::from_str and serde_json::Value's accessors: decodes
/// an array of objects with string fields `path` and `status`.
#[verifier::external_body]
fn status_json_entries(raw: &str) -> (r: Option<Vec<(String, String)>>)
    ensures
        r is Some <==> status_json_rows(raw@) is Some,
        r matches Some(v) ==> Some(v@.map_values(|p: (String, String)| (p.0@, p.1@)))
            == status_json_rows(raw@),
{
    let items: Vec<serde_json::Value> = serde_json::from_str(raw).ok()?;
    let mut out = Vec::new();
    for item in items.iter() {
        let path = item.get("path")?.as_str()?.to_string();
        let status = item.get("status")?.as_str()?.to_string();
        out.push((path, status));
    }
    Some(out)
}

/// Parses the structured status listing: each row's token is mapped to its
/// file status.
pub fn parse_status_json(raw: &str) -> (r: Result<Vec<FileChange>, String>)
    ensures
        r is Ok <==> status_json_rows(raw@) is Some,
        r matches Ok(files) ==> {
            let rows = status_json_rows(raw@)->Some_0;
            &&& files@.len() == rows.len()
            &&& forall|i: int|
                0 <= i < rows.len() ==> (#[trigger] files@[i])@ == (FileChangeView {
                    path: rows[i].0,
                    status: crate::domain::spec_status_from_code(rows[i].1),
                })
        },
{
    let entries = match status_json_entries(raw) {
        Some(e) => e,
        None => {
            return Err("failed parsing hg status json".to_owned());
        },
    };
    let ghost rows = status_json_rows(raw@)->Some_0;
    let mut files: Vec<FileChange> = Vec::new();
    let n = entries.len();
    let mut i: usize = 0;
    while i < n
        invariant
            0 <= i <= n,
            n == entries@.len(),
            Some(entries@.map_values(|p: (String, String)| (p.0@, p.1@))) == status_json_rows(
                raw@,
            ),
            rows == status_json_rows(raw@)->Some_0,
            files@.len() == i,
            forall|j: int|
                0 <= j < i ==> (#[trigger] files@[j])@ == (FileChangeView {
                    path: rows[j].0,
                    status: crate::domain::spec_status_from_code(rows[j].1),
                }),
        decreases n - i,
    {
        let status = crate::domain::FileStatus::from_hg_code(entries[i].1.as_str());
        proof {
            assert(entries@.map_values(|p: (String, String)| (p.0@, p.1@))[i as int]
                == (entries@[i as int].0@, entries@[i as int].1@));
        }
        files.push(FileChange { path: entries[i].0.clone(), status });
        i = i + 1;
    }
    Ok(files)
}

/// What decoding a log JSON document yields: the revisions it describes, or
/// nothing when the text is not such a document.
pub uninterp spec fn log_json_rows(s: Seq<char>) -> Option<Seq<RevisionView>>;

/// The JSON value type, carried opaquely between the decoding wrappers.
#[verifier::external_type_specification]
#[verifier::external_body]
pub struct ExValue(serde_json::Value);

/// Relies on serde_json::Value::as_array and as_str: the string entries of
/// an array value. A missing or non-array value, and any non-string element,
/// is skipped rather than failing the whole decode.
#[verifier::external_body]
fn json_string_list(v: Option<&serde_json::Value>) -> Vec<String> {
    v.and_then(|x| x.as_array())
        .map(|a| a.iter().filter_map(|e| e.as_str().map(str::to_string)).collect())
        .unwrap_or_default()
}

/// A revision assembled from decoded fields, with no graph prefix yet: a
/// pure field-moving constructor, kept separate so the trusted body below
/// stays within its size bounds.
fn revision_from_parts(
    rev: i64,
    node: String,
    desc: String,
    user: String,
    branch: String,
    phase: String,
    tags: Vec<String>,
    bookmarks: Vec<String>,
    date_unix_secs: i64,
) -> (r: Revision)
    ensures
        r == (Revision {
            rev,
            node,
            desc,
            user,
            branch,
            phase,
            tags,
            bookmarks,
            date_unix_secs,
            graph_prefix: None,
        }),
{
    Revision { rev, node, desc, user, branch, phase, tags, bookmarks, date_unix_secs, graph_prefix: None }
}

/// Relies on serde_json::from_str and serde_json::Value's accessors: decodes
/// an array of revision objects (rev, node, desc, user, branch, phase, the
/// optional tag and bookmark lists, and the [seconds, offset] date pair).
#[verifier::external_body]
fn log_json_entries(raw: &str) -> (r: Option<Vec<Revision>>)
    ensures
        r is Some <==> log_json_rows(raw@) is Some,
        r matches Some(v) ==> Some(v@.map_values(|x: Revision| x@)) == log_json_rows(raw@),
{
    let items: Vec<serde_json::Value> = serde_json::from_str(raw).ok()?;
    let mut out = Vec::new();
    for it in items.iter() {
        out.push(revision_from_parts(
            it.get("rev")?.as_i64()?, it.get("node")?.as_str()?.to_string(),
            it.get("desc")?.as_str()?.to_string(), it.get("user")?.as_str()?.to_string(),
            it.get("branch")?.as_str()?.to_string(), it.get("phase")?.as_str()?.to_string(),
            json_string_list(it.get("tags")), json_string_list(it.get("bookmarks")),
            it.get("date")?.get(0)?.as_i64()?,
        ));
    }
    Some(out)
}

/// Parses the structured log listing.
pub fn parse_log_json(raw: &str) -> (r: Result<Vec<Revision>, String>)
    ensures
        r is Ok <==> log_json_rows(raw@) is Some,
        r matches Ok(revs) ==> Some(revs@.map_values(|x: Revision| x@)) == log_json_rows(raw@),
{
    match log_json_entries(raw) {
        Some(revs) => Ok(revs),
        None => Err("failed parsing hg log json".to_owned()),
    }
}

/// What decoding a bookmarks JSON document yields, or nothing when the text
/// is not such a document.
pub uninterp spec fn bookmarks_json_rows(s: Seq<char>) -> Option<Seq<BookmarkView>>;

/// Relies on serde_json::from_str and serde_json::Value's accessors: decodes
/// an array of bookmark objects (bookmark, rev, node, optional active flag).
#[verifier::external_body]
fn bookmarks_json_entries(raw: &str) -> (r: Option<Vec<Bookmark>>)
    ensures
        r is Some <==> bookmarks_json_rows(raw@) is Some,
        r matches Some(v) ==> Some(v@.map_values(|x: Bookmark| x@)) == bookmarks_json_rows(raw@),
{
    let items: Vec<serde_json::Value> = serde_json::from_str(raw).ok()?;
    let mut out = Vec::new();
    for it in items.iter() {
        out.push(Bookmark {
            name: it.get("bookmark")?.as_str()?.to_string(),
            rev: it.get("rev")?.as_i64()?,
            node: it.get("node")?.as_str()?.to_string(),
            active: it.get("active").and_then(|v| v.as_bool()).unwrap_or(false),
        });
    }
    Some(out)
}

/// Parses the structured bookmark listing.
pub fn parse_bookmarks_json(raw: &str) -> (r: Result<Vec<Bookmark>, String>)
    ensures
        r is Ok <==> bookmarks_json_rows(raw@) is Some,
        r matches Ok(bs) ==> Some(bs@.map_values(|x: Bookmark| x@)) == bookmarks_json_rows(raw@),
{
    match bookmarks_json_entries(raw) {
        Some(bs) => Ok(bs),
        None => Err("failed parsing hg bookmarks json".to_owned()),
    }
}

} // verus!
