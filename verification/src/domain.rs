//! Data model of a repository snapshot: file changes, revisions, bookmarks,
//! shelves, merge conflicts, tool capabilities and the derived rebase state.

use vstd::prelude::*;

verus! {

/// Single-letter working-copy status of a file.
#[derive(Debug, Clone, Copy, PartialEq, Eq)]
pub enum FileStatus {
    Modified,
    Added,
    Removed,
    Missing,
    Unknown,
    Ignored,
    Clean,
    Copied,
    Other(char),
}

/// The status that a given status-code token denotes: its first character
/// decides, and an empty token counts as unknown.
pub open spec fn spec_status_from_code(code: Seq<char>) -> FileStatus {
    if code.len() == 0 {
        FileStatus::Unknown
    } else {
        spec_status_from_char(code[0])
    }
}

pub open spec fn spec_status_from_char(c: char) -> FileStatus {
    if c == 'M' {
        FileStatus::Modified
    } else if c == 'A' {
        FileStatus::Added
    } else if c == 'R' {
        FileStatus::Removed
    } else if c == '!' {
        FileStatus::Missing
    } else if c == '?' {
        FileStatus::Unknown
    } else if c == 'I' {
        FileStatus::Ignored
    } else if c == 'C' {
        FileStatus::Clean
    } else if c == ' ' {
        FileStatus::Copied
    } else {
        FileStatus::Other(c)
    }
}

/// The single character that stands for a status in listings.
pub open spec fn spec_status_code(s: FileStatus) -> char {
    match s {
        FileStatus::Modified => 'M',
        FileStatus::Added => 'A',
        FileStatus::Removed => 'R',
        FileStatus::Missing => '!',
        FileStatus::Unknown => '?',
        FileStatus::Ignored => 'I',
        FileStatus::Clean => 'C',
        FileStatus::Copied => ' ',
        FileStatus::Other(c) => c,
    }
}

impl FileStatus {
    /// Maps a raw status token to a status; only the first character counts.
    pub fn from_hg_code(code: &str) -> (r: Self)
        ensures
            r == spec_status_from_code(code@),
    {
        let n = code.unicode_len();
        if n == 0 {
            FileStatus::Unknown
        } else {
            let c = code.get_char(0);
            if c == 'M' {
                FileStatus::Modified
            } else if c == 'A' {
                FileStatus::Added
            } else if c == 'R' {
                FileStatus::Removed
            } else if c == '!' {
                FileStatus::Missing
            } else if c == '?' {
                FileStatus::Unknown
            } else if c == 'I' {
                FileStatus::Ignored
            } else if c == 'C' {
                FileStatus::Clean
            } else if c == ' ' {
                FileStatus::Copied
            } else {
                FileStatus::Other(c)
            }
        }
    }

    /// The single-letter code shown for this status.
    pub fn code(self) -> (r: char)
        ensures
            r == spec_status_code(self),
    {
        match self {
            FileStatus::Modified => 'M',
            FileStatus::Added => 'A',
            FileStatus::Removed => 'R',
            FileStatus::Missing => '!',
            FileStatus::Unknown => '?',
            FileStatus::Ignored => 'I',
            FileStatus::Clean => 'C',
            FileStatus::Copied => ' ',
            FileStatus::Other(c) => c,
        }
    }
}

/// A changed file in the working copy.
#[derive(Debug, Clone, PartialEq, Eq)]
pub struct FileChange {
    pub path: String,
    pub status: FileStatus,
}

/// One changeset of history, newest first in snapshot order.
#[derive(Debug, Clone, PartialEq, Eq)]
pub struct Revision {
    pub rev: i64,
    pub node: String,
    pub desc: String,
    pub user: String,
    pub branch: String,
    pub phase: String,
    pub tags: Vec<String>,
    pub bookmarks: Vec<String>,
    pub date_unix_secs: i64,
    pub graph_prefix: Option<String>,
}

/// A movable named pointer to a revision.
#[derive(Debug, Clone, PartialEq, Eq)]
pub struct Bookmark {
    pub name: String,
    pub rev: i64,
    pub node: String,
    pub active: bool,
}

/// A file left in (or released from) an unresolved merge state.
#[derive(Debug, Clone, PartialEq, Eq)]
pub struct ConflictEntry {
    pub resolved: bool,
    pub path: String,
}

/// A named set of temporarily stored working-copy changes.
#[derive(Debug, Clone, PartialEq, Eq)]
pub struct Shelf {
    pub name: String,
    pub age: Option<String>,
    pub description: String,
}

/// Which optional subcommands and output formats the external tool supports.
#[derive(Debug, Clone, PartialEq, Eq)]
pub struct HgCapabilities {
    pub version: String,
    pub has_rebase: bool,
    pub has_histedit: bool,
    pub has_shelve: bool,
    pub supports_json_status: bool,
    pub supports_json_log: bool,
    pub supports_json_bookmarks: bool,
}

impl Default for HgCapabilities {
    fn default() -> (r: Self)
        ensures
            r.version@ =~= Seq::<char>::empty(),
            !r.has_rebase && !r.has_histedit && !r.has_shelve,
            !r.supports_json_status && !r.supports_json_log && !r.supports_json_bookmarks,
    {
        HgCapabilities {
            version: String::new(),
            has_rebase: false,
            has_histedit: false,
            has_shelve: false,
            supports_json_status: false,
            supports_json_log: false,
            supports_json_bookmarks: false,
        }
    }
}

/// Whether a rebase is under way, and the conflict counts derived from the
/// conflict list.
#[derive(Debug, Clone, Copy, PartialEq, Eq)]
pub struct RebaseState {
    pub in_progress: bool,
    pub unresolved_conflicts: usize,
    pub resolved_conflicts: usize,
    pub total_conflicts: usize,
}

impl Default for RebaseState {
    fn default() -> (r: Self)
        ensures
            r == (RebaseState {
                in_progress: false,
                unresolved_conflicts: 0usize,
                resolved_conflicts: 0usize,
                total_conflicts: 0usize,
            }),
    {
        RebaseState { in_progress: false, unresolved_conflicts: 0, resolved_conflicts: 0, total_conflicts: 0 }
    }
}

/// One consistent view of the repository, replaced wholesale on refresh.
#[derive(Debug, Clone, PartialEq, Eq)]
pub struct RepoSnapshot {
    pub repo_root: Option<String>,
    pub branch: Option<String>,
    pub files: Vec<FileChange>,
    pub revisions: Vec<Revision>,
    pub bookmarks: Vec<Bookmark>,
    pub shelves: Vec<Shelf>,
    pub conflicts: Vec<ConflictEntry>,
    pub rebase: RebaseState,
    pub capabilities: HgCapabilities,
}

impl Default for RepoSnapshot {
    fn default() -> (r: Self)
        ensures
            r.repo_root is None && r.branch is None,
            r.files@ =~= Seq::<FileChange>::empty(),
            r.revisions@ =~= Seq::<Revision>::empty(),
            r.bookmarks@ =~= Seq::<Bookmark>::empty(),
            r.shelves@ =~= Seq::<Shelf>::empty(),
            r.conflicts@ =~= Seq::<ConflictEntry>::empty(),
            r.rebase == (RebaseState {
                in_progress: false,
                unresolved_conflicts: 0usize,
                resolved_conflicts: 0usize,
                total_conflicts: 0usize,
            }),
            r.capabilities.version@ =~= Seq::<char>::empty(),
            !r.capabilities.has_rebase && !r.capabilities.has_histedit,
            !r.capabilities.has_shelve && !r.capabilities.supports_json_status,
            !r.capabilities.supports_json_log && !r.capabilities.supports_json_bookmarks,
    {
        RepoSnapshot {
            repo_root: None,
            branch: None,
            files: Vec::new(),
            revisions: Vec::new(),
            bookmarks: Vec::new(),
            shelves: Vec::new(),
            conflicts: Vec::new(),
            rebase: RebaseState::default(),
            capabilities: HgCapabilities::default(),
        }
    }
}

/// Mathematical image of a file change: the path as a character sequence.
pub ghost struct FileChangeView {
    pub path: Seq<char>,
    pub status: FileStatus,
}

impl View for FileChange {
    type V = FileChangeView;

    open spec fn view(&self) -> FileChangeView {
        FileChangeView { path: self.path@, status: self.status }
    }
}

/// Mathematical image of a revision: every text field as a character
/// sequence.
pub ghost struct RevisionView {
    pub rev: i64,
    pub node: Seq<char>,
    pub desc: Seq<char>,
    pub user: Seq<char>,
    pub branch: Seq<char>,
    pub phase: Seq<char>,
    pub tags: Seq<Seq<char>>,
    pub bookmarks: Seq<Seq<char>>,
    pub date_unix_secs: i64,
    pub graph_prefix: Option<Seq<char>>,
}

impl View for Revision {
    type V = RevisionView;

    open spec fn view(&self) -> RevisionView {
        RevisionView {
            rev: self.rev,
            node: self.node@,
            desc: self.desc@,
            user: self.user@,
            branch: self.branch@,
            phase: self.phase@,
            tags: self.tags@.map_values(|t: String| t@),
            bookmarks: self.bookmarks@.map_values(|t: String| t@),
            date_unix_secs: self.date_unix_secs,
            graph_prefix: match self.graph_prefix {
                Some(p) => Some(p@),
                None => None,
            },
        }
    }
}

impl Revision {
    /// A copy of the revision with the same view.
    pub fn duplicate(&self) -> (r: Revision)
        ensures
            r@ == self@,
    {
        let tags = self.tags.clone();
        let bookmarks = self.bookmarks.clone();
        proof {
            assert(tags@ =~= self.tags@);
            assert(bookmarks@ =~= self.bookmarks@);
        }
        let r = Revision {
            rev: self.rev,
            node: self.node.clone(),
            desc: self.desc.clone(),
            user: self.user.clone(),
            branch: self.branch.clone(),
            phase: self.phase.clone(),
            tags,
            bookmarks,
            date_unix_secs: self.date_unix_secs,
            graph_prefix: match &self.graph_prefix {
                Some(p) => Some(p.clone()),
                None => None,
            },
        };
        proof {
            assert(r@.tags =~= self@.tags);
            assert(r@.bookmarks =~= self@.bookmarks);
        }
        r
    }

    /// The same revision with its graph prefix replaced.
    pub fn with_graph_prefix(self, prefix: String) -> (r: Revision)
        ensures
            r@ == (RevisionView { graph_prefix: Some(prefix@), ..self@ }),
    {
        Revision { graph_prefix: Some(prefix), ..self }
    }
}

/// Mathematical image of a bookmark.
pub ghost struct BookmarkView {
    pub name: Seq<char>,
    pub rev: i64,
    pub node: Seq<char>,
    pub active: bool,
}

impl View for Bookmark {
    type V = BookmarkView;

    open spec fn view(&self) -> BookmarkView {
        BookmarkView { name: self.name@, rev: self.rev, node: self.node@, active: self.active }
    }
}

/// Mathematical image of a conflict entry.
pub ghost struct ConflictEntryView {
    pub resolved: bool,
    pub path: Seq<char>,
}

impl View for ConflictEntry {
    type V = ConflictEntryView;

    open spec fn view(&self) -> ConflictEntryView {
        ConflictEntryView { resolved: self.resolved, path: self.path@ }
    }
}

/// Mathematical image of a shelf.
pub ghost struct ShelfView {
    pub name: Seq<char>,
    pub age: Option<Seq<char>>,
    pub description: Seq<char>,
}

impl View for Shelf {
    type V = ShelfView;

    open spec fn view(&self) -> ShelfView {
        ShelfView {
            name: self.name@,
            age: match self.age {
                Some(a) => Some(a@),
                None => None,
            },
            description: self.description@,
        }
    }
}

/// Mathematical image of the capability record.
pub ghost struct HgCapabilitiesView {
    pub version: Seq<char>,
    pub has_rebase: bool,
    pub has_histedit: bool,
    pub has_shelve: bool,
    pub supports_json_status: bool,
    pub supports_json_log: bool,
    pub supports_json_bookmarks: bool,
}

impl View for HgCapabilities {
    type V = HgCapabilitiesView;

    open spec fn view(&self) -> HgCapabilitiesView {
        HgCapabilitiesView {
            version: self.version@,
            has_rebase: self.has_rebase,
            has_histedit: self.has_histedit,
            has_shelve: self.has_shelve,
            supports_json_status: self.supports_json_status,
            supports_json_log: self.supports_json_log,
            supports_json_bookmarks: self.supports_json_bookmarks,
        }
    }
}

/// Mathematical image of a snapshot: all lists as sequences of views.
pub ghost struct RepoSnapshotView {
    pub repo_root: Option<Seq<char>>,
    pub branch: Option<Seq<char>>,
    pub files: Seq<FileChangeView>,
    pub revisions: Seq<RevisionView>,
    pub bookmarks: Seq<BookmarkView>,
    pub shelves: Seq<ShelfView>,
    pub conflicts: Seq<ConflictEntryView>,
    pub rebase: RebaseState,
    pub capabilities: HgCapabilitiesView,
}

impl View for RepoSnapshot {
    type V = RepoSnapshotView;

    open spec fn view(&self) -> RepoSnapshotView {
        RepoSnapshotView {
            repo_root: match self.repo_root {
                Some(r) => Some(r@),
                None => None,
            },
            branch: match self.branch {
                Some(b) => Some(b@),
                None => None,
            },
            files: self.files@.map_values(|f: FileChange| f@),
            revisions: self.revisions@.map_values(|r: Revision| r@),
            bookmarks: self.bookmarks@.map_values(|b: Bookmark| b@),
            shelves: self.shelves@.map_values(|s: Shelf| s@),
            conflicts: self.conflicts@.map_values(|c: ConflictEntry| c@),
            rebase: self.rebase,
            capabilities: self.capabilities@,
        }
    }
}

/// How many entries of the conflict list are unresolved.
pub open spec fn spec_unresolved(conflicts: Seq<ConflictEntry>) -> nat {
    conflicts.filter(|c: ConflictEntry| !c.resolved).len()
}

/// How many entries of the conflict list are resolved.
pub open spec fn spec_resolved(conflicts: Seq<ConflictEntry>) -> nat {
    conflicts.filter(|c: ConflictEntry| c.resolved).len()
}

/// Derives the rebase state from the on-disk marker flag and the conflict
/// list: the unresolved/resolved counts partition the list and the total is
/// its length.
pub fn build_rebase_state(in_progress: bool, conflicts: &Vec<ConflictEntry>) -> (r: RebaseState)
    ensures
        r.in_progress == in_progress,
        r.unresolved_conflicts == spec_unresolved(conflicts@),
        r.resolved_conflicts == spec_resolved(conflicts@),
        r.total_conflicts == conflicts@.len(),
        r.unresolved_conflicts + r.resolved_conflicts == r.total_conflicts,
{
    let mut unresolved: usize = 0;
    let mut resolved: usize = 0;
    let n = conflicts.len();
    let mut i: usize = 0;
    while i < n
        invariant
            0 <= i <= n,
            n == conflicts@.len(),
            unresolved == spec_unresolved(conflicts@.take(i as int)),
            resolved == spec_resolved(conflicts@.take(i as int)),
            unresolved + resolved == i,
        decreases n - i,
    {
        proof {
            assert(conflicts@.take(i + 1) =~= conflicts@.take(i as int).push(conflicts@[i as int]));
            lemma_filter_push(conflicts@.take(i as int), conflicts@[i as int]);
        }
        if !conflicts[i].resolved {
            unresolved = unresolved + 1;
        } else {
            resolved = resolved + 1;
        }
        i = i + 1;
    }
    proof {
        assert(conflicts@.take(n as int) =~= conflicts@);
    }
    RebaseState { in_progress, unresolved_conflicts: unresolved, resolved_conflicts: resolved, total_conflicts: n }
}

/// Pushing an element onto a conflict list grows exactly one of the two
/// partition counts, according to the element's resolved flag.
proof fn lemma_filter_push(s: Seq<ConflictEntry>, c: ConflictEntry)
    ensures
        spec_unresolved(s.push(c)) == spec_unresolved(s) + if !c.resolved { 1int } else { 0int },
        spec_resolved(s.push(c)) == spec_resolved(s) + if c.resolved { 1int } else { 0int },
{
    reveal(Seq::filter);
    let sp = s.push(c);
    assert(sp.drop_last() =~= s);
    assert(sp.last() == c);
}

} // verus!
