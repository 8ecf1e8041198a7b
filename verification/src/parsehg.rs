//! Parsers for the version-control tool's plain-text output: working-copy
//! status, bookmarks, shelves, resolve listings, the log template rows, the
//! graph-drawing output, and the merge of graph rows into the revision list.

use vstd::prelude::*;

use crate::domain::{
    Bookmark, BookmarkView, ConflictEntry, ConflictEntryView, FileChange, FileChangeView, Shelf,
    ShelfView,
};
use crate::text::{
    chars_string, find_char, keep_some, lemma_keep_some_empty, lemma_keep_some_push, lines_chars,
    normalize_ws, opt_view, parse_i64_chars, spec_find, spec_lines, spec_normalize_ws,
    spec_parse_i64, spec_split_ws, spec_trim, spec_trim_start, split_ws, str_chars, str_eq_chars,
    subrange_chars, trim_chars, trim_start_chars,
};

verus! {

/// What one status line yields: the trimmed line splits at its first
/// whitespace character into a status token and a path; lines that are empty
/// or have no whitespace or an empty path are skipped.
pub open spec fn spec_status_line(line: Seq<char>) -> Option<FileChangeView> {
    let t = spec_trim(line);
    if t.len() == 0 {
        None
    } else {
        let i = spec_find(spec_normalize_ws(t), ' ');
        if !(0 <= i < t.len()) {
            None
        } else {
            let path = spec_trim_start(t.skip(i + 1));
            if path.len() == 0 {
                None
            } else {
                Some(
                    FileChangeView {
                        path,
                        status: crate::domain::spec_status_from_code(t.take(i)),
                    },
                )
            }
        }
    }
}

/// The file changes that a plain status listing denotes, line by line.
pub open spec fn spec_parse_status(raw: Seq<char>) -> Seq<FileChangeView> {
    keep_some(spec_lines(raw).map_values(|l: Seq<char>| spec_status_line(l)))
}

fn status_line(line: &Vec<char>) -> (r: Option<FileChange>)
    ensures
        opt_view(r) == spec_status_line(line@),
{
    let t = trim_chars(line);
    if t.len() == 0 {
        return None;
    }
    let normalized = normalize_ws(&t);
    let found = find_char(&normalized, ' ');
    match found {
        None => None,
        Some(i) => {
            let tail = subrange_chars(&t, i + 1, t.len());
            let path = trim_start_chars(&tail);
            proof {
                assert(tail@ =~= t@.skip(i + 1));
            }
            if path.len() == 0 {
                return None;
            }
            let token = subrange_chars(&t, 0, i);
            proof {
                assert(token@ =~= t@.take(i as int));
            }
            let token_str = chars_string(&token);
            let status = crate::domain::FileStatus::from_hg_code(token_str.as_str());
            Some(FileChange { path: chars_string(&path), status })
        },
    }
}

/// Parses the plain status listing.
pub fn parse_status_plain(raw: &str) -> (r: Vec<FileChange>)
    ensures
        r@.map_values(|f: FileChange| f@) == spec_parse_status(raw@),
{
    let chars = str_chars(raw);
    let lines = lines_chars(&chars);
    let ghost line_views = lines@.map_values(|t: Vec<char>| t@);
    let mut r: Vec<FileChange> = Vec::new();
    let n = lines.len();
    let mut i: usize = 0;
    proof {
        lemma_keep_some_empty::<FileChangeView>();
        assert(line_views.take(0int).map_values(|l: Seq<char>| spec_status_line(l))
            =~= Seq::<Option<FileChangeView>>::empty());
        assert(r@.map_values(|f: FileChange| f@) =~= Seq::<FileChangeView>::empty());
    }
    while i < n
        invariant
            0 <= i <= n,
            n == lines@.len(),
            line_views == lines@.map_values(|t: Vec<char>| t@),
            r@.map_values(|f: FileChange| f@) == keep_some(
                line_views.take(i as int).map_values(|l: Seq<char>| spec_status_line(l)),
            ),
        decreases n - i,
    {
        let parsed = status_line(&lines[i]);
        proof {
            let opts = line_views.take(i as int).map_values(|l: Seq<char>| spec_status_line(l));
            assert(line_views.take(i + 1).map_values(|l: Seq<char>| spec_status_line(l))
                =~= opts.push(spec_status_line(line_views[i as int])));
            lemma_keep_some_push(opts, spec_status_line(line_views[i as int]));
        }
        match parsed {
            Some(fc) => {
                proof {
                    assert(r@.push(fc).map_values(|f: FileChange| f@) =~= r@.map_values(
                        |f: FileChange| f@,
                    ).push(fc@));
                }
                r.push(fc);
            },
            None => {},
        }
        i = i + 1;
    }
    proof {
        assert(line_views.take(n as int) =~= line_views);
    }
    r
}

/// What one resolve line yields: the first character is the resolved marker
/// (`R` resolved, anything else unresolved) and the text from the third
/// character on, trimmed, is the path; shorter lines and empty paths are
/// skipped.
pub open spec fn spec_resolve_line(line: Seq<char>) -> Option<ConflictEntryView> {
    if line.len() < 2 {
        None
    } else {
        let path = spec_trim(line.skip(2));
        if path.len() == 0 {
            None
        } else {
            Some(ConflictEntryView { resolved: line[0] == 'R', path })
        }
    }
}

/// The conflict entries that a resolve listing denotes.
pub open spec fn spec_parse_resolve(raw: Seq<char>) -> Seq<ConflictEntryView> {
    keep_some(spec_lines(raw).map_values(|l: Seq<char>| spec_resolve_line(l)))
}

fn resolve_line(line: &Vec<char>) -> (r: Option<ConflictEntry>)
    ensures
        opt_view(r) == spec_resolve_line(line@),
{
    if line.len() < 2 {
        return None;
    }
    let tail = subrange_chars(line, 2, line.len());
    proof {
        assert(tail@ =~= line@.skip(2));
    }
    let path = trim_chars(&tail);
    if path.len() == 0 {
        return None;
    }
    let status = line[0];
    Some(ConflictEntry { resolved: status == 'R', path: chars_string(&path) })
}

/// Parses the resolve listing into conflict entries.
pub fn parse_resolve_list(raw: &str) -> (r: Vec<ConflictEntry>)
    ensures
        r@.map_values(|c: ConflictEntry| c@) == spec_parse_resolve(raw@),
{
    let chars = str_chars(raw);
    let lines = lines_chars(&chars);
    let ghost line_views = lines@.map_values(|t: Vec<char>| t@);
    let mut r: Vec<ConflictEntry> = Vec::new();
    let n = lines.len();
    let mut i: usize = 0;
    proof {
        lemma_keep_some_empty::<ConflictEntryView>();
        assert(line_views.take(0int).map_values(|l: Seq<char>| spec_resolve_line(l))
            =~= Seq::<Option<ConflictEntryView>>::empty());
        assert(r@.map_values(|c: ConflictEntry| c@) =~= Seq::<ConflictEntryView>::empty());
    }
    while i < n
        invariant
            0 <= i <= n,
            n == lines@.len(),
            line_views == lines@.map_values(|t: Vec<char>| t@),
            r@.map_values(|c: ConflictEntry| c@) == keep_some(
                line_views.take(i as int).map_values(|l: Seq<char>| spec_resolve_line(l)),
            ),
        decreases n - i,
    {
        let parsed = resolve_line(&lines[i]);
        proof {
            let opts = line_views.take(i as int).map_values(|l: Seq<char>| spec_resolve_line(l));
            assert(line_views.take(i + 1).map_values(|l: Seq<char>| spec_resolve_line(l))
                =~= opts.push(spec_resolve_line(line_views[i as int])));
            lemma_keep_some_push(opts, spec_resolve_line(line_views[i as int]));
        }
        match parsed {
            Some(c) => {
                proof {
                    assert(r@.push(c).map_values(|x: ConflictEntry| x@) =~= r@.map_values(
                        |x: ConflictEntry| x@,
                    ).push(c@));
                }
                r.push(c);
            },
            None => {},
        }
        i = i + 1;
    }
    proof {
        assert(line_views.take(n as int) =~= line_views);
    }
    r
}

/// What one shelf line yields: the first whitespace-separated word is the
/// name and the trimmed remainder is the description; empty lines are
/// skipped.
pub open spec fn spec_shelf_line(line: Seq<char>) -> Option<ShelfView> {
    let t = spec_trim(line);
    if t.len() == 0 {
        None
    } else {
        let i = spec_find(spec_normalize_ws(t), ' ');
        if !(0 <= i < t.len()) {
            Some(ShelfView { name: t, age: None, description: Seq::empty() })
        } else {
            Some(
                ShelfView { name: t.take(i), age: None, description: spec_trim(t.skip(i)) },
            )
        }
    }
}

/// The shelves that a shelve listing denotes.
pub open spec fn spec_parse_shelves(raw: Seq<char>) -> Seq<ShelfView> {
    keep_some(spec_lines(raw).map_values(|l: Seq<char>| spec_shelf_line(l)))
}

fn shelf_line(line: &Vec<char>) -> (r: Option<Shelf>)
    ensures
        opt_view(r) == spec_shelf_line(line@),
{
    let t = trim_chars(line);
    if t.len() == 0 {
        return None;
    }
    let normalized = normalize_ws(&t);
    let found = find_char(&normalized, ' ');
    match found {
        None => {
            let name = chars_string(&t);
            Some(Shelf { name, age: None, description: String::new() })
        },
        Some(i) => {
            let name_chars = subrange_chars(&t, 0, i);
            let rest_chars = subrange_chars(&t, i, t.len());
            proof {
                assert(name_chars@ =~= t@.take(i as int));
                assert(rest_chars@ =~= t@.skip(i as int));
            }
            let desc = trim_chars(&rest_chars);
            Some(
                Shelf {
                    name: chars_string(&name_chars),
                    age: None,
                    description: chars_string(&desc),
                },
            )
        },
    }
}

/// Parses the shelve listing.
pub fn parse_shelve_list(raw: &str) -> (r: Vec<Shelf>)
    ensures
        r@.map_values(|s: Shelf| s@) == spec_parse_shelves(raw@),
{
    let chars = str_chars(raw);
    let lines = lines_chars(&chars);
    let ghost line_views = lines@.map_values(|t: Vec<char>| t@);
    let mut r: Vec<Shelf> = Vec::new();
    let n = lines.len();
    let mut i: usize = 0;
    proof {
        lemma_keep_some_empty::<ShelfView>();
        assert(line_views.take(0int).map_values(|l: Seq<char>| spec_shelf_line(l))
            =~= Seq::<Option<ShelfView>>::empty());
        assert(r@.map_values(|s: Shelf| s@) =~= Seq::<ShelfView>::empty());
    }
    while i < n
        invariant
            0 <= i <= n,
            n == lines@.len(),
            line_views == lines@.map_values(|t: Vec<char>| t@),
            r@.map_values(|s: Shelf| s@) == keep_some(
                line_views.take(i as int).map_values(|l: Seq<char>| spec_shelf_line(l)),
            ),
        decreases n - i,
    {
        let parsed = shelf_line(&lines[i]);
        proof {
            let opts = line_views.take(i as int).map_values(|l: Seq<char>| spec_shelf_line(l));
            assert(line_views.take(i + 1).map_values(|l: Seq<char>| spec_shelf_line(l))
                =~= opts.push(spec_shelf_line(line_views[i as int])));
            lemma_keep_some_push(opts, spec_shelf_line(line_views[i as int]));
        }
        match parsed {
            Some(s) => {
                proof {
                    assert(r@.push(s).map_values(|x: Shelf| x@) =~= r@.map_values(
                        |x: Shelf| x@,
                    ).push(s@));
                }
                r.push(s);
            },
            None => {},
        }
        i = i + 1;
    }
    proof {
        assert(line_views.take(n as int) =~= line_views);
    }
    r
}

/// What one bookmark line yields: an optional leading `*` marks the active
/// bookmark, the next word is the name, and the first later word containing a
/// colon carries `revision:node`; lines without these parts, or whose
/// revision is not a number, are skipped.
pub open spec fn spec_bookmark_line(line: Seq<char>) -> Option<BookmarkView> {
    let toks = spec_split_ws(spec_trim(line));
    if toks.len() == 0 {
        None
    } else {
        let active = toks[0] =~= seq!['*'];
        let name_idx: int = if toks[0] =~= seq!['*'] {
            1
        } else {
            0
        };
        if toks.len() <= name_idx {
            None
        } else {
            let j = spec_first_colon_tok(toks, name_idx + 1);
            if j < 0 {
                None
            } else {
                let rev_node = toks[j];
                let k = spec_find(rev_node, ':');
                match spec_parse_i64(rev_node.take(k)) {
                    None => None,
                    Some(rev) => Some(
                        BookmarkView {
                            name: toks[name_idx],
                            rev,
                            node: rev_node.skip(k + 1),
                            active,
                        },
                    ),
                }
            }
        }
    }
}

/// The first word at or after `from` that contains a colon, or -1.
pub open spec fn spec_first_colon_tok(toks: Seq<Seq<char>>, from: int) -> int
    decreases toks.len() - from,
{
    if from < 0 || from >= toks.len() {
        -1
    } else if spec_find(toks[from], ':') >= 0 {
        from
    } else {
        spec_first_colon_tok(toks, from + 1)
    }
}

/// The bookmarks that a plain bookmark listing denotes.
pub open spec fn spec_parse_bookmarks(raw: Seq<char>) -> Seq<BookmarkView> {
    keep_some(spec_lines(raw).map_values(|l: Seq<char>| spec_bookmark_line(l)))
}

fn bookmark_line(line: &Vec<char>) -> (r: Option<Bookmark>)
    ensures
        opt_view(r) == spec_bookmark_line(line@),
{
    let t = trim_chars(line);
    let toks = split_ws(&t);
    let ghost tok_views = toks@.map_values(|t: Vec<char>| t@);
    if toks.len() == 0 {
        return None;
    }
    let star = str_eq_chars("*", &toks[0]);
    proof {
        reveal_strlit("*");
        assert("*"@ =~= seq!['*']);
    }
    let name_idx: usize = if star {
        1
    } else {
        0
    };
    if toks.len() <= name_idx {
        return None;
    }
    let mut j: usize = name_idx + 1;
    let n = toks.len();
    while j < n
        invariant
            name_idx + 1 <= j <= n,
            n == toks@.len(),
            0 < n,
            name_idx < n,
            tok_views == toks@.map_values(|t: Vec<char>| t@),
            tok_views == spec_split_ws(spec_trim(line@)),
            star == (tok_views[0] =~= seq!['*']),
            name_idx == if tok_views[0] =~= seq!['*'] { 1int } else { 0int },
            spec_first_colon_tok(tok_views, name_idx + 1) == spec_first_colon_tok(
                tok_views,
                j as int,
            ),
        decreases n - j,
    {
        let found = find_char(&toks[j], ':');
        match found {
            Some(k) => {
                proof {
                    assert(spec_first_colon_tok(tok_views, j as int) == j);
                }
                let rev_node = &toks[j];
                let rev_node_len = rev_node.len();
                let rev_part = subrange_chars(rev_node, 0, k);
                let node_part = subrange_chars(rev_node, k + 1, rev_node_len);
                proof {
                    assert(rev_part@ =~= tok_views[j as int].take(k as int));
                    assert(node_part@ =~= tok_views[j as int].skip(k + 1));
                }
                let rev = parse_i64_chars(&rev_part);
                match rev {
                    None => {
                        return None;
                    },
                    Some(rev) => {
                        return Some(
                            Bookmark {
                                name: chars_string(&toks[name_idx]),
                                rev,
                                node: chars_string(&node_part),
                                active: star,
                            },
                        );
                    },
                }
            },
            None => {},
        }
        j = j + 1;
    }
    proof {
        assert(spec_first_colon_tok(tok_views, n as int) == -1);
    }
    None
}

/// Parses the plain bookmark listing.
pub fn parse_bookmarks_plain(raw: &str) -> (r: Vec<Bookmark>)
    ensures
        r@.map_values(|b: Bookmark| b@) == spec_parse_bookmarks(raw@),
{
    let chars = str_chars(raw);
    let lines = lines_chars(&chars);
    let ghost line_views = lines@.map_values(|t: Vec<char>| t@);
    let mut r: Vec<Bookmark> = Vec::new();
    let n = lines.len();
    let mut i: usize = 0;
    proof {
        lemma_keep_some_empty::<BookmarkView>();
        assert(line_views.take(0int).map_values(|l: Seq<char>| spec_bookmark_line(l))
            =~= Seq::<Option<BookmarkView>>::empty());
        assert(r@.map_values(|b: Bookmark| b@) =~= Seq::<BookmarkView>::empty());
    }
    while i < n
        invariant
            0 <= i <= n,
            n == lines@.len(),
            line_views == lines@.map_values(|t: Vec<char>| t@),
            r@.map_values(|b: Bookmark| b@) == keep_some(
                line_views.take(i as int).map_values(|l: Seq<char>| spec_bookmark_line(l)),
            ),
        decreases n - i,
    {
        let parsed = bookmark_line(&lines[i]);
        proof {
            let opts = line_views.take(i as int).map_values(|l: Seq<char>| spec_bookmark_line(l));
            assert(line_views.take(i + 1).map_values(|l: Seq<char>| spec_bookmark_line(l))
                =~= opts.push(spec_bookmark_line(line_views[i as int])));
            lemma_keep_some_push(opts, spec_bookmark_line(line_views[i as int]));
        }
        match parsed {
            Some(b) => {
                proof {
                    assert(r@.push(b).map_values(|x: Bookmark| x@) =~= r@.map_values(
                        |x: Bookmark| x@,
                    ).push(b@));
                }
                r.push(b);
            },
            None => {},
        }
        i = i + 1;
    }
    proof {
        assert(line_views.take(n as int) =~= line_views);
    }
    r
}

/// Splits a text into its whitespace-separated words.
pub fn split_whitespace_list(raw: &str) -> (r: Vec<String>)
    ensures
        r@.map_values(|s: String| s@) == spec_split_ws(raw@),
{
    let chars = str_chars(raw);
    let toks = split_ws(&chars);
    let ghost tok_views = toks@.map_values(|t: Vec<char>| t@);
    let mut r: Vec<String> = Vec::new();
    let n = toks.len();
    let mut i: usize = 0;
    proof {
        assert(r@.map_values(|s: String| s@) =~= tok_views.take(0int));
    }
    while i < n
        invariant
            0 <= i <= n,
            n == toks@.len(),
            tok_views == toks@.map_values(|t: Vec<char>| t@),
            r@.map_values(|s: String| s@) == tok_views.take(i as int),
        decreases n - i,
    {
        let s = chars_string(&toks[i]);
        proof {
            assert(r@.push(s).map_values(|x: String| x@) =~= r@.map_values(
                |x: String| x@,
            ).push(s@));
            assert(tok_views.take(i + 1) =~= tok_views.take(i as int).push(tok_views[i as int]));
        }
        r.push(s);
        i = i + 1;
    }
    proof {
        assert(tok_views.take(n as int) =~= tok_views);
    }
    r
}

/// The field separator of the log template rows.
pub open spec fn spec_field_sep() -> char {
    '\u{1f}'
}

/// The commit timestamp of a log row: the first word of the date field, or
/// zero when missing or not a number.
pub open spec fn spec_log_date(field: Seq<char>) -> i64 {
    let toks = spec_split_ws(field);
    if toks.len() == 0 {
        0
    } else {
        match spec_parse_i64(toks[0]) {
            Some(d) => d,
            None => 0,
        }
    }
}

/// What one log template row denotes: exactly nine separator-delimited
/// fields, the first a revision number; anything else is a parse error
/// (`None`).
pub open spec fn spec_log_row(line: Seq<char>) -> Option<crate::domain::RevisionView> {
    let fields = crate::text::spec_split(line, spec_field_sep());
    if fields.len() != 9 {
        None
    } else {
        match spec_parse_i64(fields[0]) {
            None => None,
            Some(rev) => Some(
                crate::domain::RevisionView {
                    rev,
                    node: fields[1],
                    desc: fields[2],
                    user: fields[3],
                    branch: fields[4],
                    phase: fields[5],
                    tags: spec_split_ws(fields[6]),
                    bookmarks: spec_split_ws(fields[7]),
                    date_unix_secs: spec_log_date(fields[8]),
                    graph_prefix: None,
                },
            ),
        }
    }
}

/// The revisions that a sequence of template lines denotes: blank lines are
/// skipped, and one bad row fails the whole parse.
pub open spec fn spec_log_rows(lines: Seq<Seq<char>>) -> Option<Seq<crate::domain::RevisionView>>
    decreases lines.len(),
{
    if lines.len() == 0 {
        Some(Seq::empty())
    } else if spec_trim(lines[0]).len() == 0 {
        spec_log_rows(lines.drop_first())
    } else {
        match spec_log_row(lines[0]) {
            None => None,
            Some(rv) => match spec_log_rows(lines.drop_first()) {
                None => None,
                Some(rest) => Some(seq![rv] + rest),
            },
        }
    }
}

/// The revisions that a full template listing denotes, or `None` on a parse
/// error.
pub open spec fn spec_parse_log(raw: Seq<char>) -> Option<Seq<crate::domain::RevisionView>> {
    spec_log_rows(spec_lines(raw))
}

fn strings_of(toks: &Vec<Vec<char>>) -> (r: Vec<String>)
    ensures
        r@.map_values(|s: String| s@) == toks@.map_values(|t: Vec<char>| t@),
{
    let ghost tok_views = toks@.map_values(|t: Vec<char>| t@);
    let mut r: Vec<String> = Vec::new();
    let n = toks.len();
    let mut i: usize = 0;
    proof {
        assert(r@.map_values(|s: String| s@) =~= tok_views.take(0int));
    }
    while i < n
        invariant
            0 <= i <= n,
            n == toks@.len(),
            tok_views == toks@.map_values(|t: Vec<char>| t@),
            r@.map_values(|s: String| s@) == tok_views.take(i as int),
        decreases n - i,
    {
        let s = chars_string(&toks[i]);
        proof {
            assert(r@.push(s).map_values(|x: String| x@) =~= r@.map_values(
                |x: String| x@,
            ).push(s@));
            assert(tok_views.take(i + 1) =~= tok_views.take(i as int).push(tok_views[i as int]));
        }
        r.push(s);
        i = i + 1;
    }
    proof {
        assert(tok_views.take(n as int) =~= tok_views);
    }
    r
}

fn log_row(line: &Vec<char>) -> (r: Result<crate::domain::Revision, String>)
    ensures
        match r {
            Ok(rev) => spec_log_row(line@) == Some(rev@),
            Err(_) => spec_log_row(line@) is None,
        },
{
    let fields = crate::text::split_char(line, '\u{1f}');
    let ghost field_views = fields@.map_values(|t: Vec<char>| t@);
    if fields.len() != 9 {
        let mut msg = String::new();
        msg.append("failed parsing hg log template row: ");
        let line_s = chars_string(line);
        msg.append(line_s.as_str());
        return Err(msg);
    }
    let rev = match parse_i64_chars(&fields[0]) {
        Some(rev) => rev,
        None => {
            let mut msg = String::new();
            msg.append("invalid revision number in log row: ");
            let line_s = chars_string(line);
            msg.append(line_s.as_str());
            return Err(msg);
        },
    };
    let date_toks = split_ws(&fields[8]);
    let date_unix_secs: i64 = if date_toks.len() == 0 {
        0
    } else {
        match parse_i64_chars(&date_toks[0]) {
            Some(d) => d,
            None => 0,
        }
    };
    let tag_toks = split_ws(&fields[6]);
    let bookmark_toks = split_ws(&fields[7]);
    let rev_out = crate::domain::Revision {
        rev,
        node: chars_string(&fields[1]),
        desc: chars_string(&fields[2]),
        user: chars_string(&fields[3]),
        branch: chars_string(&fields[4]),
        phase: chars_string(&fields[5]),
        tags: strings_of(&tag_toks),
        bookmarks: strings_of(&bookmark_toks),
        date_unix_secs,
        graph_prefix: None,
    };
    proof {
        assert(rev_out@.tags =~= spec_split_ws(field_views[6]));
        assert(rev_out@.bookmarks =~= spec_split_ws(field_views[7]));
    }
    Ok(rev_out)
}

/// Parses the log template listing: blank lines are skipped; a row without
/// exactly nine fields, or whose revision is not a number, fails the parse.
#[verifier::rlimit(50)]
pub fn parse_log_plain_template(raw: &str) -> (r: Result<
    Vec<crate::domain::Revision>,
    String,
>)
    ensures
        match r {
            Ok(revs) => Some(revs@.map_values(|x: crate::domain::Revision| x@)) == spec_parse_log(
                raw@,
            ),
            Err(_) => spec_parse_log(raw@) is None,
        },
{
    let chars = str_chars(raw);
    let lines = lines_chars(&chars);
    let ghost line_views = lines@.map_values(|t: Vec<char>| t@);
    let mut out: Vec<crate::domain::Revision> = Vec::new();
    let n = lines.len();
    let mut i: usize = 0;
    proof {
        assert(line_views.skip(0int) =~= line_views);
        assert(out@.map_values(|x: crate::domain::Revision| x@) =~= Seq::<
            crate::domain::RevisionView,
        >::empty());
        if spec_log_rows(line_views) is Some {
            assert(Seq::<crate::domain::RevisionView>::empty() + spec_log_rows(
                line_views,
            )->Some_0 =~= spec_log_rows(line_views)->Some_0);
        }
    }
    while i < n
        invariant
            0 <= i <= n,
            n == lines@.len(),
            line_views == lines@.map_values(|t: Vec<char>| t@),
            line_views == spec_lines(raw@),
            spec_log_rows(line_views) == match spec_log_rows(line_views.skip(i as int)) {
                None => None::<Seq<crate::domain::RevisionView>>,
                Some(rest) => Some(out@.map_values(|x: crate::domain::Revision| x@) + rest),
            },
        decreases n - i,
    {
        let ghost suffix = line_views.skip(i as int);
        proof {
            assert(suffix.len() > 0);
            assert(suffix[0] == line_views[i as int]);
            assert(suffix.drop_first() =~= line_views.skip(i + 1));
        }
        let t = trim_chars(&lines[i]);
        if t.len() > 0 {
            let parsed = log_row(&lines[i]);
            match parsed {
                Ok(rev) => {
                    proof {
                        assert(spec_log_rows(suffix) == match spec_log_rows(suffix.drop_first()) {
                            None => None::<Seq<crate::domain::RevisionView>>,
                            Some(rest) => Some(seq![rev@] + rest),
                        });
                        let out_views = out@.map_values(|x: crate::domain::Revision| x@);
                        assert(out@.push(rev).map_values(|x: crate::domain::Revision| x@)
                            =~= out_views.push(rev@));
                        if spec_log_rows(line_views.skip(i + 1)) is Some {
                            let rest = spec_log_rows(line_views.skip(i + 1))->Some_0;
                            assert(out_views + (seq![rev@] + rest) =~= out_views.push(rev@)
                                + rest);
                        }
                    }
                    out.push(rev);
                },
                Err(msg) => {
                    proof {
                        assert(spec_log_rows(suffix) is None);
                    }
                    return Err(msg);
                },
            }
        } else {
            proof {
                assert(spec_log_rows(suffix) == spec_log_rows(suffix.drop_first()));
            }
        }
        i = i + 1;
    }
    proof {
        assert(line_views.skip(n as int) =~= Seq::<Seq<char>>::empty());
        let out_views = out@.map_values(|x: crate::domain::Revision| x@);
        assert(out_views + Seq::<crate::domain::RevisionView>::empty() =~= out_views);
    }
    Ok(out)
}

/// One row of the graph-drawing output: a revision number and the drawing
/// prefix left of it.
#[derive(Debug, Clone, PartialEq, Eq)]
pub struct ParsedGraphRow {
    pub rev: i64,
    pub graph_prefix: String,
}

/// Mathematical image of a graph row.
pub ghost struct GraphRowView {
    pub rev: i64,
    pub graph_prefix: Seq<char>,
}

impl View for ParsedGraphRow {
    type V = GraphRowView;

    open spec fn view(&self) -> GraphRowView {
        GraphRowView { rev: self.rev, graph_prefix: self.graph_prefix@ }
    }
}

/// Where the trailing digit run of `t` starts; `t.len()` when the last
/// character is not a digit.
pub open spec fn spec_digit_suffix_start(t: Seq<char>) -> int
    decreases t.len(),
{
    if t.len() == 0 {
        0
    } else if crate::text::spec_is_digit(t.last()) {
        spec_digit_suffix_start(t.drop_last())
    } else {
        t.len() as int
    }
}

/// Scanning facts pin the digit-suffix start down.
proof fn lemma_digit_suffix_start(t: Seq<char>, start: int)
    requires
        0 <= start <= t.len(),
        forall|j: int| start <= j < t.len() ==> crate::text::spec_is_digit(t[j]),
        start > 0 ==> !crate::text::spec_is_digit(t[start - 1]),
    ensures
        spec_digit_suffix_start(t) == start,
    decreases t.len(),
{
    if t.len() == 0 {
    } else if crate::text::spec_is_digit(t.last()) {
        assert(start < t.len());
        lemma_digit_suffix_start(t.drop_last(), start);
    } else {
        assert(start == t.len());
    }
}

/// What one graph line yields: the trailing digit run (after stripping
/// trailing whitespace) is the revision number and everything before it,
/// trailing whitespace stripped, is the drawing prefix; lines not ending in
/// a digit are skipped, as is a revision number out of range.
pub open spec fn spec_graph_line(line: Seq<char>) -> Option<GraphRowView> {
    let t = crate::text::spec_trim_end(line);
    if t.len() == 0 || !crate::text::spec_is_digit(t.last()) {
        None
    } else {
        let start = spec_digit_suffix_start(t);
        match spec_parse_i64(t.skip(start)) {
            None => None,
            Some(rev) => Some(
                GraphRowView {
                    rev,
                    graph_prefix: crate::text::spec_trim_end(t.take(start)),
                },
            ),
        }
    }
}

/// The graph rows that the graph-drawing output denotes.
pub open spec fn spec_parse_graph(raw: Seq<char>) -> Seq<GraphRowView> {
    keep_some(spec_lines(raw).map_values(|l: Seq<char>| spec_graph_line(l)))
}

fn graph_line(line: &Vec<char>) -> (r: Option<ParsedGraphRow>)
    ensures
        opt_view(r) == spec_graph_line(line@),
{
    let t = crate::text::trim_end_chars(line);
    let n = t.len();
    if n == 0 {
        return None;
    }
    let last = t[n - 1];
    if !('0' <= last && last <= '9') {
        return None;
    }
    let mut start: usize = n;
    while start > 0 && '0' <= t[start - 1] && t[start - 1] <= '9'
        invariant
            0 <= start <= n,
            n == t@.len(),
            forall|j: int| start <= j < n ==> crate::text::spec_is_digit(t@[j]),
        decreases start,
    {
        start = start - 1;
    }
    proof {
        lemma_digit_suffix_start(t@, start as int);
    }
    let digits = subrange_chars(&t, start, n);
    proof {
        assert(digits@ =~= t@.skip(start as int));
    }
    match parse_i64_chars(&digits) {
        None => None,
        Some(rev) => {
            let head = subrange_chars(&t, 0, start);
            proof {
                assert(head@ =~= t@.take(start as int));
            }
            let prefix = crate::text::trim_end_chars(&head);
            Some(ParsedGraphRow { rev, graph_prefix: chars_string(&prefix) })
        },
    }
}

/// Parses the graph-drawing output, skipping lines that carry no revision
/// number.
pub fn parse_log_graph(raw: &str) -> (r: Vec<ParsedGraphRow>)
    ensures
        r@.map_values(|g: ParsedGraphRow| g@) == spec_parse_graph(raw@),
{
    let chars = str_chars(raw);
    let lines = lines_chars(&chars);
    let ghost line_views = lines@.map_values(|t: Vec<char>| t@);
    let mut r: Vec<ParsedGraphRow> = Vec::new();
    let n = lines.len();
    let mut i: usize = 0;
    proof {
        lemma_keep_some_empty::<GraphRowView>();
        assert(line_views.take(0int).map_values(|l: Seq<char>| spec_graph_line(l))
            =~= Seq::<Option<GraphRowView>>::empty());
        assert(r@.map_values(|g: ParsedGraphRow| g@) =~= Seq::<GraphRowView>::empty());
    }
    while i < n
        invariant
            0 <= i <= n,
            n == lines@.len(),
            line_views == lines@.map_values(|t: Vec<char>| t@),
            r@.map_values(|g: ParsedGraphRow| g@) == keep_some(
                line_views.take(i as int).map_values(|l: Seq<char>| spec_graph_line(l)),
            ),
        decreases n - i,
    {
        let parsed = graph_line(&lines[i]);
        proof {
            let opts = line_views.take(i as int).map_values(|l: Seq<char>| spec_graph_line(l));
            assert(line_views.take(i + 1).map_values(|l: Seq<char>| spec_graph_line(l))
                =~= opts.push(spec_graph_line(line_views[i as int])));
            lemma_keep_some_push(opts, spec_graph_line(line_views[i as int]));
        }
        match parsed {
            Some(g) => {
                proof {
                    assert(r@.push(g).map_values(|x: ParsedGraphRow| x@) =~= r@.map_values(
                        |x: ParsedGraphRow| x@,
                    ).push(g@));
                }
                r.push(g);
            },
            None => {},
        }
        i = i + 1;
    }
    proof {
        assert(line_views.take(n as int) =~= line_views);
    }
    r
}

/// Whether some revision in the list has the given number.
pub open spec fn spec_has_rev(revs: Seq<crate::domain::RevisionView>, rev: i64) -> bool {
    exists|i: int| 0 <= i < revs.len() && revs[i].rev == rev
}

/// The last revision in the list with the given number: graph overlay keeps
/// the data of the latest occurrence when numbers repeat.
pub open spec fn spec_last_with_rev(revs: Seq<crate::domain::RevisionView>, rev: i64)
    -> crate::domain::RevisionView
    decreases revs.len(),
{
    if revs.len() == 0 {
        arbitrary()
    } else if revs.last().rev == rev {
        revs.last()
    } else {
        spec_last_with_rev(revs.drop_last(), rev)
    }
}

/// Whether some graph row names the given revision number.
pub open spec fn spec_rows_have(rows: Seq<GraphRowView>, rev: i64) -> bool {
    exists|i: int| 0 <= i < rows.len() && rows[i].rev == rev
}

/// Whether row `i` is the first with its revision number.
pub open spec fn spec_row_first(rows: Seq<GraphRowView>, i: int) -> bool {
    forall|j: int| 0 <= j < i ==> rows[j].rev != rows[i].rev
}

/// Whether revision `i` is the first with its number.
pub open spec fn spec_rev_first(revs: Seq<crate::domain::RevisionView>, i: int) -> bool {
    forall|j: int| 0 <= j < i ==> revs[j].rev != revs[i].rev
}

/// The revision with its graph prefix replaced.
pub open spec fn spec_with_prefix(rv: crate::domain::RevisionView, p: Seq<char>)
    -> crate::domain::RevisionView {
    crate::domain::RevisionView { graph_prefix: Some(p), ..rv }
}

/// The graph-ordered part of the merge, from row `i` on: each first
/// occurrence of a number that the revision list knows contributes that
/// revision with the row's prefix.
pub open spec fn spec_matched_from(
    revs: Seq<crate::domain::RevisionView>,
    rows: Seq<GraphRowView>,
    i: int,
) -> Seq<crate::domain::RevisionView>
    decreases rows.len() - i,
{
    if i < 0 || i >= rows.len() {
        Seq::empty()
    } else {
        let rest = spec_matched_from(revs, rows, i + 1);
        if spec_row_first(rows, i) && spec_has_rev(revs, rows[i].rev) {
            seq![spec_with_prefix(spec_last_with_rev(revs, rows[i].rev), rows[i].graph_prefix)]
                + rest
        } else {
            rest
        }
    }
}

/// The appended part of the merge, from revision `i` on: each first
/// occurrence of a number that no graph row names keeps its original
/// position.
pub open spec fn spec_appended_from(
    revs: Seq<crate::domain::RevisionView>,
    rows: Seq<GraphRowView>,
    i: int,
) -> Seq<crate::domain::RevisionView>
    decreases revs.len() - i,
{
    if i < 0 || i >= revs.len() {
        Seq::empty()
    } else {
        let rest = spec_appended_from(revs, rows, i + 1);
        if spec_rev_first(revs, i) && !spec_rows_have(rows, revs[i].rev) {
            seq![spec_last_with_rev(revs, revs[i].rev)] + rest
        } else {
            rest
        }
    }
}

/// The graph merge: with no rows the revision list is unchanged; otherwise
/// the matched revisions come first in graph order, prefixes overlaid, and
/// the unmatched ones follow in their original order.
pub open spec fn spec_merge(
    revs: Seq<crate::domain::RevisionView>,
    rows: Seq<GraphRowView>,
) -> Seq<crate::domain::RevisionView> {
    if rows.len() == 0 {
        revs
    } else {
        spec_matched_from(revs, rows, 0) + spec_appended_from(revs, rows, 0)
    }
}

fn has_rev(revs: &Vec<crate::domain::Revision>, rev: i64) -> (r: bool)
    ensures
        r == spec_has_rev(revs@.map_values(|x: crate::domain::Revision| x@), rev),
{
    let ghost rv = revs@.map_values(|x: crate::domain::Revision| x@);
    let n = revs.len();
    let mut i: usize = 0;
    while i < n
        invariant
            0 <= i <= n,
            n == revs@.len(),
            rv == revs@.map_values(|x: crate::domain::Revision| x@),
            forall|j: int| 0 <= j < i ==> rv[j].rev != rev,
        decreases n - i,
    {
        if revs[i].rev == rev {
            proof {
                assert(rv[i as int].rev == rev);
            }
            return true;
        }
        i = i + 1;
    }
    false
}

fn rows_have(rows: &Vec<ParsedGraphRow>, rev: i64) -> (r: bool)
    ensures
        r == spec_rows_have(rows@.map_values(|x: ParsedGraphRow| x@), rev),
{
    let ghost rv = rows@.map_values(|x: ParsedGraphRow| x@);
    let n = rows.len();
    let mut i: usize = 0;
    while i < n
        invariant
            0 <= i <= n,
            n == rows@.len(),
            rv == rows@.map_values(|x: ParsedGraphRow| x@),
            forall|j: int| 0 <= j < i ==> rv[j].rev != rev,
        decreases n - i,
    {
        if rows[i].rev == rev {
            proof {
                assert(rv[i as int].rev == rev);
            }
            return true;
        }
        i = i + 1;
    }
    false
}

/// Scanning from the end pins `spec_last_with_rev` down.
proof fn lemma_last_with_rev(revs: Seq<crate::domain::RevisionView>, rev: i64, k: int)
    requires
        0 <= k < revs.len(),
        revs[k].rev == rev,
        forall|j: int| k < j < revs.len() ==> revs[j].rev != rev,
    ensures
        spec_last_with_rev(revs, rev) == revs[k],
    decreases revs.len(),
{
    if k == revs.len() - 1 {
    } else {
        assert(revs.last().rev != rev);
        assert(revs.drop_last()[k] == revs[k]);
        lemma_last_with_rev(revs.drop_last(), rev, k);
    }
}

fn last_with_rev(revs: &Vec<crate::domain::Revision>, rev: i64) -> (r: crate::domain::Revision)
    requires
        spec_has_rev(revs@.map_values(|x: crate::domain::Revision| x@), rev),
    ensures
        r@ == spec_last_with_rev(revs@.map_values(|x: crate::domain::Revision| x@), rev),
{
    let ghost rv = revs@.map_values(|x: crate::domain::Revision| x@);
    let n = revs.len();
    let mut k: usize = n;
    while k > 0
        invariant
            0 <= k <= n,
            n == revs@.len(),
            rv == revs@.map_values(|x: crate::domain::Revision| x@),
            spec_has_rev(rv, rev),
            forall|j: int| k <= j < n ==> rv[j].rev != rev,
        decreases k,
    {
        if revs[k - 1].rev == rev {
            proof {
                lemma_last_with_rev(rv, rev, k - 1);
            }
            return revs[k - 1].duplicate();
        }
        k = k - 1;
    }
    proof {
        assert(forall|j: int| 0 <= j < n ==> rv[j].rev != rev);
        assert(false);
    }
    unreached()
}

/// Overlays graph rows onto the revision list: matched revisions come first
/// in graph order with their prefixes set, the rest follow in their original
/// order; with no graph rows the list is returned unchanged. Revision
/// numbers are de-duplicated, keeping the latest data.
pub fn merge_log_graph(
    revisions: Vec<crate::domain::Revision>,
    graph_rows: &Vec<ParsedGraphRow>,
) -> (r: Vec<crate::domain::Revision>)
    ensures
        r@.map_values(|x: crate::domain::Revision| x@) == spec_merge(
            revisions@.map_values(|x: crate::domain::Revision| x@),
            graph_rows@.map_values(|x: ParsedGraphRow| x@),
        ),
{
    let ghost revs_v = revisions@.map_values(|x: crate::domain::Revision| x@);
    let ghost rows_v = graph_rows@.map_values(|x: ParsedGraphRow| x@);
    if graph_rows.len() == 0 {
        return revisions;
    }
    let mut merged: Vec<crate::domain::Revision> = Vec::new();
    let n_rows = graph_rows.len();
    let mut i: usize = 0;
    proof {
        assert(merged@.map_values(|x: crate::domain::Revision| x@) =~= Seq::<
            crate::domain::RevisionView,
        >::empty());
        assert(Seq::<crate::domain::RevisionView>::empty() + spec_matched_from(revs_v, rows_v, 0)
            =~= spec_matched_from(revs_v, rows_v, 0));
    }
    while i < n_rows
        invariant
            0 <= i <= n_rows,
            n_rows == graph_rows@.len(),
            revs_v == revisions@.map_values(|x: crate::domain::Revision| x@),
            rows_v == graph_rows@.map_values(|x: ParsedGraphRow| x@),
            spec_matched_from(revs_v, rows_v, 0) == merged@.map_values(
                |x: crate::domain::Revision| x@,
            ) + spec_matched_from(revs_v, rows_v, i as int),
        decreases n_rows - i,
    {
        // is this row the first with its revision number?
        let this_rev = graph_rows[i].rev;
        let mut first = true;
        let mut j: usize = 0;
        while j < i
            invariant
                0 <= j <= i < n_rows,
                n_rows == graph_rows@.len(),
                rows_v == graph_rows@.map_values(|x: ParsedGraphRow| x@),
                this_rev == rows_v[i as int].rev,
                first == (forall|m: int| 0 <= m < j ==> rows_v[m].rev != rows_v[i as int].rev),
            decreases i - j,
        {
            proof {
                assert(rows_v[j as int] == graph_rows@[j as int]@);
            }
            if graph_rows[j].rev == this_rev {
                first = false;
            }
            j = j + 1;
        }
        let matched = first && has_rev(&revisions, this_rev);
        proof {
            assert(spec_row_first(rows_v, i as int) == (forall|m: int|
                0 <= m < i ==> rows_v[m].rev != rows_v[i as int].rev));
        }
        if matched {
            let base = last_with_rev(&revisions, this_rev);
            let prefixed = base.with_graph_prefix(graph_rows[i].graph_prefix.clone());
            proof {
                assert(prefixed@ == spec_with_prefix(
                    spec_last_with_rev(revs_v, rows_v[i as int].rev),
                    rows_v[i as int].graph_prefix,
                ));
                let mv = merged@.map_values(|x: crate::domain::Revision| x@);
                assert(merged@.push(prefixed).map_values(|x: crate::domain::Revision| x@)
                    =~= mv.push(prefixed@));
                assert(spec_matched_from(revs_v, rows_v, i as int) == seq![prefixed@]
                    + spec_matched_from(revs_v, rows_v, i + 1));
                assert(mv + (seq![prefixed@] + spec_matched_from(revs_v, rows_v, i + 1))
                    =~= mv.push(prefixed@) + spec_matched_from(revs_v, rows_v, i + 1));
            }
            merged.push(prefixed);
        } else {
            proof {
                assert(spec_matched_from(revs_v, rows_v, i as int) == spec_matched_from(
                    revs_v,
                    rows_v,
                    i + 1,
                ));
            }
        }
        i = i + 1;
    }
    proof {
        assert(spec_matched_from(revs_v, rows_v, n_rows as int) =~= Seq::<
            crate::domain::RevisionView,
        >::empty());
        assert(merged@.map_values(|x: crate::domain::Revision| x@) + Seq::<
            crate::domain::RevisionView,
        >::empty() =~= merged@.map_values(|x: crate::domain::Revision| x@));
        assert(merged@.map_values(|x: crate::domain::Revision| x@) == spec_matched_from(
            revs_v,
            rows_v,
            0,
        ));
    }
    let ghost matched_part = spec_matched_from(revs_v, rows_v, 0);
    let n_revs = revisions.len();
    let mut k: usize = 0;
    proof {
        assert(matched_part + Seq::<crate::domain::RevisionView>::empty() =~= matched_part);
        assert(matched_part + spec_appended_from(revs_v, rows_v, 0) =~= matched_part
            + spec_appended_from(revs_v, rows_v, 0));
    }
    while k < n_revs
        invariant
            0 <= k <= n_revs,
            n_revs == revisions@.len(),
            revs_v == revisions@.map_values(|x: crate::domain::Revision| x@),
            rows_v == graph_rows@.map_values(|x: ParsedGraphRow| x@),
            matched_part + spec_appended_from(revs_v, rows_v, 0) == merged@.map_values(
                |x: crate::domain::Revision| x@,
            ) + spec_appended_from(revs_v, rows_v, k as int),
        decreases n_revs - k,
    {
        let this_rev = revisions[k].rev;
        let mut first = true;
        let mut j: usize = 0;
        while j < k
            invariant
                0 <= j <= k < n_revs,
                n_revs == revisions@.len(),
                revs_v == revisions@.map_values(|x: crate::domain::Revision| x@),
                this_rev == revs_v[k as int].rev,
                first == (forall|m: int| 0 <= m < j ==> revs_v[m].rev != revs_v[k as int].rev),
            decreases k - j,
        {
            proof {
                assert(revs_v[j as int] == revisions@[j as int]@);
            }
            if revisions[j].rev == this_rev {
                first = false;
            }
            j = j + 1;
        }
        let append = first && !rows_have(graph_rows, this_rev);
        proof {
            assert(spec_rev_first(revs_v, k as int) == (forall|m: int|
                0 <= m < k ==> revs_v[m].rev != revs_v[k as int].rev));
        }
        if append {
            proof {
                assert(revs_v[k as int].rev == this_rev);
                assert(spec_has_rev(revs_v, this_rev));
            }
            let entry = last_with_rev(&revisions, this_rev);
            proof {
                let mv = merged@.map_values(|x: crate::domain::Revision| x@);
                assert(merged@.push(entry).map_values(|x: crate::domain::Revision| x@)
                    =~= mv.push(entry@));
                assert(spec_appended_from(revs_v, rows_v, k as int) == seq![entry@]
                    + spec_appended_from(revs_v, rows_v, k + 1));
                assert(mv + (seq![entry@] + spec_appended_from(revs_v, rows_v, k + 1))
                    =~= mv.push(entry@) + spec_appended_from(revs_v, rows_v, k + 1));
            }
            merged.push(entry);
        } else {
            proof {
                assert(spec_appended_from(revs_v, rows_v, k as int) == spec_appended_from(
                    revs_v,
                    rows_v,
                    k + 1,
                ));
            }
        }
        k = k + 1;
    }
    proof {
        assert(spec_appended_from(revs_v, rows_v, n_revs as int) =~= Seq::<
            crate::domain::RevisionView,
        >::empty());
        assert(merged@.map_values(|x: crate::domain::Revision| x@) + Seq::<
            crate::domain::RevisionView,
        >::empty() =~= merged@.map_values(|x: crate::domain::Revision| x@));
    }
    merged
}

/// Output compacted for an error message: trimmed, and truncated to 240
/// characters with an ellipsis when longer.
pub open spec fn spec_compact(s: Seq<char>) -> Seq<char> {
    let t = spec_trim(s);
    if t.len() <= 240 {
        t
    } else {
        t.take(240) + seq!['\u{2026}']
    }
}

/// Compacts captured output for inclusion in an error message.
pub fn compact_output(text: &str) -> (r: String)
    ensures
        r@ == spec_compact(text@),
{
    let chars = str_chars(text);
    let t = trim_chars(&chars);
    if t.len() <= 240 {
        chars_string(&t)
    } else {
        let mut cut = subrange_chars(&t, 0, 240);
        cut.push('\u{2026}');
        proof {
            assert(cut@ =~= t@.take(240) + seq!['\u{2026}']);
        }
        chars_string(&cut)
    }
}

} // verus!
