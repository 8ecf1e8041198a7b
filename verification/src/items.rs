//! The one-line text of each list row, and path shortening for the header.
//! Rendering proper lives outside the library; these builders decide exactly
//! what each row says.

use vstd::prelude::*;

use crate::domain::{Bookmark, ConflictEntry, FileChange, Revision, Shelf};
use crate::text::{spec_dec_i64, spec_lines};

verus! {

/// A file row: selection cursor, commit mark, status code, path.
pub open spec fn spec_file_item(f: crate::domain::FileChangeView, selected: bool, commit_selected: bool)
    -> Seq<char> {
    (if selected {
        "> "@
    } else {
        "  "@
    }) + (if commit_selected {
        "[x]"@
    } else {
        "[ ]"@
    }) + " "@ + seq![crate::domain::spec_status_code(f.status)] + " "@ + f.path
}

/// Builds a file row.
pub fn file_item(file: &FileChange, selected: bool, commit_selected: bool) -> (r: String)
    ensures
        r@ == spec_file_item(file@, selected, commit_selected),
{
    let mut s = if selected {
        "> ".to_owned()
    } else {
        "  ".to_owned()
    };
    if commit_selected {
        s.append("[x]");
    } else {
        s.append("[ ]");
    }
    s.append(" ");
    let mut code: Vec<char> = Vec::new();
    code.push(file.status.code());
    let code_s = crate::text::chars_string(&code);
    s.append(code_s.as_str());
    s.append(" ");
    s.append(file.path.as_str());
    proof {
        assert(code@ =~= seq![crate::domain::spec_status_code(file.status)]);
    }
    s
}

/// The first line of a description, empty when there is none.
pub open spec fn spec_first_line(s: Seq<char>) -> Seq<char> {
    if spec_lines(s).len() > 0 {
        spec_lines(s)[0]
    } else {
        Seq::empty()
    }
}

/// A revision row: cursor, number, shortened id, first description line,
/// author.
pub open spec fn spec_revision_item(rv: crate::domain::RevisionView, selected: bool) -> Seq<char> {
    (if selected {
        "> "@
    } else {
        "  "@
    }) + "@"@ + spec_dec_i64(rv.rev as int) + " "@ + rv.node.take(
        if rv.node.len() < 10 {
            rv.node.len() as int
        } else {
            10
        },
    ) + " "@ + spec_first_line(rv.desc) + " ("@ + rv.user + ")"@
}

/// Builds a revision row.
pub fn revision_item(rev: &Revision, selected: bool) -> (r: String)
    ensures
        r@ == spec_revision_item(rev@, selected),
{
    let mut s = if selected {
        "> ".to_owned()
    } else {
        "  ".to_owned()
    };
    s.append("@");
    let num = crate::text::i64_string(rev.rev);
    s.append(num.as_str());
    s.append(" ");
    let node_chars = crate::text::str_chars(rev.node.as_str());
    let node_len = node_chars.len();
    let cut = if node_len < 10 {
        node_len
    } else {
        10
    };
    let short = crate::text::subrange_chars(&node_chars, 0, cut);
    let short_s = crate::text::chars_string(&short);
    s.append(short_s.as_str());
    s.append(" ");
    let desc_chars = crate::text::str_chars(rev.desc.as_str());
    let desc_lines = crate::text::lines_chars(&desc_chars);
    if desc_lines.len() > 0 {
        let first = crate::text::chars_string(&desc_lines[0]);
        proof {
            assert(desc_lines@.map_values(|t: Vec<char>| t@)[0] == desc_lines@[0]@);
        }
        s.append(first.as_str());
    }
    s.append(" (");
    s.append(rev.user.as_str());
    s.append(")");
    proof {
        assert(short@ =~= rev@.node.take(
            if rev@.node.len() < 10 {
                rev@.node.len() as int
            } else {
                10
            },
        ));
        if spec_lines(rev.desc@).len() == 0 {
            assert(s@ =~= spec_revision_item(rev@, selected));
        }
    }
    s
}

/// A bookmark row: cursor, active marker, name, revision, shortened id.
pub open spec fn spec_bookmark_item(b: crate::domain::BookmarkView, selected: bool) -> Seq<char> {
    (if selected {
        "> "@
    } else {
        "  "@
    }) + (if b.active {
        "*"@
    } else {
        " "@
    }) + " "@ + b.name + " @"@ + spec_dec_i64(b.rev as int) + " "@ + b.node.take(
        if b.node.len() < 12 {
            b.node.len() as int
        } else {
            12
        },
    )
}

/// Builds a bookmark row.
pub fn bookmark_item(bookmark: &Bookmark, selected: bool) -> (r: String)
    ensures
        r@ == spec_bookmark_item(bookmark@, selected),
{
    let mut s = if selected {
        "> ".to_owned()
    } else {
        "  ".to_owned()
    };
    if bookmark.active {
        s.append("*");
    } else {
        s.append(" ");
    }
    s.append(" ");
    s.append(bookmark.name.as_str());
    s.append(" @");
    let num = crate::text::i64_string(bookmark.rev);
    s.append(num.as_str());
    s.append(" ");
    let node_chars = crate::text::str_chars(bookmark.node.as_str());
    let node_len = node_chars.len();
    let cut = if node_len < 12 {
        node_len
    } else {
        12
    };
    let short = crate::text::subrange_chars(&node_chars, 0, cut);
    let short_s = crate::text::chars_string(&short);
    s.append(short_s.as_str());
    proof {
        assert(short@ =~= bookmark@.node.take(
            if bookmark@.node.len() < 12 {
                bookmark@.node.len() as int
            } else {
                12
            },
        ));
    }
    s
}

/// A shelf row: cursor, name, and the description when there is one.
pub open spec fn spec_shelf_item(sh: crate::domain::ShelfView, selected: bool) -> Seq<char> {
    (if selected {
        "> "@
    } else {
        "  "@
    }) + (if sh.description.len() == 0 {
        sh.name
    } else {
        sh.name + " "@ + sh.description
    })
}

/// Builds a shelf row.
pub fn shelf_item(shelf: &Shelf, selected: bool) -> (r: String)
    ensures
        r@ == spec_shelf_item(shelf@, selected),
{
    let mut s = if selected {
        "> ".to_owned()
    } else {
        "  ".to_owned()
    };
    s.append(shelf.name.as_str());
    if shelf.description.as_str().unicode_len() > 0 {
        s.append(" ");
        s.append(shelf.description.as_str());
    }
    s
}

/// A conflict row: cursor, resolved marker, path.
pub open spec fn spec_conflict_item(c: crate::domain::ConflictEntryView, selected: bool) -> Seq<
    char,
> {
    (if selected {
        "> "@
    } else {
        "  "@
    }) + (if c.resolved {
        "R"@
    } else {
        "U"@
    }) + " "@ + c.path
}

/// Builds a conflict row.
pub fn conflict_item(conflict: &ConflictEntry, selected: bool) -> (r: String)
    ensures
        r@ == spec_conflict_item(conflict@, selected),
{
    let mut s = if selected {
        "> ".to_owned()
    } else {
        "  ".to_owned()
    };
    if conflict.resolved {
        s.append("R");
    } else {
        s.append("U");
    }
    s.append(" ");
    s.append(conflict.path.as_str());
    s
}

/// A path shortened for the header: up to 42 characters, or an ellipsis
/// followed by the last 39.
pub open spec fn spec_short_path(p: Seq<char>) -> Seq<char> {
    if p.len() <= 42 {
        p
    } else {
        "..."@ + p.skip(p.len() - 39)
    }
}

/// Shortens a path for the header.
pub fn short_path(path: &str) -> (r: String)
    ensures
        r@ == spec_short_path(path@),
{
    let chars = crate::text::str_chars(path);
    let n = chars.len();
    if n <= 42 {
        crate::text::chars_string(&chars)
    } else {
        let tail = crate::text::subrange_chars(&chars, n - 39, n);
        let mut s = "...".to_owned();
        let tail_s = crate::text::chars_string(&tail);
        s.append(tail_s.as_str());
        proof {
            assert(tail@ =~= path@.skip(path@.len() - 39));
        }
        s
    }
}

} // verus!
