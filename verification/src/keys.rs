//! Actions and keybindings: the closed set of action identifiers, the
//! canonical form of a key combination, canonicalization of configured
//! bindings and of incoming key events, and the action/key map built from
//! defaults and validated overrides.

use vstd::prelude::*;

use crate::text::{
    chars_string, lower_chars, spec_lower_seq, spec_split, spec_trim, split_char, str_chars,
    str_eq_chars, trim_chars,
};

verus! {

/// One user-visible action of the dashboard.
#[derive(Debug, Clone, Copy, PartialEq, Eq, Hash, Structural)]
pub enum ActionId {
    Quit,
    Help,
    FocusNext,
    FocusPrev,
    MoveDown,
    MoveUp,
    RefreshSnapshot,
    RefreshDetails,
    OpenCustomCommands,
    ToggleFileForCommit,
    ClearFileSelection,
    Commit,
    CommitInteractive,
    Bookmark,
    Shelve,
    Push,
    Pull,
    Incoming,
    Outgoing,
    UpdateSelected,
    UnshelveSelected,
    ResolveMark,
    ResolveUnmark,
    RebaseSelected,
    RebaseContinue,
    RebaseAbort,
    HisteditSelected,
    HardRefresh,
}

/// The configuration name of each action.
pub open spec fn spec_action_str(a: ActionId) -> Seq<char> {
    match a {
        ActionId::Quit => "quit"@,
        ActionId::Help => "help"@,
        ActionId::FocusNext => "focus_next"@,
        ActionId::FocusPrev => "focus_prev"@,
        ActionId::MoveDown => "move_down"@,
        ActionId::MoveUp => "move_up"@,
        ActionId::RefreshSnapshot => "refresh_snapshot"@,
        ActionId::RefreshDetails => "refresh_details"@,
        ActionId::OpenCustomCommands => "open_custom_commands"@,
        ActionId::ToggleFileForCommit => "toggle_file_for_commit"@,
        ActionId::ClearFileSelection => "clear_file_selection"@,
        ActionId::Commit => "commit"@,
        ActionId::CommitInteractive => "commit_interactive"@,
        ActionId::Bookmark => "bookmark"@,
        ActionId::Shelve => "shelve"@,
        ActionId::Push => "push"@,
        ActionId::Pull => "pull"@,
        ActionId::Incoming => "incoming"@,
        ActionId::Outgoing => "outgoing"@,
        ActionId::UpdateSelected => "update_selected"@,
        ActionId::UnshelveSelected => "unshelve_selected"@,
        ActionId::ResolveMark => "resolve_mark"@,
        ActionId::ResolveUnmark => "resolve_unmark"@,
        ActionId::RebaseSelected => "rebase_selected"@,
        ActionId::RebaseContinue => "rebase_continue"@,
        ActionId::RebaseAbort => "rebase_abort"@,
        ActionId::HisteditSelected => "histedit_selected"@,
        ActionId::HardRefresh => "hard_refresh"@,
    }
}

/// The action a configuration name denotes: the trimmed name must match one
/// action's name exactly.
pub open spec fn spec_action_from_str(s: Seq<char>) -> Option<ActionId> {
    let t = spec_trim(s);
    if t == "quit"@ {
        Some(ActionId::Quit)
    } else if t == "help"@ {
        Some(ActionId::Help)
    } else if t == "focus_next"@ {
        Some(ActionId::FocusNext)
    } else if t == "focus_prev"@ {
        Some(ActionId::FocusPrev)
    } else if t == "move_down"@ {
        Some(ActionId::MoveDown)
    } else if t == "move_up"@ {
        Some(ActionId::MoveUp)
    } else if t == "refresh_snapshot"@ {
        Some(ActionId::RefreshSnapshot)
    } else if t == "refresh_details"@ {
        Some(ActionId::RefreshDetails)
    } else if t == "open_custom_commands"@ {
        Some(ActionId::OpenCustomCommands)
    } else if t == "toggle_file_for_commit"@ {
        Some(ActionId::ToggleFileForCommit)
    } else if t == "clear_file_selection"@ {
        Some(ActionId::ClearFileSelection)
    } else if t == "commit"@ {
        Some(ActionId::Commit)
    } else if t == "commit_interactive"@ {
        Some(ActionId::CommitInteractive)
    } else if t == "bookmark"@ {
        Some(ActionId::Bookmark)
    } else if t == "shelve"@ {
        Some(ActionId::Shelve)
    } else if t == "push"@ {
        Some(ActionId::Push)
    } else if t == "pull"@ {
        Some(ActionId::Pull)
    } else if t == "incoming"@ {
        Some(ActionId::Incoming)
    } else if t == "outgoing"@ {
        Some(ActionId::Outgoing)
    } else if t == "update_selected"@ {
        Some(ActionId::UpdateSelected)
    } else if t == "unshelve_selected"@ {
        Some(ActionId::UnshelveSelected)
    } else if t == "resolve_mark"@ {
        Some(ActionId::ResolveMark)
    } else if t == "resolve_unmark"@ {
        Some(ActionId::ResolveUnmark)
    } else if t == "rebase_selected"@ {
        Some(ActionId::RebaseSelected)
    } else if t == "rebase_continue"@ {
        Some(ActionId::RebaseContinue)
    } else if t == "rebase_abort"@ {
        Some(ActionId::RebaseAbort)
    } else if t == "histedit_selected"@ {
        Some(ActionId::HisteditSelected)
    } else if t == "hard_refresh"@ {
        Some(ActionId::HardRefresh)
    } else {
        None
    }
}

/// Every action, in display order.
pub open spec fn spec_all_actions() -> Seq<ActionId> {
    seq![
        ActionId::Quit,
        ActionId::Help,
        ActionId::FocusNext,
        ActionId::FocusPrev,
        ActionId::MoveDown,
        ActionId::MoveUp,
        ActionId::RefreshSnapshot,
        ActionId::RefreshDetails,
        ActionId::OpenCustomCommands,
        ActionId::ToggleFileForCommit,
        ActionId::ClearFileSelection,
        ActionId::Commit,
        ActionId::CommitInteractive,
        ActionId::Bookmark,
        ActionId::Shelve,
        ActionId::Push,
        ActionId::Pull,
        ActionId::Incoming,
        ActionId::Outgoing,
        ActionId::UpdateSelected,
        ActionId::UnshelveSelected,
        ActionId::ResolveMark,
        ActionId::ResolveUnmark,
        ActionId::RebaseSelected,
        ActionId::RebaseContinue,
        ActionId::RebaseAbort,
        ActionId::HisteditSelected,
        ActionId::HardRefresh,
    ]
}

impl ActionId {
    /// The configuration name of this action.
    pub fn as_str(self) -> (r: &'static str)
        ensures
            r@ == spec_action_str(self),
    {
        match self {
            ActionId::Quit => "quit",
            ActionId::Help => "help",
            ActionId::FocusNext => "focus_next",
            ActionId::FocusPrev => "focus_prev",
            ActionId::MoveDown => "move_down",
            ActionId::MoveUp => "move_up",
            ActionId::RefreshSnapshot => "refresh_snapshot",
            ActionId::RefreshDetails => "refresh_details",
            ActionId::OpenCustomCommands => "open_custom_commands",
            ActionId::ToggleFileForCommit => "toggle_file_for_commit",
            ActionId::ClearFileSelection => "clear_file_selection",
            ActionId::Commit => "commit",
            ActionId::CommitInteractive => "commit_interactive",
            ActionId::Bookmark => "bookmark",
            ActionId::Shelve => "shelve",
            ActionId::Push => "push",
            ActionId::Pull => "pull",
            ActionId::Incoming => "incoming",
            ActionId::Outgoing => "outgoing",
            ActionId::UpdateSelected => "update_selected",
            ActionId::UnshelveSelected => "unshelve_selected",
            ActionId::ResolveMark => "resolve_mark",
            ActionId::ResolveUnmark => "resolve_unmark",
            ActionId::RebaseSelected => "rebase_selected",
            ActionId::RebaseContinue => "rebase_continue",
            ActionId::RebaseAbort => "rebase_abort",
            ActionId::HisteditSelected => "histedit_selected",
            ActionId::HardRefresh => "hard_refresh",
        }
    }

    /// Looks an action up by its configuration name, ignoring surrounding
    /// whitespace.
    pub fn from_str(raw: &str) -> (r: Option<ActionId>)
        ensures
            r == spec_action_from_str(raw@),
    {
        let chars = str_chars(raw);
        let t = trim_chars(&chars);
        if str_eq_chars("quit", &t) {
            Some(ActionId::Quit)
        } else if str_eq_chars("help", &t) {
            Some(ActionId::Help)
        } else if str_eq_chars("focus_next", &t) {
            Some(ActionId::FocusNext)
        } else if str_eq_chars("focus_prev", &t) {
            Some(ActionId::FocusPrev)
        } else if str_eq_chars("move_down", &t) {
            Some(ActionId::MoveDown)
        } else if str_eq_chars("move_up", &t) {
            Some(ActionId::MoveUp)
        } else if str_eq_chars("refresh_snapshot", &t) {
            Some(ActionId::RefreshSnapshot)
        } else if str_eq_chars("refresh_details", &t) {
            Some(ActionId::RefreshDetails)
        } else if str_eq_chars("open_custom_commands", &t) {
            Some(ActionId::OpenCustomCommands)
        } else if str_eq_chars("toggle_file_for_commit", &t) {
            Some(ActionId::ToggleFileForCommit)
        } else if str_eq_chars("clear_file_selection", &t) {
            Some(ActionId::ClearFileSelection)
        } else if str_eq_chars("commit", &t) {
            Some(ActionId::Commit)
        } else if str_eq_chars("commit_interactive", &t) {
            Some(ActionId::CommitInteractive)
        } else if str_eq_chars("bookmark", &t) {
            Some(ActionId::Bookmark)
        } else if str_eq_chars("shelve", &t) {
            Some(ActionId::Shelve)
        } else if str_eq_chars("push", &t) {
            Some(ActionId::Push)
        } else if str_eq_chars("pull", &t) {
            Some(ActionId::Pull)
        } else if str_eq_chars("incoming", &t) {
            Some(ActionId::Incoming)
        } else if str_eq_chars("outgoing", &t) {
            Some(ActionId::Outgoing)
        } else if str_eq_chars("update_selected", &t) {
            Some(ActionId::UpdateSelected)
        } else if str_eq_chars("unshelve_selected", &t) {
            Some(ActionId::UnshelveSelected)
        } else if str_eq_chars("resolve_mark", &t) {
            Some(ActionId::ResolveMark)
        } else if str_eq_chars("resolve_unmark", &t) {
            Some(ActionId::ResolveUnmark)
        } else if str_eq_chars("rebase_selected", &t) {
            Some(ActionId::RebaseSelected)
        } else if str_eq_chars("rebase_continue", &t) {
            Some(ActionId::RebaseContinue)
        } else if str_eq_chars("rebase_abort", &t) {
            Some(ActionId::RebaseAbort)
        } else if str_eq_chars("histedit_selected", &t) {
            Some(ActionId::HisteditSelected)
        } else if str_eq_chars("hard_refresh", &t) {
            Some(ActionId::HardRefresh)
        } else {
            None
        }
    }

    /// Every action, in display order.
    pub fn all() -> (r: Vec<ActionId>)
        ensures
            r@ == spec_all_actions(),
    {
        let mut v: Vec<ActionId> = Vec::new();
        v.push(ActionId::Quit);
        v.push(ActionId::Help);
        v.push(ActionId::FocusNext);
        v.push(ActionId::FocusPrev);
        v.push(ActionId::MoveDown);
        v.push(ActionId::MoveUp);
        v.push(ActionId::RefreshSnapshot);
        v.push(ActionId::RefreshDetails);
        v.push(ActionId::OpenCustomCommands);
        v.push(ActionId::ToggleFileForCommit);
        v.push(ActionId::ClearFileSelection);
        v.push(ActionId::Commit);
        v.push(ActionId::CommitInteractive);
        v.push(ActionId::Bookmark);
        v.push(ActionId::Shelve);
        v.push(ActionId::Push);
        v.push(ActionId::Pull);
        v.push(ActionId::Incoming);
        v.push(ActionId::Outgoing);
        v.push(ActionId::UpdateSelected);
        v.push(ActionId::UnshelveSelected);
        v.push(ActionId::ResolveMark);
        v.push(ActionId::ResolveUnmark);
        v.push(ActionId::RebaseSelected);
        v.push(ActionId::RebaseContinue);
        v.push(ActionId::RebaseAbort);
        v.push(ActionId::HisteditSelected);
        v.push(ActionId::HardRefresh);
        proof {
            assert(v@ =~= spec_all_actions());
        }
        v
    }
}

/// The built-in bindings: each action with its default key combinations, all
/// already in canonical form.
pub open spec fn spec_default_bindings() -> Seq<(ActionId, Seq<char>)> {
    seq![
        (ActionId::Quit, "q"@),
        (ActionId::Help, "?"@),
        (ActionId::FocusNext, "tab"@),
        (ActionId::FocusPrev, "shift+tab"@),
        (ActionId::MoveDown, "down"@),
        (ActionId::MoveDown, "j"@),
        (ActionId::MoveUp, "up"@),
        (ActionId::MoveUp, "k"@),
        (ActionId::RefreshSnapshot, "cmd+r"@),
        (ActionId::RefreshDetails, "d"@),
        (ActionId::OpenCustomCommands, ":"@),
        (ActionId::ToggleFileForCommit, "v"@),
        (ActionId::ClearFileSelection, "V"@),
        (ActionId::Commit, "c"@),
        (ActionId::CommitInteractive, "I"@),
        (ActionId::Bookmark, "b"@),
        (ActionId::Shelve, "s"@),
        (ActionId::Push, "p"@),
        (ActionId::Pull, "P"@),
        (ActionId::Incoming, "i"@),
        (ActionId::Outgoing, "o"@),
        (ActionId::UpdateSelected, "u"@),
        (ActionId::UnshelveSelected, "U"@),
        (ActionId::ResolveMark, "m"@),
        (ActionId::ResolveUnmark, "M"@),
        (ActionId::RebaseSelected, "r"@),
        (ActionId::RebaseContinue, "C"@),
        (ActionId::RebaseAbort, "A"@),
        (ActionId::HisteditSelected, "H"@),
        (ActionId::HardRefresh, "ctrl+l"@),
    ]
}

/// The built-in bindings as values.
pub fn default_bindings() -> (r: Vec<(ActionId, String)>)
    ensures
        r@.map_values(|p: (ActionId, String)| (p.0, p.1@)) == spec_default_bindings(),
{
    let mut v: Vec<(ActionId, String)> = Vec::new();
    v.push((ActionId::Quit, "q".to_owned()));
    v.push((ActionId::Help, "?".to_owned()));
    v.push((ActionId::FocusNext, "tab".to_owned()));
    v.push((ActionId::FocusPrev, "shift+tab".to_owned()));
    v.push((ActionId::MoveDown, "down".to_owned()));
    v.push((ActionId::MoveDown, "j".to_owned()));
    v.push((ActionId::MoveUp, "up".to_owned()));
    v.push((ActionId::MoveUp, "k".to_owned()));
    v.push((ActionId::RefreshSnapshot, "cmd+r".to_owned()));
    v.push((ActionId::RefreshDetails, "d".to_owned()));
    v.push((ActionId::OpenCustomCommands, ":".to_owned()));
    v.push((ActionId::ToggleFileForCommit, "v".to_owned()));
    v.push((ActionId::ClearFileSelection, "V".to_owned()));
    v.push((ActionId::Commit, "c".to_owned()));
    v.push((ActionId::CommitInteractive, "I".to_owned()));
    v.push((ActionId::Bookmark, "b".to_owned()));
    v.push((ActionId::Shelve, "s".to_owned()));
    v.push((ActionId::Push, "p".to_owned()));
    v.push((ActionId::Pull, "P".to_owned()));
    v.push((ActionId::Incoming, "i".to_owned()));
    v.push((ActionId::Outgoing, "o".to_owned()));
    v.push((ActionId::UpdateSelected, "u".to_owned()));
    v.push((ActionId::UnshelveSelected, "U".to_owned()));
    v.push((ActionId::ResolveMark, "m".to_owned()));
    v.push((ActionId::ResolveUnmark, "M".to_owned()));
    v.push((ActionId::RebaseSelected, "r".to_owned()));
    v.push((ActionId::RebaseContinue, "C".to_owned()));
    v.push((ActionId::RebaseAbort, "A".to_owned()));
    v.push((ActionId::HisteditSelected, "H".to_owned()));
    v.push((ActionId::HardRefresh, "ctrl+l".to_owned()));
    proof {
        assert(v@.map_values(|p: (ActionId, String)| (p.0, p.1@)) =~= spec_default_bindings());
    }
    v
}

/// The four modifier flags of a key combination.
pub ghost struct ModFlags {
    pub ctrl: bool,
    pub alt: bool,
    pub shift: bool,
    pub super_key: bool,
}

/// Applying one modifier token (case-insensitive) to the flags; `None` for
/// an unknown modifier.
pub open spec fn spec_mod_apply(f: ModFlags, tok: Seq<char>) -> Option<ModFlags> {
    let l = spec_lower_seq(tok);
    if l == "ctrl"@ || l == "control"@ {
        Some(ModFlags { ctrl: true, ..f })
    } else if l == "alt"@ {
        Some(ModFlags { alt: true, ..f })
    } else if l == "shift"@ {
        Some(ModFlags { shift: true, ..f })
    } else if l == "cmd"@ || l == "command"@ || l == "super"@ {
        Some(ModFlags { super_key: true, ..f })
    } else {
        None
    }
}

/// Folds the modifier tokens `toks[i..]` into the flags; `Err` carries the
/// lower-cased first unknown modifier.
pub open spec fn spec_mods(toks: Seq<Seq<char>>, i: int, f: ModFlags) -> Result<
    ModFlags,
    Seq<char>,
>
    decreases toks.len() - i,
{
    if i < 0 || i >= toks.len() {
        Ok(f)
    } else {
        match spec_mod_apply(f, toks[i]) {
            None => Err(spec_lower_seq(toks[i])),
            Some(f2) => spec_mods(toks, i + 1, f2),
        }
    }
}

/// The canonical spelling of a key token: a single character stands for
/// itself; otherwise a known key name, case-insensitive, in its canonical
/// lower-case spelling (a back-tab key canonicalizes to the tab key).
pub open spec fn spec_normalize_key(tok: Seq<char>) -> Option<Seq<char>> {
    if tok.len() == 1 {
        Some(tok)
    } else {
        let l = spec_lower_seq(tok);
        if l == "tab"@ || l == "backtab"@ {
            Some("tab"@)
        } else if l == "up"@ {
            Some("up"@)
        } else if l == "down"@ {
            Some("down"@)
        } else if l == "enter"@ {
            Some("enter"@)
        } else if l == "esc"@ || l == "escape"@ {
            Some("esc"@)
        } else if l == "backspace"@ {
            Some("backspace"@)
        } else {
            None
        }
    }
}

/// The canonical string of a combination: recognized modifiers in the fixed
/// order ctrl, alt, cmd, shift, then the key, joined with `+`.
pub open spec fn spec_canon_string(
    ctrl: bool,
    alt: bool,
    super_key: bool,
    shift: bool,
    key: Seq<char>,
) -> Seq<char> {
    (if ctrl {
        "ctrl+"@
    } else {
        Seq::empty()
    }) + (if alt {
        "alt+"@
    } else {
        Seq::empty()
    }) + (if super_key {
        "cmd+"@
    } else {
        Seq::empty()
    }) + (if shift {
        "shift+"@
    } else {
        Seq::empty()
    }) + key
}

/// The tokens of a combination string: pieces between `+` characters, each
/// trimmed.
pub open spec fn spec_key_tokens(t: Seq<char>) -> Seq<Seq<char>> {
    spec_split(t, '+').map_values(|x: Seq<char>| spec_trim(x))
}

/// What canonicalizing a combination string yields: the trimmed text splits
/// on `+` into trimmed tokens, all non-empty; the last is the key, the rest
/// are modifiers; the result is the canonical string of the recognized flags
/// and key.
pub open spec fn spec_canonicalize(s: Seq<char>) -> Option<Seq<char>> {
    let t = spec_trim(s);
    if t.len() == 0 {
        None
    } else {
        let toks = spec_key_tokens(t);
        if exists|i: int| 0 <= i < toks.len() && (#[trigger] toks[i]).len() == 0 {
            None
        } else {
            match spec_mods(toks.take(toks.len() - 1), 0, ModFlags {
                ctrl: false,
                alt: false,
                shift: false,
                super_key: false,
            }) {
                Err(_) => None,
                Ok(f) => match spec_normalize_key(toks.last()) {
                    None => None,
                    Some(key) => Some(
                        spec_canon_string(f.ctrl, f.alt, f.super_key, f.shift, key),
                    ),
                },
            }
        }
    }
}

/// The error text when canonicalization fails.
pub open spec fn spec_canonicalize_err(s: Seq<char>) -> Seq<char> {
    let t = spec_trim(s);
    if t.len() == 0 {
        "empty keybinding"@
    } else {
        let toks = spec_key_tokens(t);
        if exists|i: int| 0 <= i < toks.len() && (#[trigger] toks[i]).len() == 0 {
            "invalid keybinding '"@ + t + "'"@
        } else {
            match spec_mods(toks.take(toks.len() - 1), 0, ModFlags {
                ctrl: false,
                alt: false,
                shift: false,
                super_key: false,
            }) {
                Err(bad) => "unknown modifier '"@ + bad + "'"@,
                Ok(_) => "unknown key '"@ + toks.last() + "'"@,
            }
        }
    }
}

/// Canonicalizes one key token.
pub fn normalize_key_token(token: &Vec<char>) -> (r: Option<String>)
    ensures
        crate::text::opt_view(r) == spec_normalize_key(token@),
{
    if token.len() == 1 {
        Some(chars_string(token))
    } else {
        let l = lower_chars(token);
        if str_eq_chars("tab", &l) || str_eq_chars("backtab", &l) {
            Some("tab".to_owned())
        } else if str_eq_chars("up", &l) {
            Some("up".to_owned())
        } else if str_eq_chars("down", &l) {
            Some("down".to_owned())
        } else if str_eq_chars("enter", &l) {
            Some("enter".to_owned())
        } else if str_eq_chars("esc", &l) || str_eq_chars("escape", &l) {
            Some("esc".to_owned())
        } else if str_eq_chars("backspace", &l) {
            Some("backspace".to_owned())
        } else {
            None
        }
    }
}

/// Builds the canonical string of a combination.
pub fn canonical_key_string(key: &str, ctrl: bool, alt: bool, shift: bool, super_key: bool) -> (r:
    String)
    ensures
        r@ == spec_canon_string(ctrl, alt, super_key, shift, key@),
{
    let mut s = String::new();
    if ctrl {
        s.append("ctrl+");
    }
    if alt {
        s.append("alt+");
    }
    if super_key {
        s.append("cmd+");
    }
    if shift {
        s.append("shift+");
    }
    s.append(key);
    proof {
        assert(s@ =~= spec_canon_string(ctrl, alt, super_key, shift, key@));
    }
    s
}

/// Canonicalizes a configured key combination, or reports why it is not one.
pub fn canonicalize_key_binding(raw: &str) -> (r: Result<String, String>)
    ensures
        match r {
            Ok(c) => spec_canonicalize(raw@) == Some(c@),
            Err(e) => spec_canonicalize(raw@) is None && e@ == spec_canonicalize_err(raw@),
        },
{
    let chars = str_chars(raw);
    let t = trim_chars(&chars);
    if t.len() == 0 {
        return Err("empty keybinding".to_owned());
    }
    let pieces = split_char(&t, '+');
    let mut toks: Vec<Vec<char>> = Vec::new();
    let n = pieces.len();
    let mut i: usize = 0;
    proof {
        assert(toks@.map_values(|x: Vec<char>| x@) =~= pieces@.map_values(|x: Vec<char>| x@).take(
            0int,
        ).map_values(|x: Seq<char>| spec_trim(x)));
    }
    while i < n
        invariant
            0 <= i <= n,
            n == pieces@.len(),
            toks@.map_values(|x: Vec<char>| x@) == pieces@.map_values(|x: Vec<char>| x@).take(
                i as int,
            ).map_values(|x: Seq<char>| spec_trim(x)),
        decreases n - i,
    {
        let trimmed = trim_chars(&pieces[i]);
        proof {
            let pv = pieces@.map_values(|x: Vec<char>| x@);
            assert(pv.take(i + 1).map_values(|x: Seq<char>| spec_trim(x)) =~= pv.take(
                i as int,
            ).map_values(|x: Seq<char>| spec_trim(x)).push(spec_trim(pv[i as int])));
            assert(toks@.push(trimmed).map_values(|x: Vec<char>| x@) =~= toks@.map_values(
                |x: Vec<char>| x@,
            ).push(trimmed@));
        }
        toks.push(trimmed);
        i = i + 1;
    }
    let ghost tok_views = toks@.map_values(|x: Vec<char>| x@);
    proof {
        assert(pieces@.map_values(|x: Vec<char>| x@).take(n as int) =~= pieces@.map_values(
            |x: Vec<char>| x@,
        ));
        assert(tok_views =~= spec_key_tokens(t@));
        crate::text::lemma_split_count(t@, '+');
    }
    // reject empty tokens
    let mut j: usize = 0;
    while j < n
        invariant
            0 <= j <= n,
            n == toks@.len(),
            n == tok_views.len(),
            1 <= n,
            t@ == spec_trim(raw@),
            t@.len() > 0,
            tok_views == toks@.map_values(|x: Vec<char>| x@),
            tok_views == spec_key_tokens(t@),
            forall|m: int| 0 <= m < j ==> (#[trigger] tok_views[m]).len() != 0,
        decreases n - j,
    {
        if toks[j].len() == 0 {
            let mut msg = "invalid keybinding '".to_owned();
            let ts = chars_string(&t);
            msg.append(ts.as_str());
            msg.append("'");
            proof {
                assert(tok_views[j as int].len() == 0);
            }
            return Err(msg);
        }
        j = j + 1;
    }
    proof {
        assert(forall|m: int| 0 <= m < tok_views.len() ==> (#[trigger] tok_views[m]).len() != 0);
    }
    // fold the modifier tokens
    let mut ctrl = false;
    let mut alt = false;
    let mut shift = false;
    let mut super_key = false;
    let ghost mods = tok_views.take(n - 1);
    let mut k: usize = 0;
    proof {
        assert(spec_mods(mods, 0, ModFlags { ctrl: false, alt: false, shift: false, super_key: false })
            == spec_mods(mods, 0, ModFlags { ctrl: false, alt: false, shift: false, super_key: false }));
    }
    while k < n - 1
        invariant
            0 <= k <= n - 1,
            1 <= n == toks@.len(),
            n == tok_views.len(),
            t@ == spec_trim(raw@),
            t@.len() > 0,
            tok_views == toks@.map_values(|x: Vec<char>| x@),
            tok_views == spec_key_tokens(t@),
            forall|m: int| 0 <= m < tok_views.len() ==> (#[trigger] tok_views[m]).len() != 0,
            mods == tok_views.take(n - 1),
            spec_mods(mods, 0, ModFlags { ctrl: false, alt: false, shift: false, super_key: false })
                == spec_mods(mods, k as int, ModFlags { ctrl, alt, shift, super_key }),
        decreases n - 1 - k,
    {
        let l = lower_chars(&toks[k]);
        proof {
            assert(mods[k as int] == tok_views[k as int]);
        }
        if str_eq_chars("ctrl", &l) || str_eq_chars("control", &l) {
            ctrl = true;
        } else if str_eq_chars("alt", &l) {
            alt = true;
        } else if str_eq_chars("shift", &l) {
            shift = true;
        } else if str_eq_chars("cmd", &l) || str_eq_chars("command", &l) || str_eq_chars(
            "super",
            &l,
        ) {
            super_key = true;
        } else {
            let mut msg = "unknown modifier '".to_owned();
            let ls = chars_string(&l);
            msg.append(ls.as_str());
            msg.append("'");
            proof {
                assert(spec_mod_apply(
                    ModFlags { ctrl, alt, shift, super_key },
                    mods[k as int],
                ) is None);
            }
            return Err(msg);
        }
        k = k + 1;
    }
    proof {
        assert(spec_mods(mods, n - 1, ModFlags { ctrl, alt, shift, super_key }) == Ok::<
            ModFlags,
            Seq<char>,
        >(ModFlags { ctrl, alt, shift, super_key }));
    }
    let key_tok = &toks[n - 1];
    proof {
        assert(tok_views[n - 1] == tok_views.last());
    }
    match normalize_key_token(key_tok) {
        None => {
            let mut msg = "unknown key '".to_owned();
            let ks = chars_string(key_tok);
            msg.append(ks.as_str());
            msg.append("'");
            Err(msg)
        },
        Some(key) => {
            let c = canonical_key_string(key.as_str(), ctrl, alt, shift, super_key);
            Ok(c)
        },
    }
}


/// One key press as the session sees it: a code plus modifier flags.
#[derive(Debug, Clone, Copy, PartialEq, Eq, Structural)]
pub enum KeyCode {
    Char(char),
    Tab,
    BackTab,
    Up,
    Down,
    Enter,
    Esc,
    Backspace,
    Other,
}

/// A key event: code and modifiers.
#[derive(Debug, Clone, Copy, PartialEq, Eq, Structural)]
pub struct KeyInput {
    pub code: KeyCode,
    pub ctrl: bool,
    pub alt: bool,
    pub shift: bool,
    pub super_key: bool,
}

impl KeyInput {
    /// A plain key press without modifiers.
    pub fn plain(code: KeyCode) -> (r: KeyInput)
        ensures
            r == (KeyInput { code, ctrl: false, alt: false, shift: false, super_key: false }),
    {
        KeyInput { code, ctrl: false, alt: false, shift: false, super_key: false }
    }
}

/// The canonical string of a key event: a character key carries its own
/// case, so the shift flag is dropped for it; a back-tab is shift plus tab;
/// unknown codes have no canonical form.
pub open spec fn spec_canonical_event(k: KeyInput) -> Option<Seq<char>> {
    match k.code {
        KeyCode::Char(c) => Some(spec_canon_string(k.ctrl, k.alt, k.super_key, false, seq![c])),
        KeyCode::Tab => Some(spec_canon_string(k.ctrl, k.alt, k.super_key, k.shift, "tab"@)),
        KeyCode::BackTab => Some(spec_canon_string(k.ctrl, k.alt, k.super_key, true, "tab"@)),
        KeyCode::Up => Some(spec_canon_string(k.ctrl, k.alt, k.super_key, k.shift, "up"@)),
        KeyCode::Down => Some(spec_canon_string(k.ctrl, k.alt, k.super_key, k.shift, "down"@)),
        KeyCode::Enter => Some(spec_canon_string(k.ctrl, k.alt, k.super_key, k.shift, "enter"@)),
        KeyCode::Esc => Some(spec_canon_string(k.ctrl, k.alt, k.super_key, k.shift, "esc"@)),
        KeyCode::Backspace => Some(
            spec_canon_string(k.ctrl, k.alt, k.super_key, k.shift, "backspace"@),
        ),
        KeyCode::Other => None,
    }
}

/// Canonicalizes a key event.
pub fn canonicalize_key_event(k: KeyInput) -> (r: Option<String>)
    ensures
        crate::text::opt_view(r) == spec_canonical_event(k),
{
    match k.code {
        KeyCode::Char(c) => {
            let mut key: Vec<char> = Vec::new();
            key.push(c);
            let key_s = chars_string(&key);
            proof {
                assert(key@ =~= seq![c]);
            }
            Some(canonical_key_string(key_s.as_str(), k.ctrl, k.alt, false, k.super_key))
        },
        KeyCode::Tab => Some(canonical_key_string("tab", k.ctrl, k.alt, k.shift, k.super_key)),
        KeyCode::BackTab => Some(canonical_key_string("tab", k.ctrl, k.alt, true, k.super_key)),
        KeyCode::Up => Some(canonical_key_string("up", k.ctrl, k.alt, k.shift, k.super_key)),
        KeyCode::Down => Some(canonical_key_string("down", k.ctrl, k.alt, k.shift, k.super_key)),
        KeyCode::Enter => Some(canonical_key_string("enter", k.ctrl, k.alt, k.shift, k.super_key)),
        KeyCode::Esc => Some(canonical_key_string("esc", k.ctrl, k.alt, k.shift, k.super_key)),
        KeyCode::Backspace => Some(
            canonical_key_string("backspace", k.ctrl, k.alt, k.shift, k.super_key),
        ),
        KeyCode::Other => None,
    }
}

/// First match in an event association list.
pub open spec fn spec_event_lookup(m: Seq<(Seq<char>, ActionId)>, key: Seq<char>) -> Option<
    ActionId,
>
    decreases m.len(),
{
    if m.len() == 0 {
        None
    } else if m[0].0 == key {
        Some(m[0].1)
    } else {
        spec_event_lookup(m.drop_first(), key)
    }
}

/// First match in a primary-key association list.
pub open spec fn spec_primary_lookup(m: Seq<(ActionId, Seq<char>)>, a: ActionId) -> Option<
    Seq<char>,
>
    decreases m.len(),
{
    if m.len() == 0 {
        None
    } else if m[0].0 == a {
        Some(m[0].1)
    } else {
        spec_primary_lookup(m.drop_first(), a)
    }
}

/// A valid override: it names a known action and its key canonicalizes.
pub open spec fn spec_override_ok(name: Seq<char>, key: Seq<char>) -> bool {
    spec_action_from_str(name) is Some && spec_canonicalize(key) is Some
}

/// Whether every override is valid.
pub open spec fn spec_overrides_ok(ov: Seq<(Seq<char>, Seq<char>)>) -> bool {
    forall|i: int| 0 <= i < ov.len() ==> spec_override_ok((#[trigger] ov[i]).0, ov[i].1)
}

/// The canonical key of the last valid override naming the action, if any:
/// a later override wins.
pub open spec fn spec_last_override(ov: Seq<(Seq<char>, Seq<char>)>, a: ActionId) -> Option<
    Seq<char>,
>
    decreases ov.len(),
{
    if ov.len() == 0 {
        None
    } else if spec_action_from_str(ov.last().0) == Some(a) && spec_canonicalize(
        ov.last().1,
    ) is Some {
        Some(spec_canonicalize(ov.last().1)->Some_0)
    } else {
        spec_last_override(ov.drop_last(), a)
    }
}

/// The built-in keys of each action.
pub open spec fn spec_default_keys(a: ActionId) -> Seq<Seq<char>> {
    match a {
        ActionId::Quit => seq!["q"@],
        ActionId::Help => seq!["?"@],
        ActionId::FocusNext => seq!["tab"@],
        ActionId::FocusPrev => seq!["shift+tab"@],
        ActionId::MoveDown => seq!["down"@, "j"@],
        ActionId::MoveUp => seq!["up"@, "k"@],
        ActionId::RefreshSnapshot => seq!["cmd+r"@],
        ActionId::RefreshDetails => seq!["d"@],
        ActionId::OpenCustomCommands => seq![":"@],
        ActionId::ToggleFileForCommit => seq!["v"@],
        ActionId::ClearFileSelection => seq!["V"@],
        ActionId::Commit => seq!["c"@],
        ActionId::CommitInteractive => seq!["I"@],
        ActionId::Bookmark => seq!["b"@],
        ActionId::Shelve => seq!["s"@],
        ActionId::Push => seq!["p"@],
        ActionId::Pull => seq!["P"@],
        ActionId::Incoming => seq!["i"@],
        ActionId::Outgoing => seq!["o"@],
        ActionId::UpdateSelected => seq!["u"@],
        ActionId::UnshelveSelected => seq!["U"@],
        ActionId::ResolveMark => seq!["m"@],
        ActionId::ResolveUnmark => seq!["M"@],
        ActionId::RebaseSelected => seq!["r"@],
        ActionId::RebaseContinue => seq!["C"@],
        ActionId::RebaseAbort => seq!["A"@],
        ActionId::HisteditSelected => seq!["H"@],
        ActionId::HardRefresh => seq!["ctrl+l"@],
    }
}

/// The keys an action ends up with: its default keys, or the single
/// canonical key of its last valid override.
pub open spec fn spec_action_keys(ov: Seq<(Seq<char>, Seq<char>)>, a: ActionId) -> Seq<Seq<char>> {
    match spec_last_override(ov, a) {
        Some(k) => seq![k],
        None => spec_default_keys(a),
    }
}

/// The key/action table from action `i` on, actions in display order.
pub open spec fn spec_events_from(ov: Seq<(Seq<char>, Seq<char>)>, i: int) -> Seq<
    (Seq<char>, ActionId),
>
    decreases 28 - i,
{
    if i < 0 || i >= 28 {
        Seq::empty()
    } else {
        let a = spec_all_actions()[i];
        spec_action_keys(ov, a).map_values(|k: Seq<char>| (k, a)) + spec_events_from(ov, i + 1)
    }
}

/// The primary-key table from action `i` on: each action's first key.
pub open spec fn spec_primaries_from(ov: Seq<(Seq<char>, Seq<char>)>, i: int) -> Seq<
    (ActionId, Seq<char>),
>
    decreases 28 - i,
{
    if i < 0 || i >= 28 {
        Seq::empty()
    } else {
        let a = spec_all_actions()[i];
        seq![(a, spec_action_keys(ov, a)[0])] + spec_primaries_from(ov, i + 1)
    }
}

/// Whether two entries of the key table share a key.
pub open spec fn spec_has_dup_key(events: Seq<(Seq<char>, ActionId)>) -> bool {
    exists|i: int, j: int|
        0 <= i < j < events.len() && (#[trigger] events[i]).0 == (#[trigger] events[j]).0
}

/// Whether `s` starts with `p`.
pub open spec fn spec_has_prefix(s: Seq<char>, p: Seq<char>) -> bool {
    s.len() >= p.len() && s.subrange(0, p.len() as int) == p
}

/// Whether some entry of the key table carries the key.
pub open spec fn spec_key_in(events: Seq<(Seq<char>, ActionId)>, k: Seq<char>) -> bool {
    exists|y: int| 0 <= y < events.len() && (#[trigger] events[y]).0 == k
}

/// A key stays in the table when an entry is appended.
proof fn lemma_key_in_push(events: Seq<(Seq<char>, ActionId)>, e: (Seq<char>, ActionId), k: Seq<char>)
    requires
        spec_key_in(events, k),
    ensures
        spec_key_in(events.push(e), k),
{
    let y = choose|y: int| 0 <= y < events.len() && (#[trigger] events[y]).0 == k;
    assert(events.push(e)[y].0 == k);
}

/// The defaults of one action, as values.
fn default_keys(a: ActionId) -> (r: Vec<String>)
    ensures
        r@.map_values(|k: String| k@) == spec_default_keys(a),
        r@.len() > 0,
{
    let mut v: Vec<String> = Vec::new();
    match a {
        ActionId::Quit => v.push("q".to_owned()),
        ActionId::Help => v.push("?".to_owned()),
        ActionId::FocusNext => v.push("tab".to_owned()),
        ActionId::FocusPrev => v.push("shift+tab".to_owned()),
        ActionId::MoveDown => {
            v.push("down".to_owned());
            v.push("j".to_owned());
        },
        ActionId::MoveUp => {
            v.push("up".to_owned());
            v.push("k".to_owned());
        },
        ActionId::RefreshSnapshot => v.push("cmd+r".to_owned()),
        ActionId::RefreshDetails => v.push("d".to_owned()),
        ActionId::OpenCustomCommands => v.push(":".to_owned()),
        ActionId::ToggleFileForCommit => v.push("v".to_owned()),
        ActionId::ClearFileSelection => v.push("V".to_owned()),
        ActionId::Commit => v.push("c".to_owned()),
        ActionId::CommitInteractive => v.push("I".to_owned()),
        ActionId::Bookmark => v.push("b".to_owned()),
        ActionId::Shelve => v.push("s".to_owned()),
        ActionId::Push => v.push("p".to_owned()),
        ActionId::Pull => v.push("P".to_owned()),
        ActionId::Incoming => v.push("i".to_owned()),
        ActionId::Outgoing => v.push("o".to_owned()),
        ActionId::UpdateSelected => v.push("u".to_owned()),
        ActionId::UnshelveSelected => v.push("U".to_owned()),
        ActionId::ResolveMark => v.push("m".to_owned()),
        ActionId::ResolveUnmark => v.push("M".to_owned()),
        ActionId::RebaseSelected => v.push("r".to_owned()),
        ActionId::RebaseContinue => v.push("C".to_owned()),
        ActionId::RebaseAbort => v.push("A".to_owned()),
        ActionId::HisteditSelected => v.push("H".to_owned()),
        ActionId::HardRefresh => v.push("ctrl+l".to_owned()),
    }
    proof {
        assert(v@.map_values(|k: String| k@) =~= spec_default_keys(a));
    }
    v
}

/// The keys an action ends up with, as values.
fn action_keys(overrides: &Vec<(String, String)>, a: ActionId) -> (r: Vec<String>)
    ensures
        r@.map_values(|k: String| k@) == spec_action_keys(
            overrides@.map_values(|p: (String, String)| (p.0@, p.1@)),
            a,
        ),
        r@.len() > 0,
{
    let ghost ov = overrides@.map_values(|p: (String, String)| (p.0@, p.1@));
    let n = overrides.len();
    let mut j: usize = n;
    proof {
        assert(ov.take(n as int) =~= ov);
    }
    while j > 0
        invariant
            0 <= j <= n,
            n == overrides@.len(),
            ov == overrides@.map_values(|p: (String, String)| (p.0@, p.1@)),
            spec_last_override(ov, a) == spec_last_override(ov.take(j as int), a),
        decreases j,
    {
        let ghost prefix = ov.take(j as int);
        proof {
            assert(prefix.last() == ov[j - 1]);
            assert(prefix.drop_last() =~= ov.take(j - 1));
            assert(ov[j - 1] == (overrides@[j - 1].0@, overrides@[j - 1].1@));
        }
        let named = ActionId::from_str(overrides[j - 1].0.as_str());
        let matches_action = match named {
            Some(b) => b == a,
            None => false,
        };
        if matches_action {
            match canonicalize_key_binding(overrides[j - 1].1.as_str()) {
                Ok(canonical) => {
                    let mut v: Vec<String> = Vec::new();
                    v.push(canonical);
                    proof {
                        assert(v@.map_values(|k: String| k@) =~= spec_action_keys(ov, a));
                    }
                    return v;
                },
                Err(_) => {},
            }
        }
        j = j - 1;
    }
    proof {
        assert(ov.take(0int) =~= Seq::<(Seq<char>, Seq<char>)>::empty());
        assert(spec_last_override(ov, a) is None);
    }
    default_keys(a)
}

/// Resolved keybindings: canonical key strings mapped to actions, and one
/// primary key per action.
#[derive(Debug, Clone)]
pub struct ActionKeyMap {
    pub event_to_action: Vec<(String, ActionId)>,
    pub primary_for_action: Vec<(ActionId, String)>,
}

impl ActionKeyMap {
    /// The event table as a mathematical association list.
    pub open spec fn events_view(&self) -> Seq<(Seq<char>, ActionId)> {
        self.event_to_action@.map_values(|p: (String, ActionId)| (p.0@, p.1))
    }

    /// The primary table as a mathematical association list.
    pub open spec fn primaries_view(&self) -> Seq<(ActionId, Seq<char>)> {
        self.primary_for_action@.map_values(|p: (ActionId, String)| (p.0, p.1@))
    }

    /// A well-formed map: no key is bound twice, no action has two primary
    /// keys, and every action has one.
    pub open spec fn wf(&self) -> bool {
        &&& (forall|i: int, j: int|
            0 <= i < j < self.events_view().len() ==> (#[trigger] self.events_view()[i]).0 != (
            #[trigger] self.events_view()[j]).0)
        &&& (forall|i: int, j: int|
            0 <= i < j < self.primaries_view().len() ==> (#[trigger] self.primaries_view()[i]).0
                != (#[trigger] self.primaries_view()[j]).0)
        &&& (forall|a: ActionId| spec_primary_lookup(self.primaries_view(), a) is Some)
    }

    /// The action bound to a key event, through its canonical string.
    pub fn action_for_event(&self, key: KeyInput) -> (r: Option<ActionId>)
        ensures
            r == match spec_canonical_event(key) {
                None => None::<ActionId>,
                Some(c) => spec_event_lookup(self.events_view(), c),
            },
    {
        let canonical = match canonicalize_key_event(key) {
            None => {
                return None;
            },
            Some(c) => c,
        };
        let n = self.event_to_action.len();
        let mut i: usize = 0;
        proof {
            assert(self.events_view().skip(0int) =~= self.events_view());
        }
        while i < n
            invariant
                0 <= i <= n,
                n == self.event_to_action@.len(),
                spec_canonical_event(key) == Some(canonical@),
                spec_event_lookup(self.events_view(), canonical@) == spec_event_lookup(
                    self.events_view().skip(i as int),
                    canonical@,
                ),
            decreases n - i,
        {
            let ghost suffix = self.events_view().skip(i as int);
            proof {
                assert(suffix[0] == self.events_view()[i as int]);
                assert(suffix.drop_first() =~= self.events_view().skip(i + 1));
            }
            if crate::text::str_eq(self.event_to_action[i].0.as_str(), canonical.as_str()) {
                return Some(self.event_to_action[i].1);
            }
            i = i + 1;
        }
        proof {
            assert(self.events_view().skip(n as int) =~= Seq::<(Seq<char>, ActionId)>::empty());
        }
        None
    }

    /// The primary key shown for an action.
    pub fn key_for_action(&self, action: ActionId) -> (r: Option<&str>)
        ensures
            match r {
                Some(k) => spec_primary_lookup(self.primaries_view(), action) == Some(k@),
                None => spec_primary_lookup(self.primaries_view(), action) is None,
            },
    {
        let n = self.primary_for_action.len();
        let mut i: usize = 0;
        proof {
            assert(self.primaries_view().skip(0int) =~= self.primaries_view());
        }
        while i < n
            invariant
                0 <= i <= n,
                n == self.primary_for_action@.len(),
                spec_primary_lookup(self.primaries_view(), action) == spec_primary_lookup(
                    self.primaries_view().skip(i as int),
                    action,
                ),
            decreases n - i,
        {
            let ghost suffix = self.primaries_view().skip(i as int);
            proof {
                assert(suffix[0] == self.primaries_view()[i as int]);
                assert(suffix.drop_first() =~= self.primaries_view().skip(i + 1));
            }
            if self.primary_for_action[i].0 == action {
                return Some(self.primary_for_action[i].1.as_str());
            }
            i = i + 1;
        }
        proof {
            assert(self.primaries_view().skip(n as int) =~= Seq::<(ActionId, Seq<char>)>::empty());
        }
        None
    }

    /// Builds the map: each action keeps its built-in keys unless a valid
    /// override replaces them with its single canonical key (a later override
    /// for the same action wins). Invalid overrides and keys bound twice are
    /// collected as issues, and any issue rejects the whole set.
    #[verifier::rlimit(100)]
    #[verifier::spinoff_prover]
    pub fn from_overrides(overrides: &Vec<(String, String)>) -> (r: Result<ActionKeyMap, Vec<String>>)
        ensures
            r matches Ok(m) ==> {
                let ov = overrides@.map_values(|p: (String, String)| (p.0@, p.1@));
                &&& spec_overrides_ok(ov)
                &&& !spec_has_dup_key(spec_events_from(ov, 0))
                &&& m.wf()
                &&& m.events_view() == spec_events_from(ov, 0)
                &&& m.primaries_view() == spec_primaries_from(ov, 0)
            },
            r matches Err(issues) ==> issues@.len() > 0,
            r matches Err(issues) ==> !(spec_overrides_ok(
                overrides@.map_values(|p: (String, String)| (p.0@, p.1@)),
            ) && !spec_has_dup_key(
                spec_events_from(overrides@.map_values(|p: (String, String)| (p.0@, p.1@)), 0),
            )),
            r matches Err(issues) ==> ((exists|i: int|
                0 <= i < overrides@.len() && spec_action_from_str(
                    (#[trigger] overrides@[i]).0@,
                ) is None) ==> exists|j: int|
                0 <= j < issues@.len() && spec_has_prefix(
                    (#[trigger] issues@[j])@,
                    "unknown keybinding action '"@,
                )),
            r matches Err(issues) ==> ((exists|i: int|
                0 <= i < overrides@.len() && spec_action_from_str(
                    (#[trigger] overrides@[i]).0@,
                ) is Some && spec_canonicalize(overrides@[i].1@) is None) ==> exists|j: int|
                0 <= j < issues@.len() && spec_has_prefix(
                    (#[trigger] issues@[j])@,
                    "invalid keybinding for '"@,
                )),
            r matches Err(issues) ==> (spec_has_dup_key(
                spec_events_from(overrides@.map_values(|p: (String, String)| (p.0@, p.1@)), 0),
            ) ==> exists|j: int|
                0 <= j < issues@.len() && spec_has_prefix(
                    (#[trigger] issues@[j])@,
                    "duplicate keybinding '"@,
                )),
    {
        let ghost ov = overrides@.map_values(|p: (String, String)| (p.0@, p.1@));
        let mut issues: Vec<String> = Vec::new();

        // validate the overrides
        let ghost mut unknown_at: Option<int> = None;
        let ghost mut invalid_at: Option<int> = None;
        let n_over = overrides.len();
        let mut oi: usize = 0;
        while oi < n_over
            invariant
                0 <= oi <= n_over,
                n_over == overrides@.len(),
                ov == overrides@.map_values(|p: (String, String)| (p.0@, p.1@)),
                (issues@.len() == 0) == (forall|i: int|
                    0 <= i < oi ==> spec_override_ok((#[trigger] ov[i]).0, ov[i].1)),
                match unknown_at {
                    Some(j) => 0 <= j < issues@.len() && spec_has_prefix(
                        issues@[j]@,
                        "unknown keybinding action '"@,
                    ),
                    None => forall|i: int|
                        0 <= i < oi ==> spec_action_from_str((#[trigger] ov[i]).0) is Some,
                },
                match invalid_at {
                    Some(j) => 0 <= j < issues@.len() && spec_has_prefix(
                        issues@[j]@,
                        "invalid keybinding for '"@,
                    ),
                    None => forall|i: int|
                        0 <= i < oi ==> !(spec_action_from_str((#[trigger] ov[i]).0) is Some
                            && spec_canonicalize(ov[i].1) is None),
                },
            decreases n_over - oi,
        {
            let name = &overrides[oi].0;
            let key_raw = &overrides[oi].1;
            proof {
                assert(ov[oi as int] == (overrides@[oi as int].0@, overrides@[oi as int].1@));
            }
            match ActionId::from_str(name.as_str()) {
                None => {
                    let mut msg = "unknown keybinding action '".to_owned();
                    msg.append(name.as_str());
                    msg.append("' (expected one of: ");
                    let names = action_name_list();
                    msg.append(names.as_str());
                    msg.append(")");
                    proof {
                        assert(spec_has_prefix(msg@, "unknown keybinding action '"@)) by {
                            assert(msg@.subrange(0, "unknown keybinding action '"@.len() as int)
                                =~= "unknown keybinding action '"@);
                        }
                    }
                    issues.push(msg);
                    proof {
                        assert(issues@[issues@.len() - 1] == msg);
                        unknown_at = Some(issues@.len() - 1);
                    }
                },
                Some(_) => {
                    match canonicalize_key_binding(key_raw.as_str()) {
                        Ok(_) => {},
                        Err(err) => {
                            let mut msg = "invalid keybinding for '".to_owned();
                            msg.append(name.as_str());
                            msg.append("': ");
                            msg.append(err.as_str());
                            proof {
                                assert(spec_has_prefix(msg@, "invalid keybinding for '"@)) by {
                                    assert(msg@.subrange(
                                        0,
                                        "invalid keybinding for '"@.len() as int,
                                    ) =~= "invalid keybinding for '"@);
                                }
                            }
                            issues.push(msg);
                            proof {
                                assert(issues@[issues@.len() - 1] == msg);
                                invalid_at = Some(issues@.len() - 1);
                            }
                        },
                    }
                },
            }
            oi = oi + 1;
        }
        let ghost ph1_ok = spec_overrides_ok(ov);
        proof {
            assert((issues@.len() == 0) == ph1_ok);
        }
        let ghost ph1_issues = issues@;
        let ghost mut dup_at: Option<int> = None;

        // build the tables, one action at a time
        let actions = ActionId::all();
        let mut event_to_action: Vec<(String, ActionId)> = Vec::new();
        let mut primary_for_action: Vec<(ActionId, String)> = Vec::new();
        let ghost mut done: Seq<(Seq<char>, ActionId)> = Seq::empty();
        let mut ai: usize = 0;
        proof {
            assert(event_to_action@.map_values(|p: (String, ActionId)| (p.0@, p.1))
                =~= Seq::<(Seq<char>, ActionId)>::empty());
            assert(primary_for_action@.map_values(|p: (ActionId, String)| (p.0, p.1@))
                =~= Seq::<(ActionId, Seq<char>)>::empty());
            assert(Seq::<(Seq<char>, ActionId)>::empty() + spec_events_from(ov, 0)
                =~= spec_events_from(ov, 0));
            assert(Seq::<(ActionId, Seq<char>)>::empty() + spec_primaries_from(ov, 0)
                =~= spec_primaries_from(ov, 0));
            assert(!spec_has_dup_key(Seq::<(Seq<char>, ActionId)>::empty()));
        }
        while ai < 28
            invariant
                0 <= ai <= 28,
                actions@ == spec_all_actions(),
                ov == overrides@.map_values(|p: (String, String)| (p.0@, p.1@)),
                ph1_ok == spec_overrides_ok(ov),
                primary_for_action@.map_values(|p: (ActionId, String)| (p.0, p.1@))
                    + spec_primaries_from(ov, ai as int) == spec_primaries_from(ov, 0),
                primary_for_action@.len() == ai,
                forall|x: int|
                    0 <= x < ai ==> (#[trigger] primary_for_action@[x]).0 == spec_all_actions()[x],
                done + spec_events_from(ov, ai as int) == spec_events_from(ov, 0),
                forall|x: int|
                    0 <= x < done.len() ==> spec_key_in(
                        event_to_action@.map_values(|p: (String, ActionId)| (p.0@, p.1)),
                        (#[trigger] done[x]).0,
                    ),
                forall|y: int|
                    0 <= y < event_to_action@.len() ==> spec_key_in(
                        done,
                        (#[trigger] event_to_action@[y]).0@,
                    ),
                !spec_has_dup_key(
                    event_to_action@.map_values(|p: (String, ActionId)| (p.0@, p.1)),
                ),
                dup_at is None ==> !spec_has_dup_key(done),
                issues@.len() == 0 ==> {
                    &&& ph1_ok
                    &&& event_to_action@.map_values(|p: (String, ActionId)| (p.0@, p.1))
                        + spec_events_from(ov, ai as int) == spec_events_from(ov, 0)
                },
                issues@.len() > 0 ==> (!ph1_ok || spec_has_dup_key(spec_events_from(ov, 0))),
                match dup_at {
                    Some(j) => 0 <= j < issues@.len() && spec_has_prefix(
                        issues@[j]@,
                        "duplicate keybinding '"@,
                    ),
                    None => issues@ == ph1_issues,
                },
                match unknown_at {
                    Some(j) => 0 <= j < issues@.len() && spec_has_prefix(
                        issues@[j]@,
                        "unknown keybinding action '"@,
                    ),
                    None => forall|i: int|
                        0 <= i < ov.len() ==> spec_action_from_str((#[trigger] ov[i]).0) is Some,
                },
                match invalid_at {
                    Some(j) => 0 <= j < issues@.len() && spec_has_prefix(
                        issues@[j]@,
                        "invalid keybinding for '"@,
                    ),
                    None => forall|i: int|
                        0 <= i < ov.len() ==> !(spec_action_from_str((#[trigger] ov[i]).0) is Some
                            && spec_canonicalize(ov[i].1) is None),
                },
            decreases 28 - ai,
        {
            let action = actions[ai];
            let keys = action_keys(overrides, action);
            let ghost key_views = keys@.map_values(|k: String| k@);
            let ghost a_spec = spec_all_actions()[ai as int];
            proof {
                assert(action == a_spec);
                assert(key_views == spec_action_keys(ov, a_spec));
                assert(spec_events_from(ov, ai as int) == spec_action_keys(ov, a_spec).map_values(
                    |k: Seq<char>| (k, a_spec),
                ) + spec_events_from(ov, ai + 1));
                assert(spec_primaries_from(ov, ai as int) == seq![
                    (a_spec, spec_action_keys(ov, a_spec)[0]),
                ] + spec_primaries_from(ov, ai + 1));
            }
            let primary = keys[0].clone();
            proof {
                let pv = primary_for_action@.map_values(|p: (ActionId, String)| (p.0, p.1@));
                assert(primary_for_action@.push((action, primary)).map_values(
                    |p: (ActionId, String)| (p.0, p.1@),
                ) =~= pv.push((a_spec, spec_action_keys(ov, a_spec)[0])));
                assert(pv + (seq![(a_spec, spec_action_keys(ov, a_spec)[0])]
                    + spec_primaries_from(ov, ai + 1)) =~= pv.push(
                    (a_spec, spec_action_keys(ov, a_spec)[0]),
                ) + spec_primaries_from(ov, ai + 1));
            }
            primary_for_action.push((action, primary));
            let kn = keys.len();
            let mut ki: usize = 0;
            let ghost mapped = key_views.map_values(|k: Seq<char>| (k, a_spec));
            let ghost events_before = event_to_action@.map_values(
                |p: (String, ActionId)| (p.0@, p.1),
            );
            proof {
                assert(events_before + mapped.take(0int) =~= events_before);
                assert(done + mapped.take(0int) =~= done);
                assert(done + mapped + spec_events_from(ov, ai + 1) =~= done + spec_events_from(
                    ov,
                    ai as int,
                ));
            }
            while ki < kn
                invariant
                    0 <= ki <= kn,
                    0 <= ai < 28,
                    kn == keys@.len(),
                    key_views == keys@.map_values(|k: String| k@),
                    mapped == key_views.map_values(|k: Seq<char>| (k, a_spec)),
                    a_spec == spec_all_actions()[ai as int],
                    action == a_spec,
                    ov == overrides@.map_values(|p: (String, String)| (p.0@, p.1@)),
                    ph1_ok == spec_overrides_ok(ov),
                    spec_events_from(ov, ai as int) == mapped + spec_events_from(ov, ai + 1),
                    done + mapped + spec_events_from(ov, ai + 1) == spec_events_from(ov, 0),
                    forall|x: int|
                        0 <= x < (done + mapped.take(ki as int)).len() ==> spec_key_in(
                            event_to_action@.map_values(|p: (String, ActionId)| (p.0@, p.1)),
                            (#[trigger] (done + mapped.take(ki as int))[x]).0,
                        ),
                    forall|y: int|
                        0 <= y < event_to_action@.len() ==> spec_key_in(
                            done + mapped.take(ki as int),
                            (#[trigger] event_to_action@[y]).0@,
                        ),
                    !spec_has_dup_key(
                        event_to_action@.map_values(|p: (String, ActionId)| (p.0@, p.1)),
                    ),
                    dup_at is None ==> !spec_has_dup_key(done + mapped.take(ki as int)),
                    issues@.len() == 0 ==> {
                        &&& ph1_ok
                        &&& events_before + spec_events_from(ov, ai as int) == spec_events_from(
                            ov,
                            0,
                        )
                        &&& event_to_action@.map_values(|p: (String, ActionId)| (p.0@, p.1))
                            == events_before + mapped.take(ki as int)
                    },
                    issues@.len() > 0 ==> (!ph1_ok || spec_has_dup_key(spec_events_from(ov, 0))),
                    match dup_at {
                        Some(j) => 0 <= j < issues@.len() && spec_has_prefix(
                            issues@[j]@,
                            "duplicate keybinding '"@,
                        ),
                        None => issues@ == ph1_issues,
                    },
                    match unknown_at {
                        Some(j) => 0 <= j < issues@.len() && spec_has_prefix(
                            issues@[j]@,
                            "unknown keybinding action '"@,
                        ),
                        None => forall|i: int|
                            0 <= i < ov.len() ==> spec_action_from_str(
                                (#[trigger] ov[i]).0,
                            ) is Some,
                    },
                    match invalid_at {
                        Some(j) => 0 <= j < issues@.len() && spec_has_prefix(
                            issues@[j]@,
                            "invalid keybinding for '"@,
                        ),
                        None => forall|i: int|
                            0 <= i < ov.len() ==> !(spec_action_from_str(
                                (#[trigger] ov[i]).0,
                            ) is Some && spec_canonicalize(ov[i].1) is None),
                    },
                decreases kn - ki,
            {
                let key = keys[ki].clone();
                proof {
                    assert(key@ == key_views[ki as int]);
                    assert(mapped[ki as int] == (key_views[ki as int], a_spec));
                }
                let mut dup = false;
                let n_events = event_to_action.len();
                let mut ei: usize = 0;
                while ei < n_events
                    invariant
                        0 <= ei <= n_events,
                        n_events == event_to_action@.len(),
                        key@ == key_views[ki as int],
                        0 <= ki < kn,
                        kn == keys@.len(),
                        key_views == keys@.map_values(|k: String| k@),
                        dup == (exists|m: int|
                            0 <= m < ei && (#[trigger] event_to_action@[m]).0@ == key@),
                    decreases n_events - ei,
                {
                    if crate::text::str_eq(event_to_action[ei].0.as_str(), key.as_str()) {
                        dup = true;
                    }
                    ei = ei + 1;
                }
                if dup {
                    let mut msg = "duplicate keybinding '".to_owned();
                    msg.append(key.as_str());
                    msg.append("'");
                    proof {
                        assert(spec_has_prefix(msg@, "duplicate keybinding '"@)) by {
                            assert(msg@.subrange(0, "duplicate keybinding '"@.len() as int)
                                =~= "duplicate keybinding '"@);
                        }
                        // the repeated key pairs two entries of the full table
                        let full = spec_events_from(ov, 0);
                        let prefix = done + mapped.take(ki as int);
                        assert(full =~= done + mapped + spec_events_from(ov, ai + 1));
                        assert(full[done.len() + ki] == mapped[ki as int]);
                        assert(full[done.len() + ki].0 == key@);
                        let m = choose|m: int|
                            0 <= m < event_to_action@.len() && (
                            #[trigger] event_to_action@[m]).0@ == key@;
                        assert(spec_key_in(prefix, key@));
                        let x = choose|x: int|
                            0 <= x < prefix.len() && (#[trigger] prefix[x]).0 == key@;
                        assert(full[x] == prefix[x]) by {
                            if x < done.len() {
                                assert(prefix[x] == done[x]);
                            } else {
                                assert(prefix[x] == mapped.take(ki as int)[x - done.len()]);
                                assert(full[x] == mapped[x - done.len()]);
                            }
                        }
                        assert(spec_has_dup_key(full));
                        // the processed prefix grows by the skipped entry
                        assert(done + mapped.take(ki + 1) =~= prefix.push(mapped[ki as int]));
                        assert forall|x2: int|
                            0 <= x2 < (done + mapped.take(ki + 1)).len() implies spec_key_in(
                            event_to_action@.map_values(|p: (String, ActionId)| (p.0@, p.1)),
                            (#[trigger] (done + mapped.take(ki + 1))[x2]).0,
                        ) by {
                            let ev = event_to_action@.map_values(
                                |p: (String, ActionId)| (p.0@, p.1),
                            );
                            if x2 < prefix.len() {
                                assert((done + mapped.take(ki + 1))[x2] == prefix[x2]);
                            } else {
                                assert((done + mapped.take(ki + 1))[x2].0 == key@);
                                assert(ev[m] == (event_to_action@[m].0@, event_to_action@[m].1));
                                assert(ev[m].0 == key@);
                            }
                        }
                        assert forall|y: int|
                            0 <= y < event_to_action@.len() implies spec_key_in(
                            done + mapped.take(ki + 1),
                            (#[trigger] event_to_action@[y]).0@,
                        ) by {
                            lemma_key_in_push(prefix, mapped[ki as int], event_to_action@[y].0@);
                        }
                    }
                    issues.push(msg);
                    proof {
                        assert(issues@[issues@.len() - 1] == msg);
                        dup_at = Some(issues@.len() - 1);
                    }
                } else {
                    proof {
                        let ev = event_to_action@.map_values(
                            |p: (String, ActionId)| (p.0@, p.1),
                        );
                        let prefix = done + mapped.take(ki as int);
                        assert(event_to_action@.push((key, action)).map_values(
                            |p: (String, ActionId)| (p.0@, p.1),
                        ) =~= ev.push((key@, a_spec)));
                        assert(mapped.take(ki + 1) =~= mapped.take(ki as int).push(
                            mapped[ki as int],
                        ));
                        assert(events_before + mapped.take(ki + 1) =~= (events_before
                            + mapped.take(ki as int)).push((key@, a_spec)));
                        assert(done + mapped.take(ki + 1) =~= prefix.push(mapped[ki as int]));
                        // the fresh key keeps the table duplicate-free
                        assert(!spec_has_dup_key(ev.push((key@, a_spec)))) by {
                            assert forall|x: int, y: int|
                                0 <= x < y < ev.push((key@, a_spec)).len() implies (
                            #[trigger] ev.push((key@, a_spec))[x]).0 != (#[trigger] ev.push(
                                (key@, a_spec),
                            )[y]).0 by {
                                if y == ev.len() {
                                    assert(event_to_action@[x].0@ != key@);
                                    assert(ev[x] == (event_to_action@[x].0@,
                                        event_to_action@[x].1));
                                }
                            }
                        }
                        // and the processed prefix stays duplicate-free: its keys
                        // all sit in the table, which the fresh key missed
                        if dup_at is None {
                            assert(!spec_has_dup_key(prefix.push(mapped[ki as int]))) by {
                                assert forall|x: int, y: int|
                                    0 <= x < y < prefix.push(mapped[ki as int]).len() implies (
                                #[trigger] prefix.push(mapped[ki as int])[x]).0 != (
                                #[trigger] prefix.push(mapped[ki as int])[y]).0 by {
                                    if y == prefix.len() {
                                        assert(spec_key_in(ev, prefix[x].0));
                                        let w = choose|w: int|
                                            0 <= w < ev.len() && (#[trigger] ev[w]).0
                                                == prefix[x].0;
                                        if prefix[x].0 == key@ {
                                            assert(ev[w] == (event_to_action@[w].0@,
                                                event_to_action@[w].1));
                                            assert(event_to_action@[w].0@ == key@);
                                        }
                                    }
                                }
                            }
                        }
                        // both key correspondences extend to the new entry
                        assert forall|x2: int|
                            0 <= x2 < (done + mapped.take(ki + 1)).len() implies spec_key_in(
                            ev.push((key@, a_spec)),
                            (#[trigger] (done + mapped.take(ki + 1))[x2]).0,
                        ) by {
                            if x2 < prefix.len() {
                                assert((done + mapped.take(ki + 1))[x2] == prefix[x2]);
                                assert(spec_key_in(ev, prefix[x2].0));
                                lemma_key_in_push(ev, (key@, a_spec), prefix[x2].0);
                            } else {
                                assert((done + mapped.take(ki + 1))[x2].0 == key@);
                                assert(ev.push((key@, a_spec))[ev.len() as int].0 == key@);
                            }
                        }
                        assert forall|y: int|
                            0 <= y < event_to_action@.push((key, action)).len() implies spec_key_in(
                            done + mapped.take(ki + 1),
                            (#[trigger] event_to_action@.push((key, action))[y]).0@,
                        ) by {
                            if y < event_to_action@.len() {
                                assert(event_to_action@.push((key, action))[y]
                                    == event_to_action@[y]);
                                lemma_key_in_push(
                                    prefix,
                                    mapped[ki as int],
                                    event_to_action@[y].0@,
                                );
                            } else {
                                assert(event_to_action@.push((key, action))[y].0@ == key@);
                                assert((done + mapped.take(ki + 1))[prefix.len() as int].0
                                    == key@);
                            }
                        }
                    }
                    event_to_action.push((key, action));
                }
                ki = ki + 1;
            }
            proof {
                assert(mapped.take(kn as int) =~= mapped);
                if issues@.len() == 0 {
                    assert(events_before + mapped + spec_events_from(ov, ai + 1)
                        =~= spec_events_from(ov, 0));
                }
                done = done + mapped;
            }
            ai = ai + 1;
        }
        proof {
            assert(spec_events_from(ov, 28) =~= Seq::<(Seq<char>, ActionId)>::empty());
            assert(spec_primaries_from(ov, 28) =~= Seq::<(ActionId, Seq<char>)>::empty());
            assert(primary_for_action@.map_values(|p: (ActionId, String)| (p.0, p.1@))
                + Seq::<(ActionId, Seq<char>)>::empty() =~= primary_for_action@.map_values(
                |p: (ActionId, String)| (p.0, p.1@),
            ));
            assert(done + Seq::<(Seq<char>, ActionId)>::empty() =~= done);
            assert(done == spec_events_from(ov, 0));
        }
        if issues.len() > 0 {
            proof {
                assert(ov == overrides@.map_values(|p: (String, String)| (p.0@, p.1@)));
                if exists|i: int|
                    0 <= i < overrides@.len() && spec_action_from_str(
                        (#[trigger] overrides@[i]).0@,
                    ) is None {
                    let i = choose|i: int|
                        0 <= i < overrides@.len() && spec_action_from_str(
                            (#[trigger] overrides@[i]).0@,
                        ) is None;
                    assert(ov[i] == (overrides@[i].0@, overrides@[i].1@));
                    match unknown_at {
                        Some(j) => {
                            assert(0 <= j < issues@.len() && spec_has_prefix(
                                issues@[j]@,
                                "unknown keybinding action '"@,
                            ));
                        },
                        None => {
                            assert(spec_action_from_str(ov[i].0) is Some);
                            assert(false);
                        },
                    }
                }
                if exists|i: int|
                    0 <= i < overrides@.len() && spec_action_from_str(
                        (#[trigger] overrides@[i]).0@,
                    ) is Some && spec_canonicalize(overrides@[i].1@) is None {
                    let i = choose|i: int|
                        0 <= i < overrides@.len() && spec_action_from_str(
                            (#[trigger] overrides@[i]).0@,
                        ) is Some && spec_canonicalize(overrides@[i].1@) is None;
                    assert(ov[i] == (overrides@[i].0@, overrides@[i].1@));
                    match invalid_at {
                        Some(j) => {
                            assert(0 <= j < issues@.len() && spec_has_prefix(
                                issues@[j]@,
                                "invalid keybinding for '"@,
                            ));
                        },
                        None => {
                            assert(!(spec_action_from_str(ov[i].0) is Some && spec_canonicalize(
                                ov[i].1,
                            ) is None));
                            assert(false);
                        },
                    }
                }
                if spec_has_dup_key(spec_events_from(ov, 0)) {
                    match dup_at {
                        Some(j) => {
                            assert(0 <= j < issues@.len() && spec_has_prefix(
                                issues@[j]@,
                                "duplicate keybinding '"@,
                            ));
                        },
                        None => {
                            assert(done == spec_events_from(ov, 0));
                            assert(false);
                        },
                    }
                }
                assert((exists|i: int|
                    0 <= i < overrides@.len() && spec_action_from_str(
                        (#[trigger] overrides@[i]).0@,
                    ) is None) ==> exists|j: int|
                    0 <= j < issues@.len() && spec_has_prefix(
                        (#[trigger] issues@[j])@,
                        "unknown keybinding action '"@,
                    ));
                assert((exists|i: int|
                    0 <= i < overrides@.len() && spec_action_from_str(
                        (#[trigger] overrides@[i]).0@,
                    ) is Some && spec_canonicalize(overrides@[i].1@) is None) ==> exists|j: int|
                    0 <= j < issues@.len() && spec_has_prefix(
                        (#[trigger] issues@[j])@,
                        "invalid keybinding for '"@,
                    ));
                assert(spec_has_dup_key(
                    spec_events_from(
                        overrides@.map_values(|p: (String, String)| (p.0@, p.1@)),
                        0,
                    ),
                ) ==> exists|j: int|
                    0 <= j < issues@.len() && spec_has_prefix(
                        (#[trigger] issues@[j])@,
                        "duplicate keybinding '"@,
                    ));
            }
            let rejected: Result<ActionKeyMap, Vec<String>> = Err(issues);
            proof {
                assert(rejected matches Err(is2) && (exists|j: int|
                    0 <= j < is2@.len() && spec_has_prefix(
                        (#[trigger] is2@[j])@,
                        "unknown keybinding action '"@,
                    )) == (exists|j: int|
                    0 <= j < is2@.len() && spec_has_prefix(
                        (#[trigger] is2@[j])@,
                        "unknown keybinding action '"@,
                    )));
            }
            return rejected;
        }
        proof {
            assert(event_to_action@.map_values(|p: (String, ActionId)| (p.0@, p.1))
                + Seq::<(Seq<char>, ActionId)>::empty() =~= event_to_action@.map_values(
                |p: (String, ActionId)| (p.0@, p.1),
            ));
        }
        let m = ActionKeyMap { event_to_action, primary_for_action };
        proof {
            assert(m.events_view() == spec_events_from(ov, 0));
            assert(m.primaries_view() == spec_primaries_from(ov, 0));
            assert forall|i: int, j: int|
                0 <= i < j < m.primaries_view().len() implies (#[trigger] m.primaries_view()[i]).0
                != (#[trigger] m.primaries_view()[j]).0 by {
                assert(m.primaries_view()[i].0 == spec_all_actions()[i]);
                assert(m.primaries_view()[j].0 == spec_all_actions()[j]);
            }
            assert forall|a: ActionId| spec_primary_lookup(m.primaries_view(), a) is Some by {
                let idx: int = match a {
                    ActionId::Quit => 0,
                    ActionId::Help => 1,
                    ActionId::FocusNext => 2,
                    ActionId::FocusPrev => 3,
                    ActionId::MoveDown => 4,
                    ActionId::MoveUp => 5,
                    ActionId::RefreshSnapshot => 6,
                    ActionId::RefreshDetails => 7,
                    ActionId::OpenCustomCommands => 8,
                    ActionId::ToggleFileForCommit => 9,
                    ActionId::ClearFileSelection => 10,
                    ActionId::Commit => 11,
                    ActionId::CommitInteractive => 12,
                    ActionId::Bookmark => 13,
                    ActionId::Shelve => 14,
                    ActionId::Push => 15,
                    ActionId::Pull => 16,
                    ActionId::Incoming => 17,
                    ActionId::Outgoing => 18,
                    ActionId::UpdateSelected => 19,
                    ActionId::UnshelveSelected => 20,
                    ActionId::ResolveMark => 21,
                    ActionId::ResolveUnmark => 22,
                    ActionId::RebaseSelected => 23,
                    ActionId::RebaseContinue => 24,
                    ActionId::RebaseAbort => 25,
                    ActionId::HisteditSelected => 26,
                    ActionId::HardRefresh => 27,
                };
                assert(m.primaries_view()[idx].0 == a);
                lemma_lookup_hits(m.primaries_view(), a, idx);
            }
        }
        Ok(m)
    }
}

/// If some entry carries the action, the lookup returns a value.
proof fn lemma_lookup_hits(prim: Seq<(ActionId, Seq<char>)>, a: ActionId, i: int)
    requires
        0 <= i < prim.len(),
        prim[i].0 == a,
    ensures
        spec_primary_lookup(prim, a) is Some,
    decreases prim.len(),
{
    if prim[0].0 == a {
    } else {
        assert(i > 0);
        assert(prim.drop_first()[i - 1].0 == a);
        lemma_lookup_hits(prim.drop_first(), a, i - 1);
    }
}

/// The display names of all actions, joined with commas.
fn action_name_list() -> (r: String)
    ensures
        r@.len() > 0,
{
    let actions = ActionId::all();
    let mut out = String::new();
    let n = actions.len();
    let mut i: usize = 0;
    while i < n
        invariant
            0 <= i <= n,
            n == 28,
            actions@ == spec_all_actions(),
            i > 0 ==> out@.len() > 0,
        decreases n - i,
    {
        if i > 0 {
            out.append(", ");
        }
        let name = actions[i].as_str();
        proof {
            if i == 0 {
                reveal_strlit("quit");
                assert(actions@[0] == ActionId::Quit);
                assert(name@ == "quit"@);
            }
        }
        out.append(name);
        i = i + 1;
    }
    out
}

/// The issues that a set of overrides would cause: empty exactly when every
/// override is valid and no key ends up bound twice.
pub fn validate_key_overrides(overrides: &Vec<(String, String)>) -> (r: Vec<String>)
    ensures
        (r@.len() == 0) == ({
            let ov = overrides@.map_values(|p: (String, String)| (p.0@, p.1@));
            spec_overrides_ok(ov) && !spec_has_dup_key(spec_events_from(ov, 0))
        }),
{
    match ActionKeyMap::from_overrides(overrides) {
        Ok(_) => Vec::new(),
        Err(issues) => issues,
    }
}


/// The recognized-modifier tokens of a canonical string, in their fixed
/// order.
pub open spec fn spec_mod_parts(ctrl: bool, alt: bool, super_key: bool, shift: bool) -> Seq<
    Seq<char>,
> {
    (if ctrl {
        seq!["ctrl"@]
    } else {
        Seq::empty()
    }) + (if alt {
        seq!["alt"@]
    } else {
        Seq::empty()
    }) + (if super_key {
        seq!["cmd"@]
    } else {
        Seq::empty()
    }) + (if shift {
        seq!["shift"@]
    } else {
        Seq::empty()
    })
}

/// The facts about the modifier literals the idempotence proof leans on.
proof fn lemma_mod_literal_facts()
    ensures
        "ctrl"@ =~= seq!['c', 't', 'r', 'l'],
        "alt"@ =~= seq!['a', 'l', 't'],
        "cmd"@ =~= seq!['c', 'm', 'd'],
        "shift"@ =~= seq!['s', 'h', 'i', 'f', 't'],
        "control"@ =~= seq!['c', 'o', 'n', 't', 'r', 'o', 'l'],
        "command"@ =~= seq!['c', 'o', 'm', 'm', 'a', 'n', 'd'],
        "super"@ =~= seq!['s', 'u', 'p', 'e', 'r'],
        "ctrl+"@ =~= "ctrl"@ + seq!['+'],
        "alt+"@ =~= "alt"@ + seq!['+'],
        "cmd+"@ =~= "cmd"@ + seq!['+'],
        "shift+"@ =~= "shift"@ + seq!['+'],
        crate::text::spec_lower_seq("ctrl"@) == "ctrl"@,
        crate::text::spec_lower_seq("alt"@) == "alt"@,
        crate::text::spec_lower_seq("cmd"@) == "cmd"@,
        crate::text::spec_lower_seq("shift"@) == "shift"@,
{
    reveal_strlit("ctrl");
    reveal_strlit("alt");
    reveal_strlit("cmd");
    reveal_strlit("shift");
    reveal_strlit("control");
    reveal_strlit("command");
    reveal_strlit("super");
    reveal_strlit("ctrl+");
    reveal_strlit("alt+");
    reveal_strlit("cmd+");
    reveal_strlit("shift+");
    crate::text::lemma_lower_id("ctrl"@);
    crate::text::lemma_lower_id("alt"@);
    crate::text::lemma_lower_id("cmd"@);
    crate::text::lemma_lower_id("shift"@);
}

/// A canonicalized key token keeps its shape: it is non-empty, free of `+`
/// and of whitespace at its ends, and canonicalizing it again changes
/// nothing.
proof fn lemma_normalize_key_props(tok: Seq<char>, key: Seq<char>)
    requires
        spec_normalize_key(tok) == Some(key),
        tok.len() > 0,
        !crate::text::spec_is_space(tok[0]),
        !crate::text::spec_is_space(tok.last()),
        forall|j: int| 0 <= j < tok.len() ==> tok[j] != '+',
    ensures
        key.len() > 0,
        !crate::text::spec_is_space(key[0]),
        !crate::text::spec_is_space(key.last()),
        forall|j: int| 0 <= j < key.len() ==> key[j] != '+',
        spec_normalize_key(key) == Some(key),
{
    if tok.len() == 1 {
        assert(key == tok);
        assert(key.last() == key[0]);
    } else {
        reveal_strlit("tab");
        reveal_strlit("backtab");
        reveal_strlit("up");
        reveal_strlit("down");
        reveal_strlit("enter");
        reveal_strlit("esc");
        reveal_strlit("escape");
        reveal_strlit("backspace");
        assert("tab"@ =~= seq!['t', 'a', 'b']);
        assert("up"@ =~= seq!['u', 'p']);
        assert("down"@ =~= seq!['d', 'o', 'w', 'n']);
        assert("enter"@ =~= seq!['e', 'n', 't', 'e', 'r']);
        assert("esc"@ =~= seq!['e', 's', 'c']);
        assert("backspace"@ =~= seq!['b', 'a', 'c', 'k', 's', 'p', 'a', 'c', 'e']);
        let l = crate::text::spec_lower_seq(tok);
        if l == "tab"@ || l == "backtab"@ {
            assert(key == "tab"@);
            crate::text::lemma_lower_id("tab"@);
        } else if l == "up"@ {
            crate::text::lemma_lower_id("up"@);
        } else if l == "down"@ {
            crate::text::lemma_lower_id("down"@);
        } else if l == "enter"@ {
            crate::text::lemma_lower_id("enter"@);
        } else if l == "esc"@ || l == "escape"@ {
            assert(key == "esc"@);
            crate::text::lemma_lower_id("esc"@);
        } else {
            assert(key == "backspace"@);
            crate::text::lemma_lower_id("backspace"@);
        }
    }
}

/// Splitting a canonical string recovers its modifier tokens and its key.
proof fn lemma_canon_split(ctrl: bool, alt: bool, super_key: bool, shift: bool, key: Seq<char>)
    requires
        key.len() > 0,
        forall|j: int| 0 <= j < key.len() ==> key[j] != '+',
    ensures
        spec_split(spec_canon_string(ctrl, alt, super_key, shift, key), '+') == spec_mod_parts(
            ctrl,
            alt,
            super_key,
            shift,
        ) + seq![key],
{
    lemma_mod_literal_facts();
    let e = Seq::<char>::empty();
    let ep = Seq::<Seq<char>>::empty();
    let t3 = (if shift {
        "shift+"@
    } else {
        e
    }) + key;
    let t2 = (if super_key {
        "cmd+"@
    } else {
        e
    }) + t3;
    let t1 = (if alt {
        "alt+"@
    } else {
        e
    }) + t2;
    let t0 = (if ctrl {
        "ctrl+"@
    } else {
        e
    }) + t1;
    assert(spec_canon_string(ctrl, alt, super_key, shift, key) =~= t0);
    let p3 = (if shift {
        seq!["shift"@]
    } else {
        ep
    }) + seq![key];
    let p2 = (if super_key {
        seq!["cmd"@]
    } else {
        ep
    }) + p3;
    let p1 = (if alt {
        seq!["alt"@]
    } else {
        ep
    }) + p2;
    let p0 = (if ctrl {
        seq!["ctrl"@]
    } else {
        ep
    }) + p1;
    crate::text::lemma_split_single(key, '+');
    if shift {
        assert(t3 =~= "shift"@ + seq!['+'] + key);
        crate::text::lemma_split_cons("shift"@, key, '+');
        assert(spec_split(t3, '+') =~= p3);
    } else {
        assert(t3 =~= key);
        assert(spec_split(t3, '+') =~= p3);
    }
    if super_key {
        assert(t2 =~= "cmd"@ + seq!['+'] + t3);
        crate::text::lemma_split_cons("cmd"@, t3, '+');
        assert(spec_split(t2, '+') =~= p2);
    } else {
        assert(t2 =~= t3);
        assert(spec_split(t2, '+') =~= p2);
    }
    if alt {
        assert(t1 =~= "alt"@ + seq!['+'] + t2);
        crate::text::lemma_split_cons("alt"@, t2, '+');
        assert(spec_split(t1, '+') =~= p1);
    } else {
        assert(t1 =~= t2);
        assert(spec_split(t1, '+') =~= p1);
    }
    if ctrl {
        assert(t0 =~= "ctrl"@ + seq!['+'] + t1);
        crate::text::lemma_split_cons("ctrl"@, t1, '+');
        assert(spec_split(t0, '+') =~= p0);
    } else {
        assert(t0 =~= t1);
        assert(spec_split(t0, '+') =~= p0);
    }
    assert(p0 =~= spec_mod_parts(ctrl, alt, super_key, shift) + seq![key]);
}

/// Folding the modifiers from a later index skips a prepended token.
proof fn lemma_mods_shift(m: Seq<char>, rest: Seq<Seq<char>>, i: int, f: ModFlags)
    requires
        0 <= i <= rest.len(),
    ensures
        spec_mods(seq![m] + rest, i + 1, f) == spec_mods(rest, i, f),
    decreases rest.len() - i,
{
    if i < rest.len() {
        assert((seq![m] + rest)[i + 1] == rest[i]);
        match spec_mod_apply(f, rest[i]) {
            None => {},
            Some(f2) => {
                lemma_mods_shift(m, rest, i + 1, f2);
            },
        }
    }
}

/// Folding the canonical modifier tokens restores exactly the flags they
/// spell.
proof fn lemma_mods_fold(ctrl: bool, alt: bool, super_key: bool, shift: bool)
    ensures
        spec_mods(
            spec_mod_parts(ctrl, alt, super_key, shift),
            0,
            ModFlags { ctrl: false, alt: false, shift: false, super_key: false },
        ) == Ok::<ModFlags, Seq<char>>(ModFlags { ctrl, alt, shift, super_key }),
{
    lemma_mod_literal_facts();
    let f0 = ModFlags { ctrl: false, alt: false, shift: false, super_key: false };
    let ep = Seq::<Seq<char>>::empty();
    let l3 = if shift {
        seq!["shift"@]
    } else {
        ep
    };
    let l2 = (if super_key {
        seq!["cmd"@]
    } else {
        ep
    }) + l3;
    let l1 = (if alt {
        seq!["alt"@]
    } else {
        ep
    }) + l2;
    let l0 = (if ctrl {
        seq!["ctrl"@]
    } else {
        ep
    }) + l1;
    assert(spec_mod_parts(ctrl, alt, super_key, shift) =~= l0);
    let f1 = ModFlags { ctrl, ..f0 };
    let f2 = ModFlags { alt, ..f1 };
    let f3 = ModFlags { super_key, ..f2 };
    let f4 = ModFlags { shift, ..f3 };
    assert(spec_mods(l3, 0, f3) == Ok::<ModFlags, Seq<char>>(f4)) by {
        if shift {
            assert(l3[0] == "shift"@);
            assert(spec_mod_apply(f3, "shift"@) == Some(ModFlags { shift: true, ..f3 }));
            lemma_mods_shift("shift"@, ep, 0, ModFlags { shift: true, ..f3 });
            assert(seq!["shift"@] + ep =~= l3);
            assert(spec_mods(l3, 1, ModFlags { shift: true, ..f3 }) == Ok::<ModFlags, Seq<char>>(
                ModFlags { shift: true, ..f3 },
            ));
            assert(f4 == ModFlags { shift: true, ..f3 });
        } else {
            assert(f4 == f3);
        }
    }
    assert(spec_mods(l2, 0, f2) == Ok::<ModFlags, Seq<char>>(f4)) by {
        if super_key {
            assert(l2 =~= seq!["cmd"@] + l3);
            assert(l2[0] == "cmd"@);
            assert(spec_mod_apply(f2, "cmd"@) == Some(ModFlags { super_key: true, ..f2 }));
            assert(f3 == ModFlags { super_key: true, ..f2 });
            lemma_mods_shift("cmd"@, l3, 0, f3);
        } else {
            assert(l2 =~= l3);
            assert(f3 == f2);
        }
    }
    assert(spec_mods(l1, 0, f1) == Ok::<ModFlags, Seq<char>>(f4)) by {
        if alt {
            assert(l1 =~= seq!["alt"@] + l2);
            assert(l1[0] == "alt"@);
            assert(spec_mod_apply(f1, "alt"@) == Some(ModFlags { alt: true, ..f1 }));
            assert(f2 == ModFlags { alt: true, ..f1 });
            lemma_mods_shift("alt"@, l2, 0, f2);
        } else {
            assert(l1 =~= l2);
            assert(f2 == f1);
        }
    }
    assert(spec_mods(l0, 0, f0) == Ok::<ModFlags, Seq<char>>(f4)) by {
        if ctrl {
            assert(l0 =~= seq!["ctrl"@] + l1);
            assert(l0[0] == "ctrl"@);
            assert(spec_mod_apply(f0, "ctrl"@) == Some(ModFlags { ctrl: true, ..f0 }));
            assert(f1 == ModFlags { ctrl: true, ..f0 });
            lemma_mods_shift("ctrl"@, l1, 0, f1);
        } else {
            assert(l0 =~= l1);
            assert(f1 == f0);
        }
    }
    assert(f4 == (ModFlags { ctrl, alt, shift, super_key }));
}

/// Law: canonicalization is idempotent — reading a canonical combination
/// string back and canonicalizing it again gives the same canonical string.
pub proof fn lemma_canonicalize_idempotent(s: Seq<char>)
    requires
        spec_canonicalize(s) is Some,
    ensures
        spec_canonicalize(spec_canonicalize(s)->Some_0) == spec_canonicalize(s),
{
    lemma_mod_literal_facts();
    let t = spec_trim(s);
    let toks = spec_key_tokens(t);
    let pieces = spec_split(t, '+');
    crate::text::lemma_split_count(t, '+');
    assert(toks.len() == pieces.len());
    assert(!(exists|i: int| 0 <= i < toks.len() && (#[trigger] toks[i]).len() == 0));
    let mods_result = spec_mods(toks.take(toks.len() - 1), 0, ModFlags {
        ctrl: false,
        alt: false,
        shift: false,
        super_key: false,
    });
    assert(mods_result is Ok);
    let f = mods_result->Ok_0;
    assert(spec_normalize_key(toks.last()) is Some);
    let key = spec_normalize_key(toks.last())->Some_0;
    let c = spec_canon_string(f.ctrl, f.alt, f.super_key, f.shift, key);
    assert(spec_canonicalize(s) == Some(c));

    // the key keeps its shape
    let raw_tok = pieces[pieces.len() - 1];
    assert(toks[toks.len() - 1] == spec_trim(raw_tok));
    let tok = toks.last();
    assert(tok.len() > 0);
    crate::text::lemma_split_pieces_free(t, '+');
    assert(forall|j: int| 0 <= j < raw_tok.len() ==> raw_tok[j] != '+') by {
        assert(forall|j: int|
            0 <= j < raw_tok.len() ==> #[trigger] spec_split(t, '+')[pieces.len() - 1][j] != '+');
    }
    crate::text::lemma_trim_no_char(raw_tok, '+');
    let t1 = crate::text::spec_trim_start(raw_tok);
    crate::text::lemma_trim_start_first(raw_tok);
    crate::text::lemma_trim_end_last(t1);
    crate::text::lemma_trim_end_first(t1);
    assert(!crate::text::spec_is_space(tok[0]));
    assert(!crate::text::spec_is_space(tok.last()));
    lemma_normalize_key_props(tok, key);

    // the canonical string splits back into its tokens
    lemma_canon_split(f.ctrl, f.alt, f.super_key, f.shift, key);
    let parts = spec_mod_parts(f.ctrl, f.alt, f.super_key, f.shift) + seq![key];

    // it trims to itself
    assert(c.len() > 0);
    assert(c.last() == key.last()) by {
        let prefix_len = c.len() - key.len();
        assert(c[c.len() - 1] == key[key.len() - 1]);
    }
    assert(!crate::text::spec_is_space(c[0])) by {
        if f.ctrl {
            assert(c[0] == 'c');
        } else if f.alt {
            assert(c[0] == 'a');
        } else if f.super_key {
            assert(c[0] == 'c');
        } else if f.shift {
            assert(c[0] == 's');
        } else {
            assert(c[0] == key[0]);
        }
    }
    crate::text::lemma_trim_id(c);

    // every token of the canonical string is already trimmed
    crate::text::lemma_trim_id("ctrl"@);
    crate::text::lemma_trim_id("alt"@);
    crate::text::lemma_trim_id("cmd"@);
    crate::text::lemma_trim_id("shift"@);
    crate::text::lemma_trim_id(key);
    let toks2 = spec_key_tokens(c);
    assert(toks2 =~= parts) by {
        assert(spec_split(c, '+') == parts);
        assert forall|i: int| 0 <= i < parts.len() implies spec_trim(#[trigger] parts[i])
            == parts[i] by {
            if i == parts.len() - 1 {
                assert(parts[i] == key);
            } else {
                assert(parts[i] == spec_mod_parts(f.ctrl, f.alt, f.super_key, f.shift)[i]);
            }
        }
    }
    assert(!(exists|i: int| 0 <= i < toks2.len() && (#[trigger] toks2[i]).len() == 0)) by {
        assert(forall|i: int| 0 <= i < toks2.len() ==> (#[trigger] toks2[i]).len() > 0);
    }
    assert(toks2.take(toks2.len() - 1) =~= spec_mod_parts(f.ctrl, f.alt, f.super_key, f.shift));
    lemma_mods_fold(f.ctrl, f.alt, f.super_key, f.shift);
    assert(toks2.last() == key);
    assert(spec_canonicalize(c) == Some(
        spec_canon_string(f.ctrl, f.alt, f.super_key, f.shift, key),
    ));
}

} // verus!

