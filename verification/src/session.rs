//! The interactive session state machine: panel focus and selections, the
//! modal stack, the two-step rebase picker, commit-file selection,
//! request-id-tagged detail fetches, and the dispatch of every mutating
//! action. The machine never performs I/O itself: each method turns an input
//! event into state changes plus a queue of effects that the surrounding
//! event loop executes.

use vstd::prelude::*;

use crate::commands::{CommandResult, CustomInvocation, HgAction};
use crate::config::{AppConfig, CommandContext, CustomCommand};
use crate::domain::RepoSnapshot;
use crate::keys::{spec_canonical_event, ActionId, ActionKeyMap, KeyCode, KeyInput};

verus! {

/// The panels of the dashboard, in focus-cycling order.
#[derive(Debug, Clone, Copy, PartialEq, Eq, Structural)]
pub enum FocusPanel {
    Files,
    Revisions,
    Bookmarks,
    Shelves,
    Conflicts,
    Log,
}

/// The panels in cycling order.
pub open spec fn spec_all_panels() -> Seq<FocusPanel> {
    seq![
        FocusPanel::Files,
        FocusPanel::Revisions,
        FocusPanel::Bookmarks,
        FocusPanel::Shelves,
        FocusPanel::Conflicts,
        FocusPanel::Log,
    ]
}

impl FocusPanel {
    /// Every panel, in cycling order.
    pub fn all() -> (r: Vec<FocusPanel>)
        ensures
            r@ == spec_all_panels(),
    {
        let mut v: Vec<FocusPanel> = Vec::new();
        v.push(FocusPanel::Files);
        v.push(FocusPanel::Revisions);
        v.push(FocusPanel::Bookmarks);
        v.push(FocusPanel::Shelves);
        v.push(FocusPanel::Conflicts);
        v.push(FocusPanel::Log);
        proof {
            assert(v@ =~= spec_all_panels());
        }
        v
    }
}

/// What a text-input modal is collecting.
#[derive(Debug, Clone, Copy, PartialEq, Eq, Structural)]
pub enum InputPurpose {
    CommitMessage,
    CommitMessageInteractive,
    BookmarkName,
    ShelveName,
}

/// An open text-input modal.
#[derive(Debug, Clone)]
pub struct InputState {
    pub title: String,
    pub value: String,
    pub purpose: InputPurpose,
}

/// An open confirmation modal, holding the action it guards.
#[derive(Debug, Clone)]
pub struct PendingConfirmation {
    pub message: String,
    pub action: PendingRunAction,
}

/// An open command palette.
#[derive(Debug, Clone, Copy, PartialEq, Eq, Structural)]
pub struct CommandPaletteState {
    pub selected: usize,
}

/// A queued interactive commit, run in the foreground by the event loop.
#[derive(Debug, Clone)]
pub struct InteractiveCommitRequest {
    pub message: String,
    pub files: Vec<String>,
}

/// An action waiting to run: built-in or user-defined.
#[derive(Debug, Clone)]
pub enum PendingRunAction {
    Hg(HgAction),
    Custom(CustomRunAction),
}

/// The coarse kind of a finished action, deciding which outcome hint is
/// shown.
#[derive(Debug, Clone, Copy, PartialEq, Eq, Structural)]
pub enum ActionOutcomeKind {
    RebaseStart,
    RebaseContinue,
    RebaseAbort,
    ResolveMark,
    ResolveUnmark,
    Other,
}

/// A prepared user-defined command run.
#[derive(Debug, Clone)]
pub struct CustomRunAction {
    pub title: String,
    pub show_output: bool,
    pub invocation: CustomInvocation,
}

/// The preview of a pending action.
pub open spec fn spec_pending_preview(a: PendingRunAction) -> Seq<char> {
    match a {
        PendingRunAction::Hg(action) => crate::commands::spec_action_preview(action),
        PendingRunAction::Custom(c) => crate::commands::spec_invocation_preview(c.invocation),
    }
}

impl PendingRunAction {
    /// The command line this pending action stands for.
    pub fn command_preview(&self) -> (r: String)
        ensures
            r@ == spec_pending_preview(*self),
    {
        match self {
            PendingRunAction::Hg(action) => action.command_preview(),
            PendingRunAction::Custom(c) => c.invocation.command_preview(),
        }
    }

    /// Whether the raw output is surfaced in the detail pane afterwards:
    /// only for user-defined commands configured to do so.
    pub fn show_output(&self) -> (r: bool)
        ensures
            r == match *self {
                PendingRunAction::Hg(_) => false,
                PendingRunAction::Custom(c) => c.show_output,
            },
    {
        match self {
            PendingRunAction::Hg(_) => false,
            PendingRunAction::Custom(c) => c.show_output,
        }
    }

    /// Whether a success clears the commit-file selection: only a plain
    /// commit does.
    pub fn clears_commit_selection_on_success(&self) -> (r: bool)
        ensures
            r == (self matches PendingRunAction::Hg(HgAction::Commit { .. })),
    {
        match self {
            PendingRunAction::Hg(HgAction::Commit { .. }) => true,
            _ => false,
        }
    }

    /// The outcome kind of this action.
    pub fn outcome_kind(&self) -> (r: ActionOutcomeKind)
        ensures
            r == spec_outcome_kind(*self),
    {
        match self {
            PendingRunAction::Hg(HgAction::RebaseSourceDest { .. }) => ActionOutcomeKind::RebaseStart,
            PendingRunAction::Hg(HgAction::RebaseContinue) => ActionOutcomeKind::RebaseContinue,
            PendingRunAction::Hg(HgAction::RebaseAbort) => ActionOutcomeKind::RebaseAbort,
            PendingRunAction::Hg(HgAction::ResolveMark { .. }) => ActionOutcomeKind::ResolveMark,
            PendingRunAction::Hg(HgAction::ResolveUnmark { .. }) => ActionOutcomeKind::ResolveUnmark,
            _ => ActionOutcomeKind::Other,
        }
    }
}

/// The outcome kind of a pending action.
pub open spec fn spec_outcome_kind(a: PendingRunAction) -> ActionOutcomeKind {
    match a {
        PendingRunAction::Hg(HgAction::RebaseSourceDest { .. }) => ActionOutcomeKind::RebaseStart,
        PendingRunAction::Hg(HgAction::RebaseContinue) => ActionOutcomeKind::RebaseContinue,
        PendingRunAction::Hg(HgAction::RebaseAbort) => ActionOutcomeKind::RebaseAbort,
        PendingRunAction::Hg(HgAction::ResolveMark { .. }) => ActionOutcomeKind::ResolveMark,
        PendingRunAction::Hg(HgAction::ResolveUnmark { .. }) => ActionOutcomeKind::ResolveUnmark,
        _ => ActionOutcomeKind::Other,
    }
}

/// A completion handed back to the session by the event loop.
#[derive(Debug)]
pub enum AppEvent {
    SnapshotLoaded {
        preserve_details: bool,
        include_revisions: bool,
        result: Result<RepoSnapshot, String>,
    },
    DetailLoaded { request_id: u64, result: Result<String, String> },
    ActionFinished {
        action_kind: ActionOutcomeKind,
        action_preview: String,
        show_output: bool,
        clear_commit_selection: bool,
        result: Result<CommandResult, String>,
    },
}

/// Work the event loop must perform on the session's behalf.
#[derive(Debug)]
pub enum Effect {
    RefreshSnapshot { preserve_details: bool, include_revisions: bool },
    FetchFileDiff { request_id: u64, path: String },
    FetchRevisionPatch { request_id: u64, rev: i64 },
    RunAction {
        action_kind: ActionOutcomeKind,
        action_preview: String,
        show_output: bool,
        clear_commit_selection: bool,
        action: PendingRunAction,
    },
}

/// A rectangle of the terminal grid.
#[derive(Debug, Clone, Copy, PartialEq, Eq, Structural)]
pub struct Region {
    pub x: u16,
    pub y: u16,
    pub width: u16,
    pub height: u16,
}

impl Region {
    /// The all-zero region.
    pub fn empty() -> (r: Region)
        ensures
            r == (Region { x: 0u16, y: 0u16, width: 0u16, height: 0u16 }),
    {
        Region { x: 0, y: 0, width: 0, height: 0 }
    }
}

/// Whether the point lies inside the region.
pub open spec fn spec_region_contains(r: Region, x: u16, y: u16) -> bool {
    &&& r.x <= x < r.x + r.width
    &&& r.y <= y < r.y + r.height
}

/// Tests whether a point lies inside a region.
pub fn rect_contains(r: Region, x: u16, y: u16) -> (b: bool)
    ensures
        b == spec_region_contains(r, x, y),
{
    let x_ok = x >= r.x && (x as u32) < (r.x as u32) + (r.width as u32);
    let y_ok = y >= r.y && (y as u32) < (r.y as u32) + (r.height as u32);
    x_ok && y_ok
}

/// Where each panel sits on screen.
#[derive(Debug, Clone, Copy, PartialEq, Eq, Structural)]
pub struct UiRects {
    pub header: Region,
    pub footer: Region,
    pub files: Region,
    pub details: Region,
    pub revisions: Region,
    pub bookmarks: Region,
    pub shelves: Region,
    pub conflicts: Region,
    pub log: Region,
}

impl Default for UiRects {
    fn default() -> (r: UiRects)
        ensures
            r == spec_empty_rects(),
    {
        UiRects {
            header: Region::empty(),
            footer: Region::empty(),
            files: Region::empty(),
            details: Region::empty(),
            revisions: Region::empty(),
            bookmarks: Region::empty(),
            shelves: Region::empty(),
            conflicts: Region::empty(),
            log: Region::empty(),
        }
    }
}

/// The all-empty layout.
pub open spec fn spec_empty_rects() -> UiRects {
    UiRects {
        header: Region { x: 0u16, y: 0u16, width: 0u16, height: 0u16 },
        footer: Region { x: 0u16, y: 0u16, width: 0u16, height: 0u16 },
        files: Region { x: 0u16, y: 0u16, width: 0u16, height: 0u16 },
        details: Region { x: 0u16, y: 0u16, width: 0u16, height: 0u16 },
        revisions: Region { x: 0u16, y: 0u16, width: 0u16, height: 0u16 },
        bookmarks: Region { x: 0u16, y: 0u16, width: 0u16, height: 0u16 },
        shelves: Region { x: 0u16, y: 0u16, width: 0u16, height: 0u16 },
        conflicts: Region { x: 0u16, y: 0u16, width: 0u16, height: 0u16 },
        log: Region { x: 0u16, y: 0u16, width: 0u16, height: 0u16 },
    }
}

/// The region of one panel.
pub open spec fn spec_panel_rect(rects: UiRects, panel: FocusPanel) -> Region {
    match panel {
        FocusPanel::Files => rects.files,
        FocusPanel::Revisions => rects.revisions,
        FocusPanel::Bookmarks => rects.bookmarks,
        FocusPanel::Shelves => rects.shelves,
        FocusPanel::Conflicts => rects.conflicts,
        FocusPanel::Log => rects.log,
    }
}

impl UiRects {
    /// The region of one panel.
    pub fn panel_rect(&self, panel: FocusPanel) -> (r: Region)
        ensures
            r == spec_panel_rect(*self, panel),
    {
        match panel {
            FocusPanel::Files => self.files,
            FocusPanel::Revisions => self.revisions,
            FocusPanel::Bookmarks => self.bookmarks,
            FocusPanel::Shelves => self.shelves,
            FocusPanel::Conflicts => self.conflicts,
            FocusPanel::Log => self.log,
        }
    }
}

/// A mouse button.
#[derive(Debug, Clone, Copy, PartialEq, Eq, Structural)]
pub enum MouseButton {
    Left,
    Right,
    Middle,
}

/// A mouse event kind the session reacts to.
#[derive(Debug, Clone, Copy, PartialEq, Eq, Structural)]
pub enum MouseEventKind {
    Down(MouseButton),
    ScrollDown,
    ScrollUp,
    Other,
}

/// One mouse event.
#[derive(Debug, Clone, Copy, PartialEq, Eq, Structural)]
pub struct MouseEvent {
    pub kind: MouseEventKind,
    pub column: u16,
    pub row: u16,
}

/// The last click, for double-click detection.
#[derive(Debug, Clone, Copy, PartialEq, Eq, Structural)]
pub struct LastMouseClick {
    pub panel: FocusPanel,
    pub index: Option<usize>,
    pub button: MouseButton,
    pub at_ms: u64,
}

/// What the detail pane is following.
#[derive(Debug, Clone, PartialEq, Eq)]
pub enum DetailTarget {
    File(String),
    Revision(i64),
    Nothing,
}

/// How many revisions a full refresh asks for.
pub const LOG_LIMIT: usize = 200;

/// How many log lines are kept before the oldest are dropped.
pub const MAX_LOG_LINES: usize = 300;

/// Two clicks within this window form a double click.
pub const DOUBLE_CLICK_THRESHOLD_MS: u64 = 300;

/// The refresh throttle shared by the timer and post-action refreshes.
pub const REFRESH_THROTTLE_MS: u64 = 7000;

/// The set of paths selected for commit.
pub open spec fn spec_selection_set(sel: Seq<String>) -> Set<Seq<char>> {
    sel.map_values(|p: String| p@).to_set()
}

/// The whole interactive session state.
pub struct App {
    pub config: AppConfig,
    pub focus: FocusPanel,
    pub snapshot: RepoSnapshot,
    pub detail_text: String,
    pub details_scroll: usize,
    pub log_lines: Vec<String>,
    pub status_line: String,
    pub input: Option<InputState>,
    pub confirmation: Option<PendingConfirmation>,
    pub command_palette: Option<CommandPaletteState>,
    pub commit_file_selection: Vec<String>,
    pub interactive_commit_request: Option<InteractiveCommitRequest>,
    pub should_quit: bool,
    pub files_idx: usize,
    pub rev_idx: usize,
    pub bookmarks_idx: usize,
    pub shelves_idx: usize,
    pub conflicts_idx: usize,
    pub log_idx: usize,
    pub files_offset: usize,
    pub rev_offset: usize,
    pub bookmarks_offset: usize,
    pub shelves_offset: usize,
    pub conflicts_offset: usize,
    pub ui_rects: UiRects,
    pub now_ms: u64,
    pub clock_stamp: String,
    pub last_refresh_ms: u64,
    pub detail_request_id: u64,
    pub last_mouse_click: Option<LastMouseClick>,
    pub pending_rebase_source: Option<i64>,
    pub commit_graph_warning_emitted: bool,
    pub rebase_unavailable_notice_emitted: bool,
    pub last_rebase_hint: Option<String>,
    pub keymap: ActionKeyMap,
    pub effects: Vec<Effect>,
}

impl App {
    /// The commit-file selection as a set of paths.
    pub open spec fn selection_set(&self) -> Set<Seq<char>> {
        spec_selection_set(self.commit_file_selection@)
    }

    /// The selection never holds a path twice.
    pub open spec fn selection_nodup(&self) -> bool {
        forall|i: int, j: int|
            0 <= i < j < self.commit_file_selection@.len()
                ==> (#[trigger] self.commit_file_selection@[i])@ != (
            #[trigger] self.commit_file_selection@[j])@
    }

    /// Builds a fresh session around a configuration, replaying startup
    /// issues into the activity log. Invalid keybinding overrides fall back
    /// to the built-in defaults, each noted in the log.
    pub fn new_with_startup_issues(config: AppConfig, startup_issues: Vec<String>) -> (r: App)
        ensures
            r.config == config,
            ({
                let ov = config.keybinds@.map_values(|p: (String, String)| (p.0@, p.1@));
                (crate::keys::spec_overrides_ok(ov) && !crate::keys::spec_has_dup_key(
                    crate::keys::spec_events_from(ov, 0),
                )) ==> r.keymap.events_view() == crate::keys::spec_events_from(ov, 0)
                    && r.keymap.primaries_view() == crate::keys::spec_primaries_from(ov, 0)
            }),
            ({
                let ov = config.keybinds@.map_values(|p: (String, String)| (p.0@, p.1@));
                !(crate::keys::spec_overrides_ok(ov) && !crate::keys::spec_has_dup_key(
                    crate::keys::spec_events_from(ov, 0),
                )) ==> {
                    // the built-in defaults take over
                    let none = Seq::<(Seq<char>, Seq<char>)>::empty();
                    ||| (r.keymap.events_view() == crate::keys::spec_events_from(none, 0)
                        && r.keymap.primaries_view() == crate::keys::spec_primaries_from(none, 0))
                    ||| (r.keymap.events_view().len() == 0 && r.keymap.primaries_view().len() == 0)
                }
            }),
            r.focus == FocusPanel::Files,
            !r.should_quit,
            r.input is None,
            r.confirmation is None,
            r.command_palette is None,
            r.pending_rebase_source is None,
            r.interactive_commit_request is None,
            r.commit_file_selection@.len() == 0,
            r.effects@.len() == 0,
            r.detail_request_id == 0,
            r.selection_nodup(),
    {
        let status_line = build_startup_status(&config);
        let keymap_result = ActionKeyMap::from_overrides(&config.keybinds);
        let mut keymap_issues: Vec<String> = Vec::new();
        let keymap = match keymap_result {
            Ok(map) => map,
            Err(issues) => {
                keymap_issues = issues;
                let empty: Vec<(String, String)> = Vec::new();
                proof {
                    assert(empty@.map_values(|p: (String, String)| (p.0@, p.1@)) =~= Seq::<
                        (Seq<char>, Seq<char>),
                    >::empty());
                }
                match ActionKeyMap::from_overrides(&empty) {
                    Ok(map) => map,
                    Err(_) => ActionKeyMap {
                        event_to_action: Vec::new(),
                        primary_for_action: Vec::new(),
                    },
                }
            },
        };
        let ghost ov = config.keybinds@.map_values(|p: (String, String)| (p.0@, p.1@));
        let ghost kmap_snapshot = keymap;
        let mut app = App {
            config,
            focus: FocusPanel::Files,
            snapshot: RepoSnapshot::default(),
            detail_text: "Loading\u{2026}".to_owned(),
            details_scroll: 0,
            log_lines: Vec::new(),
            status_line,
            input: None,
            confirmation: None,
            command_palette: None,
            commit_file_selection: Vec::new(),
            interactive_commit_request: None,
            should_quit: false,
            files_idx: 0,
            rev_idx: 0,
            bookmarks_idx: 0,
            shelves_idx: 0,
            conflicts_idx: 0,
            log_idx: 0,
            files_offset: 0,
            rev_offset: 0,
            bookmarks_offset: 0,
            shelves_offset: 0,
            conflicts_offset: 0,
            ui_rects: UiRects::default(),
            now_ms: 0,
            clock_stamp: String::new(),
            last_refresh_ms: 0,
            detail_request_id: 0,
            last_mouse_click: None,
            pending_rebase_source: None,
            commit_graph_warning_emitted: false,
            rebase_unavailable_notice_emitted: false,
            last_rebase_hint: None,
            keymap,
            effects: Vec::new(),
        };
        let sn = startup_issues.len();
        let mut si: usize = 0;
        while si < sn
            invariant
                0 <= si <= sn,
                sn == startup_issues@.len(),
                app_quiet(&app),
                app.config == config,
                app.keymap == kmap_snapshot,
            decreases sn - si,
        {
            let mut line = "Config warning: ".to_owned();
            line.append(startup_issues[si].as_str());
            app.append_log(line);
            si = si + 1;
        }
        let kn = keymap_issues.len();
        let mut ki: usize = 0;
        while ki < kn
            invariant
                0 <= ki <= kn,
                kn == keymap_issues@.len(),
                app_quiet(&app),
                app.config == config,
                app.keymap == kmap_snapshot,
            decreases kn - ki,
        {
            let mut line = "Keybinding warning: ".to_owned();
            line.append(keymap_issues[ki].as_str());
            app.append_log(line);
            ki = ki + 1;
        }
        if app.config.custom_commands.len() == 0 {
            app.append_log("No custom commands configured.".to_owned());
        } else {
            let cn = app.config.custom_commands.len();
            let mut ci: usize = 0;
            while ci < cn
                invariant
                    0 <= ci <= cn,
                    cn == app.config.custom_commands@.len(),
                    app_quiet(&app),
                    app.config == config,
                    app.keymap == kmap_snapshot,
                decreases cn - ci,
            {
                let line = describe_custom_command(&app.config.custom_commands[ci]);
                app.append_log(line);
                ci = ci + 1;
            }
        }
        app
    }

    /// A fresh session without startup issues.
    pub fn new(config: AppConfig) -> (r: App)
        ensures
            r.focus == FocusPanel::Files,
            !r.should_quit,
            r.input is None,
            r.confirmation is None,
            r.command_palette is None,
            r.pending_rebase_source is None,
            r.effects@.len() == 0,
            r.selection_nodup(),
    {
        App::new_with_startup_issues(config, Vec::new())
    }

    /// Hands the queued effects to the event loop, leaving the queue empty.
    pub fn take_effects(&mut self) -> (r: Vec<Effect>)
        ensures
            final(self).effects@.len() == 0,
            r@ == old(self).effects@,
            state_except_effects_eq(*old(self), *final(self)),
    {
        let mut out: Vec<Effect> = Vec::new();
        core::mem::swap(&mut out, &mut self.effects);
        out
    }

    /// Updates the session's notion of the current time and the log-line
    /// timestamp.
    pub fn set_clock(&mut self, now_ms: u64, stamp: String)
        ensures
            final(self).now_ms == now_ms,
            final(self).clock_stamp == stamp,
            *final(self) == (App { now_ms, clock_stamp: stamp, ..*old(self) }),
    {
        self.now_ms = now_ms;
        self.clock_stamp = stamp;
    }

    /// Appends one line to the activity log, stamped with the current clock,
    /// dropping the oldest lines beyond the cap.
    pub fn append_log(&mut self, line: String)
        ensures
            spec_log_appended(old(self).log_lines@, final(self).log_lines@),
            final(self).log_lines@.last()@ == "["@ + old(self).clock_stamp@ + "] "@ + line@,
            state_except_log_eq(*old(self), *final(self)),
    {
        let mut stamped = "[".to_owned();
        stamped.append(self.clock_stamp.as_str());
        stamped.append("] ");
        stamped.append(line.as_str());
        let ghost pushed = old(self).log_lines@.push(stamped);
        self.log_lines.push(stamped);
        proof {
            assert(self.log_lines@ =~= pushed.skip(0));
        }
        while self.log_lines.len() > MAX_LOG_LINES
            invariant
                self.log_lines@.len() > 0,
                self.log_lines@.len() >= spec_min(pushed.len() as int, MAX_LOG_LINES as int),
                state_except_log_eq(*old(self), *self),
                exists|k: int|
                    0 <= k <= pushed.len() - self.log_lines@.len() && self.log_lines@ == #[trigger] pushed.skip(k)
                    && k == pushed.len() - self.log_lines@.len(),
            decreases self.log_lines@.len(),
        {
            let ghost before = self.log_lines@;
            self.log_lines.remove(0);
            proof {
                let k = choose|k: int|
                    0 <= k <= pushed.len() - before.len() && before == #[trigger] pushed.skip(k)
                        && k == pushed.len() - before.len();
                assert(before.remove(0) =~= pushed.skip(k + 1));
                assert(self.log_lines@ == pushed.skip(k + 1));
            }
        }
        proof {
            let k = choose|k: int|
                0 <= k <= pushed.len() - self.log_lines@.len() && self.log_lines@
                    == #[trigger] pushed.skip(k) && k == pushed.len() - self.log_lines@.len();
            assert(self.log_lines@.last() == pushed.last());
            assert(self.log_lines@ == pushed.skip(
                old(self).log_lines@.len() + 1 - self.log_lines@.len(),
            ));
            assert(old(self).log_lines@.push(self.log_lines@.last()) =~= pushed);
        }
    }

    /// The number of rows a panel list can show.
    pub fn panel_body_rows(&self, panel: FocusPanel) -> (r: usize)
        ensures
            r == spec_body_rows(spec_panel_rect(self.ui_rects, panel)),
    {
        let rect = self.ui_rects.panel_rect(panel);
        if rect.height >= 2 {
            (rect.height - 2) as usize
        } else {
            0
        }
    }

    /// The number of rows the detail pane can show.
    pub fn detail_body_rows(&self) -> (r: usize)
        ensures
            r == spec_body_rows(self.ui_rects.details),
    {
        if self.ui_rects.details.height >= 2 {
            (self.ui_rects.details.height - 2) as usize
        } else {
            0
        }
    }

    /// The length of the list a panel shows.
    pub fn panel_len(&self, panel: FocusPanel) -> (r: usize)
        ensures
            r == spec_panel_len(self, panel),
    {
        match panel {
            FocusPanel::Files => self.snapshot.files.len(),
            FocusPanel::Revisions => self.snapshot.revisions.len(),
            FocusPanel::Bookmarks => self.snapshot.bookmarks.len(),
            FocusPanel::Shelves => self.snapshot.shelves.len(),
            FocusPanel::Conflicts => self.snapshot.conflicts.len(),
            FocusPanel::Log => self.log_lines.len(),
        }
    }

    /// The selection index of a panel.
    pub fn panel_index(&self, panel: FocusPanel) -> (r: usize)
        ensures
            r == spec_panel_index(self, panel),
    {
        match panel {
            FocusPanel::Files => self.files_idx,
            FocusPanel::Revisions => self.rev_idx,
            FocusPanel::Bookmarks => self.bookmarks_idx,
            FocusPanel::Shelves => self.shelves_idx,
            FocusPanel::Conflicts => self.conflicts_idx,
            FocusPanel::Log => self.log_idx,
        }
    }

    /// Sets the selection index of a panel.
    pub fn set_panel_index(&mut self, panel: FocusPanel, index: usize)
        ensures
            spec_panel_index(final(self), panel) == index,
            panels_except_index_eq(*old(self), *final(self), panel),
    {
        match panel {
            FocusPanel::Files => self.files_idx = index,
            FocusPanel::Revisions => self.rev_idx = index,
            FocusPanel::Bookmarks => self.bookmarks_idx = index,
            FocusPanel::Shelves => self.shelves_idx = index,
            FocusPanel::Conflicts => self.conflicts_idx = index,
            FocusPanel::Log => self.log_idx = index,
        }
    }

    /// The scroll offset of a panel; the log panel scrolls by its index.
    pub fn panel_offset(&self, panel: FocusPanel) -> (r: usize)
        ensures
            r == spec_panel_offset(self, panel),
    {
        match panel {
            FocusPanel::Files => self.files_offset,
            FocusPanel::Revisions => self.rev_offset,
            FocusPanel::Bookmarks => self.bookmarks_offset,
            FocusPanel::Shelves => self.shelves_offset,
            FocusPanel::Conflicts => self.conflicts_offset,
            FocusPanel::Log => self.log_idx,
        }
    }

    /// Sets the scroll offset of a panel.
    pub fn set_panel_offset(&mut self, panel: FocusPanel, offset: usize)
        ensures
            spec_panel_offset(final(self), panel) == offset,
            panels_except_offset_eq(*old(self), *final(self), panel),
    {
        match panel {
            FocusPanel::Files => self.files_offset = offset,
            FocusPanel::Revisions => self.rev_offset = offset,
            FocusPanel::Bookmarks => self.bookmarks_offset = offset,
            FocusPanel::Shelves => self.shelves_offset = offset,
            FocusPanel::Conflicts => self.conflicts_offset = offset,
            FocusPanel::Log => self.log_idx = offset,
        }
    }

    /// The primary key label for an action, a question mark when unbound.
    pub fn key_for_action(&self, action: ActionId) -> (r: &str)
        ensures
            r@ == spec_key_label(self.keymap, action),
    {
        match self.keymap.key_for_action(action) {
            Some(k) => k,
            None => "?",
        }
    }
}

/// The primary key label of an action: its bound key, or a question mark.
pub open spec fn spec_key_label(m: ActionKeyMap, a: ActionId) -> Seq<char> {
    match crate::keys::spec_primary_lookup(m.primaries_view(), a) {
        Some(k) => k,
        None => "?"@,
    }
}

/// The rows inside a panel frame: its height minus the two border rows.
pub open spec fn spec_body_rows(r: Region) -> int {
    if r.height >= 2 {
        r.height - 2
    } else {
        0
    }
}

/// The list length behind each panel.
pub open spec fn spec_panel_len(s: &App, panel: FocusPanel) -> int {
    match panel {
        FocusPanel::Files => s.snapshot.files@.len() as int,
        FocusPanel::Revisions => s.snapshot.revisions@.len() as int,
        FocusPanel::Bookmarks => s.snapshot.bookmarks@.len() as int,
        FocusPanel::Shelves => s.snapshot.shelves@.len() as int,
        FocusPanel::Conflicts => s.snapshot.conflicts@.len() as int,
        FocusPanel::Log => s.log_lines@.len() as int,
    }
}

/// The selection index behind each panel.
pub open spec fn spec_panel_index(s: &App, panel: FocusPanel) -> int {
    match panel {
        FocusPanel::Files => s.files_idx as int,
        FocusPanel::Revisions => s.rev_idx as int,
        FocusPanel::Bookmarks => s.bookmarks_idx as int,
        FocusPanel::Shelves => s.shelves_idx as int,
        FocusPanel::Conflicts => s.conflicts_idx as int,
        FocusPanel::Log => s.log_idx as int,
    }
}

/// The scroll offset behind each panel.
pub open spec fn spec_panel_offset(s: &App, panel: FocusPanel) -> int {
    match panel {
        FocusPanel::Files => s.files_offset as int,
        FocusPanel::Revisions => s.rev_offset as int,
        FocusPanel::Bookmarks => s.bookmarks_offset as int,
        FocusPanel::Shelves => s.shelves_offset as int,
        FocusPanel::Conflicts => s.conflicts_offset as int,
        FocusPanel::Log => s.log_idx as int,
    }
}

/// Everything except the effect queue is unchanged.
pub open spec fn state_except_effects_eq(a: App, b: App) -> bool {
    b == (App { effects: b.effects, ..a })
}

/// Everything except the activity log (and its index) is unchanged.
pub open spec fn state_except_log_eq(a: App, b: App) -> bool {
    b == (App { log_lines: b.log_lines, ..a })
}

/// A quiet session: no modal open, no effect queued, no quit requested.
pub open spec fn app_quiet(s: &App) -> bool {
    &&& s.input is None
    &&& s.confirmation is None
    &&& s.command_palette is None
    &&& s.pending_rebase_source is None
    &&& s.interactive_commit_request is None
    &&& !s.should_quit
    &&& s.effects@.len() == 0
    &&& s.commit_file_selection@.len() == 0
    &&& s.detail_request_id == 0
    &&& s.focus == FocusPanel::Files
}

/// Index-equality of every panel except the one named.
pub open spec fn panels_except_index_eq(a: App, b: App, panel: FocusPanel) -> bool {
    match panel {
        FocusPanel::Files => b == (App { files_idx: b.files_idx, ..a }),
        FocusPanel::Revisions => b == (App { rev_idx: b.rev_idx, ..a }),
        FocusPanel::Bookmarks => b == (App { bookmarks_idx: b.bookmarks_idx, ..a }),
        FocusPanel::Shelves => b == (App { shelves_idx: b.shelves_idx, ..a }),
        FocusPanel::Conflicts => b == (App { conflicts_idx: b.conflicts_idx, ..a }),
        FocusPanel::Log => b == (App { log_idx: b.log_idx, ..a }),
    }
}

/// Offset-equality of every panel except the one named.
pub open spec fn panels_except_offset_eq(a: App, b: App, panel: FocusPanel) -> bool {
    match panel {
        FocusPanel::Files => b == (App { files_offset: b.files_offset, ..a }),
        FocusPanel::Revisions => b == (App { rev_offset: b.rev_offset, ..a }),
        FocusPanel::Bookmarks => b == (App { bookmarks_offset: b.bookmarks_offset, ..a }),
        FocusPanel::Shelves => b == (App { shelves_offset: b.shelves_offset, ..a }),
        FocusPanel::Conflicts => b == (App { conflicts_offset: b.conflicts_offset, ..a }),
        FocusPanel::Log => b == (App { log_idx: b.log_idx, ..a }),
    }
}

/// The startup status line: theme and override count.
fn build_startup_status(config: &AppConfig) -> (r: String)
    ensures
        r@.len() > 0,
{
    let mut s = "Theme: ".to_owned();
    s.append(config.theme.as_str());
    s.append(" | key overrides: ");
    let count = crate::text::usize_string(config.keybinds.len());
    s.append(count.as_str());
    s.append(" | q to quit.");
    proof {
        reveal_strlit("Theme: ");
    }
    s
}

/// One log line describing a loaded custom command.
fn describe_custom_command(cmd: &CustomCommand) -> (r: String)
    ensures
        r@.len() > 0,
{
    let mut line = "Loaded custom command: ".to_owned();
    line.append(cmd.id.as_str());
    line.append(" (");
    line.append(cmd.title.as_str());
    line.append(") [");
    match cmd.context {
        CommandContext::Repo => line.append("repo"),
        CommandContext::File => line.append("file"),
        CommandContext::Revision => line.append("revision"),
    }
    line.append("] => ");
    line.append(cmd.command.as_str());
    if cmd.needs_confirmation {
        line.append(" [confirm]");
    }
    proof {
        reveal_strlit("Loaded custom command: ");
    }
    line
}


/// The log after one stamped append: the new line is last, everything else
/// keeps its order, and only the oldest lines beyond the cap were dropped.
pub open spec fn spec_log_appended(o: Seq<String>, n: Seq<String>) -> bool {
    &&& n.len() > 0
    &&& n == o.push(n.last()).skip(o.len() + 1 - n.len())
    &&& n.len() == spec_min(o.len() as int + 1, MAX_LOG_LINES as int)
}

/// The log after at most two stamped appends.
pub open spec fn spec_log_evolved2(o: Seq<String>, n: Seq<String>) -> bool {
    ||| n == o
    ||| spec_log_appended(o, n)
    ||| exists|m: Seq<String>| #[trigger] spec_log_appended(o, m) && spec_log_appended(m, n)
}

/// Whether a line spelling `text` sits among the newest `within` log lines.
pub open spec fn spec_log_has_near_end(log: Seq<String>, text: Seq<char>, within: int) -> bool {
    exists|d: int| 0 <= d < within && d < log.len() && (#[trigger] log[log.len() - 1 - d])@ == text
}

/// One append moves a line one step away from the end, losing nothing that
/// is newer than the cap.
pub proof fn lemma_log_line_kept(o: Seq<String>, n: Seq<String>, d: int)
    requires
        spec_log_appended(o, n),
        0 <= d < o.len(),
        d + 2 <= MAX_LOG_LINES as int,
    ensures
        n.len() >= d + 2,
        n[n.len() - 2 - d] == o[o.len() - 1 - d],
{
    let k = o.len() + 1 - n.len();
    let p = o.len() - 1 - d;
    assert(n[p - k] == o.push(n.last())[p]);
}

/// A recent line survives an append.
pub proof fn lemma_log_near_end_kept(o: Seq<String>, n: Seq<String>, text: Seq<char>, within: int)
    requires
        spec_log_has_near_end(o, text, within),
        spec_log_appended(o, n),
        within + 1 <= MAX_LOG_LINES as int,
    ensures
        spec_log_has_near_end(n, text, within + 1),
{
    let d = choose|d: int|
        0 <= d < within && d < o.len() && (#[trigger] o[o.len() - 1 - d])@ == text;
    lemma_log_line_kept(o, n, d);
    assert(n[n.len() - 1 - (d + 1)]@ == text);
}

/// A recent line survives at most two appends.
pub proof fn lemma_log_near_end_kept2(o: Seq<String>, n: Seq<String>, text: Seq<char>, within: int)
    requires
        spec_log_has_near_end(o, text, within),
        spec_log_evolved2(o, n),
        within + 2 <= MAX_LOG_LINES as int,
    ensures
        spec_log_has_near_end(n, text, within + 2),
{
    if n == o {
        let d = choose|d: int|
            0 <= d < within && d < o.len() && (#[trigger] o[o.len() - 1 - d])@ == text;
        assert(n[n.len() - 1 - d]@ == text);
    } else if spec_log_appended(o, n) {
        lemma_log_near_end_kept(o, n, text, within);
        let d = choose|d: int|
            0 <= d < within + 1 && d < n.len() && (#[trigger] n[n.len() - 1 - d])@ == text;
        assert(n[n.len() - 1 - d]@ == text);
    } else {
        let m = choose|m: Seq<String>| #[trigger] spec_log_appended(o, m) && spec_log_appended(
            m,
            n,
        );
        lemma_log_near_end_kept(o, m, text, within);
        lemma_log_near_end_kept(m, n, text, within + 1);
    }
}

/// Whether the selection holds a path.
pub open spec fn spec_sel_has(sel: Seq<String>, p: Seq<char>) -> bool {
    exists|i: int| 0 <= i < sel.len() && (#[trigger] sel[i])@ == p
}

/// Whether the file list holds a path.
pub open spec fn spec_files_have(files: Seq<crate::domain::FileChange>, p: Seq<char>) -> bool {
    exists|i: int| 0 <= i < files.len() && (#[trigger] files[i]).path@ == p
}

/// Toggling a path in a selection: it leaves if present, joins if absent.
pub open spec fn spec_toggled(old_sel: Seq<String>, new_sel: Seq<String>, p: Seq<char>) -> bool {
    forall|q: Seq<char>|
        #[trigger] spec_sel_has(new_sel, q) == if q == p {
            !spec_sel_has(old_sel, q)
        } else {
            spec_sel_has(old_sel, q)
        }
}

impl App {
    /// Whether a path is currently picked for commit.
    pub fn is_file_selected_for_commit(&self, path: &str) -> (r: bool)
        ensures
            r == spec_sel_has(self.commit_file_selection@, path@),
    {
        let n = self.commit_file_selection.len();
        let mut i: usize = 0;
        while i < n
            invariant
                0 <= i <= n,
                n == self.commit_file_selection@.len(),
                forall|j: int| 0 <= j < i ==> (#[trigger] self.commit_file_selection@[j])@ != path@,
            decreases n - i,
        {
            if crate::text::str_eq(self.commit_file_selection[i].as_str(), path) {
                return true;
            }
            i = i + 1;
        }
        false
    }

    /// How many files are picked for commit.
    pub fn selected_file_commit_count(&self) -> (r: usize)
        ensures
            r == self.commit_file_selection@.len(),
    {
        self.commit_file_selection.len()
    }

    /// Replaces the detail text and resets its scroll position.
    pub fn set_detail_text(&mut self, text: String)
        ensures
            final(self).detail_text == text,
            final(self).details_scroll == 0,
            *final(self) == (App {
                detail_text: final(self).detail_text,
                details_scroll: 0usize,
                ..*old(self)
            }),
    {
        self.detail_text = text;
        self.details_scroll = 0;
    }

    /// Schedules a snapshot refresh: remembers the time, reports progress in
    /// the status line, and queues the effect.
    pub fn refresh_snapshot_with_mode(&mut self, preserve_details: bool, include_revisions: bool)
        ensures
            final(self).last_refresh_ms == old(self).now_ms,
            final(self).status_line@ == "Refreshing repository state\u{2026}"@,
            final(self).effects@ == old(self).effects@.push(
                Effect::RefreshSnapshot { preserve_details, include_revisions },
            ),
            *final(self) == (App {
                last_refresh_ms: final(self).last_refresh_ms,
                status_line: final(self).status_line,
                effects: final(self).effects,
                ..*old(self)
            }),
    {
        self.last_refresh_ms = self.now_ms;
        self.status_line = "Refreshing repository state\u{2026}".to_owned();
        self.effects.push(Effect::RefreshSnapshot { preserve_details, include_revisions });
    }

    /// Schedules a full refresh.
    pub fn refresh_snapshot(&mut self, preserve_details: bool)
        ensures
            final(self).last_refresh_ms == old(self).now_ms,
            final(self).status_line@ == "Refreshing repository state\u{2026}"@,
            final(self).effects@ == old(self).effects@.push(
                Effect::RefreshSnapshot { preserve_details, include_revisions: true },
            ),
            *final(self) == (App {
                last_refresh_ms: final(self).last_refresh_ms,
                status_line: final(self).status_line,
                effects: final(self).effects,
                ..*old(self)
            }),
    {
        self.refresh_snapshot_with_mode(preserve_details, true);
    }

    /// The periodic tick: re-queries only when the throttle window has
    /// passed, and then only lightweight, skipping revision history.
    pub fn periodic_refresh(&mut self)
        ensures
            old(self).now_ms - old(self).last_refresh_ms >= REFRESH_THROTTLE_MS
                ==> final(self).effects@ == old(self).effects@.push(
                Effect::RefreshSnapshot { preserve_details: true, include_revisions: false },
            ),
            old(self).now_ms - old(self).last_refresh_ms < REFRESH_THROTTLE_MS ==> *final(self)
                == *old(self),
    {
        let elapsed = if self.now_ms >= self.last_refresh_ms {
            self.now_ms - self.last_refresh_ms
        } else {
            0
        };
        if elapsed >= REFRESH_THROTTLE_MS {
            self.refresh_snapshot_with_mode(true, false);
        }
    }

    /// What the detail pane should follow for the current focus.
    pub fn detail_target(&self) -> (r: DetailTarget)
        ensures
            r == spec_detail_target(self),
    {
        match self.focus {
            FocusPanel::Files => {
                if self.files_idx < self.snapshot.files.len() {
                    DetailTarget::File(self.snapshot.files[self.files_idx].path.clone())
                } else {
                    DetailTarget::Nothing
                }
            },
            FocusPanel::Revisions => {
                if self.rev_idx < self.snapshot.revisions.len() {
                    DetailTarget::Revision(self.snapshot.revisions[self.rev_idx].rev)
                } else {
                    DetailTarget::Nothing
                }
            },
            _ => DetailTarget::Nothing,
        }
    }

    /// Issues a fresh detail fetch for the focused row, superseding any
    /// outstanding fetch through a new request id.
    pub fn refresh_detail_for_focus(&mut self)
        ensures
            final(self).details_scroll == 0,
            final(self).detail_request_id == crate::session::spec_wrap_inc(
                old(self).detail_request_id,
            ),
            match spec_detail_target(old(self)) {
                DetailTarget::File(path) => final(self).effects@ == old(self).effects@.push(
                    Effect::FetchFileDiff { request_id: final(self).detail_request_id, path },
                ),
                DetailTarget::Revision(rev) => final(self).effects@ == old(self).effects@.push(
                    Effect::FetchRevisionPatch { request_id: final(self).detail_request_id, rev },
                ),
                DetailTarget::Nothing => final(self).effects@ == old(self).effects@
                    && final(self).detail_text@ == if old(self).focus == FocusPanel::Files || old(self).focus
                    == FocusPanel::Revisions {
                    old(self).detail_text@
                } else {
                    "Select a file or revision to view details."@
                },
            },
            *final(self) == (App {
                details_scroll: 0usize,
                detail_request_id: final(self).detail_request_id,
                effects: final(self).effects,
                detail_text: final(self).detail_text,
                ..*old(self)
            }),
    {
        self.details_scroll = 0;
        let request_id = self.detail_request_id.wrapping_add(1);
        self.detail_request_id = request_id;
        match self.focus {
            FocusPanel::Files => {
                if self.files_idx < self.snapshot.files.len() {
                    let path = self.snapshot.files[self.files_idx].path.clone();
                    self.effects.push(Effect::FetchFileDiff { request_id, path });
                }
            },
            FocusPanel::Revisions => {
                if self.rev_idx < self.snapshot.revisions.len() {
                    let rev = self.snapshot.revisions[self.rev_idx].rev;
                    self.effects.push(Effect::FetchRevisionPatch { request_id, rev });
                }
            },
            _ => {
                self.set_detail_text("Select a file or revision to view details.".to_owned());
            },
        }
    }

    /// Queues one mutating action, recording its preview in the status line.
    pub fn run_pending_action(&mut self, action: PendingRunAction)
        ensures
            final(self).status_line@ == "Running: "@ + spec_pending_preview(action),
            final(self).effects@.len() == old(self).effects@.len() + 1,
            final(self).effects@.subrange(0, old(self).effects@.len() as int) == old(self).effects@,
            spec_is_run_effect(final(self).effects@.last(), action),
            *final(self) == (App {
                status_line: final(self).status_line,
                effects: final(self).effects,
                ..*old(self)
            }),
    {
        let action_preview = action.command_preview();
        let show_output = action.show_output();
        let clear_commit_selection = action.clears_commit_selection_on_success();
        let action_kind = action.outcome_kind();
        let mut status = "Running: ".to_owned();
        status.append(action_preview.as_str());
        self.status_line = status;
        let ghost before = self.effects@;
        self.effects.push(
            Effect::RunAction {
                action_kind,
                action_preview,
                show_output,
                clear_commit_selection,
                action,
            },
        );
        proof {
            assert(self.effects@.subrange(0, before.len() as int) =~= before);
        }
    }

    /// Queues one built-in action.
    pub fn run_hg_action(&mut self, action: HgAction)
        ensures
            final(self).status_line@ == "Running: "@ + crate::commands::spec_action_preview(action),
            final(self).effects@.len() == old(self).effects@.len() + 1,
            spec_is_run_effect(final(self).effects@.last(), PendingRunAction::Hg(action)),
            *final(self) == (App {
                status_line: final(self).status_line,
                effects: final(self).effects,
                ..*old(self)
            }),
    {
        self.run_pending_action(PendingRunAction::Hg(action));
    }

    /// Opens a confirmation modal guarding an action.
    pub fn confirm_action(&mut self, action: PendingRunAction, message: String)
        ensures
            final(self).confirmation matches Some(c) && c.message == message && pending_eq(
                c.action,
                action,
            ),
            *final(self) == (App { confirmation: final(self).confirmation, ..*old(self) }),
    {
        self.confirmation = Some(PendingConfirmation { action, message });
    }

    /// Opens a text-input modal.
    pub fn open_input(&mut self, purpose: InputPurpose, title: String)
        ensures
            final(self).input matches Some(i) && i.purpose == purpose && i.title == title
                && i.value@ == Seq::<char>::empty(),
            *final(self) == (App { input: final(self).input, ..*old(self) }),
    {
        self.input = Some(InputState { title, value: String::new(), purpose });
    }

    /// Toggles the focused file in the commit selection; toggling is its own
    /// inverse on the selected set.
    pub fn toggle_selected_file_for_commit(&mut self)
        requires
            old(self).selection_nodup(),
        ensures
            final(self).selection_nodup(),
            old(self).files_idx >= old(self).snapshot.files@.len() ==> {
                &&& final(self).commit_file_selection == old(self).commit_file_selection
                &&& final(self).status_line@ == "No file selected."@
            },
            old(self).files_idx < old(self).snapshot.files@.len() ==> spec_toggled(
                old(self).commit_file_selection@,
                final(self).commit_file_selection@,
                old(self).snapshot.files@[old(self).files_idx as int].path@,
            ),
            *final(self) == (App {
                commit_file_selection: final(self).commit_file_selection,
                status_line: final(self).status_line,
                ..*old(self)
            }),
    {
        if self.files_idx >= self.snapshot.files.len() {
            self.status_line = "No file selected.".to_owned();
            return;
        }
        let path = self.snapshot.files[self.files_idx].path.clone();
        if self.is_file_selected_for_commit(path.as_str()) {
            // remove it
            let ghost old_sel = self.commit_file_selection@;
            let mut kept: Vec<String> = Vec::new();
            let n = self.commit_file_selection.len();
            let mut i: usize = 0;
            while i < n
                invariant
                    0 <= i <= n,
                    n == old_sel.len(),
                    self.commit_file_selection@ == old_sel,
                    path@ == old(self).snapshot.files@[old(self).files_idx as int].path@,
                    forall|j: int, k: int|
                        0 <= j < k < old_sel.len() ==> (#[trigger] old_sel[j])@ != (
                        #[trigger] old_sel[k])@,
                    forall|q: Seq<char>|
                        #[trigger] spec_sel_has(kept@, q) == (spec_sel_has(old_sel.take(i as int), q)
                            && q != path@),
                    forall|j: int, k: int|
                        0 <= j < k < kept@.len() ==> (#[trigger] kept@[j])@ != (
                        #[trigger] kept@[k])@,
                decreases n - i,
            {
                let keep = !crate::text::str_eq(
                    self.commit_file_selection[i].as_str(),
                    path.as_str(),
                );
                proof {
                    assert(old_sel.take(i + 1) =~= old_sel.take(i as int).push(old_sel[i as int]));
                }
                if keep {
                    let entry = self.commit_file_selection[i].clone();
                    let ghost kept_before = kept@;
                    kept.push(entry);
                    proof {
                        assert(kept@ =~= kept_before.push(entry));
                        assert(entry@ == old_sel[i as int]@);
                        assert forall|q: Seq<char>| #[trigger] spec_sel_has(kept@, q) == (
                        spec_sel_has(old_sel.take(i + 1), q) && q != path@) by {
                            if spec_sel_has(kept@, q) {
                                let w = choose|w: int|
                                    0 <= w < kept@.len() && (#[trigger] kept@[w])@ == q;
                                if w < kept_before.len() {
                                    assert(spec_sel_has(kept_before, q));
                                } else {
                                    assert(kept@[w]@ == entry@);
                                    assert(old_sel.take(i + 1)[i as int]@ == q);
                                }
                            }
                            if spec_sel_has(old_sel.take(i + 1), q) && q != path@ {
                                let w = choose|w: int|
                                    0 <= w < i + 1 && (#[trigger] old_sel.take(i + 1)[w])@ == q;
                                if w < i {
                                    assert(spec_sel_has(old_sel.take(i as int), q));
                                    assert(spec_sel_has(kept_before, q));
                                    let u = choose|u: int|
                                        0 <= u < kept_before.len() && (#[trigger] kept_before[u])@
                                            == q;
                                    assert(kept@[u]@ == q);
                                } else {
                                    assert(kept@[kept@.len() - 1]@ == q);
                                }
                            }
                        }
                        assert forall|j: int, k: int|
                            0 <= j < k < kept@.len() implies (#[trigger] kept@[j])@ != (
                        #[trigger] kept@[k])@ by {
                            if k == kept@.len() - 1 {
                                if kept@[j]@ == entry@ {
                                    assert(spec_sel_has(kept_before, entry@));
                                    let u = choose|u: int|
                                        0 <= u < i && (#[trigger] old_sel.take(i as int)[u])@
                                            == entry@;
                                    assert(old_sel[u]@ == old_sel[i as int]@);
                                }
                            }
                        }
                    }
                } else {
                    proof {
                        assert(old_sel[i as int]@ == path@);
                        assert forall|q: Seq<char>| #[trigger] spec_sel_has(kept@, q) == (
                        spec_sel_has(old_sel.take(i + 1), q) && q != path@) by {
                            if spec_sel_has(old_sel.take(i + 1), q) && q != path@ {
                                let w = choose|w: int|
                                    0 <= w < i + 1 && (#[trigger] old_sel.take(i + 1)[w])@ == q;
                                assert(w < i);
                                assert(spec_sel_has(old_sel.take(i as int), q));
                            }
                        }
                    }
                }
                i = i + 1;
            }
            proof {
                assert(old_sel.take(n as int) =~= old_sel);
            }
            self.commit_file_selection = kept;
            let mut msg = "Removed from commit selection: ".to_owned();
            msg.append(path.as_str());
            self.status_line = msg;
            proof {
                assert(spec_sel_has(old_sel, path@));
                assert forall|q: Seq<char>|
                    #[trigger] spec_sel_has(self.commit_file_selection@, q) == if q == path@ {
                    !spec_sel_has(old_sel, q)
                } else {
                    spec_sel_has(old_sel, q)
                } by {}
            }
        } else {
            let ghost old_sel = self.commit_file_selection@;
            self.commit_file_selection.push(path.clone());
            let mut msg = "Selected for commit: ".to_owned();
            msg.append(path.as_str());
            self.status_line = msg;
            proof {
                assert(self.commit_file_selection@ =~= old_sel.push(path));
                assert forall|q: Seq<char>|
                    #[trigger] spec_sel_has(self.commit_file_selection@, q) == if q == path@ {
                    !spec_sel_has(old_sel, q)
                } else {
                    spec_sel_has(old_sel, q)
                } by {
                    let sel = self.commit_file_selection@;
                    if spec_sel_has(sel, q) {
                        let w = choose|w: int| 0 <= w < sel.len() && (#[trigger] sel[w])@ == q;
                        if w < old_sel.len() {
                            assert(spec_sel_has(old_sel, q));
                        } else {
                            assert(q == path@);
                        }
                    }
                    if q == path@ {
                        assert(sel[sel.len() - 1]@ == path@);
                        assert(spec_sel_has(sel, q));
                    } else if spec_sel_has(old_sel, q) {
                        let w = choose|w: int|
                            0 <= w < old_sel.len() && (#[trigger] old_sel[w])@ == q;
                        assert(sel[w]@ == q);
                    }
                }
                assert forall|j: int, k: int|
                    0 <= j < k < self.commit_file_selection@.len() implies (
                #[trigger] self.commit_file_selection@[j])@ != (
                #[trigger] self.commit_file_selection@[k])@ by {
                    let sel = self.commit_file_selection@;
                    if k == sel.len() - 1 {
                        if sel[j]@ == path@ {
                            assert(spec_sel_has(old_sel, path@));
                        }
                    }
                }
            }
        }
    }

    /// Empties the commit-file selection.
    pub fn clear_file_selection(&mut self)
        ensures
            final(self).commit_file_selection@.len() == 0,
            final(self).status_line@ == "Cleared commit file selection."@,
            *final(self) == (App {
                commit_file_selection: final(self).commit_file_selection,
                status_line: final(self).status_line,
                ..*old(self)
            }),
    {
        self.commit_file_selection = Vec::new();
        self.status_line = "Cleared commit file selection.".to_owned();
    }

    /// Clamps a panel's selection into its list and scrolls the window so
    /// the selection stays visible.
    pub fn ensure_visible(&mut self, panel: FocusPanel)
        ensures
            panel == FocusPanel::Log ==> *final(self) == *old(self),
            panel != FocusPanel::Log && spec_panel_len(old(self), panel) == 0 ==> spec_panel_index(
                final(self),
                panel,
            ) == 0 && spec_panel_offset(final(self), panel) == 0,
            panel != FocusPanel::Log && spec_panel_len(old(self), panel) > 0 ==> {
                &&& spec_panel_index(final(self), panel) == spec_min(
                    spec_panel_index(old(self), panel),
                    spec_panel_len(old(self), panel) - 1,
                )
                &&& spec_panel_offset(final(self), panel) <= spec_panel_index(final(self), panel)
                &&& spec_panel_index(final(self), panel) < spec_panel_offset(final(self), panel)
                    + spec_max(spec_body_rows(spec_panel_rect(old(self).ui_rects, panel)), 1)
            },
            panel_frame_eq(*old(self), *final(self), panel),
    {
        if panel == FocusPanel::Log {
            return;
        }
        let len = self.panel_len(panel);
        if len == 0 {
            self.set_panel_index(panel, 0);
            self.set_panel_offset(panel, 0);
            return;
        }
        let mut idx = self.panel_index(panel);
        if idx > len - 1 {
            idx = len - 1;
        }
        let mut offset = self.panel_offset(panel);
        let rows_raw = self.panel_body_rows(panel);
        let rows = if rows_raw > 0 {
            rows_raw
        } else {
            1
        };
        let max_offset = if len > rows {
            len - rows
        } else {
            0
        };
        if offset > max_offset {
            offset = max_offset;
        }
        if idx < offset {
            offset = idx;
        } else if idx >= offset + rows {
            offset = idx + 1 - rows;
        }
        if offset > max_offset {
            offset = max_offset;
        }
        self.set_panel_index(panel, idx);
        self.set_panel_offset(panel, offset);
    }

    /// Moves the focused panel's selection by one step, clamped to the list.
    pub fn move_selection(&mut self, down: bool)
        ensures
            final(self).commit_file_selection == old(self).commit_file_selection,
            spec_panel_len(old(self), old(self).focus) == 0 ==> spec_panel_index(
                final(self),
                old(self).focus,
            ) == 0,
            spec_panel_len(old(self), old(self).focus) > 0 ==> spec_panel_index(
                final(self),
                old(self).focus,
            ) == spec_step(
                spec_panel_index(old(self), old(self).focus),
                spec_panel_len(old(self), old(self).focus),
                down,
            ),
    {
        let panel = self.focus;
        if panel == FocusPanel::Log {
            let len = self.log_lines.len();
            if len == 0 {
                self.log_idx = 0;
                return;
            }
            let current = self.log_idx;
            let next = step_index(current, len, down);
            self.log_idx = next;
            return;
        }
        let len = self.panel_len(panel);
        if len == 0 {
            self.set_panel_index(panel, 0);
            self.set_panel_offset(panel, 0);
            return;
        }
        let current = self.panel_index(panel);
        let next = step_index(current, len, down);
        self.set_panel_index(panel, next);
        self.ensure_visible(panel);
        proof {
            assert(spec_panel_index(self, panel) == next);
        }
        if panel == FocusPanel::Files || panel == FocusPanel::Revisions {
            self.refresh_detail_for_focus();
        }
    }

    /// Moves focus to the next or previous panel in the fixed order.
    pub fn cycle_focus(&mut self, forward: bool)
        ensures
            final(self).commit_file_selection == old(self).commit_file_selection,
            final(self).focus == spec_cycled(old(self).focus, forward),
    {
        let next = match (self.focus, forward) {
            (FocusPanel::Files, true) => FocusPanel::Revisions,
            (FocusPanel::Revisions, true) => FocusPanel::Bookmarks,
            (FocusPanel::Bookmarks, true) => FocusPanel::Shelves,
            (FocusPanel::Shelves, true) => FocusPanel::Conflicts,
            (FocusPanel::Conflicts, true) => FocusPanel::Log,
            (FocusPanel::Log, true) => FocusPanel::Files,
            (FocusPanel::Files, false) => FocusPanel::Log,
            (FocusPanel::Revisions, false) => FocusPanel::Files,
            (FocusPanel::Bookmarks, false) => FocusPanel::Revisions,
            (FocusPanel::Shelves, false) => FocusPanel::Bookmarks,
            (FocusPanel::Conflicts, false) => FocusPanel::Shelves,
            (FocusPanel::Log, false) => FocusPanel::Conflicts,
        };
        self.focus = next;
        self.refresh_detail_for_focus();
    }
}

/// One clamped selection step.
fn step_index(current: usize, len: usize, down: bool) -> (r: usize)
    requires
        len > 0,
    ensures
        r == spec_step(current as int, len as int, down),
        r < len,
{
    if down {
        if current >= len - 1 {
            len - 1
        } else {
            current + 1
        }
    } else {
        if current == 0 {
            0
        } else {
            let dec = current - 1;
            if dec > len - 1 {
                len - 1
            } else {
                dec
            }
        }
    }
}

/// The neighbouring panel in cycling order.
pub open spec fn spec_cycled(p: FocusPanel, forward: bool) -> FocusPanel {
    match (p, forward) {
        (FocusPanel::Files, true) => FocusPanel::Revisions,
        (FocusPanel::Revisions, true) => FocusPanel::Bookmarks,
        (FocusPanel::Bookmarks, true) => FocusPanel::Shelves,
        (FocusPanel::Shelves, true) => FocusPanel::Conflicts,
        (FocusPanel::Conflicts, true) => FocusPanel::Log,
        (FocusPanel::Log, true) => FocusPanel::Files,
        (FocusPanel::Files, false) => FocusPanel::Log,
        (FocusPanel::Revisions, false) => FocusPanel::Files,
        (FocusPanel::Bookmarks, false) => FocusPanel::Revisions,
        (FocusPanel::Shelves, false) => FocusPanel::Bookmarks,
        (FocusPanel::Conflicts, false) => FocusPanel::Shelves,
        (FocusPanel::Log, false) => FocusPanel::Conflicts,
    }
}

/// The smaller of two values.
pub open spec fn spec_min(a: int, b: int) -> int {
    if a < b {
        a
    } else {
        b
    }
}

/// The larger of two values.
pub open spec fn spec_max(a: int, b: int) -> int {
    if a > b {
        a
    } else {
        b
    }
}

/// One selection step within a non-empty list: one towards the chosen end,
/// clamped into the list.
pub open spec fn spec_step(current: int, len: int, down: bool) -> int {
    if down {
        spec_min(current + 1, len - 1)
    } else {
        spec_min(spec_max(current - 1, 0), len - 1)
    }
}

/// The increment of a request id, wrapping at the integer boundary.
pub open spec fn spec_wrap_inc(id: u64) -> u64 {
    if id == 0xffff_ffff_ffff_ffff {
        0
    } else {
        (id + 1) as u64
    }
}

/// Whether the effect runs exactly this action, with the derived fields
/// computed from it.
pub open spec fn spec_is_run_effect(e: Effect, a: PendingRunAction) -> bool {
    match e {
        Effect::RunAction { action_kind, action_preview, show_output, clear_commit_selection, action } => {
            &&& action_kind == spec_outcome_kind(a)
            &&& action_preview@ == spec_pending_preview(a)
            &&& show_output == match a {
                PendingRunAction::Hg(_) => false,
                PendingRunAction::Custom(c) => c.show_output,
            }
            &&& clear_commit_selection == (a matches PendingRunAction::Hg(
                HgAction::Commit { .. },
            ))
            &&& pending_eq(action, a)
        },
        _ => false,
    }
}

/// Value equality of pending actions.
pub open spec fn pending_eq(a: PendingRunAction, b: PendingRunAction) -> bool {
    a == b
}

/// The detail target the snapshot and focus decide.
pub open spec fn spec_detail_target(s: &App) -> DetailTarget {
    match s.focus {
        FocusPanel::Files => if s.files_idx < s.snapshot.files@.len() {
            DetailTarget::File(s.snapshot.files@[s.files_idx as int].path)
        } else {
            DetailTarget::Nothing
        },
        FocusPanel::Revisions => if s.rev_idx < s.snapshot.revisions@.len() {
            DetailTarget::Revision(s.snapshot.revisions@[s.rev_idx as int].rev)
        } else {
            DetailTarget::Nothing
        },
        _ => DetailTarget::Nothing,
    }
}

/// One panel's selection after a re-clamp: the index is clamped into the
/// list (zero when it is empty) and the offset window shows it.
pub open spec fn spec_panel_clamped(a: &App, b: &App, panel: FocusPanel) -> bool {
    if spec_panel_len(a, panel) == 0 {
        spec_panel_index(b, panel) == 0 && spec_panel_offset(b, panel) == 0
    } else {
        &&& spec_panel_index(b, panel) == spec_min(
            spec_panel_index(a, panel),
            spec_panel_len(a, panel) - 1,
        )
        &&& spec_panel_offset(b, panel) <= spec_panel_index(b, panel)
        &&& spec_panel_index(b, panel) < spec_panel_offset(b, panel) + spec_max(
            spec_body_rows(spec_panel_rect(a.ui_rects, panel)),
            1,
        )
    }
}

/// Only the named panel's index and offset may differ; the log panel has no
/// separate offset and is left alone.
pub open spec fn panel_frame_eq(a: App, b: App, panel: FocusPanel) -> bool {
    match panel {
        FocusPanel::Files => b == (App {
            files_idx: b.files_idx,
            files_offset: b.files_offset,
            ..a
        }),
        FocusPanel::Revisions => b == (App { rev_idx: b.rev_idx, rev_offset: b.rev_offset, ..a }),
        FocusPanel::Bookmarks => b == (App {
            bookmarks_idx: b.bookmarks_idx,
            bookmarks_offset: b.bookmarks_offset,
            ..a
        }),
        FocusPanel::Shelves => b == (App {
            shelves_idx: b.shelves_idx,
            shelves_offset: b.shelves_offset,
            ..a
        }),
        FocusPanel::Conflicts => b == (App {
            conflicts_idx: b.conflicts_idx,
            conflicts_offset: b.conflicts_offset,
            ..a
        }),
        FocusPanel::Log => b == a,
    }
}


/// View equality of optional strings.
pub open spec fn opt_string_view(o: Option<String>) -> Option<Seq<char>> {
    match o {
        Some(x) => Some(x@),
        None => None,
    }
}

/// Compares two optional strings by text.
fn opt_str_eq(a: &Option<String>, b: &Option<String>) -> (r: bool)
    ensures
        r == (opt_string_view(*a) == opt_string_view(*b)),
{
    match (a, b) {
        (None, None) => true,
        (Some(x), Some(y)) => crate::text::str_eq(x.as_str(), y.as_str()),
        _ => false,
    }
}

/// The rebase-in-progress hint the snapshot warrants, if any.
pub open spec fn spec_rebase_hint(s: &App) -> Option<Seq<char>> {
    if !s.snapshot.capabilities.has_rebase || !s.snapshot.rebase.in_progress {
        None
    } else if s.snapshot.rebase.unresolved_conflicts > 0 {
        Some(
            "Rebase in progress: "@ + crate::text::spec_dec(
                s.snapshot.rebase.unresolved_conflicts as nat,
            ) + " unresolved conflict(s). Resolve conflicts, then press "@ + spec_key_label(
                s.keymap,
                ActionId::RebaseContinue,
            ) + " to continue or "@ + spec_key_label(s.keymap, ActionId::RebaseAbort)
                + " to abort."@,
        )
    } else {
        Some(
            "Rebase in progress: all conflicts resolved. Press "@ + spec_key_label(
                s.keymap,
                ActionId::RebaseContinue,
            ) + " to continue or "@ + spec_key_label(s.keymap, ActionId::RebaseAbort)
                + " to abort."@,
        )
    }
}

impl App {
    /// The rebase hint for the current snapshot.
    pub fn rebase_status_hint_from_snapshot(&self) -> (r: Option<String>)
        ensures
            opt_string_view(r) == spec_rebase_hint(self),
    {
        if !self.snapshot.capabilities.has_rebase || !self.snapshot.rebase.in_progress {
            return None;
        }
        let continue_key = key_label_string(&self.keymap, ActionId::RebaseContinue);
        let abort_key = key_label_string(&self.keymap, ActionId::RebaseAbort);
        let unresolved = self.snapshot.rebase.unresolved_conflicts;
        if unresolved > 0 {
            let mut msg = "Rebase in progress: ".to_owned();
            let count = crate::text::usize_string(unresolved);
            msg.append(count.as_str());
            msg.append(" unresolved conflict(s). Resolve conflicts, then press ");
            msg.append(continue_key.as_str());
            msg.append(" to continue or ");
            msg.append(abort_key.as_str());
            msg.append(" to abort.");
            Some(msg)
        } else {
            let mut msg = "Rebase in progress: all conflicts resolved. Press ".to_owned();
            msg.append(continue_key.as_str());
            msg.append(" to continue or ");
            msg.append(abort_key.as_str());
            msg.append(" to abort.");
            Some(msg)
        }
    }

    /// Logs a changed rebase hint once, remembering the last one shown.
    pub fn update_rebase_hint_log(&mut self, hint: Option<String>)
        ensures
            opt_string_view(final(self).last_rebase_hint) == opt_string_view(hint),
            final(self).log_lines == old(self).log_lines || spec_log_appended(
                old(self).log_lines@,
                final(self).log_lines@,
            ),
            *final(self) == (App {
                log_lines: final(self).log_lines,
                last_rebase_hint: final(self).last_rebase_hint,
                ..*old(self)
            }),
    {
        let same = opt_str_eq(&hint, &self.last_rebase_hint);
        if !same {
            match &hint {
                Some(line) => {
                    self.append_log(line.clone());
                },
                None => {},
            }
            self.last_rebase_hint = hint;
        }
        // when the texts already agree the stored hint stays as it is
    }

    /// Refreshes the status line and log from the snapshot's rebase state.
    pub fn refresh_rebase_status_hint_from_snapshot(&mut self)
        ensures
            opt_string_view(final(self).last_rebase_hint) == spec_rebase_hint(old(self)),
            spec_log_evolved2(old(self).log_lines@, final(self).log_lines@),
            *final(self) == (App {
                log_lines: final(self).log_lines,
                last_rebase_hint: final(self).last_rebase_hint,
                status_line: final(self).status_line,
                ..*old(self)
            }),
    {
        let hint = self.rebase_status_hint_from_snapshot();
        match &hint {
            Some(line) => {
                self.status_line = line.clone();
            },
            None => {
                if self.last_rebase_hint.is_some() {
                    self.status_line = "Rebase is no longer in progress.".to_owned();
                    self.append_log("Rebase is no longer in progress.".to_owned());
                }
            },
        }
        proof {
            assert(spec_rebase_hint(self) == spec_rebase_hint(old(self)));
        }
        self.update_rebase_hint_log(hint);
    }

    /// The number of lines in the detail text.
    pub fn detail_line_count(&self) -> (r: usize)
        ensures
            r == crate::text::spec_split(self.detail_text@, '\n').len(),
    {
        let chars = crate::text::str_chars(self.detail_text.as_str());
        let pieces = crate::text::split_char(&chars, '\n');
        proof {
            assert(pieces@.map_values(|t: Vec<char>| t@).len() == pieces@.len());
        }
        pieces.len()
    }

    /// The largest useful detail scroll offset.
    pub fn max_detail_scroll(&self) -> (r: usize)
        ensures
            r == spec_max(
                crate::text::spec_split(self.detail_text@, '\n').len() as int - spec_max(
                    spec_body_rows(self.ui_rects.details),
                    1,
                ),
                0,
            ),
    {
        let rows_raw = self.detail_body_rows();
        let rows = if rows_raw > 0 {
            rows_raw
        } else {
            1
        };
        let count = self.detail_line_count();
        if count > rows {
            count - rows
        } else {
            0
        }
    }

    /// The detail scroll offset actually used, never past the end.
    pub fn detail_scroll_offset(&self) -> (r: usize)
        ensures
            r == spec_min(
                self.details_scroll as int,
                spec_max(
                    crate::text::spec_split(self.detail_text@, '\n').len() as int - spec_max(
                        spec_body_rows(self.ui_rects.details),
                        1,
                    ),
                    0,
                ),
            ),
    {
        let max = self.max_detail_scroll();
        if self.details_scroll < max {
            self.details_scroll
        } else {
            max
        }
    }

    /// Scrolls the detail pane one step, clamped to its content.
    pub fn scroll_details(&mut self, down: bool)
        ensures
            *final(self) == (App { details_scroll: final(self).details_scroll, ..*old(self) }),
    {
        let current = self.detail_scroll_offset();
        let max = self.max_detail_scroll();
        let next = if down {
            if current < max {
                current + 1
            } else {
                max
            }
        } else {
            if current > 0 {
                current - 1
            } else {
                0
            }
        };
        self.details_scroll = next;
    }

    /// The panel under a point, if any.
    pub fn panel_at(&self, x: u16, y: u16) -> (r: Option<FocusPanel>)
        ensures
            match r {
                Some(p) => spec_region_contains(spec_panel_rect(self.ui_rects, p), x, y),
                None => forall|p: FocusPanel|
                    !spec_region_contains(spec_panel_rect(self.ui_rects, p), x, y),
            },
    {
        let panels = FocusPanel::all();
        let n = panels.len();
        let mut i: usize = 0;
        while i < n
            invariant
                0 <= i <= n,
                n == 6,
                panels@ == spec_all_panels(),
                forall|j: int|
                    0 <= j < i ==> !spec_region_contains(
                        spec_panel_rect(self.ui_rects, #[trigger] panels@[j]),
                        x,
                        y,
                    ),
            decreases n - i,
        {
            let rect = self.ui_rects.panel_rect(panels[i]);
            if rect_contains(rect, x, y) {
                return Some(panels[i]);
            }
            i = i + 1;
        }
        proof {
            assert forall|p: FocusPanel|
                !spec_region_contains(spec_panel_rect(self.ui_rects, p), x, y) by {
                match p {
                    FocusPanel::Files => assert(spec_all_panels()[0] == p),
                    FocusPanel::Revisions => assert(spec_all_panels()[1] == p),
                    FocusPanel::Bookmarks => assert(spec_all_panels()[2] == p),
                    FocusPanel::Shelves => assert(spec_all_panels()[3] == p),
                    FocusPanel::Conflicts => assert(spec_all_panels()[4] == p),
                    FocusPanel::Log => assert(spec_all_panels()[5] == p),
                }
            }
        }
        None
    }

    /// The list row under a point inside a panel's body, if it names an
    /// existing entry.
    pub fn list_row_from_point(&self, panel: FocusPanel, x: u16, y: u16) -> (r: Option<usize>)
        ensures
            match r {
                Some(idx) => panel != FocusPanel::Log && idx < spec_panel_len(self, panel),
                None => true,
            },
    {
        if panel == FocusPanel::Log {
            return None;
        }
        let rect = self.ui_rects.panel_rect(panel);
        if rect.width <= 2 || rect.height <= 2 {
            return None;
        }
        let left = (rect.x as u32) + 1;
        let right_exclusive = (rect.x as u32) + (rect.width as u32) - 1;
        let top = (rect.y as u32) + 1;
        let bottom_exclusive = (rect.y as u32) + (rect.height as u32) - 1;
        let xx = x as u32;
        let yy = y as u32;
        let inside_body = xx >= left && xx < right_exclusive && yy >= top && yy < bottom_exclusive;
        if !inside_body {
            return None;
        }
        let relative = (yy - top) as usize;
        let offset = self.panel_offset(panel);
        let idx = if offset <= usize::MAX - relative {
            offset + relative
        } else {
            usize::MAX
        };
        if idx < self.panel_len(panel) {
            Some(idx)
        } else {
            None
        }
    }

    /// Whether a point lies in the detail pane.
    pub fn point_in_details(&self, x: u16, y: u16) -> (r: bool)
        ensures
            r == spec_region_contains(self.ui_rects.details, x, y),
    {
        rect_contains(self.ui_rects.details, x, y)
    }

    /// Whether a click on the same target, with the same button, follows the
    /// last one within the double-click window.
    pub fn is_double_click(&self, panel: FocusPanel, index: Option<usize>, button: MouseButton)
        -> (r: bool)
        ensures
            r == match self.last_mouse_click {
                Some(last) => last.panel == panel && last.index == index && last.button == button
                    && self.now_ms - last.at_ms <= DOUBLE_CLICK_THRESHOLD_MS,
                None => false,
            },
    {
        match self.last_mouse_click {
            None => false,
            Some(last) => {
                if !(last.panel == panel && last.index == index && last.button == button) {
                    return false;
                }
                let elapsed = if self.now_ms >= last.at_ms {
                    self.now_ms - last.at_ms
                } else {
                    0
                };
                elapsed <= DOUBLE_CLICK_THRESHOLD_MS
            },
        }
    }

    /// Routes a mouse event: clicks focus and select (double clicks reload
    /// details), wheel events scroll the hovered pane; any open modal
    /// suppresses pointer input entirely.
    pub fn handle_mouse(&mut self, mouse: MouseEvent)
        ensures
            final(self).commit_file_selection == old(self).commit_file_selection,
            (old(self).confirmation is Some || old(self).input is Some || old(self).command_palette is Some) ==> *final(self) == *old(self),
            // with no modal open, pointer input acts on the panels
            !(old(self).confirmation is Some || old(self).input is Some || old(self).command_palette is Some) ==> match mouse.kind {
                MouseEventKind::Down(MouseButton::Left) => {
                    // a click outside every panel does nothing
                    &&& ((forall|p: FocusPanel|
                        !spec_region_contains(
                            spec_panel_rect(old(self).ui_rects, p),
                            mouse.column,
                            mouse.row,
                        )) ==> *final(self) == *old(self))
                    // a click in a panel focuses it, records the click, and
                    // selects the clicked row
                    &&& ((exists|p: FocusPanel|
                        spec_region_contains(
                            spec_panel_rect(old(self).ui_rects, p),
                            mouse.column,
                            mouse.row,
                        )) ==> (final(self).last_mouse_click matches Some(c) && {
                        &&& c.button == MouseButton::Left
                        &&& c.at_ms == old(self).now_ms
                        &&& spec_region_contains(
                            spec_panel_rect(old(self).ui_rects, c.panel),
                            mouse.column,
                            mouse.row,
                        )
                        &&& final(self).focus == c.panel
                        &&& (c.index matches Some(idx) ==> idx < spec_panel_len(old(self), c.panel)
                            && spec_panel_index(final(self), c.panel) == idx)
                    }))
                },
                MouseEventKind::ScrollDown | MouseEventKind::ScrollUp => {
                    // over the detail pane the wheel scrolls it
                    &&& (spec_region_contains(old(self).ui_rects.details, mouse.column, mouse.row)
                        ==> *final(self) == (App {
                        details_scroll: final(self).details_scroll,
                        ..*old(self)
                    }))
                    // elsewhere it scrolls the hovered panel, falling back to
                    // the focused one
                    &&& (!spec_region_contains(old(self).ui_rects.details, mouse.column, mouse.row)
                        ==> {
                        &&& (final(self).focus == old(self).focus || spec_region_contains(
                            spec_panel_rect(old(self).ui_rects, final(self).focus),
                            mouse.column,
                            mouse.row,
                        ))
                        &&& (final(self).focus != FocusPanel::Log && spec_panel_len(
                            old(self),
                            final(self).focus,
                        ) > 0 ==> spec_panel_index(final(self), final(self).focus) == spec_step(
                            spec_panel_index(old(self), final(self).focus),
                            spec_panel_len(old(self), final(self).focus),
                            mouse.kind == MouseEventKind::ScrollDown,
                        ))
                    })
                },
                _ => *final(self) == *old(self),
            },
    {
        if self.confirmation.is_some() || self.input.is_some() || self.command_palette.is_some() {
            return;
        }
        let hovered_panel = self.panel_at(mouse.column, mouse.row);
        match mouse.kind {
            MouseEventKind::Down(MouseButton::Left) => {
                match hovered_panel {
                    Some(panel) => {
                        let clicked_idx = self.list_row_from_point(panel, mouse.column, mouse.row);
                        let is_double = self.is_double_click(panel, clicked_idx, MouseButton::Left);
                        self.last_mouse_click = Some(
                            LastMouseClick {
                                panel,
                                index: clicked_idx,
                                button: MouseButton::Left,
                                at_ms: self.now_ms,
                            },
                        );
                        self.focus = panel;
                        match clicked_idx {
                            Some(idx) => {
                                self.set_panel_index(panel, idx);
                                self.ensure_visible(panel);
                            },
                            None => {},
                        }
                        if is_double && (panel == FocusPanel::Files || panel
                            == FocusPanel::Revisions) {
                            self.refresh_detail_for_focus();
                        }
                    },
                    None => {},
                }
            },
            MouseEventKind::ScrollDown => {
                if self.point_in_details(mouse.column, mouse.row) {
                    self.scroll_details(true);
                } else {
                    let panel = match hovered_panel {
                        Some(p) => p,
                        None => self.focus,
                    };
                    self.scroll_panel(panel, true);
                }
            },
            MouseEventKind::ScrollUp => {
                if self.point_in_details(mouse.column, mouse.row) {
                    self.scroll_details(false);
                } else {
                    let panel = match hovered_panel {
                        Some(p) => p,
                        None => self.focus,
                    };
                    self.scroll_panel(panel, false);
                }
            },
            _ => {},
        }
    }

    /// Scrolls a panel one step, focusing it.
    pub fn scroll_panel(&mut self, panel: FocusPanel, down: bool)
        ensures
            final(self).commit_file_selection == old(self).commit_file_selection,
            final(self).focus == panel,
            spec_panel_len(old(self), panel) > 0 && panel != FocusPanel::Log ==> spec_panel_index(
                final(self),
                panel,
            ) == spec_step(spec_panel_index(old(self), panel), spec_panel_len(old(self), panel), down),
    {
        self.focus = panel;
        if panel == FocusPanel::Log {
            let len = self.log_lines.len();
            if len == 0 {
                self.log_idx = 0;
                return;
            }
            let next = step_index(self.log_idx, len, down);
            self.log_idx = next;
            return;
        }
        let len = self.panel_len(panel);
        if len == 0 {
            self.set_panel_index(panel, 0);
            self.set_panel_offset(panel, 0);
            return;
        }
        let current = self.panel_index(panel);
        let next = step_index(current, len, down);
        self.set_panel_index(panel, next);
        self.ensure_visible(panel);
        proof {
            assert(spec_panel_index(self, panel) == next);
        }
        if panel == FocusPanel::Files || panel == FocusPanel::Revisions {
            self.refresh_detail_for_focus();
        }
    }

    /// Whether any revision carries a non-empty graph prefix.
    fn any_graph_prefix(&self) -> (r: bool)
        ensures
            r == (exists|i: int|
                0 <= i < self.snapshot.revisions@.len() && match (
                #[trigger] self.snapshot.revisions@[i]).graph_prefix {
                    Some(p) => p@.len() > 0,
                    None => false,
                }),
    {
        let n = self.snapshot.revisions.len();
        let mut i: usize = 0;
        while i < n
            invariant
                0 <= i <= n,
                n == self.snapshot.revisions@.len(),
                forall|j: int|
                    0 <= j < i ==> match (#[trigger] self.snapshot.revisions@[j]).graph_prefix {
                        Some(p) => p@.len() == 0,
                        None => true,
                    },
            decreases n - i,
        {
            match &self.snapshot.revisions[i].graph_prefix {
                Some(p) => {
                    if p.as_str().unicode_len() > 0 {
                        return true;
                    }
                },
                None => {},
            }
            i = i + 1;
        }
        false
    }

    /// Whether a revision with the given number is in the snapshot.
    fn has_revision(&self, rev: i64) -> (r: bool)
        ensures
            r == (exists|i: int|
                0 <= i < self.snapshot.revisions@.len() && (
                #[trigger] self.snapshot.revisions@[i]).rev == rev),
    {
        let n = self.snapshot.revisions.len();
        let mut i: usize = 0;
        while i < n
            invariant
                0 <= i <= n,
                n == self.snapshot.revisions@.len(),
                forall|j: int| 0 <= j < i ==> (#[trigger] self.snapshot.revisions@[j]).rev != rev,
            decreases n - i,
        {
            if self.snapshot.revisions[i].rev == rev {
                return true;
            }
            i = i + 1;
        }
        false
    }

    /// Compares two detail targets.
    fn detail_target_eq(a: &DetailTarget, b: &DetailTarget) -> (r: bool)
        ensures
            r == spec_target_eq(*a, *b),
    {
        match (a, b) {
            (DetailTarget::Nothing, DetailTarget::Nothing) => true,
            (DetailTarget::File(x), DetailTarget::File(y)) => crate::text::str_eq(
                x.as_str(),
                y.as_str(),
            ),
            (DetailTarget::Revision(x), DetailTarget::Revision(y)) => *x == *y,
            _ => false,
        }
    }

    /// Prunes the commit selection of paths no longer present.
    fn prune_selection(&mut self)
        requires
            old(self).selection_nodup(),
        ensures
            final(self).selection_nodup(),
            forall|q: Seq<char>|
                #[trigger] spec_sel_has(final(self).commit_file_selection@, q) == (spec_sel_has(
                    old(self).commit_file_selection@,
                    q,
                ) && spec_files_have(old(self).snapshot.files@, q)),
            *final(self) == (App {
                commit_file_selection: final(self).commit_file_selection,
                ..*old(self)
            }),
    {
        let ghost old_sel = self.commit_file_selection@;
        let mut kept: Vec<String> = Vec::new();
        let n = self.commit_file_selection.len();
        let mut i: usize = 0;
        while i < n
            invariant
                0 <= i <= n,
                n == old_sel.len(),
                self.commit_file_selection@ == old_sel,
                self.snapshot.files@ == old(self).snapshot.files@,
                forall|j: int, k: int|
                    0 <= j < k < old_sel.len() ==> (#[trigger] old_sel[j])@ != (
                    #[trigger] old_sel[k])@,
                forall|q: Seq<char>|
                    #[trigger] spec_sel_has(kept@, q) == (spec_sel_has(old_sel.take(i as int), q)
                        && spec_files_have(old(self).snapshot.files@, q)),
                forall|j: int, k: int|
                    0 <= j < k < kept@.len() ==> (#[trigger] kept@[j])@ != (#[trigger] kept@[k])@,
            decreases n - i,
        {
            let present = self.file_list_has(self.commit_file_selection[i].as_str());
            proof {
                assert(old_sel.take(i + 1) =~= old_sel.take(i as int).push(old_sel[i as int]));
            }
            if present {
                let entry = self.commit_file_selection[i].clone();
                let ghost kept_before = kept@;
                kept.push(entry);
                proof {
                    assert(kept@ =~= kept_before.push(entry));
                    assert(entry@ == old_sel[i as int]@);
                    assert forall|q: Seq<char>| #[trigger] spec_sel_has(kept@, q) == (
                    spec_sel_has(old_sel.take(i + 1), q) && spec_files_have(
                        old(self).snapshot.files@,
                        q,
                    )) by {
                        if spec_sel_has(kept@, q) {
                            let w = choose|w: int|
                                0 <= w < kept@.len() && (#[trigger] kept@[w])@ == q;
                            if w < kept_before.len() {
                                assert(spec_sel_has(kept_before, q));
                            } else {
                                assert(old_sel.take(i + 1)[i as int]@ == q);
                            }
                        }
                        if spec_sel_has(old_sel.take(i + 1), q) && spec_files_have(
                            old(self).snapshot.files@,
                            q,
                        ) {
                            let w = choose|w: int|
                                0 <= w < i + 1 && (#[trigger] old_sel.take(i + 1)[w])@ == q;
                            if w < i {
                                assert(spec_sel_has(old_sel.take(i as int), q));
                                assert(spec_sel_has(kept_before, q));
                                let u = choose|u: int|
                                    0 <= u < kept_before.len() && (#[trigger] kept_before[u])@ == q;
                                assert(kept@[u]@ == q);
                            } else {
                                assert(kept@[kept@.len() - 1]@ == q);
                            }
                        }
                    }
                    assert forall|j: int, k: int|
                        0 <= j < k < kept@.len() implies (#[trigger] kept@[j])@ != (
                    #[trigger] kept@[k])@ by {
                        if k == kept@.len() - 1 {
                            if kept@[j]@ == entry@ {
                                assert(spec_sel_has(kept_before, entry@));
                                let u = choose|u: int|
                                    0 <= u < i && (#[trigger] old_sel.take(i as int)[u])@
                                        == entry@;
                                assert(old_sel[u]@ == old_sel[i as int]@);
                            }
                        }
                    }
                }
            } else {
                proof {
                    assert forall|q: Seq<char>| #[trigger] spec_sel_has(kept@, q) == (
                    spec_sel_has(old_sel.take(i + 1), q) && spec_files_have(
                        old(self).snapshot.files@,
                        q,
                    )) by {
                        if spec_sel_has(old_sel.take(i + 1), q) && spec_files_have(
                            old(self).snapshot.files@,
                            q,
                        ) {
                            let w = choose|w: int|
                                0 <= w < i + 1 && (#[trigger] old_sel.take(i + 1)[w])@ == q;
                            if w == i {
                                assert(old_sel[i as int]@ == q);
                            } else {
                                assert(spec_sel_has(old_sel.take(i as int), q));
                            }
                        }
                    }
                }
            }
            i = i + 1;
        }
        proof {
            assert(old_sel.take(n as int) =~= old_sel);
        }
        self.commit_file_selection = kept;
    }

    /// Whether the file list holds a path.
    fn file_list_has(&self, path: &str) -> (r: bool)
        ensures
            r == spec_files_have(self.snapshot.files@, path@),
    {
        let n = self.snapshot.files.len();
        let mut i: usize = 0;
        while i < n
            invariant
                0 <= i <= n,
                n == self.snapshot.files@.len(),
                forall|j: int|
                    0 <= j < i ==> (#[trigger] self.snapshot.files@[j]).path@ != path@,
            decreases n - i,
        {
            if crate::text::str_eq(self.snapshot.files[i].path.as_str(), path) {
                return true;
            }
            i = i + 1;
        }
        false
    }

    /// Re-clamps every panel selection after a snapshot change and prunes
    /// the commit selection of vanished paths.
    #[verifier::rlimit(60)]
    pub fn adjust_indexes(&mut self)
        requires
            old(self).selection_nodup(),
        ensures
            final(self).selection_nodup(),
            forall|q: Seq<char>|
                #[trigger] spec_sel_has(final(self).commit_file_selection@, q) == (spec_sel_has(
                    old(self).commit_file_selection@,
                    q,
                ) && spec_files_have(old(self).snapshot.files@, q)),
            // only the selections, offsets and the commit selection change
            *final(self) == (App {
                files_idx: final(self).files_idx,
                rev_idx: final(self).rev_idx,
                bookmarks_idx: final(self).bookmarks_idx,
                shelves_idx: final(self).shelves_idx,
                conflicts_idx: final(self).conflicts_idx,
                log_idx: final(self).log_idx,
                files_offset: final(self).files_offset,
                rev_offset: final(self).rev_offset,
                bookmarks_offset: final(self).bookmarks_offset,
                shelves_offset: final(self).shelves_offset,
                conflicts_offset: final(self).conflicts_offset,
                commit_file_selection: final(self).commit_file_selection,
                ..*old(self)
            }),
            // every selection is clamped into its list and kept inside the
            // visible window
            spec_panel_clamped(old(self), final(self), FocusPanel::Files),
            spec_panel_clamped(old(self), final(self), FocusPanel::Revisions),
            spec_panel_clamped(old(self), final(self), FocusPanel::Bookmarks),
            spec_panel_clamped(old(self), final(self), FocusPanel::Shelves),
            spec_panel_clamped(old(self), final(self), FocusPanel::Conflicts),
            old(self).log_lines@.len() == 0 ==> final(self).log_idx == 0,
            old(self).log_lines@.len() > 0 ==> final(self).log_idx == spec_min(
                old(self).log_idx as int,
                old(self).log_lines@.len() - 1,
            ),
    {
        let flen = self.snapshot.files.len();
        if self.files_idx >= flen {
            self.files_idx = if flen > 0 {
                flen - 1
            } else {
                0
            };
        }
        let rlen = self.snapshot.revisions.len();
        if self.rev_idx >= rlen {
            self.rev_idx = if rlen > 0 {
                rlen - 1
            } else {
                0
            };
        }
        let blen = self.snapshot.bookmarks.len();
        if self.bookmarks_idx >= blen {
            self.bookmarks_idx = if blen > 0 {
                blen - 1
            } else {
                0
            };
        }
        let slen = self.snapshot.shelves.len();
        if self.shelves_idx >= slen {
            self.shelves_idx = if slen > 0 {
                slen - 1
            } else {
                0
            };
        }
        let clen = self.snapshot.conflicts.len();
        if self.conflicts_idx >= clen {
            self.conflicts_idx = if clen > 0 {
                clen - 1
            } else {
                0
            };
        }
        let llen = self.log_lines.len();
        if self.log_idx >= llen {
            self.log_idx = if llen > 0 {
                llen - 1
            } else {
                0
            };
        }
        self.prune_selection();
        self.ensure_visible(FocusPanel::Files);
        self.ensure_visible(FocusPanel::Revisions);
        self.ensure_visible(FocusPanel::Bookmarks);
        self.ensure_visible(FocusPanel::Shelves);
        self.ensure_visible(FocusPanel::Conflicts);
    }
}

/// Equality of detail targets by value.
pub open spec fn spec_target_eq(a: DetailTarget, b: DetailTarget) -> bool {
    match (a, b) {
        (DetailTarget::Nothing, DetailTarget::Nothing) => true,
        (DetailTarget::File(x), DetailTarget::File(y)) => x@ == y@,
        (DetailTarget::Revision(x), DetailTarget::Revision(y)) => x == y,
        _ => false,
    }
}

/// The primary key label as an owned string.
fn key_label_string(keymap: &ActionKeyMap, action: ActionId) -> (r: String)
    ensures
        r@ == spec_key_label(*keymap, action),
{
    match keymap.key_for_action(action) {
        Some(k) => k.to_owned(),
        None => "?".to_owned(),
    }
}


impl App {
    /// The in-progress hint after a successful action, computed
    /// optimistically from the pre-refresh conflict count adjusted by one,
    /// since the authoritative count only arrives with the next refresh.
    pub fn handle_rebase_action_success_hint(
        &mut self,
        action_kind: ActionOutcomeKind,
        out: &CommandResult,
    )
        ensures
            action_kind == ActionOutcomeKind::RebaseStart ==> final(self).status_line@
                == "Rebase started. Refreshing state to determine next step\u{2026}"@,
            action_kind == ActionOutcomeKind::RebaseContinue ==> final(self).status_line@
                == "Rebase continue ran. Refreshing state to verify progress\u{2026}"@,
            action_kind == ActionOutcomeKind::RebaseAbort ==> final(self).status_line@
                == "Rebase abort ran. Refreshing state\u{2026}"@,
            action_kind == ActionOutcomeKind::Other ==> final(self).status_line@ == "Completed: "@
                + out.command_preview@,
            // the conflict-count hint is optimistic: the pre-refresh count
            // adjusted by one, since the authoritative count only arrives
            // with the next refresh
            (action_kind == ActionOutcomeKind::ResolveMark || action_kind
                == ActionOutcomeKind::ResolveUnmark) && !old(self).snapshot.rebase.in_progress
                ==> final(self).status_line@ == "Completed: "@ + out.command_preview@,
            action_kind == ActionOutcomeKind::ResolveMark && old(self).snapshot.rebase.in_progress
                ==> ({
                let u = if old(self).snapshot.rebase.unresolved_conflicts > 0 {
                    (old(self).snapshot.rebase.unresolved_conflicts - 1) as int
                } else {
                    0int
                };
                if u == 0 {
                    final(self).status_line@ == "All conflicts appear resolved. Press "@
                        + spec_key_label(old(self).keymap, ActionId::RebaseContinue)
                        + " to continue rebase."@
                } else {
                    final(self).status_line@ == "Conflict state updated. ~"@
                        + crate::text::spec_dec(u as nat)
                        + " unresolved conflict(s) remain before continue."@
                }
            }),
            action_kind == ActionOutcomeKind::ResolveUnmark && old(self).snapshot.rebase.in_progress
                ==> ({
                let u = if old(self).snapshot.rebase.unresolved_conflicts < usize::MAX {
                    old(self).snapshot.rebase.unresolved_conflicts + 1
                } else {
                    usize::MAX as int
                };
                final(self).status_line@ == "Conflict state updated. ~"@ + crate::text::spec_dec(
                    u as nat,
                ) + " unresolved conflict(s) remain before continue."@
            }),
            *final(self) == (App { status_line: final(self).status_line, ..*old(self) }),
    {
        match action_kind {
            ActionOutcomeKind::RebaseStart => {
                self.status_line =
                    "Rebase started. Refreshing state to determine next step\u{2026}".to_owned();
            },
            ActionOutcomeKind::RebaseContinue => {
                self.status_line =
                    "Rebase continue ran. Refreshing state to verify progress\u{2026}".to_owned();
            },
            ActionOutcomeKind::RebaseAbort => {
                self.status_line = "Rebase abort ran. Refreshing state\u{2026}".to_owned();
            },
            ActionOutcomeKind::ResolveMark | ActionOutcomeKind::ResolveUnmark => {
                if self.snapshot.rebase.in_progress {
                    let current = self.snapshot.rebase.unresolved_conflicts;
                    let unresolved: usize = match action_kind {
                        ActionOutcomeKind::ResolveMark => {
                            if current > 0 {
                                current - 1
                            } else {
                                0
                            }
                        },
                        ActionOutcomeKind::ResolveUnmark => {
                            if current < usize::MAX {
                                current + 1
                            } else {
                                usize::MAX
                            }
                        },
                        _ => current,
                    };
                    if unresolved == 0 {
                        let key = key_label_string(&self.keymap, ActionId::RebaseContinue);
                        let mut msg =
                            "All conflicts appear resolved. Press ".to_owned();
                        msg.append(key.as_str());
                        msg.append(" to continue rebase.");
                        self.status_line = msg;
                    } else {
                        let mut msg = "Conflict state updated. ~".to_owned();
                        let count = crate::text::usize_string(unresolved);
                        msg.append(count.as_str());
                        msg.append(" unresolved conflict(s) remain before continue.");
                        self.status_line = msg;
                    }
                } else {
                    let mut msg = "Completed: ".to_owned();
                    msg.append(out.command_preview.as_str());
                    self.status_line = msg;
                }
            },
            ActionOutcomeKind::Other => {
                let mut msg = "Completed: ".to_owned();
                msg.append(out.command_preview.as_str());
                self.status_line = msg;
            },
        }
    }

    /// The guidance shown when a rebase-family action fails.
    pub fn handle_rebase_action_failure_hint(
        &mut self,
        action_kind: ActionOutcomeKind,
        out: &CommandResult,
    )
        ensures
            action_kind == ActionOutcomeKind::Other ==> final(self).status_line@
                == "Command failed: "@ + out.command_preview@,
            action_kind == ActionOutcomeKind::RebaseContinue ==> final(self).status_line@
                == "Rebase continue failed: "@ + out.command_preview@
                + ". Resolve conflicts then press "@ + spec_key_label(
                old(self).keymap,
                ActionId::RebaseContinue,
            ) + ", or abort with "@ + spec_key_label(old(self).keymap, ActionId::RebaseAbort)
                + "."@,
            *final(self) == (App { status_line: final(self).status_line, ..*old(self) }),
    {
        let continue_key = key_label_string(&self.keymap, ActionId::RebaseContinue);
        let abort_key = key_label_string(&self.keymap, ActionId::RebaseAbort);
        match action_kind {
            ActionOutcomeKind::RebaseStart => {
                let mut msg = "Rebase start failed: ".to_owned();
                msg.append(out.command_preview.as_str());
                msg.append(". Check details, then retry or press ");
                msg.append(abort_key.as_str());
                msg.append(" to abort.");
                self.status_line = msg;
            },
            ActionOutcomeKind::RebaseContinue => {
                let mut msg = "Rebase continue failed: ".to_owned();
                msg.append(out.command_preview.as_str());
                msg.append(". Resolve conflicts then press ");
                msg.append(continue_key.as_str());
                msg.append(", or abort with ");
                msg.append(abort_key.as_str());
                msg.append(".");
                self.status_line = msg;
            },
            ActionOutcomeKind::RebaseAbort => {
                let mut msg = "Rebase abort failed: ".to_owned();
                msg.append(out.command_preview.as_str());
                msg.append(". Check details for recovery steps.");
                self.status_line = msg;
            },
            ActionOutcomeKind::ResolveMark | ActionOutcomeKind::ResolveUnmark => {
                let mut msg = "Conflict resolution command failed: ".to_owned();
                msg.append(out.command_preview.as_str());
                msg.append(". Check details and retry.");
                self.status_line = msg;
            },
            ActionOutcomeKind::Other => {
                let mut msg = "Command failed: ".to_owned();
                msg.append(out.command_preview.as_str());
                self.status_line = msg;
            },
        }
    }

    /// Applies one background completion: a snapshot replaces state
    /// wholesale (a lightweight one keeps the previous revisions), a detail
    /// completion lands only if its request id is still the latest, and a
    /// finished action reports its outcome and triggers a follow-up refresh.
    #[verifier::rlimit(100)]
    #[verifier::spinoff_prover]
    pub fn handle_app_event(&mut self, event: AppEvent)
        requires
            old(self).selection_nodup(),
        ensures
            final(self).selection_nodup(),
            // a stale detail completion is dropped without any effect
            (event matches AppEvent::DetailLoaded { request_id, .. } && request_id != old(self).detail_request_id)
                ==> *final(self) == *old(self),
            // a matching detail completion lands, resetting the scroll
            match event {
                AppEvent::DetailLoaded { request_id, result } => request_id == old(self).detail_request_id ==> {
                    &&& final(self).details_scroll == 0
                    &&& final(self).detail_text@ == match result {
                        Ok(text) => if crate::text::spec_trim(text@).len() == 0 {
                            "No diff output."@
                        } else {
                            text@
                        },
                        Err(e) => "Failed loading detail: "@ + e@,
                    }
                },
                _ => true,
            },
            // a lightweight refresh carries the previous revisions forward
            (event matches AppEvent::SnapshotLoaded {
                include_revisions: false,
                result: Ok(_),
                ..
            }) ==> final(self).snapshot.revisions == old(self).snapshot.revisions,
            // a full refresh adopts the fresh revision list
            match event {
                AppEvent::SnapshotLoaded { include_revisions: true, result: Ok(snap), .. }
                    => final(self).snapshot.revisions == snap.revisions,
                _ => true,
            },
            // a fresh snapshot is adopted wholesale: every field but the
            // revision list comes from it
            match event {
                AppEvent::SnapshotLoaded { result: Ok(snap), .. } => final(self).snapshot
                    == (RepoSnapshot { revisions: final(self).snapshot.revisions, ..snap }),
                _ => true,
            },
            // a failed refresh leaves everything but the status line and the
            // log untouched
            match event {
                AppEvent::SnapshotLoaded { result: Err(_), .. } => {
                    &&& final(self).snapshot == old(self).snapshot
                    &&& final(self).status_line@ == "Snapshot refresh failed."@
                    &&& *final(self) == (App {
                        status_line: final(self).status_line,
                        log_lines: final(self).log_lines,
                        last_rebase_hint: final(self).last_rebase_hint,
                        ..*old(self)
                    })
                },
                _ => true,
            },
            // after a fresh snapshot every selection is re-clamped into its
            // list and kept inside the visible window
            match event {
                AppEvent::SnapshotLoaded { result: Ok(_), .. } => {
                    &&& (final(self).snapshot.files@.len() == 0 ==> final(self).files_idx == 0)
                    &&& (final(self).snapshot.files@.len() > 0 ==> final(self).files_idx
                        == spec_min(
                        old(self).files_idx as int,
                        final(self).snapshot.files@.len() - 1,
                    ) && final(self).files_offset <= final(self).files_idx < final(self).files_offset + spec_max(spec_body_rows(old(self).ui_rects.files), 1))
                    &&& (final(self).snapshot.revisions@.len() == 0 ==> final(self).rev_idx == 0)
                    &&& (final(self).snapshot.revisions@.len() > 0 ==> final(self).rev_idx
                        == spec_min(
                        old(self).rev_idx as int,
                        final(self).snapshot.revisions@.len() - 1,
                    ) && final(self).rev_offset <= final(self).rev_idx < final(self).rev_offset + spec_max(spec_body_rows(old(self).ui_rects.revisions), 1))
                    &&& (final(self).snapshot.bookmarks@.len() == 0 ==> final(self).bookmarks_idx
                        == 0)
                    &&& (final(self).snapshot.bookmarks@.len() > 0 ==> final(self).bookmarks_idx
                        == spec_min(
                        old(self).bookmarks_idx as int,
                        final(self).snapshot.bookmarks@.len() - 1,
                    ) && final(self).bookmarks_offset <= final(self).bookmarks_idx < final(self).bookmarks_offset + spec_max(spec_body_rows(old(self).ui_rects.bookmarks), 1))
                    &&& (final(self).snapshot.shelves@.len() == 0 ==> final(self).shelves_idx == 0)
                    &&& (final(self).snapshot.shelves@.len() > 0 ==> final(self).shelves_idx
                        == spec_min(
                        old(self).shelves_idx as int,
                        final(self).snapshot.shelves@.len() - 1,
                    ) && final(self).shelves_offset <= final(self).shelves_idx < final(self).shelves_offset + spec_max(spec_body_rows(old(self).ui_rects.shelves), 1))
                    &&& (final(self).snapshot.conflicts@.len() == 0 ==> final(self).conflicts_idx
                        == 0)
                    &&& (final(self).snapshot.conflicts@.len() > 0 ==> final(self).conflicts_idx
                        == spec_min(
                        old(self).conflicts_idx as int,
                        final(self).snapshot.conflicts@.len() - 1,
                    ) && final(self).conflicts_offset <= final(self).conflicts_idx < final(self).conflicts_offset + spec_max(spec_body_rows(old(self).ui_rects.conflicts), 1))
                },
                _ => true,
            },
            // a fresh snapshot prunes the commit selection to surviving paths
            match event {
                AppEvent::SnapshotLoaded { result: Ok(snap), .. } => forall|q: Seq<char>|
                    #[trigger] spec_sel_has(final(self).commit_file_selection@, q) == (
                    spec_sel_has(old(self).commit_file_selection@, q) && spec_files_have(
                        snap.files@,
                        q,
                    )),
                _ => true,
            },
            // a pending rebase source vanishes with its revision
            match event {
                AppEvent::SnapshotLoaded { result: Ok(_), .. } => match old(self).pending_rebase_source {
                    Some(src) => final(self).pending_rebase_source == if exists|i: int|
                        0 <= i < final(self).snapshot.revisions@.len() && (
                        #[trigger] final(self).snapshot.revisions@[i]).rev == src {
                        Some(src)
                    } else {
                        None::<i64>
                    },
                    None => final(self).pending_rebase_source is None,
                },
                _ => true,
            },
            // a vanished source is noted in the log
            match event {
                AppEvent::SnapshotLoaded { result: Ok(_), .. } => match old(self).pending_rebase_source {
                    Some(src) => final(self).pending_rebase_source is None ==> exists|i: int|
                        0 <= i < final(self).log_lines@.len() && (
                        #[trigger] final(self).log_lines@[i])@ == "["@ + old(self).clock_stamp@
                        + "] "@ + "Rebase source revision "@ + crate::text::spec_dec_i64(
                        src as int,
                    ) + " disappeared; selection cleared."@,
                    None => true,
                },
                _ => true,
            },
            // every snapshot outcome is reported in the log
            match event {
                AppEvent::SnapshotLoaded { result: Ok(_), .. } => final(self).log_lines@.last()@
                    == "["@ + old(self).clock_stamp@ + "] "@ + "Snapshot refreshed"@,
                AppEvent::SnapshotLoaded { result: Err(e), .. } => final(self).log_lines@.last()@
                    == "["@ + old(self).clock_stamp@ + "] "@ + "Refresh failed: "@ + e@,
                _ => true,
            },
            // every finished action is reported in the log, never silently
            match event {
                AppEvent::ActionFinished { result: Ok(out), .. } => if out.success {
                    final(self).log_lines@.last()@ == "["@ + old(self).clock_stamp@ + "] "@
                        + "OK: "@ + out.command_preview@
                } else {
                    final(self).log_lines@.last()@ == "["@ + old(self).clock_stamp@ + "] "@
                        + "FAILED: "@ + crate::text::spec_trim(
                        out.command_preview@ + "\n"@ + crate::text::spec_trim(out.stdout@) + "\n"@
                            + crate::text::spec_trim(out.stderr@),
                    )
                },
                AppEvent::ActionFinished { result: Err(e), .. } => final(self).log_lines@.last()@
                    == "["@ + old(self).clock_stamp@ + "] "@ + "ERROR: "@ + crate::text::spec_trim(
                    e@,
                ),
                _ => true,
            },
            // outcomes of finished actions
            match event {
                AppEvent::ActionFinished { result: Ok(out), clear_commit_selection, .. } => {
                    &&& (out.success && clear_commit_selection)
                        ==> final(self).commit_file_selection@.len() == 0
                    &&& !(out.success && clear_commit_selection)
                        ==> final(self).commit_file_selection == old(self).commit_file_selection
                    &&& final(self).effects@.len() == old(self).effects@.len() + 1
                    &&& final(self).effects@.last() == (Effect::RefreshSnapshot {
                        preserve_details: false,
                        include_revisions: false,
                    })
                    &&& !out.success ==> final(self).detail_text@ == out.command_preview@ + "
"@
                        + crate::text::spec_trim(out.stdout@) + "
"@ + crate::text::spec_trim(
                        out.stderr@,
                    )
                },
                AppEvent::ActionFinished { result: Err(e), action_preview, .. } => {
                    &&& final(self).status_line@ == "Command error: "@ + action_preview@
                    &&& final(self).detail_text@ == e@
                    &&& final(self).effects == old(self).effects
                },
                _ => true,
            },
    {
        match event {
            AppEvent::SnapshotLoaded { preserve_details, include_revisions, result } => {
                match result {
                    Ok(snapshot) => {
                        let previous_detail_target = self.detail_target();
                        let mut snapshot = snapshot;
                        if !include_revisions {
                            core::mem::swap(&mut snapshot.revisions, &mut self.snapshot.revisions);
                        }
                        self.snapshot = snapshot;
                        self.adjust_indexes();
                        if include_revisions {
                            let has_graph_rows = self.any_graph_prefix();
                            if self.snapshot.revisions.len() > 0 && !has_graph_rows {
                                if !self.commit_graph_warning_emitted {
                                    self.append_log(
                                        "Commit graph unavailable; showing flat commit list.".to_owned(),
                                    );
                                }
                                self.commit_graph_warning_emitted = true;
                                self.status_line =
                                    "Repository state refreshed (flat commit list).".to_owned();
                            } else {
                                self.commit_graph_warning_emitted = false;
                                self.status_line = "Repository state refreshed.".to_owned();
                            }
                        } else {
                            self.status_line = "Repository state refreshed.".to_owned();
                        }
                        proof {
                            assert(self.pending_rebase_source == old(self).pending_rebase_source);
                            assert(self.clock_stamp == old(self).clock_stamp);
                        }
                        let pending = self.pending_rebase_source;
                        let ghost gone_text: Seq<char> = match old(self).pending_rebase_source {
                            Some(src) => "["@ + old(self).clock_stamp@ + "] "@
                                + "Rebase source revision "@ + crate::text::spec_dec_i64(src as int)
                                + " disappeared; selection cleared."@,
                            None => Seq::empty(),
                        };
                        match pending {
                            Some(source_rev) => {
                                let visible = self.has_revision(source_rev);
                                if !visible {
                                    self.pending_rebase_source = None;
                                    let num = crate::text::i64_string(source_rev);
                                    let mut line = "Rebase source revision ".to_owned();
                                    line.append(num.as_str());
                                    line.append(" disappeared; selection cleared.");
                                    self.append_log(line);
                                    proof {
                                        assert(old(self).pending_rebase_source == Some(source_rev));
                                        assert(self.log_lines@.last()@ =~= gone_text);
                                        assert(spec_log_has_near_end(
                                            self.log_lines@,
                                            gone_text,
                                            1,
                                        )) by {
                                            assert(self.log_lines@[self.log_lines@.len() - 1
                                                - 0]@ == gone_text);
                                        }
                                    }
                                }
                            },
                            None => {},
                        }
                        let ghost gone = old(self).pending_rebase_source is Some
                            && self.pending_rebase_source is None;
                        proof {
                            assert(gone ==> spec_log_has_near_end(self.log_lines@, gone_text, 1));
                        }
                        let ghost log_a = self.log_lines@;
                        if !self.snapshot.capabilities.has_rebase
                            && !self.rebase_unavailable_notice_emitted {
                            self.append_log(
                                "Rebase unavailable: enable the Mercurial 'rebase' extension to use the rebase action (r).".to_owned(),
                            );
                            proof {
                                if gone {
                                    lemma_log_near_end_kept(log_a, self.log_lines@, gone_text, 1);
                                }
                            }
                            self.rebase_unavailable_notice_emitted = true;
                        } else if self.snapshot.capabilities.has_rebase {
                            self.rebase_unavailable_notice_emitted = false;
                        }
                        proof {
                            assert(gone ==> spec_log_has_near_end(self.log_lines@, gone_text, 2));
                        }
                        let ghost log_b = self.log_lines@;
                        let current_target = self.detail_target();
                        let target_changed = !App::detail_target_eq(
                            &previous_detail_target,
                            &current_target,
                        );
                        if !preserve_details || target_changed {
                            self.refresh_detail_for_focus();
                        }
                        proof {
                            assert(self.log_lines@ == log_b);
                        }
                        self.refresh_rebase_status_hint_from_snapshot();
                        proof {
                            if gone {
                                lemma_log_near_end_kept2(log_b, self.log_lines@, gone_text, 2);
                            }
                        }
                        let ghost log_c = self.log_lines@;
                        proof {
                            assert(self.clock_stamp == old(self).clock_stamp);
                        }
                        self.append_log("Snapshot refreshed".to_owned());
                        proof {
                            assert(self.log_lines@.last()@ =~= "["@ + old(self).clock_stamp@
                                + "] "@ + "Snapshot refreshed"@);
                            if gone {
                                lemma_log_near_end_kept(log_c, self.log_lines@, gone_text, 4);
                                let d = choose|d: int|
                                    0 <= d < 5 && d < self.log_lines@.len() && (
                                    #[trigger] self.log_lines@[self.log_lines@.len() - 1 - d])@
                                        == gone_text;
                                assert(self.log_lines@[self.log_lines@.len() - 1 - d]@
                                    == gone_text);
                            }
                        }
                    },
                    Err(err) => {
                        self.status_line = "Snapshot refresh failed.".to_owned();
                        self.update_rebase_hint_log(None);
                        let mut line = "Refresh failed: ".to_owned();
                        line.append(err.as_str());
                        self.append_log(line);
                        proof {
                            assert(self.log_lines@.last()@ =~= "["@ + old(self).clock_stamp@
                                + "] "@ + "Refresh failed: "@ + err@);
                        }
                    },
                }
            },
            AppEvent::DetailLoaded { request_id, result } => {
                if request_id == self.detail_request_id {
                    match result {
                        Ok(text) => {
                            let chars = crate::text::str_chars(text.as_str());
                            let trimmed = crate::text::trim_chars(&chars);
                            if trimmed.len() == 0 {
                                self.set_detail_text("No diff output.".to_owned());
                            } else {
                                self.set_detail_text(text);
                            }
                        },
                        Err(err) => {
                            let mut msg = "Failed loading detail: ".to_owned();
                            msg.append(err.as_str());
                            self.set_detail_text(msg);
                        },
                    }
                }
            },
            AppEvent::ActionFinished {
                action_kind,
                action_preview,
                show_output,
                clear_commit_selection,
                result,
            } => {
                match result {
                    Ok(out) => {
                        let mut preserve_status_after_refresh: Option<String> = None;
                        if out.success {
                            self.handle_rebase_action_success_hint(action_kind, &out);
                            if action_kind != ActionOutcomeKind::Other {
                                preserve_status_after_refresh = Some(self.status_line.clone());
                            }
                            let mut line = "OK: ".to_owned();
                            line.append(out.command_preview.as_str());
                            self.append_log(line);
                            proof {
                                assert(self.log_lines@.last()@ =~= "["@ + old(self).clock_stamp@
                                    + "] "@ + "OK: "@ + out.command_preview@);
                            }
                            if clear_commit_selection {
                                self.commit_file_selection = Vec::new();
                            }
                            if show_output {
                                let text = crate::commands::collect_command_output(&out);
                                if text.as_str().unicode_len() > 0 {
                                    self.set_detail_text(text);
                                }
                            }
                        } else {
                            self.handle_rebase_action_failure_hint(action_kind, &out);
                            let mut detail = out.command_preview.clone();
                            detail.append("\n");
                            let stdout_chars = crate::text::str_chars(out.stdout.as_str());
                            let stdout_trim = crate::text::trim_chars(&stdout_chars);
                            let stdout_s = crate::text::chars_string(&stdout_trim);
                            detail.append(stdout_s.as_str());
                            detail.append("\n");
                            let stderr_chars = crate::text::str_chars(out.stderr.as_str());
                            let stderr_trim = crate::text::trim_chars(&stderr_chars);
                            let stderr_s = crate::text::chars_string(&stderr_trim);
                            detail.append(stderr_s.as_str());
                            let detail_chars = crate::text::str_chars(detail.as_str());
                            let detail_trim = crate::text::trim_chars(&detail_chars);
                            let detail_trim_s = crate::text::chars_string(&detail_trim);
                            let mut line = "FAILED: ".to_owned();
                            line.append(detail_trim_s.as_str());
                            self.append_log(line);
                            proof {
                                assert(detail@ =~= out.command_preview@ + "\n"@
                                    + crate::text::spec_trim(out.stdout@) + "\n"@
                                    + crate::text::spec_trim(out.stderr@));
                                assert(self.log_lines@.last()@ =~= "["@ + old(self).clock_stamp@
                                    + "] "@ + "FAILED: "@ + crate::text::spec_trim(detail@));
                            }
                            self.set_detail_text(detail);
                            if action_kind != ActionOutcomeKind::Other {
                                preserve_status_after_refresh = Some(self.status_line.clone());
                            }
                        }
                        // the follow-up refresh is lightweight; the next
                        // periodic or manual refresh brings revisions
                        self.refresh_snapshot_with_mode(false, false);
                        match preserve_status_after_refresh {
                            Some(status_line) => {
                                self.status_line = status_line;
                            },
                            None => {},
                        }
                    },
                    Err(err) => {
                        let mut status = "Command error: ".to_owned();
                        status.append(action_preview.as_str());
                        self.status_line = status;
                        let err_chars = crate::text::str_chars(err.as_str());
                        let err_trim = crate::text::trim_chars(&err_chars);
                        let err_trim_s = crate::text::chars_string(&err_trim);
                        let mut line = "ERROR: ".to_owned();
                        line.append(err_trim_s.as_str());
                        self.append_log(line);
                        proof {
                            assert(self.log_lines@.last()@ =~= "["@ + old(self).clock_stamp@
                                + "] "@ + "ERROR: "@ + crate::text::spec_trim(err@));
                        }
                        self.set_detail_text(err);
                    },
                }
            },
        }
    }
}


/// Help shown when the rebase extension is missing.
pub fn rebase_unavailable_help_text() -> (r: String)
    ensures
        r@ == "Rebase is unavailable in this repository.\n\nEnable the Mercurial rebase extension in your hgrc:\n[extensions]\nrebase =\n\nThen refresh the snapshot and try rebase again."@,
{
    "Rebase is unavailable in this repository.\n\nEnable the Mercurial rebase extension in your hgrc:\n[extensions]\nrebase =\n\nThen refresh the snapshot and try rebase again.".to_owned()
}

/// Help shown when continue or abort is used without a rebase in progress.
pub fn no_rebase_in_progress_help_text() -> (r: String)
    ensures
        r@ == "No rebase is currently in progress.\n\nStart a rebase with the rebase picker (`r`) from the Commits panel, then use continue/abort actions as needed."@,
{
    "No rebase is currently in progress.\n\nStart a rebase with the rebase picker (`r`) from the Commits panel, then use continue/abort actions as needed.".to_owned()
}

/// Help shown when continue is blocked by unresolved conflicts.
pub fn rebase_continue_blocked_help_text(
    unresolved: usize,
    resolve_mark_key: &str,
    continue_key: &str,
    abort_key: &str,
) -> (r: String)
    ensures
        r@ == "Rebase continue is blocked.\n\n"@ + crate::text::spec_dec(unresolved as nat)
            + " unresolved conflict(s) remain.\n\nResolve conflicts in the Conflicts panel (mark resolved with `"@
            + resolve_mark_key@ + "`), then press `"@ + continue_key@
            + "`.\nUse `"@ + abort_key@ + "` to abort the rebase."@,
{
    let mut msg = "Rebase continue is blocked.\n\n".to_owned();
    let count = crate::text::usize_string(unresolved);
    msg.append(count.as_str());
    msg.append(" unresolved conflict(s) remain.\n\nResolve conflicts in the Conflicts panel (mark resolved with `");
    msg.append(resolve_mark_key);
    msg.append("`), then press `");
    msg.append(continue_key);
    msg.append("`.\nUse `");
    msg.append(abort_key);
    msg.append("` to abort the rebase.");
    msg
}

impl App {
    /// The selected revision number, if the revision panel has one.
    pub fn selected_revision_number(&self) -> (r: Option<i64>)
        ensures
            r == if self.rev_idx < self.snapshot.revisions@.len() {
                Some(self.snapshot.revisions@[self.rev_idx as int].rev)
            } else {
                None::<i64>
            },
    {
        if self.rev_idx < self.snapshot.revisions.len() {
            Some(self.snapshot.revisions[self.rev_idx].rev)
        } else {
            None
        }
    }

    /// The two-step rebase picker. With no pending source, the selected
    /// revision becomes the source. Re-selecting the very same revision is
    /// rejected — source and destination must differ — and the pending
    /// source stays. Selecting a different revision clears the pending
    /// source and opens a confirmation for source onto destination.
    pub fn start_or_confirm_rebase(&mut self)
        ensures
            final(self).commit_file_selection == old(self).commit_file_selection,
            // the picker never executes anything by itself
            final(self).effects == old(self).effects,
            *final(self) == (App {
                pending_rebase_source: final(self).pending_rebase_source,
                confirmation: final(self).confirmation,
                status_line: final(self).status_line,
                detail_text: final(self).detail_text,
                details_scroll: final(self).details_scroll,
                ..*old(self)
            }),
            !old(self).snapshot.capabilities.has_rebase ==> {
                &&& final(self).status_line@ == "Rebase extension not enabled."@
                &&& final(self).detail_text@
                    == "Rebase is unavailable in this repository.\n\nEnable the Mercurial rebase extension in your hgrc:\n[extensions]\nrebase =\n\nThen refresh the snapshot and try rebase again."@
                &&& final(self).pending_rebase_source == old(self).pending_rebase_source
                &&& final(self).confirmation == old(self).confirmation
            },
            old(self).snapshot.capabilities.has_rebase && old(self).rev_idx >= old(self).snapshot.revisions@.len() ==> {
                &&& final(self).status_line@ == "No revision selected for rebase."@
                &&& final(self).pending_rebase_source == old(self).pending_rebase_source
                &&& final(self).confirmation == old(self).confirmation
            },
            old(self).snapshot.capabilities.has_rebase && old(self).rev_idx < old(self).snapshot.revisions@.len() ==> {
                let selected = old(self).snapshot.revisions@[old(self).rev_idx as int].rev;
                match old(self).pending_rebase_source {
                    Some(source) => if source == selected {
                        // same revision re-selected: keep the source, open nothing
                        &&& final(self).pending_rebase_source == Some(source)
                        &&& final(self).confirmation == old(self).confirmation
                        &&& final(self).status_line@
                            == "Select a different destination revision, then press rebase again."@
                    } else {
                        // a destination: clear the source, confirm source onto destination
                        &&& final(self).pending_rebase_source is None
                        &&& (final(self).confirmation matches Some(c) && c.action
                            == PendingRunAction::Hg(
                            HgAction::RebaseSourceDest { source_rev: source, dest_rev: selected },
                        ) && c.message@ == "Rebase step 2/2: rebase source revision "@
                            + crate::text::spec_dec_i64(source as int)
                            + " onto destination revision "@ + crate::text::spec_dec_i64(
                            selected as int,
                        ) + "?"@)
                        &&& final(self).status_line@ == "Rebase step 2/2: confirm source "@
                            + crate::text::spec_dec_i64(source as int) + " -> destination "@
                            + crate::text::spec_dec_i64(selected as int) + "."@
                    },
                    None => {
                        // first step: record the source
                        &&& final(self).pending_rebase_source == Some(selected)
                        &&& final(self).confirmation == old(self).confirmation
                        &&& final(self).status_line@ == "Rebase step 1/2: source "@
                            + crate::text::spec_dec_i64(selected as int)
                            + " selected. Choose destination and press "@ + spec_key_label(
                            old(self).keymap,
                            ActionId::RebaseSelected,
                        ) + " again (Esc cancels)."@
                    },
                }
            },
    {
        if !self.snapshot.capabilities.has_rebase {
            self.status_line = "Rebase extension not enabled.".to_owned();
            self.set_detail_text(rebase_unavailable_help_text());
            return;
        }
        let selected_rev = match self.selected_revision_number() {
            Some(rev) => rev,
            None => {
                self.status_line = "No revision selected for rebase.".to_owned();
                return;
            },
        };
        match self.pending_rebase_source {
            Some(source_rev) => {
                if source_rev == selected_rev {
                    self.status_line =
                        "Select a different destination revision, then press rebase again.".to_owned();
                    return;
                }
                self.pending_rebase_source = None;
                let src = crate::text::i64_string(source_rev);
                let dst = crate::text::i64_string(selected_rev);
                let mut status = "Rebase step 2/2: confirm source ".to_owned();
                status.append(src.as_str());
                status.append(" -> destination ");
                status.append(dst.as_str());
                status.append(".");
                self.status_line = status;
                let mut message = "Rebase step 2/2: rebase source revision ".to_owned();
                message.append(src.as_str());
                message.append(" onto destination revision ");
                message.append(dst.as_str());
                message.append("?");
                self.confirm_action(
                    PendingRunAction::Hg(
                        HgAction::RebaseSourceDest {
                            source_rev,
                            dest_rev: selected_rev,
                        },
                    ),
                    message,
                );
            },
            None => {
                self.pending_rebase_source = Some(selected_rev);
                let num = crate::text::i64_string(selected_rev);
                let key = key_label_string(&self.keymap, ActionId::RebaseSelected);
                let mut status = "Rebase step 1/2: source ".to_owned();
                status.append(num.as_str());
                status.append(" selected. Choose destination and press ");
                status.append(key.as_str());
                status.append(" again (Esc cancels).");
                self.status_line = status;
            },
        }
    }

    /// Offers to continue the in-progress rebase. Blocked whenever no rebase
    /// is in progress, and whenever unresolved conflicts remain, surfacing
    /// their count; only then does a confirmation open.
    pub fn continue_rebase(&mut self)
        ensures
            final(self).commit_file_selection == old(self).commit_file_selection,
            !old(self).snapshot.capabilities.has_rebase ==> {
                &&& final(self).confirmation == old(self).confirmation
                &&& final(self).status_line@ == "Rebase extension not enabled."@
                &&& final(self).detail_text@
                    == "Rebase is unavailable in this repository.\n\nEnable the Mercurial rebase extension in your hgrc:\n[extensions]\nrebase =\n\nThen refresh the snapshot and try rebase again."@
            },
            old(self).snapshot.capabilities.has_rebase && !old(self).snapshot.rebase.in_progress
                ==> {
                &&& final(self).confirmation == old(self).confirmation
                &&& final(self).status_line@ == "No rebase is currently in progress."@
                &&& final(self).detail_text@
                    == "No rebase is currently in progress.\n\nStart a rebase with the rebase picker (`r`) from the Commits panel, then use continue/abort actions as needed."@
            },
            old(self).snapshot.capabilities.has_rebase && old(self).snapshot.rebase.in_progress
                && old(self).snapshot.rebase.unresolved_conflicts > 0 ==> {
                &&& final(self).confirmation == old(self).confirmation
                &&& final(self).status_line@ == "Cannot continue rebase: "@
                    + crate::text::spec_dec(old(self).snapshot.rebase.unresolved_conflicts as nat)
                    + " unresolved conflict(s) remain."@
                &&& final(self).detail_text@ == "Rebase continue is blocked.\n\n"@
                    + crate::text::spec_dec(old(self).snapshot.rebase.unresolved_conflicts as nat)
                    + " unresolved conflict(s) remain.\n\nResolve conflicts in the Conflicts panel (mark resolved with `"@
                    + spec_key_label(old(self).keymap, ActionId::ResolveMark)
                    + "`), then press `"@ + spec_key_label(
                    old(self).keymap,
                    ActionId::RebaseContinue,
                ) + "`.\nUse `"@ + spec_key_label(old(self).keymap, ActionId::RebaseAbort)
                    + "` to abort the rebase."@
            },
            old(self).snapshot.capabilities.has_rebase && old(self).snapshot.rebase.in_progress
                && old(self).snapshot.rebase.unresolved_conflicts == 0 ==> {
                &&& final(self).pending_rebase_source is None
                &&& (final(self).confirmation matches Some(c) && c.action == PendingRunAction::Hg(
                    HgAction::RebaseContinue,
                ) && c.message@ == "Continue in-progress rebase?"@)
                &&& final(self).status_line@ == "Rebase continue ready. Confirm to proceed."@
            },
            final(self).effects == old(self).effects,
    {
        if !self.snapshot.capabilities.has_rebase {
            self.status_line = "Rebase extension not enabled.".to_owned();
            self.set_detail_text(rebase_unavailable_help_text());
            return;
        }
        if !self.snapshot.rebase.in_progress {
            self.status_line = "No rebase is currently in progress.".to_owned();
            self.set_detail_text(no_rebase_in_progress_help_text());
            return;
        }
        if self.snapshot.rebase.unresolved_conflicts > 0 {
            let unresolved = self.snapshot.rebase.unresolved_conflicts;
            let count = crate::text::usize_string(unresolved);
            let mut status = "Cannot continue rebase: ".to_owned();
            status.append(count.as_str());
            status.append(" unresolved conflict(s) remain.");
            self.status_line = status;
            let mark_key = key_label_string(&self.keymap, ActionId::ResolveMark);
            let continue_key = key_label_string(&self.keymap, ActionId::RebaseContinue);
            let abort_key = key_label_string(&self.keymap, ActionId::RebaseAbort);
            let help = rebase_continue_blocked_help_text(
                unresolved,
                mark_key.as_str(),
                continue_key.as_str(),
                abort_key.as_str(),
            );
            self.set_detail_text(help);
            return;
        }
        self.pending_rebase_source = None;
        self.status_line = "Rebase continue ready. Confirm to proceed.".to_owned();
        self.confirm_action(
            PendingRunAction::Hg(HgAction::RebaseContinue),
            "Continue in-progress rebase?".to_owned(),
        );
    }

    /// Offers to abort the in-progress rebase; blocked when none is in
    /// progress.
    pub fn abort_rebase(&mut self)
        ensures
            final(self).commit_file_selection == old(self).commit_file_selection,
            !old(self).snapshot.capabilities.has_rebase ==> {
                &&& final(self).confirmation == old(self).confirmation
                &&& final(self).status_line@ == "Rebase extension not enabled."@
                &&& final(self).detail_text@
                    == "Rebase is unavailable in this repository.\n\nEnable the Mercurial rebase extension in your hgrc:\n[extensions]\nrebase =\n\nThen refresh the snapshot and try rebase again."@
            },
            old(self).snapshot.capabilities.has_rebase && !old(self).snapshot.rebase.in_progress
                ==> {
                &&& final(self).confirmation == old(self).confirmation
                &&& final(self).status_line@ == "No rebase is currently in progress."@
                &&& final(self).detail_text@
                    == "No rebase is currently in progress.\n\nStart a rebase with the rebase picker (`r`) from the Commits panel, then use continue/abort actions as needed."@
            },
            old(self).snapshot.capabilities.has_rebase && old(self).snapshot.rebase.in_progress
                ==> {
                &&& final(self).pending_rebase_source is None
                &&& (final(self).confirmation matches Some(c) && c.action == PendingRunAction::Hg(
                    HgAction::RebaseAbort,
                ) && c.message@ == "Abort in-progress rebase?"@)
                &&& final(self).status_line@ == "Rebase abort ready. Confirm to proceed."@
            },
            final(self).effects == old(self).effects,
    {
        if !self.snapshot.capabilities.has_rebase {
            self.status_line = "Rebase extension not enabled.".to_owned();
            self.set_detail_text(rebase_unavailable_help_text());
            return;
        }
        if !self.snapshot.rebase.in_progress {
            self.status_line = "No rebase is currently in progress.".to_owned();
            self.set_detail_text(no_rebase_in_progress_help_text());
            return;
        }
        self.pending_rebase_source = None;
        self.status_line = "Rebase abort ready. Confirm to proceed.".to_owned();
        self.confirm_action(
            PendingRunAction::Hg(HgAction::RebaseAbort),
            "Abort in-progress rebase?".to_owned(),
        );
    }

    /// Clears a pending rebase source, reporting whether there was one.
    pub fn cancel_pending_rebase_selection(&mut self) -> (r: bool)
        ensures
            r == (old(self).pending_rebase_source is Some),
            final(self).pending_rebase_source is None,
            old(self).pending_rebase_source is None ==> *final(self) == *old(self),
            old(self).pending_rebase_source is Some ==> final(self).status_line@
                == "Rebase selection cancelled."@,
            *final(self) == (App {
                pending_rebase_source: final(self).pending_rebase_source,
                status_line: final(self).status_line,
                ..*old(self)
            }),
    {
        if self.pending_rebase_source.is_none() {
            return false;
        }
        self.pending_rebase_source = None;
        self.status_line = "Rebase selection cancelled.".to_owned();
        true
    }

    /// Offers a histedit from the selected revision.
    pub fn maybe_histedit(&mut self)
        ensures
            final(self).commit_file_selection == old(self).commit_file_selection,
            !old(self).snapshot.capabilities.has_histedit ==> {
                &&& final(self).confirmation == old(self).confirmation
                &&& final(self).status_line@ == "Histedit extension not enabled."@
            },
            old(self).snapshot.capabilities.has_histedit && old(self).rev_idx >= old(self).snapshot.revisions@.len() ==> final(self).status_line@
                == "No revision selected for histedit."@,
            old(self).snapshot.capabilities.has_histedit && old(self).rev_idx < old(self).snapshot.revisions@.len() ==> (final(self).confirmation matches Some(c) && c.action
                == PendingRunAction::Hg(
                HgAction::HisteditBase {
                    base_rev: old(self).snapshot.revisions@[old(self).rev_idx as int].rev,
                },
            )),
    {
        if !self.snapshot.capabilities.has_histedit {
            self.status_line = "Histedit extension not enabled.".to_owned();
            return;
        }
        match self.selected_revision_number() {
            Some(rev) => {
                let num = crate::text::i64_string(rev);
                let mut message = "Start histedit from revision ".to_owned();
                message.append(num.as_str());
                message.append("?");
                self.confirm_action(
                    PendingRunAction::Hg(HgAction::HisteditBase { base_rev: rev }),
                    message,
                );
            },
            None => {
                self.status_line = "No revision selected for histedit.".to_owned();
            },
        }
    }

    /// Marks or unmarks the selected conflict.
    pub fn mark_selected_conflict(&mut self, resolved: bool)
        ensures
            final(self).commit_file_selection == old(self).commit_file_selection,
            old(self).conflicts_idx >= old(self).snapshot.conflicts@.len() ==> {
                &&& final(self).status_line@ == "No conflict selected."@
                &&& final(self).effects == old(self).effects
            },
            old(self).conflicts_idx < old(self).snapshot.conflicts@.len() ==> {
                &&& final(self).effects@.len() == old(self).effects@.len() + 1
                &&& match final(self).effects@.last() {
                    Effect::RunAction { action: PendingRunAction::Hg(a), .. } => match a {
                        HgAction::ResolveMark { path } => resolved && path@ == old(self).snapshot.conflicts@[old(self).conflicts_idx as int].path@,
                        HgAction::ResolveUnmark { path } => !resolved && path@ == old(self).snapshot.conflicts@[old(self).conflicts_idx as int].path@,
                        _ => false,
                    },
                    _ => false,
                }
            },
    {
        if self.conflicts_idx < self.snapshot.conflicts.len() {
            let path = self.snapshot.conflicts[self.conflicts_idx].path.clone();
            let action = if resolved {
                HgAction::ResolveMark { path }
            } else {
                HgAction::ResolveUnmark { path }
            };
            self.run_hg_action(action);
        } else {
            self.status_line = "No conflict selected.".to_owned();
        }
    }

    /// Offers to unshelve the selected shelf.
    pub fn unshelve_selected(&mut self)
        ensures
            final(self).commit_file_selection == old(self).commit_file_selection,
            old(self).shelves_idx >= old(self).snapshot.shelves@.len() ==> final(self).status_line@ == "No shelf selected."@,
            old(self).shelves_idx < old(self).snapshot.shelves@.len() ==> (final(self).confirmation matches Some(c) && match c.action {
                PendingRunAction::Hg(HgAction::Unshelve { name }) => name@ == old(self).snapshot.shelves@[old(self).shelves_idx as int].name@,
                _ => false,
            }),
    {
        if self.shelves_idx < self.snapshot.shelves.len() {
            let name = self.snapshot.shelves[self.shelves_idx].name.clone();
            let mut message = "Unshelve '".to_owned();
            message.append(name.as_str());
            message.append("'? This applies shelved changes.");
            self.confirm_action(PendingRunAction::Hg(HgAction::Unshelve { name }), message);
        } else {
            self.status_line = "No shelf selected.".to_owned();
        }
    }

    /// Offers to update the working copy: to the selected bookmark when the
    /// bookmark panel has focus, otherwise to the selected revision.
    pub fn update_action_for_selection(&mut self)
        ensures
            final(self).commit_file_selection == old(self).commit_file_selection,
            final(self).effects == old(self).effects,
            old(self).focus == FocusPanel::Bookmarks && old(self).bookmarks_idx >= old(self).snapshot.bookmarks@.len() ==> final(self).status_line@ == "No bookmark selected."@,
            old(self).focus != FocusPanel::Bookmarks && old(self).rev_idx >= old(self).snapshot.revisions@.len() ==> final(self).status_line@ == "No revision selected."@,
            // update is destructive: with a selection it always asks first
            old(self).focus == FocusPanel::Bookmarks && old(self).bookmarks_idx < old(self).snapshot.bookmarks@.len() ==> (final(self).confirmation matches Some(c) && match c.action {
                PendingRunAction::Hg(HgAction::UpdateToBookmark { name }) => name@ == old(self).snapshot.bookmarks@[old(self).bookmarks_idx as int].name@,
                _ => false,
            }),
            old(self).focus != FocusPanel::Bookmarks && old(self).rev_idx < old(self).snapshot.revisions@.len() ==> (final(self).confirmation matches Some(c) && c.action == PendingRunAction::Hg(HgAction::UpdateToRevision {
                rev: old(self).snapshot.revisions@[old(self).rev_idx as int].rev,
            })),
    {
        if self.focus == FocusPanel::Bookmarks {
            if self.bookmarks_idx < self.snapshot.bookmarks.len() {
                let name = self.snapshot.bookmarks[self.bookmarks_idx].name.clone();
                let mut message = "Update working directory to bookmark '".to_owned();
                message.append(name.as_str());
                message.append("'?");
                self.confirm_action(
                    PendingRunAction::Hg(HgAction::UpdateToBookmark { name }),
                    message,
                );
            } else {
                self.status_line = "No bookmark selected.".to_owned();
            }
        } else {
            if self.rev_idx < self.snapshot.revisions.len() {
                let rev = self.snapshot.revisions[self.rev_idx].rev;
                let num = crate::text::i64_string(rev);
                let mut message = "Update working directory to revision ".to_owned();
                message.append(num.as_str());
                message.append("?");
                self.confirm_action(
                    PendingRunAction::Hg(HgAction::UpdateToRevision { rev }),
                    message,
                );
            } else {
                self.status_line = "No revision selected.".to_owned();
            }
        }
    }

    /// Opens the command palette, or reports that no commands are
    /// configured.
    pub fn open_command_palette(&mut self)
        ensures
            final(self).commit_file_selection == old(self).commit_file_selection,
            old(self).config.custom_commands@.len() == 0 ==> {
                &&& final(self).command_palette == old(self).command_palette
                &&& final(self).status_line@ == "No custom commands configured."@
            },
            old(self).config.custom_commands@.len() > 0 ==> {
                &&& final(self).command_palette == Some(CommandPaletteState { selected: 0usize })
                &&& final(self).status_line@ == "Custom commands: Enter run | Esc cancel."@
            },
    {
        if self.config.custom_commands.len() == 0 {
            self.status_line = "No custom commands configured.".to_owned();
            return;
        }
        self.command_palette = Some(CommandPaletteState { selected: 0 });
        self.status_line = "Custom commands: Enter run | Esc cancel.".to_owned();
    }
}


/// First binding for a name among the template variables.
pub open spec fn spec_var_lookup(vars: Seq<(Seq<char>, Seq<char>)>, name: Seq<char>) -> Option<
    Seq<char>,
>
    decreases vars.len(),
{
    if vars.len() == 0 {
        None
    } else if vars[0].0 == name {
        Some(vars[0].1)
    } else {
        spec_var_lookup(vars.drop_first(), name)
    }
}

/// Whether the selection context can be resolved at all: the repository root
/// must be known, a file-context command needs a selected file, a
/// revision-context command a selected revision.
pub open spec fn spec_vars_ok(s: &App, ctx: CommandContext) -> bool {
    &&& s.snapshot.repo_root is Some
    &&& (ctx == CommandContext::File ==> s.files_idx < s.snapshot.files@.len())
    &&& (ctx == CommandContext::Revision ==> s.rev_idx < s.snapshot.revisions@.len())
}

/// The template bindings the current selection provides: the repository
/// root, the branch (or "unknown"), the selected file's path when one is
/// selected, and the selected revision's number and id when one is selected.
pub open spec fn spec_built_vars(s: &App) -> Seq<(Seq<char>, Seq<char>)> {
    let root = match s.snapshot.repo_root {
        Some(r) => r@,
        None => Seq::empty(),
    };
    let branch = match s.snapshot.branch {
        Some(b) => b@,
        None => "unknown"@,
    };
    seq![("repo_root"@, root), ("branch"@, branch)] + (if s.files_idx < s.snapshot.files@.len() {
        seq![("file"@, s.snapshot.files@[s.files_idx as int].path@)]
    } else {
        Seq::empty()
    }) + (if s.rev_idx < s.snapshot.revisions@.len() {
        seq![
            ("rev"@, crate::text::spec_dec_i64(s.snapshot.revisions@[s.rev_idx as int].rev as int)),
            ("node"@, s.snapshot.revisions@[s.rev_idx as int].node@),
        ]
    } else {
        Seq::empty()
    })
}

/// Names joined with a comma and a space.
pub open spec fn spec_join_comma(parts: Seq<Seq<char>>) -> Seq<char>
    decreases parts.len(),
{
    if parts.len() == 0 {
        Seq::empty()
    } else if parts.len() == 1 {
        parts[0]
    } else {
        parts[0] + ", "@ + spec_join_comma(parts.drop_first())
    }
}

/// The join of the first `k` names.
pub open spec fn spec_join_comma_prefix(parts: Seq<Seq<char>>, k: int) -> Seq<char>
    decreases k,
{
    if k <= 0 {
        Seq::empty()
    } else if k == 1 {
        parts[0]
    } else {
        spec_join_comma_prefix(parts, k - 1) + ", "@ + parts[k - 1]
    }
}

proof fn lemma_join_comma_shift(parts: Seq<Seq<char>>, k: int)
    requires
        2 <= k <= parts.len(),
    ensures
        spec_join_comma_prefix(parts, k) == parts[0] + ", "@ + spec_join_comma_prefix(
            parts.drop_first(),
            k - 1,
        ),
    decreases k,
{
    if k == 2 {
        assert(spec_join_comma_prefix(parts, 2) == spec_join_comma_prefix(parts, 1) + ", "@
            + parts[1]);
        assert(spec_join_comma_prefix(parts, 1) == parts[0]);
        assert(spec_join_comma_prefix(parts.drop_first(), 1) == parts.drop_first()[0]);
        assert(parts.drop_first()[0] == parts[1]);
    } else {
        lemma_join_comma_shift(parts, k - 1);
        assert(spec_join_comma_prefix(parts, k) == spec_join_comma_prefix(parts, k - 1) + ", "@
            + parts[k - 1]);
        assert(spec_join_comma_prefix(parts.drop_first(), k - 1) == spec_join_comma_prefix(
            parts.drop_first(),
            k - 2,
        ) + ", "@ + parts.drop_first()[k - 2]);
        assert(parts.drop_first()[k - 2] == parts[k - 1]);
        assert((parts[0] + ", "@ + spec_join_comma_prefix(parts.drop_first(), k - 2)) + ", "@
            + parts[k - 1] =~= parts[0] + ", "@ + (spec_join_comma_prefix(
            parts.drop_first(),
            k - 2,
        ) + ", "@ + parts.drop_first()[k - 2]));
    }
}

proof fn lemma_join_comma_full(parts: Seq<Seq<char>>)
    ensures
        spec_join_comma_prefix(parts, parts.len() as int) == spec_join_comma(parts),
    decreases parts.len(),
{
    if parts.len() == 0 {
    } else if parts.len() == 1 {
    } else {
        lemma_join_comma_full(parts.drop_first());
        lemma_join_comma_shift(parts, parts.len() as int);
    }
}

/// Lists with equal views hold the same names.
proof fn lemma_sel_has_views(v: Seq<String>, sv: Seq<Seq<char>>)
    requires
        v.map_values(|x: String| x@) == sv,
    ensures
        forall|q: Seq<char>| #[trigger] spec_sel_has(v, q) == sv.contains(q),
{
    assert forall|q: Seq<char>| #[trigger] spec_sel_has(v, q) == sv.contains(q) by {
        if spec_sel_has(v, q) {
            let w = choose|w: int| 0 <= w < v.len() && (#[trigger] v[w])@ == q;
            assert(sv[w] == q);
        }
        if sv.contains(q) {
            let w = choose|w: int| 0 <= w < sv.len() && sv[w] == q;
            assert(v[w]@ == q);
        }
    }
}

/// Whether the name is an unresolved placeholder of any part of the command.
pub open spec fn spec_unresolved_union(
    cmd: &CustomCommand,
    prog: Seq<char>,
    base: Seq<Seq<char>>,
    vars: Seq<(Seq<char>, Seq<char>)>,
    q: Seq<char>,
) -> bool {
    ||| crate::custom::spec_unresolved_vars(prog, vars).contains(q)
    ||| exists|i: int|
        0 <= i < base.len() && crate::custom::spec_unresolved_vars(
            #[trigger] base[i],
            vars,
        ).contains(q)
    ||| exists|i: int|
        0 <= i < cmd.args@.len() && crate::custom::spec_unresolved_vars(
            (#[trigger] cmd.args@[i])@,
            vars,
        ).contains(q)
    ||| exists|i: int|
        0 <= i < cmd.env@.len() && crate::custom::spec_unresolved_vars(
            (#[trigger] cmd.env@[i]).1@,
            vars,
        ).contains(q)
}

/// Whether any placeholder of the command — in the program, the tokenized
/// base arguments, the declared extra arguments or the environment values —
/// has no binding.
pub open spec fn spec_any_unresolved(
    cmd: &CustomCommand,
    prog: Seq<char>,
    base: Seq<Seq<char>>,
    vars: Seq<(Seq<char>, Seq<char>)>,
) -> bool {
    ||| crate::custom::spec_unresolved_vars(prog, vars).len() > 0
    ||| exists|i: int|
        0 <= i < base.len() && crate::custom::spec_unresolved_vars(#[trigger] base[i], vars).len()
            > 0
    ||| exists|i: int|
        0 <= i < cmd.args@.len() && crate::custom::spec_unresolved_vars(
            (#[trigger] cmd.args@[i])@,
            vars,
        ).len() > 0
    ||| exists|i: int|
        0 <= i < cmd.env@.len() && crate::custom::spec_unresolved_vars(
            (#[trigger] cmd.env@[i]).1@,
            vars,
        ).len() > 0
}

impl App {
    /// Resolves the template variables for a command's context, or says why
    /// the context cannot be satisfied.
    pub fn custom_template_vars(&self, command: &CustomCommand) -> (r: Result<
        Vec<(String, String)>,
        String,
    >)
        ensures
            match r {
                Ok(vars) => spec_vars_ok(self, command.context) && vars@.map_values(
                    |p: (String, String)| (p.0@, p.1@),
                ) == spec_built_vars(self),
                Err(e) => !spec_vars_ok(self, command.context) && (
                    if self.snapshot.repo_root is None {
                        e@ == "repository root unavailable"@
                    } else if command.context == CommandContext::File {
                        e@ == "file-context command requires selected file"@
                    } else {
                        e@ == "revision-context command requires selected revision"@
                    }
                ),
            },
    {
        let root = match &self.snapshot.repo_root {
            Some(r) => r.clone(),
            None => {
                return Err("repository root unavailable".to_owned());
            },
        };
        match command.context {
            CommandContext::File => {
                if self.files_idx >= self.snapshot.files.len() {
                    return Err("file-context command requires selected file".to_owned());
                }
            },
            CommandContext::Revision => {
                if self.rev_idx >= self.snapshot.revisions.len() {
                    return Err("revision-context command requires selected revision".to_owned());
                }
            },
            CommandContext::Repo => {},
        }
        let branch = match &self.snapshot.branch {
            Some(b) => b.clone(),
            None => "unknown".to_owned(),
        };
        let mut vars: Vec<(String, String)> = Vec::new();
        vars.push(("repo_root".to_owned(), root));
        vars.push(("branch".to_owned(), branch));
        if self.files_idx < self.snapshot.files.len() {
            vars.push(("file".to_owned(), self.snapshot.files[self.files_idx].path.clone()));
        }
        if self.rev_idx < self.snapshot.revisions.len() {
            let rev = self.snapshot.revisions[self.rev_idx].rev;
            vars.push(("rev".to_owned(), crate::text::i64_string(rev)));
            vars.push(("node".to_owned(), self.snapshot.revisions[self.rev_idx].node.clone()));
        }
        proof {
            assert(vars@.map_values(|p: (String, String)| (p.0@, p.1@)) =~= spec_built_vars(self));
        }
        Ok(vars)
    }

    /// Prepares a user-defined command for execution: tokenizes its command
    /// line and substitutes the template variables. The run is accepted
    /// exactly when the context resolves, the command line parses, every
    /// placeholder in the program, the arguments and the environment values
    /// has a binding, and the rendered program is not blank; otherwise it is
    /// rejected whole — nothing is ever partially substituted or partially
    /// executed.
    #[verifier::rlimit(60)]
    pub fn prepare_custom_run_action(&self, command: &CustomCommand) -> (r: Result<
        CustomRunAction,
        String,
    >)
        ensures
            !spec_vars_ok(self, command.context) ==> r is Err,
            (crate::custom::spec_parse_parts(command.command@) is Err) ==> r is Err,
            // an unresolvable placeholder is reported: the rejection names
            // every unresolved placeholder, sorted and de-duplicated
            match crate::custom::spec_parse_parts(command.command@) {
                Ok(parts) => (spec_vars_ok(self, command.context) && spec_any_unresolved(
                    command,
                    parts.0,
                    parts.1,
                    spec_built_vars(self),
                )) ==> (r matches Err(e) && exists|ns: Seq<Seq<char>>|
                    {
                        &&& (forall|i: int, j: int|
                            0 <= i < j < ns.len() ==> crate::text::spec_lex_lt(
                                #[trigger] ns[i],
                                #[trigger] ns[j],
                            ))
                        &&& (forall|q: Seq<char>|
                            #[trigger] ns.contains(q) == spec_unresolved_union(
                                command,
                                parts.0,
                                parts.1,
                                spec_built_vars(self),
                                q,
                            ))
                        &&& e@ == "custom command '"@ + command.id@
                            + "' requires unavailable template vars: "@ + #[trigger] spec_join_comma(
                            ns,
                        )
                    }),
                Err(_) => true,
            },
            match crate::custom::spec_parse_parts(command.command@) {
                Ok(parts) => {
                    let vars = spec_built_vars(self);
                    &&& (r is Ok <==> spec_vars_ok(self, command.context) && !spec_any_unresolved(
                        command,
                        parts.0,
                        parts.1,
                        vars,
                    ) && crate::text::spec_trim(crate::custom::spec_render(parts.0, 0, vars)).len()
                        > 0)
                    &&& (r matches Ok(a) ==> {
                        &&& a.show_output == command.show_output
                        &&& a.title@ == command.title@
                        &&& a.invocation.program@ == crate::custom::spec_render(parts.0, 0, vars)
                        &&& a.invocation.args@.map_values(|x: String| x@) == parts.1.map_values(
                            |t: Seq<char>| crate::custom::spec_render(t, 0, vars),
                        ) + command.args@.map_values(
                            |t: String| crate::custom::spec_render(t@, 0, vars),
                        )
                        &&& a.invocation.env@.map_values(|p: (String, String)| (p.0@, p.1@))
                            == command.env@.map_values(
                            |p: (String, String)| (p.0@, crate::custom::spec_render(p.1@, 0, vars)),
                        )
                    })
                },
                Err(_) => true,
            },
    {
        let template_vars = match self.custom_template_vars(command) {
            Ok(v) => v,
            Err(e) => {
                return Err(e);
            },
        };
        let ghost vars = spec_built_vars(self);
        let (program_raw, base_args_raw) = match crate::custom::parse_command_parts(
            command.command.as_str(),
        ) {
            Ok(pa) => pa,
            Err(e) => {
                return Err(e);
            },
        };
        let ghost base_views = base_args_raw@.map_values(|a: String| a@);
        // collect every unresolved placeholder, de-duplicated
        let mut unresolved: Vec<String> = Vec::new();
        let first = crate::custom::unresolved_template_vars(program_raw.as_str(), &template_vars);
        proof {
            lemma_sel_has_views(first@, crate::custom::spec_unresolved_vars(program_raw@, vars));
        }
        push_new_names(&mut unresolved, &first);
        proof {
            assert(first@.map_values(|x: String| x@).len() == first@.len());
            assert((unresolved@.len() > 0) == (crate::custom::spec_unresolved_vars(
                program_raw@,
                vars,
            ).len() > 0));
            assert forall|q: Seq<char>| #[trigger] spec_sel_has(unresolved@, q)
                == crate::custom::spec_unresolved_vars(program_raw@, vars).contains(q) by {}
        }
        let ghost prog_bad = crate::custom::spec_unresolved_vars(program_raw@, vars).len() > 0;
        let bn = base_args_raw.len();
        let mut bi: usize = 0;
        while bi < bn
            invariant
                0 <= bi <= bn,
                bn == base_args_raw@.len(),
                base_views == base_args_raw@.map_values(|a: String| a@),
                vars == template_vars@.map_values(|p: (String, String)| (p.0@, p.1@)),
                prog_bad == (crate::custom::spec_unresolved_vars(program_raw@, vars).len() > 0),
                forall|x: int, y: int|
                    0 <= x < y < unresolved@.len() ==> (#[trigger] unresolved@[x])@ != (
                    #[trigger] unresolved@[y])@,
                (unresolved@.len() > 0) == (prog_bad || exists|j: int|
                    0 <= j < bi && crate::custom::spec_unresolved_vars(
                        #[trigger] base_views[j],
                        vars,
                    ).len() > 0),
                forall|q: Seq<char>|
                    #[trigger] spec_sel_has(unresolved@, q) == (crate::custom::spec_unresolved_vars(
                        program_raw@,
                        vars,
                    ).contains(q) || exists|j: int|
                        0 <= j < bi && crate::custom::spec_unresolved_vars(
                            #[trigger] base_views[j],
                            vars,
                        ).contains(q)),
            decreases bn - bi,
        {
            let more = crate::custom::unresolved_template_vars(
                base_args_raw[bi].as_str(),
                &template_vars,
            );
            proof {
                assert(more@.map_values(|x: String| x@).len() == more@.len());
                assert(base_views[bi as int] == base_args_raw@[bi as int]@);
                lemma_sel_has_views(
                    more@,
                    crate::custom::spec_unresolved_vars(base_views[bi as int], vars),
                );
            }
            push_new_names(&mut unresolved, &more);
            bi = bi + 1;
        }
        let ghost base_bad = exists|j: int|
            0 <= j < base_views.len() && crate::custom::spec_unresolved_vars(
                #[trigger] base_views[j],
                vars,
            ).len() > 0;
        let an = command.args.len();
        let mut ai: usize = 0;
        while ai < an
            invariant
                0 <= ai <= an,
                an == command.args@.len(),
                vars == template_vars@.map_values(|p: (String, String)| (p.0@, p.1@)),
                prog_bad == (crate::custom::spec_unresolved_vars(program_raw@, vars).len() > 0),
                base_bad == (exists|j: int|
                    0 <= j < base_views.len() && crate::custom::spec_unresolved_vars(
                        #[trigger] base_views[j],
                        vars,
                    ).len() > 0),
                forall|x: int, y: int|
                    0 <= x < y < unresolved@.len() ==> (#[trigger] unresolved@[x])@ != (
                    #[trigger] unresolved@[y])@,
                (unresolved@.len() > 0) == (prog_bad || base_bad || exists|j: int|
                    0 <= j < ai && crate::custom::spec_unresolved_vars(
                        (#[trigger] command.args@[j])@,
                        vars,
                    ).len() > 0),
                forall|q: Seq<char>|
                    #[trigger] spec_sel_has(unresolved@, q) == (crate::custom::spec_unresolved_vars(
                        program_raw@,
                        vars,
                    ).contains(q) || (exists|j: int|
                        0 <= j < base_views.len() && crate::custom::spec_unresolved_vars(
                            #[trigger] base_views[j],
                            vars,
                        ).contains(q)) || (exists|j: int|
                        0 <= j < ai && crate::custom::spec_unresolved_vars(
                            (#[trigger] command.args@[j])@,
                            vars,
                        ).contains(q))),
            decreases an - ai,
        {
            let more = crate::custom::unresolved_template_vars(
                command.args[ai].as_str(),
                &template_vars,
            );
            proof {
                assert(more@.map_values(|x: String| x@).len() == more@.len());
                lemma_sel_has_views(
                    more@,
                    crate::custom::spec_unresolved_vars(command.args@[ai as int]@, vars),
                );
            }
            push_new_names(&mut unresolved, &more);
            ai = ai + 1;
        }
        let ghost args_bad = exists|j: int|
            0 <= j < command.args@.len() && crate::custom::spec_unresolved_vars(
                (#[trigger] command.args@[j])@,
                vars,
            ).len() > 0;
        let en = command.env.len();
        let mut ei: usize = 0;
        while ei < en
            invariant
                0 <= ei <= en,
                en == command.env@.len(),
                vars == template_vars@.map_values(|p: (String, String)| (p.0@, p.1@)),
                prog_bad == (crate::custom::spec_unresolved_vars(program_raw@, vars).len() > 0),
                base_bad == (exists|j: int|
                    0 <= j < base_views.len() && crate::custom::spec_unresolved_vars(
                        #[trigger] base_views[j],
                        vars,
                    ).len() > 0),
                args_bad == (exists|j: int|
                    0 <= j < command.args@.len() && crate::custom::spec_unresolved_vars(
                        (#[trigger] command.args@[j])@,
                        vars,
                    ).len() > 0),
                forall|x: int, y: int|
                    0 <= x < y < unresolved@.len() ==> (#[trigger] unresolved@[x])@ != (
                    #[trigger] unresolved@[y])@,
                (unresolved@.len() > 0) == (prog_bad || base_bad || args_bad || exists|j: int|
                    0 <= j < ei && crate::custom::spec_unresolved_vars(
                        (#[trigger] command.env@[j]).1@,
                        vars,
                    ).len() > 0),
                forall|q: Seq<char>|
                    #[trigger] spec_sel_has(unresolved@, q) == (crate::custom::spec_unresolved_vars(
                        program_raw@,
                        vars,
                    ).contains(q) || (exists|j: int|
                        0 <= j < base_views.len() && crate::custom::spec_unresolved_vars(
                            #[trigger] base_views[j],
                            vars,
                        ).contains(q)) || (exists|j: int|
                        0 <= j < command.args@.len() && crate::custom::spec_unresolved_vars(
                            (#[trigger] command.args@[j])@,
                            vars,
                        ).contains(q)) || (exists|j: int|
                        0 <= j < ei && crate::custom::spec_unresolved_vars(
                            (#[trigger] command.env@[j]).1@,
                            vars,
                        ).contains(q))),
            decreases en - ei,
        {
            let more = crate::custom::unresolved_template_vars(
                command.env[ei].1.as_str(),
                &template_vars,
            );
            proof {
                assert(more@.map_values(|x: String| x@).len() == more@.len());
                lemma_sel_has_views(
                    more@,
                    crate::custom::spec_unresolved_vars(command.env@[ei as int].1@, vars),
                );
            }
            push_new_names(&mut unresolved, &more);
            ei = ei + 1;
        }
        proof {
            assert((unresolved@.len() > 0) == spec_any_unresolved(
                command,
                program_raw@,
                base_views,
                vars,
            ));
        }
        if unresolved.len() > 0 {
            let ghost members = |q: Seq<char>| spec_unresolved_union(
                command,
                program_raw@,
                base_views,
                vars,
                q,
            );
            sort_names(&mut unresolved);
            let ghost ns = unresolved@.map_values(|x: String| x@);
            proof {
                lemma_sel_has_views(unresolved@, ns);
                assert forall|i: int, j: int|
                    0 <= i < j < ns.len() implies crate::text::spec_lex_lt(
                    #[trigger] ns[i],
                    #[trigger] ns[j],
                ) by {
                    assert(crate::text::spec_lex_lt(unresolved@[i]@, unresolved@[j]@));
                }
            }
            let mut msg = "custom command '".to_owned();
            msg.append(command.id.as_str());
            msg.append("' requires unavailable template vars: ");
            let ghost prefix = msg@;
            proof {
                assert(prefix =~= "custom command '"@ + command.id@
                    + "' requires unavailable template vars: "@);
                assert(msg@ =~= prefix + spec_join_comma_prefix(ns, 0));
            }
            let un = unresolved.len();
            let mut ui: usize = 0;
            while ui < un
                invariant
                    0 <= ui <= un,
                    un == unresolved@.len(),
                    ns == unresolved@.map_values(|x: String| x@),
                    msg@ == prefix + spec_join_comma_prefix(ns, ui as int),
                decreases un - ui,
            {
                if ui > 0 {
                    msg.append(", ");
                }
                msg.append(unresolved[ui].as_str());
                proof {
                    assert(ns[ui as int] == unresolved@[ui as int]@);
                    if ui == 0 {
                        assert(spec_join_comma_prefix(ns, 1) == ns[0]);
                        assert(msg@ =~= prefix + spec_join_comma_prefix(ns, 1));
                    } else {
                        assert(spec_join_comma_prefix(ns, ui + 1) == spec_join_comma_prefix(
                            ns,
                            ui as int,
                        ) + ", "@ + ns[ui as int]);
                        assert(msg@ =~= prefix + spec_join_comma_prefix(ns, ui + 1));
                    }
                }
                ui = ui + 1;
            }
            proof {
                lemma_join_comma_full(ns);
                assert(msg@ == prefix + spec_join_comma(ns));
                assert(msg@ =~= "custom command '"@ + command.id@
                    + "' requires unavailable template vars: "@ + spec_join_comma(ns));
                assert(forall|q: Seq<char>| #[trigger] ns.contains(q) == spec_sel_has(
                    unresolved@,
                    q,
                ));
            }
            return Err(msg);
        }
        let program = crate::custom::render_template(program_raw.as_str(), &template_vars);
        let prog_chars = crate::text::str_chars(program.as_str());
        let prog_trim = crate::text::trim_chars(&prog_chars);
        if prog_trim.len() == 0 {
            let mut msg = "custom command '".to_owned();
            msg.append(command.id.as_str());
            msg.append("' resolved to empty program");
            return Err(msg);
        }
        let ghost base_renders = base_views.map_values(
            |t: Seq<char>| crate::custom::spec_render(t, 0, vars),
        );
        let ghost extra_renders = command.args@.map_values(
            |t: String| crate::custom::spec_render(t@, 0, vars),
        );
        let mut args: Vec<String> = Vec::new();
        let mut bi2: usize = 0;
        proof {
            assert(args@.map_values(|x: String| x@) =~= base_renders.take(0int));
        }
        while bi2 < bn
            invariant
                0 <= bi2 <= bn,
                bn == base_args_raw@.len(),
                base_views == base_args_raw@.map_values(|a: String| a@),
                vars == template_vars@.map_values(|p: (String, String)| (p.0@, p.1@)),
                base_renders == base_views.map_values(
                    |t: Seq<char>| crate::custom::spec_render(t, 0, vars),
                ),
                args@.map_values(|x: String| x@) == base_renders.take(bi2 as int),
            decreases bn - bi2,
        {
            let rendered = crate::custom::render_template(
                base_args_raw[bi2].as_str(),
                &template_vars,
            );
            proof {
                assert(base_views[bi2 as int] == base_args_raw@[bi2 as int]@);
                assert(base_renders[bi2 as int] == crate::custom::spec_render(
                    base_views[bi2 as int],
                    0,
                    vars,
                ));
                assert(args@.push(rendered).map_values(|x: String| x@) =~= args@.map_values(
                    |x: String| x@,
                ).push(rendered@));
                assert(base_renders.take(bi2 + 1) =~= base_renders.take(bi2 as int).push(
                    base_renders[bi2 as int],
                ));
            }
            args.push(rendered);
            bi2 = bi2 + 1;
        }
        proof {
            assert(base_renders.take(bn as int) =~= base_renders);
        }
        let mut ai2: usize = 0;
        while ai2 < an
            invariant
                0 <= ai2 <= an,
                an == command.args@.len(),
                vars == template_vars@.map_values(|p: (String, String)| (p.0@, p.1@)),
                extra_renders == command.args@.map_values(
                    |t: String| crate::custom::spec_render(t@, 0, vars),
                ),
                args@.map_values(|x: String| x@) == base_renders + extra_renders.take(ai2 as int),
            decreases an - ai2,
        {
            let rendered = crate::custom::render_template(
                command.args[ai2].as_str(),
                &template_vars,
            );
            proof {
                assert(extra_renders[ai2 as int] == crate::custom::spec_render(
                    command.args@[ai2 as int]@,
                    0,
                    vars,
                ));
                assert(args@.push(rendered).map_values(|x: String| x@) =~= args@.map_values(
                    |x: String| x@,
                ).push(rendered@));
                assert(base_renders + extra_renders.take(ai2 + 1) =~= (base_renders
                    + extra_renders.take(ai2 as int)).push(extra_renders[ai2 as int]));
            }
            args.push(rendered);
            ai2 = ai2 + 1;
        }
        proof {
            assert(extra_renders.take(an as int) =~= extra_renders);
        }
        let ghost env_renders = command.env@.map_values(
            |p: (String, String)| (p.0@, crate::custom::spec_render(p.1@, 0, vars)),
        );
        let mut env: Vec<(String, String)> = Vec::new();
        let mut ei2: usize = 0;
        proof {
            assert(env@.map_values(|p: (String, String)| (p.0@, p.1@)) =~= env_renders.take(0int));
        }
        while ei2 < en
            invariant
                0 <= ei2 <= en,
                en == command.env@.len(),
                vars == template_vars@.map_values(|p: (String, String)| (p.0@, p.1@)),
                env_renders == command.env@.map_values(
                    |p: (String, String)| (p.0@, crate::custom::spec_render(p.1@, 0, vars)),
                ),
                env@.map_values(|p: (String, String)| (p.0@, p.1@)) == env_renders.take(
                    ei2 as int,
                ),
            decreases en - ei2,
        {
            let pair = (
                command.env[ei2].0.clone(),
                crate::custom::render_template(command.env[ei2].1.as_str(), &template_vars),
            );
            proof {
                let f = |p: (String, String)| (p.0@, p.1@);
                assert(env_renders[ei2 as int] == (
                    command.env@[ei2 as int].0@,
                    crate::custom::spec_render(command.env@[ei2 as int].1@, 0, vars),
                ));
                assert(env@.push(pair).map_values(f) =~= env@.map_values(f).push(f(pair)));
                assert(env_renders.take(ei2 + 1) =~= env_renders.take(ei2 as int).push(
                    env_renders[ei2 as int],
                ));
            }
            env.push(pair);
            ei2 = ei2 + 1;
        }
        proof {
            assert(env_renders.take(en as int) =~= env_renders);
        }
        Ok(
            CustomRunAction {
                title: command.title.clone(),
                show_output: command.show_output,
                invocation: CustomInvocation { program, args, env },
            },
        )
    }

    /// Runs the command chosen in the palette: prepares it, asks for
    /// confirmation when configured, and reports a command that cannot run.
    pub fn run_selected_custom_command(&mut self)
        ensures
            final(self).commit_file_selection == old(self).commit_file_selection,
            final(self).command_palette is None,
            *final(self) == (App {
                command_palette: final(self).command_palette,
                status_line: final(self).status_line,
                effects: final(self).effects,
                confirmation: final(self).confirmation,
                log_lines: final(self).log_lines,
                detail_text: final(self).detail_text,
                details_scroll: final(self).details_scroll,
                ..*old(self)
            }),
            match old(self).command_palette {
                Some(pal) => if pal.selected >= old(self).config.custom_commands@.len() {
                    &&& final(self).status_line@ == "No custom command selected."@
                    &&& final(self).effects == old(self).effects
                    &&& final(self).confirmation == old(self).confirmation
                } else {
                    let cmd = old(self).config.custom_commands@[pal.selected as int];
                    match crate::custom::spec_parse_parts(cmd.command@) {
                        Ok(parts) => {
                            let vars = spec_built_vars(old(self));
                            let runnable = spec_vars_ok(old(self), cmd.context)
                                && !spec_any_unresolved(&cmd, parts.0, parts.1, vars)
                                && crate::text::spec_trim(
                                crate::custom::spec_render(parts.0, 0, vars),
                            ).len() > 0;
                            &&& (runnable && cmd.needs_confirmation ==> {
                                &&& (final(self).confirmation matches Some(c) && match c.action {
                                    PendingRunAction::Custom(a) => a.show_output == cmd.show_output
                                        && a.title@ == cmd.title@ && a.invocation.program@
                                        == crate::custom::spec_render(parts.0, 0, vars),
                                    _ => false,
                                })
                                &&& final(self).effects == old(self).effects
                            })
                            &&& (runnable && !cmd.needs_confirmation ==> {
                                &&& final(self).effects@.len() == old(self).effects@.len() + 1
                                &&& match final(self).effects@.last() {
                                    Effect::RunAction {
                                        action: PendingRunAction::Custom(a),
                                        show_output,
                                        clear_commit_selection,
                                        ..
                                    } => a.show_output == cmd.show_output && a.invocation.program@
                                        == crate::custom::spec_render(parts.0, 0, vars)
                                        && show_output == cmd.show_output
                                        && !clear_commit_selection,
                                    _ => false,
                                }
                                &&& final(self).confirmation == old(self).confirmation
                            })
                            &&& (!runnable ==> {
                                &&& final(self).status_line@ == "Custom command not runnable."@
                                &&& final(self).effects == old(self).effects
                                &&& final(self).confirmation == old(self).confirmation
                            })
                        },
                        Err(_) => {
                            &&& final(self).status_line@ == "Custom command not runnable."@
                            &&& final(self).effects == old(self).effects
                            &&& final(self).confirmation == old(self).confirmation
                        },
                    }
                },
                None => true,
            },
    {
        let selected = match self.command_palette {
            Some(palette) => palette.selected,
            None => 0,
        };
        self.command_palette = None;
        if selected >= self.config.custom_commands.len() {
            self.status_line = "No custom command selected.".to_owned();
            return;
        }
        let command = custom_command_duplicate(&self.config.custom_commands[selected]);
        proof {
            let cmd = old(self).config.custom_commands@[selected as int];
            assert(command.command@ == cmd.command@);
            assert(spec_built_vars(self) =~= spec_built_vars(old(self)));
            assert(spec_vars_ok(self, command.context) == spec_vars_ok(old(self), cmd.context));
            match crate::custom::spec_parse_parts(cmd.command@) {
                Ok(parts) => {
                    let vars = spec_built_vars(old(self));
                    assert(spec_any_unresolved(&command, parts.0, parts.1, vars)
                        == spec_any_unresolved(&cmd, parts.0, parts.1, vars)) by {
                        assert(command.args@ == cmd.args@);
                        assert(command.env@ == cmd.env@);
                    }
                },
                Err(_) => {},
            }
        }
        match self.prepare_custom_run_action(&command) {
            Ok(custom_action) => {
                let preview = custom_action.invocation.command_preview();
                let title = custom_action.title.clone();
                let pending = PendingRunAction::Custom(custom_action);
                if command.needs_confirmation {
                    let mut message = "Run custom command '".to_owned();
                    message.append(title.as_str());
                    message.append("'?\n");
                    message.append(preview.as_str());
                    self.confirm_action(pending, message);
                } else {
                    self.run_pending_action(pending);
                }
            },
            Err(err) => {
                self.status_line = "Custom command not runnable.".to_owned();
                let mut line = "Custom command '".to_owned();
                line.append(command.id.as_str());
                line.append("' failed: ");
                line.append(err.as_str());
                self.append_log(line);
                self.set_detail_text(err);
            },
        }
    }

    /// Handles a key while the confirmation modal is open; reports whether
    /// the modal consumed the key.
    pub fn handle_confirmation_key(&mut self, key: KeyInput) -> (r: bool)
        ensures
            final(self).commit_file_selection == old(self).commit_file_selection,
            r == (old(self).confirmation is Some),
            old(self).confirmation is None ==> *final(self) == *old(self),
            match old(self).confirmation {
                Some(c) => {
                    &&& (key.code == KeyCode::Enter || key.code == KeyCode::Char('y')) ==> {
                        &&& final(self).confirmation is None
                        &&& final(self).effects@.len() == old(self).effects@.len() + 1
                        &&& spec_is_run_effect(final(self).effects@.last(), c.action)
                    }
                    &&& (key.code == KeyCode::Esc || key.code == KeyCode::Char('n')) ==> {
                        &&& final(self).confirmation is None
                        &&& final(self).status_line@ == "Action cancelled."@
                        &&& final(self).effects == old(self).effects
                    }
                },
                None => true,
            },
            *final(self) == (App {
                confirmation: final(self).confirmation,
                status_line: final(self).status_line,
                effects: final(self).effects,
                ..*old(self)
            }),
    {
        if self.confirmation.is_none() {
            return false;
        }
        let is_confirm = match key.code {
            KeyCode::Enter => true,
            KeyCode::Char(c) => c == 'y',
            _ => false,
        };
        let is_cancel = match key.code {
            KeyCode::Esc => true,
            KeyCode::Char(c) => c == 'n',
            _ => false,
        };
        if is_confirm {
            let mut taken: Option<PendingConfirmation> = None;
            core::mem::swap(&mut taken, &mut self.confirmation);
            match taken {
                Some(confirm) => {
                    self.run_pending_action(confirm.action);
                },
                None => {},
            }
        } else if is_cancel {
            self.confirmation = None;
            self.status_line = "Action cancelled.".to_owned();
        }
        true
    }

    /// Handles a key while the text-input modal is open; reports whether the
    /// modal consumed the key. An empty submission keeps the modal open with
    /// a status message.
    pub fn handle_input_key(&mut self, key: KeyInput) -> (r: bool)
        ensures
            final(self).commit_file_selection == old(self).commit_file_selection,
            r == (old(self).input is Some),
            old(self).input is None ==> *final(self) == *old(self),
            match old(self).input {
                Some(input) => {
                    &&& (key.code == KeyCode::Enter && crate::text::spec_trim(input.value@).len()
                        == 0) ==> {
                        &&& final(self).input == old(self).input
                        &&& final(self).status_line@ == "Input cannot be empty."@
                        &&& final(self).effects == old(self).effects
                    }
                    &&& (key.code == KeyCode::Enter && crate::text::spec_trim(input.value@).len()
                        > 0) ==> {
                        &&& final(self).input is None
                        &&& (input.purpose == InputPurpose::CommitMessageInteractive ==> (final(self).interactive_commit_request matches Some(req) && req.message@
                            == crate::text::spec_trim(input.value@) && req.files@ == old(self).commit_file_selection@))
                        &&& (input.purpose == InputPurpose::CommitMessage ==> final(self).effects@.len() == old(self).effects@.len() + 1)
                    }
                    &&& key.code == KeyCode::Esc ==> {
                        &&& final(self).input is None
                        &&& final(self).status_line@ == "Input cancelled."@
                    }
                    // editing the collected line
                    &&& key.code == KeyCode::Backspace ==> (final(self).input matches Some(inp2)
                        && inp2.purpose == input.purpose && inp2.value@ == if input.value@.len()
                        > 0 {
                        input.value@.drop_last()
                    } else {
                        input.value@
                    })
                    &&& (match key.code {
                        KeyCode::Char(c) => !key.ctrl ==> (final(self).input matches Some(inp2)
                            && inp2.purpose == input.purpose && inp2.value@ == input.value@.push(
                            c,
                        )),
                        _ => true,
                    })
                    // submitting a bookmark or shelf name queues its action
                    &&& (key.code == KeyCode::Enter && crate::text::spec_trim(input.value@).len()
                        > 0 && input.purpose == InputPurpose::BookmarkName ==> final(self).effects@.len() == old(self).effects@.len() + 1 && match final(self).effects@.last() {
                        Effect::RunAction { action: PendingRunAction::Hg(HgAction::BookmarkCreate { name }), .. } => name@ == crate::text::spec_trim(input.value@),
                        _ => false,
                    })
                    &&& (key.code == KeyCode::Enter && crate::text::spec_trim(input.value@).len()
                        > 0 && input.purpose == InputPurpose::ShelveName ==> final(self).effects@.len() == old(self).effects@.len() + 1 && match final(self).effects@.last() {
                        Effect::RunAction { action: PendingRunAction::Hg(HgAction::ShelveCreate { name }), .. } => name@ == crate::text::spec_trim(input.value@),
                        _ => false,
                    })
                },
                None => true,
            },
            *final(self) == (App {
                input: final(self).input,
                status_line: final(self).status_line,
                effects: final(self).effects,
                interactive_commit_request: final(self).interactive_commit_request,
                ..*old(self)
            }),
    {
        let purpose;
        let value_now;
        match &self.input {
            None => {
                return false;
            },
            Some(input) => {
                purpose = input.purpose;
                value_now = input.value.clone();
            },
        }
        match key.code {
            KeyCode::Esc => {
                self.input = None;
                self.status_line = "Input cancelled.".to_owned();
                return true;
            },
            KeyCode::Enter => {
                let chars = crate::text::str_chars(value_now.as_str());
                let trimmed = crate::text::trim_chars(&chars);
                if trimmed.len() == 0 {
                    self.status_line = "Input cannot be empty.".to_owned();
                    return true;
                }
                self.input = None;
                let value = crate::text::chars_string(&trimmed);
                match purpose {
                    InputPurpose::CommitMessage => {
                        let files = clone_string_vec(&self.commit_file_selection);
                        self.run_hg_action(HgAction::Commit { message: value, files });
                    },
                    InputPurpose::CommitMessageInteractive => {
                        let files = clone_string_vec(&self.commit_file_selection);
                        self.interactive_commit_request = Some(
                            InteractiveCommitRequest { message: value, files },
                        );
                        self.status_line =
                            "Launching interactive commit; complete prompts in terminal.".to_owned();
                    },
                    InputPurpose::BookmarkName => {
                        self.run_hg_action(HgAction::BookmarkCreate { name: value });
                    },
                    InputPurpose::ShelveName => {
                        self.run_hg_action(HgAction::ShelveCreate { name: value });
                    },
                }
                return true;
            },
            KeyCode::Backspace => {
                let chars = crate::text::str_chars(value_now.as_str());
                let n = chars.len();
                if n > 0 {
                    let shorter = crate::text::subrange_chars(&chars, 0, n - 1);
                    let new_value = crate::text::chars_string(&shorter);
                    match &mut self.input {
                        Some(input) => {
                            input.value = new_value;
                        },
                        None => {},
                    }
                }
                return true;
            },
            KeyCode::Char(c) => {
                if !key.ctrl {
                    let mut one: Vec<char> = Vec::new();
                    one.push(c);
                    let suffix = crate::text::chars_string(&one);
                    let mut new_value = value_now;
                    new_value.append(suffix.as_str());
                    match &mut self.input {
                        Some(input) => {
                            input.value = new_value;
                        },
                        None => {},
                    }
                }
                return true;
            },
            _ => {
                return true;
            },
        }
    }

    /// Handles a key while the command palette is open; reports whether the
    /// palette consumed the key.
    pub fn handle_command_palette_key(&mut self, key: KeyInput) -> (r: bool)
        ensures
            final(self).commit_file_selection == old(self).commit_file_selection,
            r == (old(self).command_palette is Some),
            old(self).command_palette is None ==> *final(self) == *old(self),
            (old(self).command_palette is Some && key.code == KeyCode::Esc) ==> {
                &&& final(self).command_palette is None
                &&& final(self).status_line@ == "Custom command selection cancelled."@
            },
            // navigation stays inside the command list
            (old(self).command_palette is Some && old(self).config.custom_commands@.len() > 0
                && (key.code == KeyCode::Down || key.code == KeyCode::Char('j') || key.code
                == KeyCode::Up || key.code == KeyCode::Char('k'))) ==> (final(self).command_palette matches Some(pal) && pal.selected < old(self).config.custom_commands@.len()),
            (old(self).command_palette is Some && key.code == KeyCode::Enter) ==> final(self).command_palette is None,
    {
        let selected = match self.command_palette {
            None => {
                return false;
            },
            Some(palette) => palette.selected,
        };
        match key.code {
            KeyCode::Esc => {
                self.command_palette = None;
                self.status_line = "Custom command selection cancelled.".to_owned();
            },
            KeyCode::Down => {
                self.palette_move(selected, true);
            },
            KeyCode::Char(c) => {
                if c == 'j' {
                    self.palette_move(selected, true);
                } else if c == 'k' {
                    self.palette_move(selected, false);
                }
            },
            KeyCode::Up => {
                self.palette_move(selected, false);
            },
            KeyCode::Enter => {
                self.run_selected_custom_command();
            },
            _ => {},
        }
        true
    }

    /// Moves the palette selection one step within the command list.
    fn palette_move(&mut self, selected: usize, down: bool)
        ensures
            final(self).commit_file_selection == old(self).commit_file_selection,
            old(self).config.custom_commands@.len() > 0 ==> (final(self).command_palette matches Some(p) && p.selected < old(self).config.custom_commands@.len()),
    {
        let len = self.config.custom_commands.len();
        if len == 0 {
            return;
        }
        let next = if down {
            if selected < len - 1 {
                selected + 1
            } else {
                len - 1
            }
        } else {
            if selected > 0 {
                let dec = selected - 1;
                if dec < len {
                    dec
                } else {
                    len - 1
                }
            } else {
                0
            }
        };
        self.command_palette = Some(CommandPaletteState { selected: next });
    }

    /// Routes one key press: open modals take priority (confirmation, then
    /// text input, then the palette), Escape cancels a pending rebase
    /// source, and everything else goes through the keymap.
    pub fn handle_key(&mut self, key: KeyInput)
        requires
            old(self).selection_nodup(),
        ensures
            final(self).selection_nodup(),
            // an open confirmation consumes the key
            match old(self).confirmation {
                Some(c) => {
                    &&& (key.code == KeyCode::Enter || key.code == KeyCode::Char('y')) ==> {
                        &&& final(self).confirmation is None
                        &&& final(self).effects@.len() == old(self).effects@.len() + 1
                        &&& spec_is_run_effect(final(self).effects@.last(), c.action)
                    }
                    &&& (key.code == KeyCode::Esc || key.code == KeyCode::Char('n')) ==> {
                        &&& final(self).confirmation is None
                        &&& final(self).status_line@ == "Action cancelled."@
                        &&& final(self).effects == old(self).effects
                    }
                    &&& *final(self) == (App {
                        confirmation: final(self).confirmation,
                        status_line: final(self).status_line,
                        effects: final(self).effects,
                        ..*old(self)
                    })
                },
                None => true,
            },
            // then an open text input
            (old(self).confirmation is None && old(self).input is Some) ==> {
                &&& (key.code == KeyCode::Esc ==> final(self).input is None && final(self).status_line@ == "Input cancelled."@)
                &&& (match old(self).input {
                    Some(input) => {
                        &&& (key.code == KeyCode::Enter && crate::text::spec_trim(
                            input.value@,
                        ).len() == 0 ==> final(self).input == old(self).input && final(self).status_line@ == "Input cannot be empty."@)
                        &&& (key.code == KeyCode::Enter && crate::text::spec_trim(
                            input.value@,
                        ).len() > 0 ==> final(self).input is None)
                    },
                    None => true,
                })
                &&& *final(self) == (App {
                    input: final(self).input,
                    status_line: final(self).status_line,
                    effects: final(self).effects,
                    interactive_commit_request: final(self).interactive_commit_request,
                    ..*old(self)
                })
            },
            // then the palette
            (old(self).confirmation is None && old(self).input is None && old(self).command_palette is Some) ==> {
                &&& (key.code == KeyCode::Esc ==> final(self).command_palette is None && final(self).status_line@ == "Custom command selection cancelled."@)
                &&& (key.code == KeyCode::Enter ==> final(self).command_palette is None)
            },
            // with no modal, Escape clears a pending rebase source
            (old(self).confirmation is None && old(self).input is None && old(self).command_palette is None && key.code == KeyCode::Esc && old(self).pending_rebase_source is Some) ==> {
                &&& final(self).pending_rebase_source is None
                &&& final(self).status_line@ == "Rebase selection cancelled."@
                &&& *final(self) == (App {
                    pending_rebase_source: final(self).pending_rebase_source,
                    status_line: final(self).status_line,
                    ..*old(self)
                })
            },
            // everything else goes through the keymap
            (old(self).confirmation is None && old(self).input is None && old(self).command_palette is None && (key.code != KeyCode::Esc || old(self).pending_rebase_source is None)) ==> match spec_canonical_event(key) {
                None => *final(self) == *old(self),
                Some(c) => match crate::keys::spec_event_lookup(
                    old(self).keymap.events_view(),
                    c,
                ) {
                    None => *final(self) == *old(self),
                    Some(action) => {
                        &&& (action == ActionId::Quit ==> final(self).should_quit)
                        &&& (action == ActionId::Push ==> (final(self).confirmation matches Some(pc) && pc.action == PendingRunAction::Hg(HgAction::Push)))
                        &&& (action == ActionId::ClearFileSelection ==> final(self).commit_file_selection@.len() == 0)
                    },
                },
            },
    {
        if self.confirmation.is_some() {
            let consumed = self.handle_confirmation_key(key);
            if consumed {
                return;
            }
        }
        if self.input.is_some() {
            let consumed = self.handle_input_key(key);
            if consumed {
                return;
            }
        }
        if self.command_palette.is_some() {
            let consumed = self.handle_command_palette_key(key);
            if consumed {
                return;
            }
        }
        if key.code == KeyCode::Esc {
            if self.cancel_pending_rebase_selection() {
                return;
            }
        }
        match self.keymap.action_for_event(key) {
            Some(action) => {
                self.dispatch_action(action);
            },
            None => {},
        }
    }

    /// Dispatches one resolved action: the single funnel every binding goes
    /// through.
    pub fn dispatch_action(&mut self, action: ActionId)
        requires
            old(self).selection_nodup(),
        ensures
            final(self).selection_nodup(),
            action == ActionId::Quit ==> final(self).should_quit,
            // the rebase picker (see `start_or_confirm_rebase`)
            action == ActionId::RebaseSelected && old(self).snapshot.capabilities.has_rebase
                && old(self).rev_idx < old(self).snapshot.revisions@.len() ==> {
                let selected = old(self).snapshot.revisions@[old(self).rev_idx as int].rev;
                match old(self).pending_rebase_source {
                    Some(source) => if source == selected {
                        &&& final(self).pending_rebase_source == Some(source)
                        &&& final(self).confirmation == old(self).confirmation
                    } else {
                        &&& final(self).pending_rebase_source is None
                        &&& (final(self).confirmation matches Some(c) && c.action
                            == PendingRunAction::Hg(
                            HgAction::RebaseSourceDest { source_rev: source, dest_rev: selected },
                        ))
                    },
                    None => {
                        &&& final(self).pending_rebase_source == Some(selected)
                        &&& final(self).confirmation == old(self).confirmation
                    },
                }
            },
            // continue is blocked without a rebase in progress and while
            // unresolved conflicts remain
            action == ActionId::RebaseContinue && old(self).snapshot.capabilities.has_rebase
                && !old(self).snapshot.rebase.in_progress ==> {
                &&& final(self).confirmation == old(self).confirmation
                &&& final(self).status_line@ == "No rebase is currently in progress."@
            },
            action == ActionId::RebaseContinue && old(self).snapshot.capabilities.has_rebase
                && old(self).snapshot.rebase.in_progress && old(self).snapshot.rebase.unresolved_conflicts > 0 ==> {
                &&& final(self).confirmation == old(self).confirmation
                &&& final(self).status_line@ == "Cannot continue rebase: "@
                    + crate::text::spec_dec(old(self).snapshot.rebase.unresolved_conflicts as nat)
                    + " unresolved conflict(s) remain."@
            },
            action == ActionId::RebaseContinue && old(self).snapshot.capabilities.has_rebase
                && old(self).snapshot.rebase.in_progress && old(self).snapshot.rebase.unresolved_conflicts == 0 ==> (final(self).confirmation matches Some(c) && c.action == PendingRunAction::Hg(
                HgAction::RebaseContinue,
            )),
            action == ActionId::RebaseAbort && old(self).snapshot.capabilities.has_rebase && !old(self).snapshot.rebase.in_progress ==> {
                &&& final(self).confirmation == old(self).confirmation
                &&& final(self).status_line@ == "No rebase is currently in progress."@
            },
            action == ActionId::RebaseAbort && old(self).snapshot.capabilities.has_rebase && old(self).snapshot.rebase.in_progress ==> (final(self).confirmation matches Some(c) && c.action
                == PendingRunAction::Hg(HgAction::RebaseAbort)),
            // the commit-file toggle (see `toggle_selected_file_for_commit`)
            action == ActionId::ToggleFileForCommit && old(self).files_idx < old(self).snapshot.files@.len() ==> spec_toggled(
                old(self).commit_file_selection@,
                final(self).commit_file_selection@,
                old(self).snapshot.files@[old(self).files_idx as int].path@,
            ),
            action == ActionId::ClearFileSelection ==> final(self).commit_file_selection@.len()
                == 0,
            // a commit opens the message input
            action == ActionId::Commit ==> (final(self).input matches Some(inp) && inp.purpose
                == InputPurpose::CommitMessage && inp.value@ == Seq::<char>::empty()),
            action == ActionId::CommitInteractive ==> (final(self).input matches Some(inp)
                && inp.purpose == InputPurpose::CommitMessageInteractive && inp.value@ == Seq::<
                char,
            >::empty()),
            action == ActionId::Bookmark ==> (final(self).input matches Some(inp) && inp.purpose
                == InputPurpose::BookmarkName && inp.title@ == "New bookmark"@),
            action == ActionId::Shelve && old(self).snapshot.capabilities.has_shelve ==> (final(self).input matches Some(inp) && inp.purpose == InputPurpose::ShelveName),
            action == ActionId::Shelve && !old(self).snapshot.capabilities.has_shelve ==> final(self).status_line@ == "Shelve extension/command unavailable."@,
            // a push is destructive and always asks first
            action == ActionId::Push ==> (final(self).confirmation matches Some(c) && c.action
                == PendingRunAction::Hg(HgAction::Push) && c.message@ == "Push current changes?"@
                && final(self).effects == old(self).effects),
            // pull and the remote queries run straight away
            action == ActionId::Pull ==> final(self).effects@.len() == old(self).effects@.len() + 1
                && spec_is_run_effect(final(self).effects@.last(), PendingRunAction::Hg(HgAction::Pull)),
            action == ActionId::Incoming ==> final(self).effects@.len() == old(self).effects@.len()
                + 1 && spec_is_run_effect(
                final(self).effects@.last(),
                PendingRunAction::Hg(HgAction::Incoming),
            ),
            action == ActionId::Outgoing ==> final(self).effects@.len() == old(self).effects@.len()
                + 1 && spec_is_run_effect(
                final(self).effects@.last(),
                PendingRunAction::Hg(HgAction::Outgoing),
            ),
            // a manual refresh is full, with revision history
            action == ActionId::RefreshSnapshot ==> final(self).effects@ == old(self).effects@.push(
                Effect::RefreshSnapshot { preserve_details: false, include_revisions: true },
            ),
            action == ActionId::HardRefresh ==> final(self).effects@.len() >= old(self).effects@.len() + 1 && final(self).effects@[old(self).effects@.len() as int]
                == (Effect::RefreshSnapshot { preserve_details: false, include_revisions: true }),
            action == ActionId::FocusNext ==> final(self).focus == spec_cycled(old(self).focus, true),
            action == ActionId::FocusPrev ==> final(self).focus == spec_cycled(old(self).focus, false),
            // a help request lands in the activity log
            action == ActionId::Help ==> spec_log_appended(
                old(self).log_lines@,
                final(self).log_lines@,
            ),
            // selection movement steps by one, clamped into the list
            (action == ActionId::MoveDown || action == ActionId::MoveUp) && spec_panel_len(
                old(self),
                old(self).focus,
            ) > 0 ==> spec_panel_index(final(self), old(self).focus) == spec_step(
                spec_panel_index(old(self), old(self).focus),
                spec_panel_len(old(self), old(self).focus),
                action == ActionId::MoveDown,
            ),
            // a detail reload supersedes any outstanding fetch
            action == ActionId::RefreshDetails ==> final(self).details_scroll == 0 && final(self).detail_request_id == spec_wrap_inc(old(self).detail_request_id),
            // the palette opens only when commands are configured
            action == ActionId::OpenCustomCommands && old(self).config.custom_commands@.len() == 0
                ==> final(self).command_palette == old(self).command_palette && final(self).status_line@ == "No custom commands configured."@,
            action == ActionId::OpenCustomCommands && old(self).config.custom_commands@.len() > 0
                ==> final(self).command_palette == Some(CommandPaletteState { selected: 0usize }),
            // update is destructive: with a selection it always asks first
            action == ActionId::UpdateSelected && old(self).focus == FocusPanel::Bookmarks && old(self).bookmarks_idx < old(self).snapshot.bookmarks@.len() ==> (final(self).confirmation matches Some(c) && match c.action {
                PendingRunAction::Hg(HgAction::UpdateToBookmark { name }) => name@ == old(self).snapshot.bookmarks@[old(self).bookmarks_idx as int].name@,
                _ => false,
            }),
            action == ActionId::UpdateSelected && old(self).focus != FocusPanel::Bookmarks && old(self).rev_idx < old(self).snapshot.revisions@.len() ==> (final(self).confirmation matches Some(c) && c.action == PendingRunAction::Hg(HgAction::UpdateToRevision {
                rev: old(self).snapshot.revisions@[old(self).rev_idx as int].rev,
            })),
            // so is applying a shelf
            action == ActionId::UnshelveSelected && old(self).shelves_idx < old(self).snapshot.shelves@.len() ==> (final(self).confirmation matches Some(c) && match c.action {
                PendingRunAction::Hg(HgAction::Unshelve { name }) => name@ == old(self).snapshot.shelves@[old(self).shelves_idx as int].name@,
                _ => false,
            }),
            action == ActionId::UnshelveSelected && old(self).shelves_idx >= old(self).snapshot.shelves@.len() ==> final(self).status_line@ == "No shelf selected."@,
            // marking a conflict runs the resolve command for the selection
            (action == ActionId::ResolveMark || action == ActionId::ResolveUnmark) && old(self).conflicts_idx < old(self).snapshot.conflicts@.len() ==> {
                &&& final(self).effects@.len() == old(self).effects@.len() + 1
                &&& match final(self).effects@.last() {
                    Effect::RunAction { action: PendingRunAction::Hg(a), .. } => match a {
                        HgAction::ResolveMark { path } => action == ActionId::ResolveMark && path@
                            == old(self).snapshot.conflicts@[old(self).conflicts_idx as int].path@,
                        HgAction::ResolveUnmark { path } => action == ActionId::ResolveUnmark
                            && path@ == old(self).snapshot.conflicts@[old(self).conflicts_idx as int].path@,
                        _ => false,
                    },
                    _ => false,
                }
            },
            (action == ActionId::ResolveMark || action == ActionId::ResolveUnmark) && old(self).conflicts_idx >= old(self).snapshot.conflicts@.len() ==> final(self).status_line@
                == "No conflict selected."@ && final(self).effects == old(self).effects,
            // so is a histedit from the selection
            action == ActionId::HisteditSelected && old(self).snapshot.capabilities.has_histedit
                && old(self).rev_idx < old(self).snapshot.revisions@.len() ==> (final(self).confirmation matches Some(c) && c.action == PendingRunAction::Hg(HgAction::HisteditBase {
                base_rev: old(self).snapshot.revisions@[old(self).rev_idx as int].rev,
            })),
            action == ActionId::HisteditSelected && !old(self).snapshot.capabilities.has_histedit
                ==> final(self).status_line@ == "Histedit extension not enabled."@ && final(self).confirmation == old(self).confirmation,
    {
        match action {
            ActionId::Quit => {
                self.should_quit = true;
            },
            ActionId::Help => {
                let text = help_text(
                    &self.keymap,
                    self.snapshot.capabilities.has_rebase,
                    self.snapshot.capabilities.has_histedit,
                    self.config.custom_commands.len() > 0,
                );
                self.append_log(text);
            },
            ActionId::FocusNext => {
                self.cycle_focus(true);
            },
            ActionId::FocusPrev => {
                self.cycle_focus(false);
            },
            ActionId::MoveDown => {
                self.move_selection(true);
            },
            ActionId::MoveUp => {
                self.move_selection(false);
            },
            ActionId::RefreshSnapshot => {
                self.refresh_snapshot(false);
            },
            ActionId::RefreshDetails => {
                self.refresh_detail_for_focus();
            },
            ActionId::OpenCustomCommands => {
                self.open_command_palette();
            },
            ActionId::ToggleFileForCommit => {
                self.toggle_selected_file_for_commit();
            },
            ActionId::ClearFileSelection => {
                self.clear_file_selection();
            },
            ActionId::Commit => {
                let title = commit_input_title(self.commit_file_selection.len(), false);
                self.open_input(InputPurpose::CommitMessage, title);
            },
            ActionId::CommitInteractive => {
                let title = commit_input_title(self.commit_file_selection.len(), true);
                self.open_input(InputPurpose::CommitMessageInteractive, title);
            },
            ActionId::Bookmark => {
                self.open_input(InputPurpose::BookmarkName, "New bookmark".to_owned());
            },
            ActionId::Shelve => {
                if self.snapshot.capabilities.has_shelve {
                    self.open_input(InputPurpose::ShelveName, "Shelve name".to_owned());
                } else {
                    self.status_line = "Shelve extension/command unavailable.".to_owned();
                }
            },
            ActionId::Push => {
                self.confirm_action(
                    PendingRunAction::Hg(HgAction::Push),
                    "Push current changes?".to_owned(),
                );
            },
            ActionId::Pull => {
                self.run_hg_action(HgAction::Pull);
            },
            ActionId::Incoming => {
                self.run_hg_action(HgAction::Incoming);
            },
            ActionId::Outgoing => {
                self.run_hg_action(HgAction::Outgoing);
            },
            ActionId::UpdateSelected => {
                self.update_action_for_selection();
            },
            ActionId::UnshelveSelected => {
                self.unshelve_selected();
            },
            ActionId::ResolveMark => {
                self.mark_selected_conflict(true);
            },
            ActionId::ResolveUnmark => {
                self.mark_selected_conflict(false);
            },
            ActionId::RebaseSelected => {
                self.start_or_confirm_rebase();
            },
            ActionId::RebaseContinue => {
                self.continue_rebase();
            },
            ActionId::RebaseAbort => {
                self.abort_rebase();
            },
            ActionId::HisteditSelected => {
                self.maybe_histedit();
            },
            ActionId::HardRefresh => {
                self.refresh_snapshot(false);
                self.refresh_detail_for_focus();
            },
        }
    }

    /// Takes a queued interactive-commit request, if any.
    pub fn take_interactive_commit_request(&mut self) -> (r: Option<InteractiveCommitRequest>)
        ensures
            final(self).interactive_commit_request is None,
            r == old(self).interactive_commit_request,
            *final(self) == (App { interactive_commit_request: None, ..*old(self) }),
    {
        let mut taken: Option<InteractiveCommitRequest> = None;
        core::mem::swap(&mut taken, &mut self.interactive_commit_request);
        taken
    }

    /// Records the outcome of a foreground interactive commit: a success
    /// clears the commit-file selection.
    pub fn finish_interactive_commit(&mut self, success: bool)
        ensures
            success ==> {
                &&& final(self).status_line@ == "Interactive commit completed."@
                &&& final(self).commit_file_selection@.len() == 0
            },
            !success ==> {
                &&& final(self).status_line@ == "Interactive commit exited with error."@
                &&& final(self).commit_file_selection == old(self).commit_file_selection
            },
    {
        if success {
            self.status_line = "Interactive commit completed.".to_owned();
            self.append_log("OK: hg commit -i".to_owned());
            self.commit_file_selection = Vec::new();
        } else {
            self.status_line = "Interactive commit exited with error.".to_owned();
            self.append_log("FAILED: interactive commit exited with an error".to_owned());
        }
    }

    /// Records a foreground interactive commit that could not run at all.
    pub fn fail_interactive_commit(&mut self, err: &str)
        ensures
            final(self).status_line@ == "Interactive commit failed."@,
            final(self).detail_text@ == "Interactive commit error:\n"@ + err@,
    {
        self.status_line = "Interactive commit failed.".to_owned();
        let mut line = "Interactive commit error: ".to_owned();
        line.append(err);
        self.append_log(line);
        let mut detail = "Interactive commit error:\n".to_owned();
        detail.append(err);
        self.set_detail_text(detail);
    }
}

/// The preview of an interactive commit over the picked files.
pub fn interactive_commit_preview(files_len: usize) -> (r: String)
    ensures
        files_len == 0 ==> r@ == "hg commit -i -m <message>"@,
        files_len > 0 ==> r@ == "hg commit -i -m <message> <"@ + crate::text::spec_dec(
            files_len as nat,
        ) + " files>"@,
{
    if files_len == 0 {
        "hg commit -i -m <message>".to_owned()
    } else {
        let mut s = "hg commit -i -m <message> <".to_owned();
        let count = crate::text::usize_string(files_len);
        s.append(count.as_str());
        s.append(" files>");
        s
    }
}

/// The title of the commit-message input, counting picked files.
fn commit_input_title(count: usize, interactive: bool) -> (r: String)
    ensures
        r@.len() > 0,
{
    proof {
        reveal_strlit("Commit message (all tracked changes)");
        reveal_strlit("Interactive commit message (hg commit -i, all tracked changes)");
        reveal_strlit("Commit message (");
        reveal_strlit("Interactive commit message (hg commit -i, ");
    }
    if count == 0 {
        if interactive {
            "Interactive commit message (hg commit -i, all tracked changes)".to_owned()
        } else {
            "Commit message (all tracked changes)".to_owned()
        }
    } else {
        let mut s = if interactive {
            "Interactive commit message (hg commit -i, ".to_owned()
        } else {
            "Commit message (".to_owned()
        };
        let num = crate::text::usize_string(count);
        s.append(num.as_str());
        s.append(" selected file");
        if count != 1 {
            s.append("s");
        }
        s.append(")");
        s
    }
}

/// One line of key help, joined from the bound keys.
pub fn help_text(
    keymap: &ActionKeyMap,
    has_rebase: bool,
    has_histedit: bool,
    has_custom_commands: bool,
) -> (r: String)
    ensures
        r@.len() > 0,
{
    proof {
        reveal_strlit("Keys: ");
    }
    let mut text = "Keys: ".to_owned();
    let quit = key_label_string(keymap, ActionId::Quit);
    text.append(quit.as_str());
    text.append(" quit | ");
    let fnext = key_label_string(keymap, ActionId::FocusNext);
    text.append(fnext.as_str());
    text.append(" focus+ | ");
    let fprev = key_label_string(keymap, ActionId::FocusPrev);
    text.append(fprev.as_str());
    text.append(" focus- | ");
    let down = key_label_string(keymap, ActionId::MoveDown);
    text.append(down.as_str());
    text.append(" down | ");
    let up = key_label_string(keymap, ActionId::MoveUp);
    text.append(up.as_str());
    text.append(" up | ");
    let refresh = key_label_string(keymap, ActionId::RefreshSnapshot);
    text.append(refresh.as_str());
    text.append(" refresh | ");
    let details = key_label_string(keymap, ActionId::RefreshDetails);
    text.append(details.as_str());
    text.append(" reload diff | Actions: ");
    let pick = key_label_string(keymap, ActionId::ToggleFileForCommit);
    text.append(pick.as_str());
    text.append(" pick file | ");
    let clear = key_label_string(keymap, ActionId::ClearFileSelection);
    text.append(clear.as_str());
    text.append(" clear picks | ");
    let commit = key_label_string(keymap, ActionId::Commit);
    text.append(commit.as_str());
    text.append(" commit | ");
    let icommit = key_label_string(keymap, ActionId::CommitInteractive);
    text.append(icommit.as_str());
    text.append(" interactive commit | ");
    let bookmark = key_label_string(keymap, ActionId::Bookmark);
    text.append(bookmark.as_str());
    text.append(" bookmark | ");
    let update = key_label_string(keymap, ActionId::UpdateSelected);
    text.append(update.as_str());
    text.append(" update | ");
    let push = key_label_string(keymap, ActionId::Push);
    text.append(push.as_str());
    text.append(" push(confirm) | ");
    let pull = key_label_string(keymap, ActionId::Pull);
    text.append(pull.as_str());
    text.append(" pull | Remote: ");
    let incoming = key_label_string(keymap, ActionId::Incoming);
    text.append(incoming.as_str());
    text.append(" incoming | ");
    let outgoing = key_label_string(keymap, ActionId::Outgoing);
    text.append(outgoing.as_str());
    text.append(" outgoing | Shelves: ");
    let shelve = key_label_string(keymap, ActionId::Shelve);
    text.append(shelve.as_str());
    text.append(" create shelf | ");
    let unshelve = key_label_string(keymap, ActionId::UnshelveSelected);
    text.append(unshelve.as_str());
    text.append(" unshelve selected shelf | Conflicts: ");
    let mark = key_label_string(keymap, ActionId::ResolveMark);
    text.append(mark.as_str());
    text.append(" mark resolved | ");
    let unmark = key_label_string(keymap, ActionId::ResolveUnmark);
    text.append(unmark.as_str());
    text.append(" mark unresolved | Mouse: click focus/select | wheel scroll hovered panel or Details (fallback: focused panel) | double-click files/commits loads details");
    if has_rebase {
        text.append(" | History: ");
        let rebase = key_label_string(keymap, ActionId::RebaseSelected);
        text.append(rebase.as_str());
        text.append(" rebase picker | ");
        let cont = key_label_string(keymap, ActionId::RebaseContinue);
        text.append(cont.as_str());
        text.append(
            " rebase --continue (only when rebase is active and conflicts are resolved) | ",
        );
        let abort = key_label_string(keymap, ActionId::RebaseAbort);
        text.append(abort.as_str());
        text.append(" rebase --abort");
    }
    if has_histedit {
        text.append(" | History: ");
        let histedit = key_label_string(keymap, ActionId::HisteditSelected);
        text.append(histedit.as_str());
        text.append(" histedit from selected revision");
    }
    if has_custom_commands {
        text.append(" | Custom: ");
        let open = key_label_string(keymap, ActionId::OpenCustomCommands);
        text.append(open.as_str());
        text.append(" open command palette");
    }
    text
}

/// A copy of the string list with the same views.
fn clone_string_vec(v: &Vec<String>) -> (r: Vec<String>)
    ensures
        r@ == v@,
{
    let c = v.clone();
    proof {
        assert(c@ =~= v@);
    }
    c
}

/// A copy of a custom command definition.
fn custom_command_duplicate(c: &CustomCommand) -> (r: CustomCommand)
    ensures
        r.id == c.id,
        r.title == c.title,
        r.context == c.context,
        r.command == c.command,
        r.args@ == c.args@,
        r.env@ == c.env@,
        r.show_output == c.show_output,
        r.needs_confirmation == c.needs_confirmation,
    {
    let mut env: Vec<(String, String)> = Vec::new();
    let n = c.env.len();
    let mut i: usize = 0;
    while i < n
        invariant
            0 <= i <= n,
            n == c.env@.len(),
            env@ == c.env@.take(i as int),
        decreases n - i,
    {
        let pair = (c.env[i].0.clone(), c.env[i].1.clone());
        proof {
            assert(pair == c.env@[i as int]);
            assert(c.env@.take(i + 1) =~= c.env@.take(i as int).push(c.env@[i as int]));
        }
        env.push(pair);
        i = i + 1;
    }
    proof {
        assert(c.env@.take(n as int) =~= c.env@);
        assert(env@ =~= c.env@);
    }
    let args = clone_string_vec(&c.args);
    CustomCommand {
        id: c.id.clone(),
        title: c.title.clone(),
        context: c.context,
        command: c.command.clone(),
        args,
        env,
        show_output: c.show_output,
        needs_confirmation: c.needs_confirmation,
    }
}

/// Appends the names not yet present: afterwards the list holds exactly the
/// old names and the new ones, still without duplicates.
fn push_new_names(out: &mut Vec<String>, more: &Vec<String>)
    requires
        forall|i: int, j: int|
            0 <= i < j < old(out)@.len() ==> (#[trigger] old(out)@[i])@ != (
            #[trigger] old(out)@[j])@,
    ensures
        (final(out)@.len() > 0) == (old(out)@.len() > 0 || more@.len() > 0),
        final(out)@.len() >= old(out)@.len(),
        forall|q: Seq<char>|
            #[trigger] spec_sel_has(final(out)@, q) == (spec_sel_has(old(out)@, q) || spec_sel_has(
                more@,
                q,
            )),
        forall|i: int, j: int|
            0 <= i < j < final(out)@.len() ==> (#[trigger] final(out)@[i])@ != (
            #[trigger] final(out)@[j])@,
{
    let n = more.len();
    let mut i: usize = 0;
    proof {
        assert forall|q: Seq<char>| #[trigger] spec_sel_has(out@, q) == (spec_sel_has(
            old(out)@,
            q,
        ) || spec_sel_has(more@.take(0int), q)) by {
            if spec_sel_has(more@.take(0int), q) {
                let w = choose|w: int|
                    0 <= w < more@.take(0int).len() && (#[trigger] more@.take(0int)[w])@ == q;
            }
        }
    }
    while i < n
        invariant
            0 <= i <= n,
            n == more@.len(),
            out@.len() >= old(out)@.len(),
            (out@.len() > 0) == (old(out)@.len() > 0 || i > 0),
            forall|q: Seq<char>|
                #[trigger] spec_sel_has(out@, q) == (spec_sel_has(old(out)@, q) || spec_sel_has(
                    more@.take(i as int),
                    q,
                )),
            forall|x: int, y: int|
                0 <= x < y < out@.len() ==> (#[trigger] out@[x])@ != (#[trigger] out@[y])@,
        decreases n - i,
    {
        let mut seen = false;
        let on = out.len();
        let mut j: usize = 0;
        while j < on
            invariant
                0 <= j <= on,
                on == out@.len(),
                0 <= i < n,
                n == more@.len(),
                seen == (exists|w: int| 0 <= w < j && (#[trigger] out@[w])@ == more@[i as int]@),
            decreases on - j,
        {
            if crate::text::str_eq(out[j].as_str(), more[i].as_str()) {
                seen = true;
            }
            j = j + 1;
        }
        let ghost out_before = out@;
        let ghost entry_view = more@[i as int]@;
        if !seen {
            out.push(more[i].clone());
            proof {
                assert(out@ =~= out_before.push(more@[i as int]));
                assert(out@[out@.len() - 1]@ == entry_view);
                assert forall|x: int, y: int|
                    0 <= x < y < out@.len() implies (#[trigger] out@[x])@ != (
                #[trigger] out@[y])@ by {
                    if y == out@.len() - 1 {
                        assert(out_before[x]@ != entry_view);
                    }
                }
            }
        }
        proof {
            assert(more@.take(i + 1) =~= more@.take(i as int).push(more@[i as int]));
            assert forall|q: Seq<char>| #[trigger] spec_sel_has(out@, q) == (spec_sel_has(
                old(out)@,
                q,
            ) || spec_sel_has(more@.take(i + 1), q)) by {
                if spec_sel_has(out@, q) {
                    let w = choose|w: int| 0 <= w < out@.len() && (#[trigger] out@[w])@ == q;
                    if w < out_before.len() {
                        assert(spec_sel_has(out_before, q));
                    } else {
                        assert(q == entry_view);
                        assert(more@.take(i + 1)[i as int]@ == q);
                    }
                }
                if spec_sel_has(more@.take(i + 1), q) {
                    let w = choose|w: int|
                        0 <= w < more@.take(i + 1).len() && (#[trigger] more@.take(i + 1)[w])@
                            == q;
                    if w < i {
                        assert(spec_sel_has(more@.take(i as int), q));
                    } else {
                        assert(q == entry_view);
                        if seen {
                            let v = choose|v: int|
                                0 <= v < out_before.len() && (#[trigger] out_before[v])@
                                    == entry_view;
                            assert(spec_sel_has(out_before, q));
                            assert(out@[v]@ == q);
                        } else {
                            assert(out@[out@.len() - 1]@ == q);
                        }
                    }
                }
                if spec_sel_has(old(out)@, q) || spec_sel_has(more@.take(i as int), q) {
                    assert(spec_sel_has(out_before, q));
                    let v = choose|v: int|
                        0 <= v < out_before.len() && (#[trigger] out_before[v])@ == q;
                    assert(out@[v]@ == q);
                }
            }
        }
        i = i + 1;
    }
    proof {
        assert(more@.take(n as int) =~= more@);
    }
}

/// Sorts distinct names into strictly ascending lexicographic order,
/// keeping exactly the same names.
fn sort_names(names: &mut Vec<String>)
    requires
        forall|i: int, j: int|
            0 <= i < j < old(names)@.len() ==> (#[trigger] old(names)@[i])@ != (
            #[trigger] old(names)@[j])@,
    ensures
        final(names)@.len() == old(names)@.len(),
        forall|q: Seq<char>|
            #[trigger] spec_sel_has(final(names)@, q) == spec_sel_has(old(names)@, q),
        forall|i: int, j: int|
            0 <= i < j < final(names)@.len() ==> crate::text::spec_lex_lt(
                (#[trigger] final(names)@[i])@,
                (#[trigger] final(names)@[j])@,
            ),
{
    let mut rest: Vec<String> = Vec::new();
    core::mem::swap(&mut rest, names);
    let mut out: Vec<String> = Vec::new();
    while rest.len() > 0
        invariant
            out@.len() + rest@.len() == old(names)@.len(),
            forall|q: Seq<char>|
                #[trigger] spec_sel_has(old(names)@, q) == (spec_sel_has(out@, q) || spec_sel_has(
                    rest@,
                    q,
                )),
            forall|i: int, j: int|
                0 <= i < j < out@.len() ==> crate::text::spec_lex_lt(
                    (#[trigger] out@[i])@,
                    (#[trigger] out@[j])@,
                ),
            forall|i: int, j: int|
                0 <= i < out@.len() && 0 <= j < rest@.len() ==> crate::text::spec_lex_lt(
                    (#[trigger] out@[i])@,
                    (#[trigger] rest@[j])@,
                ),
            forall|i: int, j: int|
                0 <= i < j < rest@.len() ==> (#[trigger] rest@[i])@ != (#[trigger] rest@[j])@,
        decreases rest@.len(),
    {
        // pick the least remaining name
        let rn = rest.len();
        let mut m: usize = 0;
        let mut k: usize = 1;
        while k < rn
            invariant
                0 <= m < k <= rn,
                rn == rest@.len(),
                forall|i: int, j: int|
                    0 <= i < j < rest@.len() ==> (#[trigger] rest@[i])@ != (#[trigger] rest@[j])@,
                forall|j: int|
                    0 <= j < k && j != m ==> crate::text::spec_lex_lt(
                        rest@[m as int]@,
                        (#[trigger] rest@[j])@,
                    ),
            decreases rn - k,
        {
            let smaller = str_lex_gt(rest[m].as_str(), rest[k].as_str());
            proof {
                assert(rest@[m as int]@ != rest@[k as int]@);
                crate::text::lemma_lex_connex(rest@[m as int]@, rest@[k as int]@);
            }
            if smaller {
                proof {
                    assert forall|j: int|
                        0 <= j < k + 1 && j != k implies crate::text::spec_lex_lt(
                        rest@[k as int]@,
                        (#[trigger] rest@[j])@,
                    ) by {
                        if j != m {
                            crate::text::lemma_lex_trans(
                                rest@[k as int]@,
                                rest@[m as int]@,
                                rest@[j]@,
                            );
                        }
                    }
                }
                m = k;
            }
            k = k + 1;
        }
        let ghost rest_before = rest@;
        let picked = rest.remove(m);
        proof {
            assert(picked == rest_before[m as int]);
            assert(forall|w: int| 0 <= w < m ==> rest@[w] == rest_before[w]);
            assert(forall|w: int|
                m <= w < rest@.len() ==> rest@[w] == rest_before[w + 1]);
        }
        let ghost out_before = out@;
        out.push(picked);
        proof {
            let pv = picked@;
            assert(out@ =~= out_before.push(picked));
            // ascending order extends: everything placed earlier is below
            assert forall|i: int, j: int|
                0 <= i < j < out@.len() implies crate::text::spec_lex_lt(
                (#[trigger] out@[i])@,
                (#[trigger] out@[j])@,
            ) by {
                if j == out@.len() - 1 {
                    assert(crate::text::spec_lex_lt(out_before[i]@, pv));
                }
            }
            // membership: removing then pushing moves one name across
            assert forall|q: Seq<char>| #[trigger] spec_sel_has(old(names)@, q) == (
            spec_sel_has(out@, q) || spec_sel_has(rest@, q)) by {
                if spec_sel_has(old(names)@, q) {
                    if spec_sel_has(out_before, q) {
                        let w = choose|w: int|
                            0 <= w < out_before.len() && (#[trigger] out_before[w])@ == q;
                        assert(out@[w]@ == q);
                    } else {
                        let w = choose|w: int|
                            0 <= w < rest_before.len() && (#[trigger] rest_before[w])@ == q;
                        if w == m {
                            assert(out@[out@.len() - 1]@ == q);
                        } else if w < m {
                            assert(rest@[w]@ == q);
                        } else {
                            assert(rest@[w - 1]@ == q);
                        }
                    }
                }
                if spec_sel_has(out@, q) {
                    let w = choose|w: int| 0 <= w < out@.len() && (#[trigger] out@[w])@ == q;
                    if w < out_before.len() {
                        assert(spec_sel_has(out_before, q));
                    } else {
                        assert(rest_before[m as int]@ == q);
                        assert(spec_sel_has(rest_before, q));
                    }
                }
                if spec_sel_has(rest@, q) {
                    let w = choose|w: int| 0 <= w < rest@.len() && (#[trigger] rest@[w])@ == q;
                    if w < m {
                        assert(rest_before[w]@ == q);
                    } else {
                        assert(rest_before[w + 1]@ == q);
                    }
                    assert(spec_sel_has(rest_before, q));
                }
            }
            // the picked minimum stays below everything still unsorted
            assert forall|i: int, j: int|
                0 <= i < out@.len() && 0 <= j < rest@.len() implies crate::text::spec_lex_lt(
                (#[trigger] out@[i])@,
                (#[trigger] rest@[j])@,
            ) by {
                let jb = if j < m {
                    j
                } else {
                    j + 1
                };
                assert(rest@[j] == rest_before[jb]);
                if i < out_before.len() {
                    assert(crate::text::spec_lex_lt(out_before[i]@, rest_before[jb]@));
                } else {
                    assert(out@[i]@ == rest_before[m as int]@);
                    assert(crate::text::spec_lex_lt(rest_before[m as int]@, rest_before[jb]@));
                }
            }
            // distinctness of the remainder
            assert forall|i: int, j: int|
                0 <= i < j < rest@.len() implies (#[trigger] rest@[i])@ != (
            #[trigger] rest@[j])@ by {
                let ib = if i < m {
                    i
                } else {
                    i + 1
                };
                let jb = if j < m {
                    j
                } else {
                    j + 1
                };
                assert(rest@[i] == rest_before[ib]);
                assert(rest@[j] == rest_before[jb]);
                assert(rest_before[ib]@ != rest_before[jb]@);
            }
        }
    }
    core::mem::swap(names, &mut out);
    proof {
        assert(names@.len() == old(names)@.len());
    }
}

/// Whether `a` orders strictly after `b` by code point.
fn str_lex_gt(a: &str, b: &str) -> (r: bool)
    ensures
        r == crate::text::spec_lex_lt(b@, a@),
{
    let an = a.unicode_len();
    let bn = b.unicode_len();
    let min = if an < bn {
        an
    } else {
        bn
    };
    let mut i: usize = 0;
    while i < min
        invariant
            0 <= i <= min,
            an == a@.len(),
            bn == b@.len(),
            min == crate::text::spec_min(a@.len() as int, b@.len() as int),
            forall|j: int| 0 <= j < i ==> a@[j] == b@[j],
        decreases min - i,
    {
        let ca = a.get_char(i);
        let cb = b.get_char(i);
        if ca != cb {
            proof {
                crate::text::lemma_lex_at_diff(b@, a@, i as int);
            }
            return (ca as u32) > (cb as u32);
        }
        i = i + 1;
    }
    proof {
        crate::text::lemma_lex_prefix(b@, a@);
    }
    an > bn
}


/// Law: toggling a path in the commit selection is its own inverse — after
/// toggling the same path twice, exactly the original paths are selected.
pub proof fn lemma_toggle_involution(
    s0: Seq<String>,
    s1: Seq<String>,
    s2: Seq<String>,
    p: Seq<char>,
)
    requires
        spec_toggled(s0, s1, p),
        spec_toggled(s1, s2, p),
    ensures
        forall|q: Seq<char>| #[trigger] spec_sel_has(s2, q) == spec_sel_has(s0, q),
{
    assert forall|q: Seq<char>| #[trigger] spec_sel_has(s2, q) == spec_sel_has(s0, q) by {
        assert(spec_sel_has(s2, q) == if q == p {
            !spec_sel_has(s1, q)
        } else {
            spec_sel_has(s1, q)
        });
        assert(spec_sel_has(s1, q) == if q == p {
            !spec_sel_has(s0, q)
        } else {
            spec_sel_has(s0, q)
        });
    }
}

/// Law: after a snapshot arrives, every selected path is a path of the fresh
/// file list — the selection is pruned of vanished paths and nothing else.
pub proof fn lemma_selection_pruned_to_files(
    old_sel: Seq<String>,
    new_sel: Seq<String>,
    files: Seq<crate::domain::FileChange>,
)
    requires
        forall|q: Seq<char>|
            #[trigger] spec_sel_has(new_sel, q) == (spec_sel_has(old_sel, q) && spec_files_have(
                files,
                q,
            )),
    ensures
        forall|q: Seq<char>| #[trigger] spec_sel_has(new_sel, q) ==> spec_files_have(files, q),
        forall|q: Seq<char>|
            spec_sel_has(old_sel, q) && spec_files_have(files, q) ==> #[trigger] spec_sel_has(
                new_sel,
                q,
            ),
{
}

} // verus!

