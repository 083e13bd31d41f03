//! The modes the interface can be in, and the small enums that say what a
//! mode's popup or editor is for.
use vstd::prelude::*;

use crate::help::HelpTopic;

verus! {

/// Identifies a harness session for the lifetime of the process.
pub type SessionId = u64;

/// A visible row in the main list: repo header or issue.
#[derive(Debug, Clone, Copy, PartialEq, Eq, Structural)]
pub enum Row {
    RepoHeader { repo_idx: usize },
    Issue { repo_idx: usize, issue_idx: usize },
}

/// Number of rows of the filter editor.
pub const FILTER_FIELD_COUNT: usize = 13;

/// Index of the "hide empty repos" toggle row of the filter editor: it is
/// flipped in place on Enter rather than opening an input or picker.
pub const FILTER_HIDE_EMPTY_IDX: usize = 12;

/// The name of filter-editor field `idx`, in display order.
pub open spec fn filter_field_label(idx: usize) -> Seq<char> {
    if idx == 0 {
        "text"@
    } else if idx == 1 {
        "repo"@
    } else if idx == 2 {
        "assignee"@
    } else if idx == 3 {
        "author"@
    } else if idx == 4 {
        "priority"@
    } else if idx == 5 {
        "status"@
    } else if idx == 6 {
        "created after (YYYY-MM-DD)"@
    } else if idx == 7 {
        "created before"@
    } else if idx == 8 {
        "updated after"@
    } else if idx == 9 {
        "updated before"@
    } else if idx == 10 {
        "closed after"@
    } else if idx == 11 {
        "closed before"@
    } else {
        "hide empty repos"@
    }
}

/// The filter-editor field names, in display order.
pub fn filter_field_name(idx: usize) -> (r: &'static str)
    requires
        idx < FILTER_FIELD_COUNT,
    ensures
        r@ == filter_field_label(idx),
{
    match idx {
        0 => "text",
        1 => "repo",
        2 => "assignee",
        3 => "author",
        4 => "priority",
        5 => "status",
        6 => "created after (YYYY-MM-DD)",
        7 => "created before",
        8 => "updated after",
        9 => "updated before",
        10 => "closed after",
        11 => "closed before",
        _ => "hide empty repos",
    }
}

/// What a harness confirmation popup does when confirmed; each variant
/// carries everything the action needs.
#[derive(Debug, Clone, Copy, PartialEq, Eq, Structural)]
pub enum HarnessConfirm {
    /// Terminate a live session's child.
    Kill(SessionId),
    /// Discard an exited session's screen and start its harness again.
    Relaunch(SessionId),
    /// Quit while sessions are still running.
    Quit,
}

/// What the submitted text of a single-line input does.
#[derive(Debug, Clone, Copy, PartialEq, Eq, Structural)]
pub enum InputKind {
    Search,
    FilterField(usize),
    Assignees,
    Title,
    /// Switch the org/owner being browsed.
    Org,
    /// Jump the selection to a loaded issue by its number.
    GotoNumber,
}

#[derive(Debug, Clone, Copy, PartialEq, Eq, Structural)]
pub enum Mode {
    Normal,
    Input(InputKind),
    FilterMenu,
    SelectField(usize),
    SelectFieldMulti(usize),
    Calendar(usize),
    ConfirmState,
    IssueForm,
    IssueFormSelect(usize),
    IssueFormMulti(usize),
    CommentEditor,
    PrioritySet,
    LabelsSet,
    PrPicker,
    PrSummary,
    Harness,
    HarnessPicker,
    SessionPicker,
    ConfirmHarness(HarnessConfirm),
    /// Picking the repo to move the selected issue to.
    MovePicker,
    /// Confirmation in front of a move.
    ConfirmMove,
    /// Confirmation in front of setting an inferred priority.
    ConfirmPriority,
    /// The help viewer, on a page.
    Help(HelpTopic),
}

#[derive(Debug, Clone, Copy, PartialEq, Eq, Structural)]
pub enum Focus {
    List,
    Detail,
}

/// What the detail pane's keyboard focus is on: the issue body, or one of the
/// comment cards (0-indexed).
#[derive(Debug, Clone, Copy, PartialEq, Eq, Structural)]
pub enum DetailSel {
    Body,
    Comment(usize),
}

impl Default for DetailSel {
    fn default() -> (r: DetailSel)
        ensures
            r == DetailSel::Body,
    {
        DetailSel::Body
    }
}

/// One open-able row of the PR summary popup and its position among the
/// popup's drawn rows.
#[derive(Debug, Clone, PartialEq, Eq)]
pub struct PrTarget {
    pub url: String,
    pub line: u16,
}

/// Which element of the inline comment section has keys.
#[derive(Debug, Clone, Copy, PartialEq, Eq, Structural)]
pub enum CommentFocus {
    Editor,
    Save,
    Cancel,
}

impl Default for CommentFocus {
    fn default() -> (r: CommentFocus)
        ensures
            r == CommentFocus::Editor,
    {
        CommentFocus::Editor
    }
}

/// What the inline editor writes on save.
#[derive(Debug, Clone, PartialEq, Eq)]
pub enum EditorTarget {
    /// Add a new comment to the selected issue.
    NewComment,
    /// Edit an existing comment by its backend id.
    EditComment { comment_id: String },
    /// Edit the selected issue's description.
    EditBody,
}

impl Default for EditorTarget {
    fn default() -> (r: EditorTarget)
        ensures
            r == EditorTarget::NewComment,
    {
        EditorTarget::NewComment
    }
}

/// Which button has keys in the close/reopen confirmation popup.
#[derive(Debug, Clone, Copy, PartialEq, Eq, Structural)]
pub enum ConfirmChoice {
    Yes,
    No,
}

} // verus!
