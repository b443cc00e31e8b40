//! The read-only viewer: what it shows and when it ends.
//!
//! The program around the library owns the terminal. While the viewer is
//! running it reads the collection, draws `panel_text` under `panel_title`,
//! waits up to `POLL_MILLIS` for a key and hands what happened to `step`.

use vstd::prelude::*;
use vstd::string::StringExecFns;
use crate::command::{no_notes_line, note_line, note_line_text, note_lines};
use crate::note::{model, Note, NoteView};

verus! {

/// How long one wait for a key lasts, in milliseconds.
pub const POLL_MILLIS: u64 = 100;

/// The character that ends the viewer.
pub const QUIT_KEY: char = 'q';

/// Whether the viewer is still on screen.
#[derive(Debug, Clone, Copy, PartialEq, Eq, Structural)]
pub enum ViewerState {
    Running,
    Terminated,
}

/// What a wait for a key ended with.
#[derive(Debug, Clone, Copy, PartialEq, Eq, Structural)]
pub enum ViewerEvent {
    /// A key that stands for a character was pressed.
    Key(char),
    /// Something else arrived: another key, a resize, the mouse.
    Other,
    /// Nothing arrived in time.
    Timeout,
}

/// What the program does next.
#[derive(Debug, Clone, Copy, PartialEq, Eq, Structural)]
pub enum ViewerAction {
    /// Read the collection again and draw it.
    Redraw,
    /// Give the terminal back and leave.
    Restore,
}

/// The state that follows `state` on `event`: only the quit key ends a
/// running viewer, and a viewer that has ended stays so.
pub open spec fn next_state(state: ViewerState, event: ViewerEvent) -> ViewerState {
    match state {
        ViewerState::Terminated => ViewerState::Terminated,
        ViewerState::Running => if event == ViewerEvent::Key(QUIT_KEY) {
            ViewerState::Terminated
        } else {
            ViewerState::Running
        },
    }
}

/// What is due in a state.
pub open spec fn action_in(state: ViewerState) -> ViewerAction {
    match state {
        ViewerState::Running => ViewerAction::Redraw,
        ViewerState::Terminated => ViewerAction::Restore,
    }
}

/// The lines put together, with a line break between two of them.
pub open spec fn joined(lines: Seq<Seq<char>>) -> Seq<char>
    decreases lines.len(),
{
    if lines.len() == 0 {
        Seq::empty()
    } else if lines.len() == 1 {
        lines[0]
    } else {
        joined(lines.drop_last()) + "\n"@ + lines.last()
    }
}

/// What the panel shows for a collection: a placeholder where it is
/// empty, else one line for each note.
pub open spec fn panel(s: Seq<NoteView>) -> Seq<char> {
    if s.len() == 0 {
        no_notes_line()
    } else {
        joined(note_lines(s))
    }
}

/// The state in which the viewer starts.
pub fn start() -> (r: ViewerState)
    ensures
        r == ViewerState::Running,
{
    ViewerState::Running
}

/// Moves the viewer on by one event and says what is due next.
pub fn step(state: ViewerState, event: ViewerEvent) -> (r: (ViewerState, ViewerAction))
    ensures
        r.0 == next_state(state, event),
        r.1 == action_in(r.0),
{
    match state {
        ViewerState::Terminated => (ViewerState::Terminated, ViewerAction::Restore),
        ViewerState::Running => match event {
            ViewerEvent::Key(c) => if c == QUIT_KEY {
                (ViewerState::Terminated, ViewerAction::Restore)
            } else {
                (ViewerState::Running, ViewerAction::Redraw)
            },
            _ => (ViewerState::Running, ViewerAction::Redraw),
        },
    }
}

/// The title of the panel.
pub fn panel_title() -> (r: &'static str)
    ensures
        r@ == "NoteCLI"@,
{
    "NoteCLI"
}

/// Builds what the panel shows for a collection.
pub fn panel_text(notes: &[Note]) -> (r: String)
    ensures
        r@ == panel(model(notes@)),
{
    if notes.len() == 0 {
        return String::from_str("No notes found.");
    }
    let ghost lines = note_lines(model(notes@));
    let mut text = note_line_text(&notes[0]);
    let mut i: usize = 1;
    proof {
        assert(lines.subrange(0, 1)[0] == lines[0]);
    }
    while i < notes.len()
        invariant
            1 <= i <= notes.len(),
            lines == note_lines(model(notes@)),
            text@ == joined(lines.subrange(0, i as int)),
        decreases notes.len() - i,
    {
        proof {
            assert(lines.subrange(0, i + 1).drop_last() =~= lines.subrange(0, i as int));
            assert(lines.subrange(0, i + 1).last() == note_line(notes@[i as int]@));
        }
        text.append("\n");
        text.append(note_line_text(&notes[i]).as_str());
        i += 1;
    }
    proof {
        assert(lines.subrange(0, i as int) =~= lines);
    }
    text
}

/// Only the quit key ends a running viewer: any other event leaves it
/// running, and nothing brings a viewer back that has ended.
pub proof fn lemma_viewer_ends_on_quit_only(state: ViewerState, event: ViewerEvent)
    ensures
        next_state(state, event) == ViewerState::Terminated <==> (state == ViewerState::Terminated
            || event == ViewerEvent::Key(QUIT_KEY)),
{
}

} // verus!
