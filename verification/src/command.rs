//! The commands of the note book: what each does to the collection and
//! what it prints.

use vstd::prelude::*;
use vstd::string::StringExecFns;
use crate::note::{
    add_note, delete_note, first_with_id, has_id, matching, max_id, model, model_of_refs, next_id,
    search_notes, view_note, with_added, without_id, Note, NoteView,
};
use crate::text::{decimal, decimal_text};

verus! {

/// One command with its argument.
#[derive(Debug)]
pub enum Command {
    New { content: String },
    List,
    View { id: usize },
    Delete { id: usize },
    Search { keyword: String },
    Tui,
}

/// What a command asks of the program around it.
#[derive(Debug)]
pub struct Outcome {
    /// The lines to print, in order.
    pub lines: Vec<String>,
    /// Whether the collection changed and is to be written back.
    pub persist: bool,
    /// Whether the viewer is to be opened.
    pub viewer: bool,
}

/// The characters of each line.
pub open spec fn texts(lines: Seq<String>) -> Seq<Seq<char>> {
    Seq::new(lines.len(), |i: int| lines[i]@)
}

/// The line that shows a note: its id in square brackets, then its content.
pub open spec fn note_line(n: NoteView) -> Seq<char> {
    "["@ + decimal(n.id) + "] "@ + n.content
}

/// One line for each note, in order.
pub open spec fn note_lines(s: Seq<NoteView>) -> Seq<Seq<char>> {
    Seq::new(s.len(), |i: int| note_line(s[i]))
}

/// The line that confirms a new note.
pub open spec fn added_line(n: NoteView) -> Seq<char> {
    "Note added: "@ + note_line(n)
}

/// The line that confirms a deletion.
pub open spec fn deleted_line(id: nat) -> Seq<char> {
    "Note "@ + decimal(id) + " deleted ✅"@
}

/// The line that says that no note carries `id`.
pub open spec fn not_found_line(id: nat) -> Seq<char> {
    "Note with ID "@ + decimal(id) + " not found."@
}

/// The line that says that the collection is empty.
pub open spec fn no_notes_line() -> Seq<char> {
    "No notes found."@
}

/// The line that says that no note holds `keyword`.
pub open spec fn no_match_line(keyword: Seq<char>) -> Seq<char> {
    "No notes matching '"@ + keyword + "'"@
}

/// The lines that a command prints on a collection.
pub open spec fn expected_lines(cmd: Command, s: Seq<NoteView>) -> Seq<Seq<char>> {
    match cmd {
        Command::New { content } => seq![added_line(NoteView { id: next_id(s), content: content@ })],
        Command::List => if s.len() == 0 {
            seq![no_notes_line()]
        } else {
            note_lines(s)
        },
        Command::View { id } => if has_id(s, id as nat) {
            seq![note_line(first_with_id(s, id as nat))]
        } else {
            seq![not_found_line(id as nat)]
        },
        Command::Delete { id } => if has_id(s, id as nat) {
            seq![deleted_line(id as nat)]
        } else {
            seq![not_found_line(id as nat)]
        },
        Command::Search { keyword } => if matching(s, keyword@).len() == 0 {
            seq![no_match_line(keyword@)]
        } else {
            note_lines(matching(s, keyword@))
        },
        Command::Tui => Seq::empty(),
    }
}

/// The collection that a command leaves behind.
pub open spec fn notes_after(cmd: Command, s: Seq<NoteView>) -> Seq<NoteView> {
    match cmd {
        Command::New { content } => with_added(s, content@),
        Command::Delete { id } => without_id(s, id as nat),
        _ => s,
    }
}

/// Whether a command changes the collection, so that it is written back.
pub open spec fn persists(cmd: Command, s: Seq<NoteView>) -> bool {
    match cmd {
        Command::New { .. } => true,
        Command::Delete { id } => has_id(s, id as nat),
        _ => false,
    }
}

/// Builds the line that shows a note.
pub fn note_line_text(note: &Note) -> (r: String)
    ensures
        r@ == note_line(note@),
{
    let mut line = String::from_str("[");
    line.append(decimal_text(note.id).as_str());
    line.append("] ");
    line.append(note.content.as_str());
    line
}

/// Builds the line that says that no note carries `id`.
pub fn not_found_text(id: usize) -> (r: String)
    ensures
        r@ == not_found_line(id as nat),
{
    let mut line = String::from_str("Note with ID ");
    line.append(decimal_text(id).as_str());
    line.append(" not found.");
    line
}

/// Builds one line for each note, in order.
pub fn note_line_texts(notes: &[Note]) -> (r: Vec<String>)
    ensures
        texts(r@) == note_lines(model(notes@)),
{
    let mut lines: Vec<String> = Vec::new();
    let mut i: usize = 0;
    while i < notes.len()
        invariant
            0 <= i <= notes.len(),
            lines@.len() == i,
            forall|k: int| 0 <= k < i ==> (#[trigger] lines@[k])@ == note_line(notes@[k]@),
        decreases notes.len() - i,
    {
        lines.push(note_line_text(&notes[i]));
        i += 1;
    }
    proof {
        assert(texts(lines@) =~= note_lines(model(notes@)));
    }
    lines
}

/// Carries out one command on the collection and says what to print,
/// whether to write the collection back and whether to open the viewer.
pub fn run_command(cmd: &Command, notes: &mut Vec<Note>) -> (r: Outcome)
    requires
        cmd is New ==> max_id(model(old(notes)@)) < usize::MAX,
    ensures
        texts(r.lines@) == expected_lines(*cmd, model(old(notes)@)),
        model(final(notes)@) == notes_after(*cmd, model(old(notes)@)),
        r.persist == persists(*cmd, model(old(notes)@)),
        r.viewer == (cmd is Tui),
        !(cmd is New) && !(cmd is Delete) ==> final(notes)@ == old(notes)@,
{
    let mut lines: Vec<String> = Vec::new();
    let mut persist = false;
    let mut viewer = false;
    match cmd {
        Command::New { content } => {
            let note = add_note(content.as_str(), notes);
            let mut line = String::from_str("Note added: ");
            line.append(note_line_text(&note).as_str());
            lines.push(line);
            persist = true;
        },
        Command::List => {
            if notes.len() == 0 {
                lines.push(String::from_str("No notes found."));
            } else {
                lines = note_line_texts(notes.as_slice());
            }
        },
        Command::View { id } => {
            match view_note(*id, notes.as_slice()) {
                Some(note) => {
                    lines.push(note_line_text(note));
                },
                None => {
                    lines.push(not_found_text(*id));
                },
            }
        },
        Command::Delete { id } => {
            if delete_note(*id, notes) {
                let mut line = String::from_str("Note ");
                line.append(decimal_text(*id).as_str());
                line.append(" deleted ✅");
                lines.push(line);
                persist = true;
            } else {
                lines.push(not_found_text(*id));
            }
        },
        Command::Search { keyword } => {
            let found = search_notes(keyword.as_str(), notes.as_slice());
            if found.len() == 0 {
                let mut line = String::from_str("No notes matching '");
                line.append(keyword.as_str());
                line.append("'");
                lines.push(line);
            } else {
                let mut k: usize = 0;
                while k < found.len()
                    invariant
                        0 <= k <= found.len(),
                        lines@.len() == k,
                        forall|j: int| 0 <= j < k ==> (#[trigger] lines@[j])@ == note_line(found@[j]@),
                    decreases found.len() - k,
                {
                    lines.push(note_line_text(found[k]));
                    k += 1;
                }
                proof {
                    assert(model_of_refs(found@).len() == found@.len());
                    assert(texts(lines@) =~= note_lines(model_of_refs(found@)));
                }
            }
        },
        Command::Tui => {
            viewer = true;
        },
    }
    proof {
        assert(texts(lines@) =~= expected_lines(*cmd, model(old(notes)@)));
    }
    Outcome { lines, persist, viewer }
}

} // verus!
