//! Notes and the operations on a collection of them.
//!
//! A collection is a `Vec<Note>` in the order in which the notes were
//! added. Contracts speak of its `model`, the sequence of the notes' views.

use vstd::prelude::*;
use crate::laws::{
    lemma_add_keeps_well_formed, lemma_delete_keeps_well_formed, lemma_filter_ids,
    lemma_filter_push, lemma_first_with_id, lemma_remove_absent_id, lemma_remove_present_id,
};
use crate::text::{keyword_matches, lowercase, lowercase_text, matches_folded};

verus! {

/// A text entry with its number.
#[derive(Debug)]
pub struct Note {
    pub id: usize,
    pub content: String,
}

/// What a note means: its number and the characters of its text.
pub struct NoteView {
    pub id: nat,
    pub content: Seq<char>,
}

impl View for Note {
    type V = NoteView;

    open spec fn view(&self) -> NoteView {
        NoteView { id: self.id as nat, content: self.content@ }
    }
}

impl Clone for Note {
    fn clone(&self) -> (r: Self)
        ensures
            r@ == self@,
    {
        Note { id: self.id, content: self.content.clone() }
    }
}

/// The collection as a sequence of note views, in order.
pub open spec fn model(notes: Seq<Note>) -> Seq<NoteView> {
    Seq::new(notes.len(), |i: int| notes[i]@)
}

/// The notes behind a sequence of references, as views.
pub open spec fn model_of_refs(refs: Seq<&Note>) -> Seq<NoteView> {
    Seq::new(refs.len(), |i: int| refs[i]@)
}

/// The greatest id in the collection, 0 where it is empty.
pub open spec fn max_id(s: Seq<NoteView>) -> nat
    decreases s.len(),
{
    if s.len() == 0 {
        0
    } else if s.last().id >= max_id(s.drop_last()) {
        s.last().id
    } else {
        max_id(s.drop_last())
    }
}

/// The id that the next added note receives.
pub open spec fn next_id(s: Seq<NoteView>) -> nat {
    max_id(s) + 1
}

/// Some note of the collection carries `id`.
pub open spec fn has_id(s: Seq<NoteView>, id: nat) -> bool {
    exists|i: int| 0 <= i < s.len() && (#[trigger] s[i]).id == id
}

/// No two notes of the collection carry the same id.
pub open spec fn unique_ids(s: Seq<NoteView>) -> bool {
    forall|i: int, j: int|
        0 <= i < s.len() && 0 <= j < s.len() && i != j ==> (#[trigger] s[i]).id != (#[trigger] s[j]).id
}

/// Every id of the collection is positive.
pub open spec fn positive_ids(s: Seq<NoteView>) -> bool {
    forall|i: int| 0 <= i < s.len() ==> (#[trigger] s[i]).id >= 1
}

/// What holds of a collection that grew by `add_note` and shrank by
/// `delete_note` alone: its ids are positive and no two are equal.
pub open spec fn well_formed(s: Seq<NoteView>) -> bool {
    positive_ids(s) && unique_ids(s)
}

/// Position `i` holds the first note that carries `id`.
pub open spec fn is_first_with_id(s: Seq<NoteView>, id: nat, i: int) -> bool {
    &&& 0 <= i < s.len()
    &&& s[i].id == id
    &&& forall|j: int| 0 <= j < i ==> (#[trigger] s[j]).id != id
}

/// The first note of the collection that carries `id`; meaningful where
/// some note does.
pub open spec fn first_with_id(s: Seq<NoteView>, id: nat) -> NoteView {
    s[choose|i: int| is_first_with_id(s, id, i)]
}

/// The collection after a note with `content` was added.
pub open spec fn with_added(s: Seq<NoteView>, content: Seq<char>) -> Seq<NoteView> {
    s.push(NoteView { id: next_id(s), content })
}

/// The collection that results from adding notes with the given contents,
/// one after the other, to an empty collection.
pub open spec fn after_adds(contents: Seq<Seq<char>>) -> Seq<NoteView>
    decreases contents.len(),
{
    if contents.len() == 0 {
        Seq::empty()
    } else {
        with_added(after_adds(contents.drop_last()), contents.last())
    }
}

/// The test that a note passes when it does not carry `id`.
pub open spec fn other_than(id: nat) -> spec_fn(NoteView) -> bool {
    |n: NoteView| n.id != id
}

/// The collection without the notes that carry `id`.
pub open spec fn without_id(s: Seq<NoteView>, id: nat) -> Seq<NoteView> {
    s.filter(other_than(id))
}

/// The test that a note passes when `keyword` occurs in its content,
/// ignoring case.
pub open spec fn mentions(keyword: Seq<char>) -> spec_fn(NoteView) -> bool {
    |n: NoteView| keyword_matches(keyword, n.content)
}

/// The notes whose content holds `keyword`, ignoring case, in order.
pub open spec fn matching(s: Seq<NoteView>, keyword: Seq<char>) -> Seq<NoteView> {
    s.filter(mentions(keyword))
}

/// What a read of the store yields: the notes that were parsed, or no
/// note at all where the store was absent or could not be parsed.
pub fn notes_or_empty(parsed: Option<Vec<Note>>) -> (r: Vec<Note>)
    ensures
        parsed matches Some(notes) ==> r == notes,
        parsed is None ==> r@.len() == 0,
{
    match parsed {
        Some(notes) => notes,
        None => Vec::new(),
    }
}

/// Computes the greatest id in the collection, 0 where it is empty.
pub fn greatest_id(notes: &[Note]) -> (r: usize)
    ensures
        r as nat == max_id(model(notes@)),
{
    let mut best: usize = 0;
    let mut i: usize = 0;
    while i < notes.len()
        invariant
            0 <= i <= notes.len(),
            best as nat == max_id(model(notes@).subrange(0, i as int)),
        decreases notes.len() - i,
    {
        proof {
            let s = model(notes@);
            assert(s.subrange(0, i + 1).drop_last() =~= s.subrange(0, i as int));
        }
        if notes[i].id >= best {
            best = notes[i].id;
        }
        i += 1;
    }
    proof {
        assert(model(notes@).subrange(0, i as int) =~= model(notes@));
    }
    best
}

/// Appends a note with `content` to the collection and returns a copy of
/// it. Its id is one more than the greatest id present, 1 where the
/// collection is empty.
pub fn add_note(content: &str, notes: &mut Vec<Note>) -> (r: Note)
    requires
        max_id(model(old(notes)@)) < usize::MAX,
    ensures
        r@ == (NoteView { id: next_id(model(old(notes)@)), content: content@ }),
        model(final(notes)@) == with_added(model(old(notes)@), content@),
        final(notes)@.len() == old(notes)@.len() + 1,
        final(notes)@.subrange(0, old(notes)@.len() as int) == old(notes)@,
        !has_id(model(old(notes)@), r@.id),
        well_formed(model(old(notes)@)) ==> well_formed(model(final(notes)@)),
{
    let id: usize = greatest_id(notes.as_slice()) + 1;
    let note = Note { id, content: content.to_owned() };
    let copy = note.clone();
    notes.push(note);
    proof {
        lemma_add_keeps_well_formed(model(old(notes)@), content@);
        assert(model(notes@) =~= with_added(model(old(notes)@), content@));
        assert(notes@.subrange(0, old(notes)@.len() as int) =~= old(notes)@);
    }
    copy
}

/// Removes every note that carries `id`, keeping the others in order, and
/// tells whether any note was removed.
pub fn delete_note(id: usize, notes: &mut Vec<Note>) -> (r: bool)
    ensures
        r == has_id(model(old(notes)@), id as nat),
        model(final(notes)@) == without_id(model(old(notes)@), id as nat),
        !has_id(model(final(notes)@), id as nat),
        r ==> final(notes)@.len() < old(notes)@.len(),
        !r ==> model(final(notes)@) == model(old(notes)@),
        well_formed(model(old(notes)@)) ==> well_formed(model(final(notes)@)),
{
    let ghost before = model(notes@);
    let mut kept: Vec<Note> = Vec::new();
    let mut i: usize = 0;
    while i < notes.len()
        invariant
            0 <= i <= notes.len(),
            before == model(notes@),
            model(kept@) == without_id(before.subrange(0, i as int), id as nat),
        decreases notes.len() - i,
    {
        proof {
            assert(before.subrange(0, i + 1) =~= before.subrange(0, i as int).push(before[i as int]));
            lemma_filter_push(before.subrange(0, i as int), before[i as int], other_than(id as nat));
        }
        let ghost kept_before = model(kept@);
        if notes[i].id != id {
            kept.push(notes[i].clone());
            proof {
                assert(model(kept@) =~= kept_before.push(before[i as int]));
            }
        }
        i += 1;
    }
    let removed = kept.len() < notes.len();
    proof {
        assert(before.subrange(0, i as int) =~= before);
        lemma_filter_ids(before, other_than(id as nat));
        lemma_delete_keeps_well_formed(before, id as nat);
        before.lemma_filter_len(other_than(id as nat));
        assert(model(kept@).len() == kept@.len());
        if has_id(before, id as nat) {
            lemma_remove_present_id(before, id as nat);
        } else {
            lemma_remove_absent_id(before, id as nat);
        }
    }
    *notes = kept;
    removed
}

/// Finds the first note that carries `id`.
pub fn view_note(id: usize, notes: &[Note]) -> (r: Option<&Note>)
    ensures
        (r is Some) == has_id(model(notes@), id as nat),
        r matches Some(found) ==> found@ == first_with_id(model(notes@), id as nat),
        r matches Some(found) ==> exists|i: int|
            is_first_with_id(model(notes@), id as nat, i) && *found == #[trigger] notes@[i],
{
    let mut i: usize = 0;
    while i < notes.len()
        invariant
            0 <= i <= notes.len(),
            forall|j: int| 0 <= j < i ==> (#[trigger] model(notes@)[j]).id != id as nat,
        decreases notes.len() - i,
    {
        if notes[i].id == id {
            proof {
                assert(model(notes@)[i as int].id == id as nat);
                assert(is_first_with_id(model(notes@), id as nat, i as int));
                lemma_first_with_id(model(notes@), id as nat, i as int);
            }
            return Some(&notes[i]);
        }
        i += 1;
    }
    None
}

/// Collects, in order, the notes whose content holds `keyword`, ignoring
/// case.
pub fn search_notes<'a>(keyword: &str, notes: &'a [Note]) -> (r: Vec<&'a Note>)
    ensures
        model_of_refs(r@) == matching(model(notes@), keyword@),
        forall|k: int| 0 <= k < r@.len() ==> notes@.contains(*(#[trigger] r@[k])),
{
    let folded_keyword = lowercase_text(keyword);
    let ghost all = model(notes@);
    let mut found: Vec<&'a Note> = Vec::new();
    let mut i: usize = 0;
    while i < notes.len()
        invariant
            0 <= i <= notes.len(),
            all == model(notes@),
            folded_keyword@ == lowercase(keyword@),
            model_of_refs(found@) == matching(all.subrange(0, i as int), keyword@),
            forall|k: int| 0 <= k < found@.len() ==> notes@.contains(*(#[trigger] found@[k])),
        decreases notes.len() - i,
    {
        proof {
            assert(all.subrange(0, i + 1) =~= all.subrange(0, i as int).push(all[i as int]));
            lemma_filter_push(all.subrange(0, i as int), all[i as int], mentions(keyword@));
        }
        let ghost found_before = model_of_refs(found@);
        let folded_content = lowercase_text(notes[i].content.as_str());
        if matches_folded(folded_keyword.as_str(), folded_content.as_str()) {
            found.push(&notes[i]);
            proof {
                assert(model_of_refs(found@) =~= found_before.push(all[i as int]));
                assert(notes@.contains(notes@[i as int]));
            }
        }
        i += 1;
    }
    proof {
        assert(all.subrange(0, i as int) =~= all);
    }
    found
}

} // verus!
