//! What holds of the operations on a collection of notes.

use vstd::prelude::*;
use crate::note::{
    after_adds, first_with_id, has_id, is_first_with_id, matching, max_id, mentions, next_id,
    other_than, positive_ids, unique_ids, well_formed, with_added, without_id, NoteView,
};
use crate::text::lowercase;

verus! {

/// Every id of the collection is at most `max_id`, and a collection that
/// is not empty holds a note with that id.
pub proof fn lemma_max_id(s: Seq<NoteView>)
    ensures
        forall|i: int| 0 <= i < s.len() ==> (#[trigger] s[i]).id <= max_id(s),
        s.len() > 0 ==> has_id(s, max_id(s)),
        s.len() == 0 ==> max_id(s) == 0,
    decreases s.len(),
{
    if s.len() > 0 {
        let front = s.drop_last();
        lemma_max_id(front);
        assert forall|i: int| 0 <= i < s.len() implies (#[trigger] s[i]).id <= max_id(s) by {
            if i < s.len() - 1 {
                assert(front[i] == s[i]);
            }
        }
        if s.last().id >= max_id(front) {
            assert(s[s.len() - 1].id == max_id(s));
        } else {
            let k = choose|k: int| 0 <= k < front.len() && (#[trigger] front[k]).id == max_id(front);
            assert(s[k].id == max_id(s));
        }
    }
}

/// Only one position holds the first note that carries a given id.
pub proof fn lemma_first_with_id(s: Seq<NoteView>, id: nat, i: int)
    requires
        is_first_with_id(s, id, i),
    ensures
        first_with_id(s, id) == s[i],
        has_id(s, id),
{
    let j = choose|j: int| is_first_with_id(s, id, j);
    if i < j {
        assert(s[i].id != id);
    } else if j < i {
        assert(s[j].id != id);
    }
}

/// Filtering a sequence that ends in `x` filters what stands before `x`
/// and keeps `x` where it passes the test.
pub proof fn lemma_filter_push(s: Seq<NoteView>, x: NoteView, pred: spec_fn(NoteView) -> bool)
    ensures
        s.push(x).filter(pred) == if pred(x) {
            s.filter(pred).push(x)
        } else {
            s.filter(pred)
        },
{
    reveal(Seq::filter);
    assert(s.push(x).drop_last() =~= s);
}

/// A filtered collection holds an id only where the collection held it,
/// and keeps ids unique.
pub proof fn lemma_filter_ids(s: Seq<NoteView>, pred: spec_fn(NoteView) -> bool)
    ensures
        forall|id: nat| has_id(s.filter(pred), id) ==> has_id(s, id),
        forall|k: int| 0 <= k < s.filter(pred).len() ==> pred(#[trigger] s.filter(pred)[k]),
        (forall|k: int| 0 <= k < s.len() ==> pred(#[trigger] s[k])) ==> s.filter(pred) == s,
        unique_ids(s) ==> unique_ids(s.filter(pred)),
    decreases s.len(),
{
    reveal(Seq::filter);
    if s.len() > 0 {
        let front = s.drop_last();
        let kept = front.filter(pred);
        lemma_filter_ids(front, pred);
        assert(s =~= front.push(s.last()));
        lemma_filter_push(front, s.last(), pred);
        let out = s.filter(pred);
        assert forall|id: nat| has_id(out, id) implies has_id(s, id) by {
            let k = choose|k: int| 0 <= k < out.len() && (#[trigger] out[k]).id == id;
            if k < kept.len() {
                assert(kept[k].id == id);
                assert(has_id(front, id));
                let m = choose|m: int| 0 <= m < front.len() && (#[trigger] front[m]).id == id;
                assert(s[m].id == id);
            } else {
                assert(s[s.len() - 1].id == id);
            }
        }
        if forall|k: int| 0 <= k < s.len() ==> pred(#[trigger] s[k]) {
            assert forall|k: int| 0 <= k < front.len() implies pred(#[trigger] front[k]) by {
                assert(front[k] == s[k]);
            }
            assert(pred(s[s.len() - 1]));
            assert(out =~= s);
        }
        if unique_ids(s) {
            assert forall|i: int, j: int| 0 <= i < front.len() && 0 <= j < front.len() && i != j
                implies (#[trigger] front[i]).id != (#[trigger] front[j]).id by {
                assert(front[i] == s[i] && front[j] == s[j]);
            }
            assert(unique_ids(kept));
            if pred(s.last()) {
                assert forall|i: int, j: int| 0 <= i < out.len() && 0 <= j < out.len() && i != j
                    implies (#[trigger] out[i]).id != (#[trigger] out[j]).id by {
                    if i < kept.len() && j < kept.len() {
                        assert(kept[i].id != kept[j].id);
                    } else {
                        let low = if i < kept.len() { i } else { j };
                        let high = if i < kept.len() { j } else { i };
                        assert(0 <= low < kept.len() && high == kept.len());
                        let low_id = kept[low].id;
                        assert(has_id(kept, low_id));
                        assert(has_id(front, low_id));
                        let m = choose|m: int| 0 <= m < front.len() && (#[trigger] front[m]).id == low_id;
                        assert(front[m] == s[m]);
                        assert(s[m].id != s[s.len() - 1].id);
                        assert(out[high] == s.last());
                        assert(out[low] == kept[low]);
                    }
                }
            }
        }
    } else {
        assert(s.filter(pred) =~= s);
    }
}

/// Notes added one after the other to an empty collection are numbered
/// 1, 2, 3 and so on in the order of the calls, each with its own content.
pub proof fn lemma_adds_number_from_one(contents: Seq<Seq<char>>)
    ensures
        after_adds(contents).len() == contents.len(),
        max_id(after_adds(contents)) == contents.len(),
        well_formed(after_adds(contents)),
        forall|i: int|
            0 <= i < contents.len() ==> #[trigger] after_adds(contents)[i] == (NoteView {
                id: (i + 1) as nat,
                content: contents[i],
            }),
    decreases contents.len(),
{
    if contents.len() > 0 {
        let front = contents.drop_last();
        lemma_adds_number_from_one(front);
        let before = after_adds(front);
        let after = after_adds(contents);
        assert(after.drop_last() =~= before);
        assert forall|i: int| 0 <= i < contents.len() implies #[trigger] after[i] == (NoteView {
            id: (i + 1) as nat,
            content: contents[i],
        }) by {
            if i < front.len() {
                assert(after[i] == before[i]);
                assert(front[i] == contents[i]);
            }
        }
    }
}

/// The id given to a new note is positive and carried by no note already
/// there, so a well-formed collection stays so when a note is added.
pub proof fn lemma_add_keeps_well_formed(s: Seq<NoteView>, content: Seq<char>)
    ensures
        next_id(s) >= 1,
        !has_id(s, next_id(s)),
        unique_ids(s) ==> unique_ids(with_added(s, content)),
        well_formed(s) ==> well_formed(with_added(s, content)),
{
    lemma_max_id(s);
}

/// A well-formed collection stays so when an id is removed.
pub proof fn lemma_delete_keeps_well_formed(s: Seq<NoteView>, id: nat)
    ensures
        unique_ids(s) ==> unique_ids(without_id(s, id)),
        well_formed(s) ==> well_formed(without_id(s, id)),
{
    let out = s.filter(other_than(id));
    lemma_filter_ids(s, other_than(id));
    if positive_ids(s) {
        assert forall|k: int| 0 <= k < out.len() implies (#[trigger] out[k]).id >= 1 by {
            let kept_id = out[k].id;
            assert(has_id(out, kept_id));
            assert(has_id(s, kept_id));
            let m = choose|m: int| 0 <= m < s.len() && (#[trigger] s[m]).id == kept_id;
            assert(s[m].id >= 1);
        }
    }
}

/// After the notes with `id` were removed, no note carries `id`.
pub proof fn lemma_removed_id_is_absent(s: Seq<NoteView>, id: nat)
    ensures
        !has_id(without_id(s, id), id),
{
    lemma_filter_ids(s, other_than(id));
}

/// Removing an id that no note carries leaves the collection as it was.
pub proof fn lemma_remove_absent_id(s: Seq<NoteView>, id: nat)
    requires
        !has_id(s, id),
    ensures
        without_id(s, id) == s,
{
    lemma_filter_ids(s, other_than(id));
}

/// Removing an id that some note carries makes the collection shorter.
pub proof fn lemma_remove_present_id(s: Seq<NoteView>, id: nat)
    requires
        has_id(s, id),
    ensures
        without_id(s, id).len() < s.len(),
    decreases s.len(),
{
    reveal(Seq::filter);
    let pred = other_than(id);
    let front = s.drop_last();
    s.lemma_filter_len(pred);
    front.lemma_filter_len(pred);
    if s.last().id != id {
        let k = choose|k: int| 0 <= k < s.len() && (#[trigger] s[k]).id == id;
        assert(front[k].id == id);
        lemma_remove_present_id(front, id);
    }
}

/// Searching does not tell two keywords apart that differ only in case.
pub proof fn lemma_search_ignores_keyword_case(s: Seq<NoteView>, first: Seq<char>, second: Seq<char>)
    requires
        lowercase(first) == lowercase(second),
    ensures
        matching(s, first) == matching(s, second),
{
    assert forall|n: NoteView| #[trigger] mentions(first)(n) == mentions(second)(n) by {}
    assert(mentions(first) =~= mentions(second));
}

} // verus!
