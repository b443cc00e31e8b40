use notecli::note::{
    add_note, delete_note, greatest_id, notes_or_empty, search_notes, view_note, Note,
};
use notecli::text::{matches_folded, matches_keyword};

fn sample(entries: &[(usize, &str)]) -> Vec<Note> {
    let mut notes = Vec::new();
    for (id, content) in entries {
        notes.push(Note { id: *id, content: content.to_string() });
    }
    notes
}

fn pairs(notes: &[Note]) -> Vec<(usize, String)> {
    notes.iter().map(|n| (n.id, n.content.clone())).collect()
}

#[test]
fn test_create_note() {
    let content = String::from("Test note");
    let note = Note {
        id: 1,
        content: content.clone(),
    };
    assert_eq!(note.id, 1);
    assert_eq!(note.content, content);
}

#[test]
fn test_add_note_increments_id() {
    let mut notes = vec![];
    let note1 = add_note("First note", &mut notes);
    let note2 = add_note("Second note", &mut notes);

    assert_eq!(note1.id, 1);
    assert_eq!(note2.id, 2);
    assert_eq!(notes.len(), 2);
}

#[test]
fn test_delete_note_removes_by_id() {
    let mut notes = vec![
        Note {
            id: 1,
            content: "A".into(),
        },
        Note {
            id: 2,
            content: "B".into(),
        },
    ];
    let deleted = delete_note(1, &mut notes);

    assert!(deleted);
    assert_eq!(notes.len(), 1);
    assert_eq!(notes[0].id, 2);
}

#[test]
fn test_search_notes_matches_keyword() {
    let notes = vec![
        Note {
            id: 1,
            content: "Learn Rust".into(),
        },
        Note {
            id: 2,
            content: "Buy milk".into(),
        },
    ];
    let result = search_notes("rust", &notes);

    assert_eq!(result.len(), 1);
    assert_eq!(result[0].content, "Learn Rust");
}

#[test]
fn test_view_note_returns_correct_note() {
    let notes = vec![
        Note {
            id: 1,
            content: "Hello".into(),
        },
        Note {
            id: 2,
            content: "World".into(),
        },
    ];
    let note = view_note(2, &notes);

    assert!(note.is_some());
    assert_eq!(note.unwrap().content, "World");
}

#[test]
fn adds_from_empty_are_numbered_in_call_order() {
    let mut notes = Vec::new();
    let contents = ["a", "b", "c", "d", "e"];
    for (i, content) in contents.iter().enumerate() {
        let note = add_note(content, &mut notes);
        assert_eq!(note.id, i + 1);
        assert_eq!(note.content, *content);
    }
    assert_eq!(
        pairs(&notes),
        vec![
            (1, "a".to_string()),
            (2, "b".to_string()),
            (3, "c".to_string()),
            (4, "d".to_string()),
            (5, "e".to_string()),
        ]
    );
}

#[test]
fn add_returns_a_copy_of_the_appended_note() {
    let mut notes = sample(&[(4, "old")]);
    let note = add_note("new", &mut notes);
    assert_eq!(note.id, 5);
    assert_eq!(note.content, "new");
    assert_eq!(pairs(&notes), vec![(4, "old".to_string()), (5, "new".to_string())]);
}

#[test]
fn add_numbers_after_the_greatest_id() {
    let mut notes = sample(&[(7, "x"), (3, "y")]);
    assert_eq!(greatest_id(&notes), 7);
    let note = add_note("z", &mut notes);
    assert_eq!(note.id, 8);
    assert_eq!(notes.len(), 3);
    assert_eq!(notes[2].id, 8);
}

#[test]
fn greatest_id_of_nothing_is_zero() {
    assert_eq!(greatest_id(&[]), 0);
}

#[test]
fn add_after_a_gap_does_not_fill_it() {
    let mut notes = Vec::new();
    add_note("a", &mut notes);
    add_note("b", &mut notes);
    add_note("c", &mut notes);
    assert!(delete_note(2, &mut notes));
    let note = add_note("d", &mut notes);
    assert_eq!(note.id, 4);
    assert_eq!(
        pairs(&notes),
        vec![(1, "a".to_string()), (3, "c".to_string()), (4, "d".to_string())]
    );
}

#[test]
fn delete_then_view_finds_nothing() {
    let mut notes = sample(&[(1, "a"), (2, "b"), (3, "c")]);
    assert!(delete_note(2, &mut notes));
    assert!(view_note(2, &notes).is_none());
    assert!(view_note(1, &notes).is_some());
    assert!(view_note(3, &notes).is_some());
}

#[test]
fn delete_of_an_absent_id_changes_nothing() {
    let mut notes = sample(&[(1, "a"), (2, "b")]);
    assert!(!delete_note(9, &mut notes));
    assert_eq!(pairs(&notes), vec![(1, "a".to_string()), (2, "b".to_string())]);
}

#[test]
fn delete_on_an_empty_collection_is_false() {
    let mut notes: Vec<Note> = Vec::new();
    assert!(!delete_note(1, &mut notes));
    assert!(notes.is_empty());
}

#[test]
fn delete_removes_every_note_with_the_id() {
    let mut notes = sample(&[(1, "a"), (2, "b"), (1, "c"), (3, "d")]);
    assert!(delete_note(1, &mut notes));
    assert_eq!(pairs(&notes), vec![(2, "b".to_string()), (3, "d".to_string())]);
}

#[test]
fn view_returns_the_first_match() {
    let notes = sample(&[(1, "first"), (1, "second")]);
    let found = view_note(1, &notes).unwrap();
    assert_eq!(found.content, "first");
    assert!(std::ptr::eq(found, &notes[0]));
}

#[test]
fn view_on_an_empty_collection_is_none() {
    assert!(view_note(1, &[]).is_none());
}

#[test]
fn search_ignores_case_on_both_sides() {
    let notes = sample(&[(1, "Learn Rust"), (2, "Buy milk"), (3, "rusty nail")]);
    let upper = search_notes("RUST", &notes);
    let lower = search_notes("rust", &notes);
    assert_eq!(upper.len(), 2);
    assert_eq!(lower.len(), 2);
    assert_eq!(upper[0].id, 1);
    assert_eq!(upper[1].id, 3);
    assert_eq!(lower[0].id, 1);
    assert_eq!(lower[1].id, 3);
}

#[test]
fn search_folds_letters_beyond_ascii() {
    let notes = sample(&[(1, "ÄPFEL kaufen"), (2, "Birnen")]);
    let found = search_notes("äpfel", &notes);
    assert_eq!(found.len(), 1);
    assert_eq!(found[0].id, 1);
}

#[test]
fn search_with_an_empty_keyword_returns_all() {
    let notes = sample(&[(1, "a"), (2, "")]);
    let found = search_notes("", &notes);
    assert_eq!(found.len(), 2);
    assert_eq!(found[0].id, 1);
    assert_eq!(found[1].id, 2);
}

#[test]
fn search_without_a_match_is_empty() {
    let notes = sample(&[(1, "Learn Rust")]);
    assert!(search_notes("go", &notes).is_empty());
    assert!(search_notes("rust", &[]).is_empty());
}

#[test]
fn search_needs_a_contiguous_run() {
    let notes = sample(&[(1, "r u s t"), (2, "trust")]);
    let found = search_notes("rust", &notes);
    assert_eq!(found.len(), 1);
    assert_eq!(found[0].id, 2);
}

#[test]
fn folded_match_is_a_plain_substring_test() {
    assert!(matches_folded("rust", "learn rust"));
    assert!(matches_folded("", "anything"));
    assert!(matches_folded("", ""));
    assert!(!matches_folded("Rust", "learn rust"));
    assert!(!matches_folded("learn rust", "rust"));
}

#[test]
fn keyword_match_folds_both_texts() {
    assert!(matches_keyword("rust", "Learn Rust"));
    assert!(matches_keyword("RUST", "learn rust"));
    assert!(!matches_keyword("milk", "Learn Rust"));
}

#[test]
fn a_missing_store_reads_as_empty() {
    assert!(notes_or_empty(None).is_empty());
    let notes = notes_or_empty(Some(sample(&[(3, "kept")])));
    assert_eq!(pairs(&notes), vec![(3, "kept".to_string())]);
}

#[test]
fn note_book_scenario() {
    let mut notes = Vec::new();
    let first = add_note("Buy milk", &mut notes);
    assert_eq!(first.id, 1);
    assert_eq!(first.content, "Buy milk");
    let second = add_note("Call mom", &mut notes);
    assert_eq!(second.id, 2);
    assert_eq!(second.content, "Call mom");
    assert!(delete_note(1, &mut notes));
    assert_eq!(pairs(&notes), vec![(2, "Call mom".to_string())]);
    assert!(view_note(1, &notes).is_none());
    let found = search_notes("call", &notes);
    assert_eq!(found.len(), 1);
    assert_eq!(found[0].id, 2);
    assert_eq!(found[0].content, "Call mom");
}
