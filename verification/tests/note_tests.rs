use knotes::note::{create_note, update_note, CreateNoteParams, Note, NoteError, NoteStore, UpdateNoteParams};

#[test]
fn create_then_get_defaults_body_to_empty() {
    let mut db = NoteStore::new();
    let params = CreateNoteParams { title: "T".to_string(), body: None };
    let note = create_note(1, &params, &mut db).unwrap();
    let got = Note::get(note.id, 1, &db).unwrap();
    assert_eq!(got.title, "T");
    assert_eq!(got.body, "");
    assert_eq!(got.user_id, 1);
}

#[test]
fn create_stores_the_supplied_body() {
    let mut db = NoteStore::new();
    let params = CreateNoteParams { title: "T".to_string(), body: Some("hello".to_string()) };
    let note = create_note(1, &params, &mut db).unwrap();
    let got = Note::get(note.id, 1, &db).unwrap();
    assert_eq!(got.body, "hello");
}

#[test]
fn empty_title_is_invalid() {
    let mut db = NoteStore::new();
    let params = CreateNoteParams { title: "".to_string(), body: None };
    assert!(matches!(create_note(1, &params, &mut db), Err(NoteError::InvalidAttributes)));
    assert!(Note::find_by_user(&1, &db).is_empty());
}

#[test]
fn update_replaces_only_supplied_fields() {
    let mut db = NoteStore::new();
    let params = CreateNoteParams { title: "Title".to_string(), body: Some("old body".to_string()) };
    let note = create_note(1, &params, &mut db).unwrap();

    // body only: title preserved
    let upd = UpdateNoteParams { title: None, body: Some("B2".to_string()) };
    let merged = update_note(note.id, 1, &upd, &mut db).unwrap();
    assert_eq!(merged.title, "Title");
    assert_eq!(merged.body, "B2");
    let got = Note::get(note.id, 1, &db).unwrap();
    assert_eq!(got.title, merged.title);
    assert_eq!(got.body, merged.body);

    // title only: body preserved
    let upd = UpdateNoteParams { title: Some("T2".to_string()), body: None };
    let merged = update_note(note.id, 1, &upd, &mut db).unwrap();
    assert_eq!(merged.title, "T2");
    assert_eq!(merged.body, "B2");

    // both supplied
    let upd = UpdateNoteParams { title: Some("T3".to_string()), body: Some("B3".to_string()) };
    let merged = update_note(note.id, 1, &upd, &mut db).unwrap();
    assert_eq!(merged.title, "T3");
    assert_eq!(merged.body, "B3");
    let got = Note::get(note.id, 1, &db).unwrap();
    assert_eq!(got.title, "T3");
    assert_eq!(got.body, "B3");
}

#[test]
fn update_of_missing_or_foreign_note_is_not_found() {
    let mut db = NoteStore::new();
    let params = CreateNoteParams { title: "T".to_string(), body: None };
    let note = create_note(1, &params, &mut db).unwrap();

    let upd = UpdateNoteParams { title: None, body: Some("B".to_string()) };
    assert!(matches!(update_note(note.id + 1, 1, &upd, &mut db), Err(NoteError::NotFound)));
    // another user's id: behaves as missing
    assert!(matches!(update_note(note.id, 2, &upd, &mut db), Err(NoteError::NotFound)));
    // the note itself is untouched
    let got = Note::get(note.id, 1, &db).unwrap();
    assert_eq!(got.body, "");
}

#[test]
fn update_with_empty_title_is_invalid() {
    let mut db = NoteStore::new();
    let params = CreateNoteParams { title: "T".to_string(), body: None };
    let note = create_note(1, &params, &mut db).unwrap();
    let upd = UpdateNoteParams { title: Some("".to_string()), body: None };
    assert!(matches!(update_note(note.id, 1, &upd, &mut db), Err(NoteError::InvalidAttributes)));
    let got = Note::get(note.id, 1, &db).unwrap();
    assert_eq!(got.title, "T");
}

#[test]
fn delete_then_get_is_not_found_and_deletion_is_idempotent() {
    let mut db = NoteStore::new();
    let params = CreateNoteParams { title: "T".to_string(), body: None };
    let note = create_note(1, &params, &mut db).unwrap();

    assert!(Note::delete(note.id, 1, &mut db).is_ok());
    assert!(Note::get(note.id, 1, &db).is_none());
    // deleting the same id twice does not crash and still succeeds
    assert!(Note::delete(note.id, 1, &mut db).is_ok());
}

#[test]
fn delete_is_owner_scoped() {
    let mut db = NoteStore::new();
    let params = CreateNoteParams { title: "T".to_string(), body: None };
    let note = create_note(1, &params, &mut db).unwrap();
    // another user cannot delete it
    assert!(Note::delete(note.id, 2, &mut db).is_ok());
    assert!(Note::get(note.id, 1, &db).is_some());
}

#[test]
fn get_is_owner_scoped() {
    let mut db = NoteStore::new();
    let params = CreateNoteParams { title: "T".to_string(), body: None };
    let note = create_note(1, &params, &mut db).unwrap();
    assert!(Note::get(note.id, 2, &db).is_none());
}

#[test]
fn listing_returns_only_the_owners_notes() {
    let mut db = NoteStore::new();
    let p1 = CreateNoteParams { title: "a".to_string(), body: None };
    let p2 = CreateNoteParams { title: "b".to_string(), body: None };
    let p3 = CreateNoteParams { title: "c".to_string(), body: None };
    create_note(1, &p1, &mut db).unwrap();
    create_note(2, &p2, &mut db).unwrap();
    create_note(1, &p3, &mut db).unwrap();

    let mine = Note::find_by_user(&1, &db);
    assert_eq!(mine.len(), 2);
    assert!(mine.iter().all(|n| n.user_id == 1));
    assert_eq!(mine[0].title, "a");
    assert_eq!(mine[1].title, "c");

    let theirs = Note::find_by_user(&2, &db);
    assert_eq!(theirs.len(), 1);
    assert_eq!(theirs[0].title, "b");

    assert!(Note::find_by_user(&3, &db).is_empty());
}

#[test]
fn exhausted_ids_fail_creation_as_write_error() {
    let mut db = NoteStore::new_with_next_id(i32::MAX);
    let params = CreateNoteParams { title: "T".to_string(), body: None };
    assert!(matches!(create_note(1, &params, &mut db), Err(NoteError::DBWrite)));
}

#[test]
fn note_error_messages() {
    assert_eq!(NoteError::NotFound.message(), "Note not found");
    assert_eq!(NoteError::InvalidAttributes.message(), "Note attributes are invalid");
    assert_eq!(NoteError::DBWrite.message(), "There was an error saving the note");
}
