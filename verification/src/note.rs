//! Notes and the note store.
//!
//! A note belongs to exactly one owner, fixed at creation. Lookup, update
//! and deletion are owner-scoped: an id that exists but belongs to another
//! user behaves as if it did not exist, so nothing leaks across owners.

use vstd::prelude::*;

verus! {

/// Mathematical image of a stored note.
pub ghost struct NoteView {
    pub id: int,
    pub user_id: int,
    pub title: Seq<char>,
    pub body: Seq<char>,
}

/// A note record.
pub struct Note {
    pub id: i32,
    pub user_id: i32,
    pub title: String,
    pub body: String,
}

impl View for Note {
    type V = NoteView;

    open spec fn view(&self) -> NoteView {
        NoteView {
            id: self.id as int,
            user_id: self.user_id as int,
            title: self.title@,
            body: self.body@,
        }
    }
}

impl Clone for Note {
    fn clone(&self) -> (r: Self)
        ensures
            r@ == self@,
    {
        Note {
            id: self.id,
            user_id: self.user_id,
            title: self.title.clone(),
            body: self.body.clone(),
        }
    }
}

/// Parameters of a note creation: a non-empty title, and an optional body
/// that defaults to the empty string.
pub struct CreateNoteParams {
    pub title: String,
    pub body: Option<String>,
}

/// The body a creation stores: the one supplied, or empty when absent.
pub open spec fn spec_body_or_empty(params: &CreateNoteParams) -> Seq<char> {
    match params.body {
        Some(b) => b@,
        None => Seq::empty(),
    }
}

/// Parameters of a partial update: fields left `None` keep their prior
/// value; a supplied title must be non-empty.
pub struct UpdateNoteParams {
    pub title: Option<String>,
    pub body: Option<String>,
}

/// A supplied update title is non-empty.
pub open spec fn update_title_ok(params: &UpdateNoteParams) -> bool {
    match params.title {
        Some(t) => t@.len() >= 1,
        None => true,
    }
}

/// The view of an optional string slice.
pub open spec fn opt_str_view(o: Option<&str>) -> Option<Seq<char>> {
    match o {
        Some(s) => Some(s@),
        None => None,
    }
}

/// The view of an optional owned string.
pub open spec fn opt_string_view(o: Option<String>) -> Option<Seq<char>> {
    match o {
        Some(s) => Some(s@),
        None => None,
    }
}

/// A partial update merged over a prior note: supplied fields replace the
/// prior ones, absent fields keep them; id and owner never change.
pub open spec fn merged_note(n: NoteView, title: Option<Seq<char>>, body: Option<Seq<char>>) -> NoteView {
    NoteView {
        id: n.id,
        user_id: n.user_id,
        title: match title {
            Some(t) => t,
            None => n.title,
        },
        body: match body {
            Some(b) => b,
            None => n.body,
        },
    }
}

/// Why a note operation failed.
#[derive(Clone, Copy, Debug, PartialEq, Eq, Structural)]
pub enum NoteError {
    /// No note with this id belongs to the caller.
    NotFound,
    /// The note parameters were rejected.
    InvalidAttributes,
    /// The store could not complete the write.
    DBWrite,
}

/// The human-readable message for each note error.
pub open spec fn spec_note_error_message(e: NoteError) -> Seq<char> {
    match e {
        NoteError::InvalidAttributes => "Note attributes are invalid"@,
        NoteError::DBWrite => "There was an error saving the note"@,
        NoteError::NotFound => "Note not found"@,
    }
}

impl NoteError {
    /// A short human-readable message; never store-engine error text.
    pub fn message(self) -> (r: &'static str)
        ensures
            r@ == spec_note_error_message(self),
    {
        match self {
            NoteError::InvalidAttributes => "Note attributes are invalid",
            NoteError::DBWrite => "There was an error saving the note",
            NoteError::NotFound => "Note not found",
        }
    }
}

/// All note ids in `s` are distinct.
pub open spec fn note_ids_unique(s: Seq<NoteView>) -> bool {
    forall|i: int, j: int| 0 <= i < j < s.len() ==> s[i].id != s[j].id
}

/// The well-formedness every reachable note store satisfies, seen on its
/// contents: unique positive ids.
pub open spec fn notes_wf(s: Seq<NoteView>) -> bool {
    &&& note_ids_unique(s)
    &&& forall|i: int| 0 <= i < s.len() ==> (#[trigger] s[i]).id >= 1
}

/// Some note in `s` has this id and this owner.
pub open spec fn has_note_of(s: Seq<NoteView>, id: int, owner: int) -> bool {
    exists|i: int| 0 <= i < s.len() && (#[trigger] s[i]).id == id && s[i].user_id == owner
}

/// The index of the note with this id and owner; meaningful only when
/// `has_note_of` holds, and then unique under `note_ids_unique`.
pub open spec fn note_index(s: Seq<NoteView>, id: int, owner: int) -> int {
    choose|i: int| 0 <= i < s.len() && (#[trigger] s[i]).id == id && s[i].user_id == owner
}

/// The notes in `s` that belong to `owner`, in store order.
pub open spec fn notes_of_user(s: Seq<NoteView>, owner: int) -> Seq<NoteView>
    decreases s.len(),
{
    if s.len() == 0 {
        Seq::empty()
    } else {
        let rest = notes_of_user(s.drop_last(), owner);
        if s.last().user_id == owner {
            rest.push(s.last())
        } else {
            rest
        }
    }
}

/// Persistence for notes. Ids are assigned by the store, starting at 1
/// and increasing.
pub struct NoteStore {
    notes: Vec<Note>,
    next_id: i32,
}

impl View for NoteStore {
    type V = Seq<NoteView>;

    closed spec fn view(&self) -> Seq<NoteView> {
        self.notes@.map_values(|n: Note| n@)
    }
}

impl NoteStore {
    /// Well-formedness: the contents satisfy `notes_wf`, and every stored id
    /// is below the next id the store will assign.
    pub closed spec fn wf(&self) -> bool {
        &&& notes_wf(self@)
        &&& self.next_id >= 1
        &&& forall|i: int| 0 <= i < self@.len() ==> (#[trigger] self@[i]).id < self.next_id
    }

    /// Whether the store can still assign a fresh id.
    pub closed spec fn id_available(&self) -> bool {
        self.next_id < i32::MAX
    }

    /// A well-formed store satisfies `notes_wf` on its contents.
    pub proof fn wf_contents(&self)
        requires
            self.wf(),
        ensures
            notes_wf(self@),
    {
    }

    /// An empty store.
    pub fn new() -> (r: NoteStore)
        ensures
            r.wf(),
            r@ == Seq::<NoteView>::empty(),
            r.id_available(),
    {
        let r = NoteStore { notes: Vec::new(), next_id: 1 };
        proof {
            assert(r@ =~= Seq::<NoteView>::empty());
        }
        r
    }

    /// An empty store that will assign ids starting at `next_id`, as when
    /// resuming from a persisted id counter.
    pub fn new_with_next_id(next_id: i32) -> (r: NoteStore)
        requires
            next_id >= 1,
        ensures
            r.wf(),
            r@ == Seq::<NoteView>::empty(),
            r.id_available() == (next_id < i32::MAX),
    {
        let r = NoteStore { notes: Vec::new(), next_id };
        proof {
            assert(r@ =~= Seq::<NoteView>::empty());
        }
        r
    }
}

impl Note {
    /// The note with this id, scoped to its owner: an id that exists but
    /// belongs to another user behaves as missing, so a caller learns
    /// nothing about other users' notes.
    pub fn get(id: i32, owner_id: i32, db: &NoteStore) -> (r: Option<Note>)
        ensures
            r matches Some(n) ==> db@.contains(n@) && n@.id == id && n@.user_id == owner_id,
            r is None <==> !has_note_of(db@, id as int, owner_id as int),
    {
        let n = db.notes.len();
        let mut i: usize = 0;
        while i < n
            invariant
                n == db.notes.len(),
                i <= n,
                db@.len() == n,
                forall|k: int|
                    0 <= k < i ==> !((#[trigger] db@[k]).id == id && db@[k].user_id == owner_id),
            decreases n - i,
        {
            proof {
                assert(db@[i as int] == db.notes@[i as int]@);
            }
            if db.notes[i].id == id && db.notes[i].user_id == owner_id {
                return Some(db.notes[i].clone());
            }
            i += 1;
        }
        None
    }

    /// All notes belonging to this user, in store order; an empty sequence
    /// when there are none.
    pub fn find_by_user(id: &i32, db: &NoteStore) -> (r: Vec<Note>)
        ensures
            r@.map_values(|n: Note| n@) == notes_of_user(db@, *id as int),
    {
        let n = db.notes.len();
        let mut out: Vec<Note> = Vec::new();
        let mut i: usize = 0;
        proof {
            assert(db@.take(0) =~= Seq::<NoteView>::empty());
            assert(out@.map_values(|m: Note| m@) =~= Seq::<NoteView>::empty());
        }
        while i < n
            invariant
                n == db.notes.len(),
                i <= n,
                db@.len() == n,
                out@.map_values(|m: Note| m@) == notes_of_user(db@.take(i as int), *id as int),
            decreases n - i,
        {
            proof {
                assert(db@[i as int] == db.notes@[i as int]@);
                assert(db@.take(i + 1 as int).drop_last() =~= db@.take(i as int));
                assert(db@.take(i + 1 as int).last() == db@[i as int]);
            }
            let ghost prev = out@.map_values(|m: Note| m@);
            if db.notes[i].user_id == *id {
                out.push(db.notes[i].clone());
                proof {
                    assert(out@.map_values(|m: Note| m@) =~= prev.push(db@[i as int]));
                }
            }
            i += 1;
        }
        proof {
            assert(db@.take(n as int) =~= db@);
        }
        out
    }

    /// Creates a note owned by `user_id` with the given title (non-empty,
    /// pre-validated by the caller) and body (empty when absent), assigning
    /// a fresh id. Fails only when the store cannot assign an id, and then
    /// leaves the store unchanged.
    pub fn create_for_user(user_id: &i32, params: &CreateNoteParams, db: &mut NoteStore) -> (r:
        Result<Note, NoteError>)
        requires
            old(db).wf(),
            params.title@.len() >= 1,
        ensures
            final(db).wf(),
            r is Ok <==> old(db).id_available(),
            r matches Err(e) ==> e == NoteError::DBWrite && *final(db) == *old(db),
            r matches Ok(note) ==> ({
                &&& final(db)@ == old(db)@.push(note@)
                &&& note@.user_id == *user_id
                &&& note@.title == params.title@
                &&& note@.body == spec_body_or_empty(params)
                &&& note@.id >= 1
                &&& forall|k: int|
                    0 <= k < old(db)@.len() ==> (#[trigger] old(db)@[k]).id != note@.id
            }),
    {
        if db.next_id == i32::MAX {
            return Err(NoteError::DBWrite);
        }
        let id = db.next_id;
        db.next_id = db.next_id + 1;
        let body = match &params.body {
            Some(b) => b.clone(),
            None => String::new(),
        };
        let note = Note { id, user_id: *user_id, title: params.title.clone(), body };
        let result = note.clone();
        db.notes.push(note);
        proof {
            assert(db@ =~= old(db)@.push(result@));
        }
        Ok(result)
    }

    /// Partial update of this note's stored record, owner-scoped: fields
    /// left `None` keep this note's prior value, supplied ones replace it,
    /// read-modify-write as one logical step. The merged note is returned,
    /// written back to the store, and reflected in `self`. A missing or
    /// foreign id is `NotFound`, and then nothing changes.
    pub fn update(&mut self, title: Option<&str>, body: Option<&str>, db: &mut NoteStore) -> (r:
        Result<Note, NoteError>)
        requires
            old(db).wf(),
            title matches Some(t) ==> t@.len() >= 1,
        ensures
            final(db).wf(),
            r is Ok <==> has_note_of(old(db)@, old(self)@.id, old(self)@.user_id),
            r matches Err(e) ==> e == NoteError::NotFound && *final(db) == *old(db) && *final(self)
                == *old(self),
            r matches Ok(merged) ==> ({
                let k = note_index(old(db)@, old(self)@.id, old(self)@.user_id);
                &&& merged@ == merged_note(old(self)@, opt_str_view(title), opt_str_view(body))
                &&& final(db)@ == old(db)@.update(k, merged@)
                &&& final(self)@ == merged@
            }),
    {
        let id = self.id;
        let uid = self.user_id;
        let n = db.notes.len();
        let mut i: usize = 0;
        while i < n
            invariant
                n == db.notes.len(),
                i <= n,
                db@.len() == n,
                *db == *old(db),
                old(db).wf(),
                *self == *old(self),
                id == self.id,
                uid == self.user_id,
                forall|k: int|
                    0 <= k < i ==> !((#[trigger] db@[k]).id == id && db@[k].user_id == uid),
            decreases n - i,
        {
            proof {
                assert(db@[i as int] == db.notes@[i as int]@);
            }
            if db.notes[i].id == id && db.notes[i].user_id == uid {
                let new_title = match title {
                    Some(t) => t.to_owned(),
                    None => self.title.clone(),
                };
                let new_body = match body {
                    Some(b) => b.to_owned(),
                    None => self.body.clone(),
                };
                let merged = Note { id, user_id: uid, title: new_title, body: new_body };
                let result = merged.clone();
                db.notes[i] = merged;
                self.title = result.title.clone();
                self.body = result.body.clone();
                proof {
                    assert(db@ =~= old(db)@.update(i as int, result@));
                    assert(old(db)@[i as int].id == id as int && old(db)@[i as int].user_id
                        == uid as int);
                    assert(has_note_of(old(db)@, id as int, uid as int));
                    assert(notes_wf(old(db)@));
                    assert(note_index(old(db)@, id as int, uid as int) == i as int) by {
                        let k = note_index(old(db)@, id as int, uid as int);
                        assert(0 <= k < old(db)@.len() && (#[trigger] old(db)@[k]).id == id as int
                            && old(db)@[k].user_id == uid as int);
                    }
                    assert forall|a: int| 0 <= a < db@.len() implies (#[trigger] db@[a]).id
                        == old(db)@[a].id by {}
                    assert(note_ids_unique(db@));
                }
                return Ok(result);
            }
            i += 1;
        }
        Err(NoteError::NotFound)
    }

    /// Deletes the note with this id when it belongs to `owner_id`;
    /// idempotent in effect, so a missing or foreign id is not
    /// distinguishable from success and nothing crashes on a second
    /// deletion of the same id.
    pub fn delete(id: i32, owner_id: i32, db: &mut NoteStore) -> (r: Result<(), NoteError>)
        requires
            old(db).wf(),
        ensures
            final(db).wf(),
            r is Ok,
            has_note_of(old(db)@, id as int, owner_id as int) ==> final(db)@ == old(db)@.remove(
                note_index(old(db)@, id as int, owner_id as int),
            ),
            !has_note_of(old(db)@, id as int, owner_id as int) ==> *final(db) == *old(db),
    {
        let n = db.notes.len();
        let mut i: usize = 0;
        while i < n
            invariant
                n == db.notes.len(),
                i <= n,
                db@.len() == n,
                *db == *old(db),
                old(db).wf(),
                forall|k: int|
                    0 <= k < i ==> !((#[trigger] db@[k]).id == id && db@[k].user_id == owner_id),
            decreases n - i,
        {
            proof {
                assert(db@[i as int] == db.notes@[i as int]@);
            }
            if db.notes[i].id == id && db.notes[i].user_id == owner_id {
                db.notes.remove(i);
                proof {
                    assert(db@ =~= old(db)@.remove(i as int));
                    assert(old(db)@[i as int].id == id as int && old(db)@[i as int].user_id
                        == owner_id as int);
                    assert(has_note_of(old(db)@, id as int, owner_id as int));
                    assert(notes_wf(old(db)@));
                    assert(note_index(old(db)@, id as int, owner_id as int) == i as int) by {
                        let k = note_index(old(db)@, id as int, owner_id as int);
                        assert(0 <= k < old(db)@.len() && (#[trigger] old(db)@[k]).id == id as int
                            && old(db)@[k].user_id == owner_id as int);
                    }
                    assert forall|a: int| 0 <= a < db@.len() implies (#[trigger] db@[a]) == (if a
                        < i as int {
                        old(db)@[a]
                    } else {
                        old(db)@[a + 1]
                    }) by {}
                    assert(note_ids_unique(db@));
                }
                return Ok(());
            }
            i += 1;
        }
        Ok(())
    }
}

/// Creates a note for the authenticated user after validating the
/// parameters: an empty title is refused as `InvalidAttributes` and
/// nothing is written.
pub fn create_note(user_id: i32, params: &CreateNoteParams, db: &mut NoteStore) -> (r: Result<
    Note,
    NoteError,
>)
    requires
        old(db).wf(),
    ensures
        final(db).wf(),
        params.title@.len() == 0 ==> r == Err::<Note, NoteError>(NoteError::InvalidAttributes)
            && *final(db) == *old(db),
        params.title@.len() >= 1 ==> ({
            &&& (r is Ok <==> old(db).id_available())
            &&& (r matches Err(e) ==> e == NoteError::DBWrite && *final(db) == *old(db))
            &&& (r matches Ok(note) ==> ({
                &&& final(db)@ == old(db)@.push(note@)
                &&& note@.user_id == user_id
                &&& note@.title == params.title@
                &&& note@.body == spec_body_or_empty(params)
                &&& note@.id >= 1
                &&& forall|k: int|
                    0 <= k < old(db)@.len() ==> (#[trigger] old(db)@[k]).id != note@.id
            }))
        }),
{
    if params.title.as_str().unicode_len() == 0 {
        return Err(NoteError::InvalidAttributes);
    }
    Note::create_for_user(&user_id, params, db)
}

/// Applies a partial update to the note with this id on behalf of the
/// authenticated user: a supplied empty title is refused as
/// `InvalidAttributes`, a missing or foreign id as `NotFound`; otherwise
/// the stored note is fetched, merged with the supplied fields and written
/// back, and the merged note is returned.
pub fn update_note(id: i32, user_id: i32, params: &UpdateNoteParams, db: &mut NoteStore) -> (r:
    Result<Note, NoteError>)
    requires
        old(db).wf(),
    ensures
        final(db).wf(),
        !update_title_ok(params) ==> r == Err::<Note, NoteError>(NoteError::InvalidAttributes)
            && *final(db) == *old(db),
        update_title_ok(params) ==> ({
            &&& (r is Ok <==> has_note_of(old(db)@, id as int, user_id as int))
            &&& (r matches Err(e) ==> e == NoteError::NotFound && *final(db) == *old(db))
            &&& (r matches Ok(merged) ==> ({
                let k = note_index(old(db)@, id as int, user_id as int);
                &&& merged@ == merged_note(
                    old(db)@[k],
                    opt_string_view(params.title),
                    opt_string_view(params.body),
                )
                &&& final(db)@ == old(db)@.update(k, merged@)
            }))
        }),
{
    let title: Option<&str> = match &params.title {
        Some(t) => {
            if t.as_str().unicode_len() == 0 {
                return Err(NoteError::InvalidAttributes);
            }
            Some(t.as_str())
        },
        None => None,
    };
    let body: Option<&str> = match &params.body {
        Some(b) => Some(b.as_str()),
        None => None,
    };
    let mut note = match Note::get(id, user_id, db) {
        None => {
            return Err(NoteError::NotFound);
        },
        Some(n) => n,
    };
    proof {
        assert(notes_wf(db@));
        let k = note_index(db@, id as int, user_id as int);
        assert(0 <= k < db@.len() && (#[trigger] db@[k]).id == id as int && db@[k].user_id
            == user_id as int);
        let j = choose|j: int| 0 <= j < db@.len() && db@[j] == note@;
        assert(db@[j].id == id as int);
        assert(j == k);
        assert(db@[k] == note@);
    }
    note.update(title, body, db)
}

/// LAW: a freshly created note is retrievable by its id and owner, and any
/// note in the store carrying that id is the created note itself — so a
/// `get` right after `create` returns exactly the note `create` returned,
/// with the title that was supplied and the body that was supplied or
/// defaulted to empty.
pub proof fn lemma_create_then_get(s: Seq<NoteView>, n: NoteView)
    requires
        forall|k: int| 0 <= k < s.len() ==> (#[trigger] s[k]).id != n.id,
    ensures
        has_note_of(s.push(n), n.id, n.user_id),
        forall|m: NoteView| #[trigger] s.push(n).contains(m) && m.id == n.id ==> m == n,
{
    assert(s.push(n)[s.len() as int] == n);
    assert forall|m: NoteView| #[trigger] s.push(n).contains(m) && m.id == n.id implies m == n by {
        let j = choose|j: int| 0 <= j < s.push(n).len() && s.push(n)[j] == m;
        if j < s.len() {
            assert(s[j].id != n.id);
        }
    }
}

/// LAW: after a partial update wrote the merged note back, the merged note
/// is what the store holds under that id and owner — a `get` right after
/// `update` returns exactly the merged note, whose unsupplied fields kept
/// their prior values (see `merged_note`).
pub proof fn lemma_update_then_get(s: Seq<NoteView>, k: int, m: NoteView)
    requires
        note_ids_unique(s),
        0 <= k < s.len(),
        m.id == s[k].id,
        m.user_id == s[k].user_id,
    ensures
        note_ids_unique(s.update(k, m)),
        has_note_of(s.update(k, m), m.id, m.user_id),
        forall|x: NoteView| #[trigger] s.update(k, m).contains(x) && x.id == m.id ==> x == m,
{
    let t = s.update(k, m);
    assert(t[k] == m);
    assert forall|a: int| 0 <= a < t.len() implies (#[trigger] t[a]).id == s[a].id by {}
    assert forall|x: NoteView| #[trigger] t.contains(x) && x.id == m.id implies x == m by {
        let j = choose|j: int| 0 <= j < t.len() && t[j] == x;
        if j != k {
            assert(s[j].id != s[k].id);
        }
    }
}

/// LAW: deletion removes the note — after deleting id `id` of `owner`, no
/// note with that id and owner stands in the store, so a `get` right after
/// `delete` yields `NotFound`; and by the contract of `Note::delete`, a
/// second deletion of the same id leaves the store unchanged and still
/// succeeds.
pub proof fn lemma_delete_then_get(s: Seq<NoteView>, id: int, owner: int)
    requires
        note_ids_unique(s),
        has_note_of(s, id, owner),
    ensures
        !has_note_of(s.remove(note_index(s, id, owner)), id, owner),
{
    let k = note_index(s, id, owner);
    assert(0 <= k < s.len() && (#[trigger] s[k]).id == id && s[k].user_id == owner);
    let t = s.remove(k);
    assert forall|a: int| 0 <= a < t.len() implies !((#[trigger] t[a]).id == id && t[a].user_id
        == owner) by {
        if a < k {
            assert(t[a] == s[a]);
            assert(s[a].id != s[k].id);
        } else {
            assert(t[a] == s[a + 1]);
            assert(s[a + 1].id != s[k].id);
        }
    }
}

/// LAW: the listing for a user is exactly the user's notes — every note it
/// holds belongs to the user, every note of the user in the store appears
/// in it, and nothing else does. Notes of other users are never included.
pub proof fn lemma_find_by_user_exact(s: Seq<NoteView>, owner: int)
    ensures
        forall|i: int|
            0 <= i < notes_of_user(s, owner).len() ==> (#[trigger] notes_of_user(s, owner)[i]).user_id
                == owner,
        forall|n: NoteView| #[trigger] s.contains(n) && n.user_id == owner ==> notes_of_user(
            s,
            owner,
        ).contains(n),
        forall|n: NoteView| #[trigger] notes_of_user(s, owner).contains(n) ==> s.contains(n),
    decreases s.len(),
{
    if s.len() == 0 {
    } else {
        let prefix = s.drop_last();
        lemma_find_by_user_exact(prefix, owner);
        assert forall|i: int| 0 <= i < notes_of_user(s, owner).len() implies (#[trigger] notes_of_user(
            s,
            owner,
        )[i]).user_id == owner by {
            let r = notes_of_user(s, owner);
            let rp = notes_of_user(prefix, owner);
            if i < rp.len() {
                assert(r[i] == rp[i]);
            } else {
                assert(r[i] == s.last());
            }
        }
        assert forall|n: NoteView| #[trigger] s.contains(n) && n.user_id == owner implies
            notes_of_user(s, owner).contains(n) by {
            let j = choose|j: int| 0 <= j < s.len() && s[j] == n;
            if j < prefix.len() {
                assert(prefix[j] == n);
                assert(prefix.contains(n));
                let r = notes_of_user(prefix, owner);
                let i = choose|i: int| 0 <= i < r.len() && r[i] == n;
                assert(notes_of_user(s, owner)[i] == n);
            } else {
                assert(s.last() == n);
                let r = notes_of_user(s, owner);
                assert(r[r.len() - 1] == n);
            }
        }
        assert forall|n: NoteView| #[trigger] notes_of_user(s, owner).contains(n) implies
            s.contains(n) by {
            let r = notes_of_user(s, owner);
            let i = choose|i: int| 0 <= i < r.len() && r[i] == n;
            let rp = notes_of_user(prefix, owner);
            if i < rp.len() {
                assert(rp[i] == n);
                assert(rp.contains(n));
                let j = choose|j: int| 0 <= j < prefix.len() && prefix[j] == n;
                assert(s[j] == n);
            } else {
                assert(n == s.last());
            }
        }
    }
}

} // verus!
