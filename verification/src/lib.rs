//! Core of a multi-tenant note-taking service: password handling, access
//! credentials, per-request identity resolution, and an ownership-scoped
//! note lifecycle, over in-memory user and note stores.
//!
//! Routing, JSON shaping and connection pooling are left to the host
//! application; this crate holds the parts that carry invariants.

use vstd::prelude::*;

pub mod access_token;
pub mod note;
pub mod user;

verus! {

/// Character-wise equality of two string slices.
pub fn str_eq(a: &str, b: &str) -> (r: bool)
    ensures
        r == (a@ == b@),
{
    let sa: String = a.to_owned();
    let sb: String = b.to_owned();
    sa == sb
}

/// The database handle of the service: one store for users, one for notes.
pub struct KnotesDBConnection {
    pub users: user::UserStore,
    pub notes: note::NoteStore,
}

impl KnotesDBConnection {
    /// A connection to freshly initialised, empty stores.
    pub fn new() -> (r: KnotesDBConnection)
        ensures
            r.users.wf(),
            r.notes.wf(),
            r.users@ == Seq::<user::UserView>::empty(),
            r.notes@ == Seq::<note::NoteView>::empty(),
    {
        KnotesDBConnection { users: user::UserStore::new(), notes: note::NoteStore::new() }
    }
}

} // verus!
