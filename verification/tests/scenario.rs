use knotes::access_token;
use knotes::note::{create_note, update_note, CreateNoteParams, Note, UpdateNoteParams};
use knotes::user::{CreateUserError, User};
use knotes::KnotesDBConnection;

const KEY: &str = "scenario-signing-key";
const EXP: u64 = 10000000000;

#[test]
fn full_lifecycle_scenario() {
    let mut db = KnotesDBConnection::new();

    // register ("a@x.com", "longpassword1") -> success
    let u1 = User::create(&mut db.users, "a@x.com", "longpassword1", EXP, KEY).unwrap();
    let u1_id = u1.id;

    // register the same email again -> AlreadyExists
    let again = User::create(&mut db.users, "a@x.com", "longpassword1", EXP, KEY);
    assert!(matches!(again, Err(CreateUserError::AlreadyExists)));

    // login -> returns the registered user, carrying the credential
    let logged_in = User::login(&db.users, "a@x.com", "longpassword1").unwrap();
    assert_eq!(logged_in.id, u1_id);
    let token = logged_in.access_token.clone().unwrap();
    assert!(access_token::is_valid(&token, KEY));

    // an authenticated request resolves to the same user
    let header = format!("Bearer {}", token);
    let caller = User::from_request(Some(&header), &db.users, KEY).unwrap();
    assert_eq!(caller.id, u1_id);

    // create note {title: "Groceries"} -> body defaults to ""
    let params = CreateNoteParams { title: "Groceries".to_string(), body: None };
    let n1 = create_note(caller.id, &params, &mut db.notes).unwrap();
    assert_eq!(n1.title, "Groceries");
    assert_eq!(n1.body, "");

    // update {body: "milk"} -> title unchanged, body replaced
    let upd = UpdateNoteParams { title: None, body: Some("milk".to_string()) };
    let updated = update_note(n1.id, caller.id, &upd, &mut db.notes).unwrap();
    assert_eq!(updated.title, "Groceries");
    assert_eq!(updated.body, "milk");

    // delete, then get -> gone
    Note::delete(n1.id, caller.id, &mut db.notes).unwrap();
    assert!(Note::get(n1.id, caller.id, &db.notes).is_none());
}
