use knotes::user::{CreateUserError, User, UserStore};

const KEY: &str = "test-signing-key";
const EXP: u64 = 10000000000;

#[test]
fn registration_hashes_password_and_verifies() {
    let mut store = UserStore::new();
    let user = User::create(&mut store, "a@x.com", "longpassword1", EXP, KEY).unwrap();
    assert_eq!(user.email, "a@x.com");
    assert!(user.access_token.is_some());
    // the stored value is a hash, not the plaintext
    assert_ne!(user.password(), "longpassword1");
    assert!(user.verify_password("longpassword1"));
    assert!(!user.verify_password("longpassword2"));
}

#[test]
fn duplicate_email_is_refused_regardless_of_password() {
    let mut store = UserStore::new();
    User::create(&mut store, "a@x.com", "longpassword1", EXP, KEY).unwrap();
    let second = User::create(&mut store, "a@x.com", "otherpassword9", EXP, KEY);
    assert!(matches!(second, Err(CreateUserError::AlreadyExists)));
    let third = User::create(&mut store, "a@x.com", "longpassword1", EXP, KEY);
    assert!(matches!(third, Err(CreateUserError::AlreadyExists)));
}

#[test]
fn login_returns_the_user_exactly_on_matching_credentials() {
    let mut store = UserStore::new();
    let created = User::create(&mut store, "a@x.com", "longpassword1", EXP, KEY).unwrap();
    let user = User::login(&store, "a@x.com", "longpassword1").unwrap();
    assert_eq!(user.id, created.id);
    assert_eq!(user.email, "a@x.com");
    assert!(User::login(&store, "a@x.com", "wrongpassword1").is_err());
    assert!(User::login(&store, "b@x.com", "longpassword1").is_err());
    assert!(User::login(&store, "", "longpassword1").is_err());
    assert!(User::login(&store, "a@x.com", "").is_err());
}

#[test]
fn lookups_by_email_and_by_credential() {
    let mut store = UserStore::new();
    let created = User::create(&mut store, "a@x.com", "longpassword1", EXP, KEY).unwrap();
    let token = created.access_token.clone().unwrap();

    let by_email = User::get_by_email("a@x.com", &store).unwrap();
    assert_eq!(by_email.id, created.id);
    assert!(User::get_by_email("missing@x.com", &store).is_none());

    let by_token = User::get_by_access_token(&token, &store).unwrap();
    assert_eq!(by_token.id, created.id);
    assert!(User::get_by_access_token("no-such-credential", &store).is_none());
}

#[test]
fn credential_authenticates_exactly_its_owner() {
    let mut store = UserStore::new();
    let alice = User::create(&mut store, "alice@x.com", "longpassword1", EXP, KEY).unwrap();
    let bob = User::create(&mut store, "bob@x.com", "longpassword2", EXP, KEY).unwrap();
    assert_ne!(alice.id, bob.id);

    let alice_header = format!("Bearer {}", alice.access_token.clone().unwrap());
    let resolved = User::from_request(Some(&alice_header), &store, KEY).unwrap();
    assert_eq!(resolved.id, alice.id);
    assert_eq!(resolved.email, "alice@x.com");

    let bob_header = format!("Bearer {}", bob.access_token.clone().unwrap());
    let resolved = User::from_request(Some(&bob_header), &store, KEY).unwrap();
    assert_eq!(resolved.id, bob.id);
    assert_eq!(resolved.email, "bob@x.com");
}

#[test]
fn resolution_fails_uniformly_on_every_bad_input() {
    let mut store = UserStore::new();
    let user = User::create(&mut store, "a@x.com", "longpassword1", EXP, KEY).unwrap();
    let token = user.access_token.clone().unwrap();

    // missing header
    assert!(User::from_request(None, &store, KEY).is_err());
    // header too short
    assert!(User::from_request(Some("Bear"), &store, KEY).is_err());
    // wrong scheme
    let basic = format!("Basic {}", token);
    assert!(User::from_request(Some(&basic), &store, KEY).is_err());
    // garbage credential
    assert!(User::from_request(Some("Bearer not.a.credential"), &store, KEY).is_err());
    // tampered credential
    let mut tampered = token.clone();
    tampered.push('x');
    let tampered_header = format!("Bearer {}", tampered);
    assert!(User::from_request(Some(&tampered_header), &store, KEY).is_err());
    // credential signed under another key
    let good_header = format!("Bearer {}", token);
    assert!(User::from_request(Some(&good_header), &store, "other-key").is_err());
    // credential of a user no longer in this store
    let other_store = UserStore::new();
    assert!(User::from_request(Some(&good_header), &other_store, KEY).is_err());
}

#[test]
fn expired_credential_is_refused() {
    let mut store = UserStore::new();
    let user = User::create(&mut store, "a@x.com", "longpassword1", 1, KEY).unwrap();
    let header = format!("Bearer {}", user.access_token.clone().unwrap());
    assert!(User::from_request(Some(&header), &store, KEY).is_err());
}

#[test]
fn exhausted_ids_fail_registration_as_write_error() {
    let mut store = UserStore::new_with_next_id(i32::MAX);
    let r = User::create(&mut store, "a@x.com", "longpassword1", EXP, KEY);
    assert!(matches!(r, Err(CreateUserError::DBWrite)));
}

#[test]
fn create_user_error_messages() {
    assert_eq!(CreateUserError::AlreadyExists.message(), "Email is in use");
    assert_eq!(CreateUserError::InvalidAttributes.message(), "Attributes are invalid");
    assert_eq!(
        CreateUserError::DBWrite.message(),
        "There was an error writing to the databse"
    );
    assert_eq!(CreateUserError::TokenError.message(), "Unable to create token");
    assert_eq!(CreateUserError::HashError.message(), "Unable to hash the password");
}
