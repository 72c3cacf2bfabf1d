use fitness_challenge::db::Db;
use fitness_challenge::error::Error;
use fitness_challenge::tables::Session;

#[test]
fn a_name_is_registered_once() {
    let mut db = Db::new();
    assert_eq!(db.add_user("ann", "secret"), Ok(()));
    assert_eq!(db.add_user("ann", "other"), Err(Error::UserAlreadyRegistered));
    assert_eq!(db.add_user("bob", "secret"), Ok(()));
    assert_eq!(db.user_rows().len(), 2);
    assert_eq!(db.user_rows()[0].username, "ann");
    assert_eq!(db.user_rows()[0].pass, "secret");
    assert_eq!(db.user_rows()[1].username, "bob");
}

#[test]
fn participants_get_identifiers_of_their_own() {
    let mut db = Db::new();
    db.add_user("ann", "a").unwrap();
    db.add_user("bob", "b").unwrap();
    db.add_user("cyd", "c").unwrap();
    let ids: Vec<u128> = db.user_rows().iter().map(|u| u.id).collect();
    assert_ne!(ids[0], ids[1]);
    assert_ne!(ids[0], ids[2]);
    assert_ne!(ids[1], ids[2]);
    assert_ne!(ids[0], 0);
}

#[test]
fn a_given_identifier_is_kept() {
    let mut db = Db::new();
    assert_eq!(db.add_user_with_id(41, "ann", "a"), Ok(()));
    assert_eq!(db.add_user_with_id(42, "ann", "b"), Err(Error::UserAlreadyRegistered));
    assert_eq!(db.user_rows().len(), 1);
    assert_eq!(db.user_rows()[0].id, 41);
    assert_eq!(db.get_user_id("ann", "a"), Ok(41));
}

#[test]
fn login_needs_name_and_password() {
    let mut db = Db::new();
    db.add_user_with_id(41, "ann", "a").unwrap();
    db.add_user_with_id(42, "bob", "b").unwrap();
    assert_eq!(db.get_user_id("bob", "b"), Ok(42));
    assert_eq!(db.get_user_id("bob", "a"), Err(Error::WrongPassword));
    assert_eq!(db.get_user_id("eve", "a"), Err(Error::WrongPassword));
    assert_eq!(db.get_user_id("", ""), Err(Error::WrongPassword));
}

#[test]
fn names_are_found_by_identifier() {
    let mut db = Db::new();
    db.add_user_with_id(41, "ann", "a").unwrap();
    db.add_user_with_id(42, "bob", "b").unwrap();
    assert_eq!(db.get_user_name(42), Ok(String::from("bob")));
    assert_eq!(db.get_user_name(41), Ok(String::from("ann")));
    assert_eq!(db.get_user_name(43), Err(Error::UserNotFound));
}

#[test]
fn a_session_is_opened_only_on_demand() {
    let mut db = Db::new();
    assert_eq!(db.get_session_key(41, false), Err(Error::SessionMissing));
    assert!(db.session_rows().is_empty());
    let key = db.get_session_key(41, true).unwrap();
    assert_eq!(db.session_rows(), &vec![Session { id: 41, key }]);
    assert_eq!(db.get_session_key(41, false), Ok(key));
    assert_eq!(db.get_session_key(41, true), Ok(key));
    assert_eq!(db.session_rows().len(), 1);
    let other = db.get_session_key(42, true).unwrap();
    assert_ne!(other, key);
    assert_eq!(db.session_rows().len(), 2);
}

#[test]
fn a_session_is_opened_with_the_key_given() {
    let mut db = Db::new();
    assert_eq!(db.get_session_key_with(41, false, 7), Err(Error::SessionMissing));
    assert!(db.session_rows().is_empty());
    assert_eq!(db.get_session_key_with(41, true, 7), Ok(7));
    assert_eq!(db.get_session_key_with(41, true, 8), Ok(7));
    assert_eq!(db.get_session_key_with(41, false, 9), Ok(7));
    assert_eq!(db.get_session_key_with(42, true, 8), Ok(8));
    assert_eq!(
        db.session_rows(),
        &vec![Session { id: 41, key: 7 }, Session { id: 42, key: 8 }]
    );
    assert_eq!(db.get_session_key(42, false), Ok(8));
}

#[test]
fn a_key_stands_for_its_participant() {
    let mut db = Db::new();
    let ann = db.get_session_key(41, true).unwrap();
    let bob = db.get_session_key(42, true).unwrap();
    assert_eq!(db.get_user_from_session(bob), Ok(42));
    assert_eq!(db.get_user_from_session(ann), Ok(41));
    let next = ann.wrapping_add(1);
    let unknown = if next == bob { ann.wrapping_add(2) } else { next };
    assert_eq!(db.get_user_from_session(unknown), Err(Error::UserNotFound));
}
