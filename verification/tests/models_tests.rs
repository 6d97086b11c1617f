use rust_backend::models::{token_owner, Buildstatus, NewFile, User};

#[test]
fn new_file_starts_not_started() {
    let f = NewFile::new(
        9,
        "main.c".to_string(),
        "c".to_string(),
        vec![1, 2, 3],
        42,
    );
    assert_eq!(f.id, 9);
    assert_eq!(f.filename, "main.c");
    assert_eq!(f.programming_language, "c");
    assert_eq!(f.filesize, 3);
    assert_eq!(f.lastchanges, 0);
    assert_eq!(f.file_content, Some(vec![1, 2, 3]));
    assert_eq!(f.owner_uuid, 42);
    assert!(matches!(f.build_status, Buildstatus::NotStarted));
}

#[test]
fn empty_file_has_size_zero() {
    let f = NewFile::new(1, "empty".to_string(), "c".to_string(), vec![], 2);
    assert_eq!(f.filesize, 0);
    assert!(matches!(f.build_status, Buildstatus::NotStarted));
}

#[test]
fn nil_user_owns_no_token() {
    let ghostly = User {
        id: 0,
        username: "nobody".to_string(),
        password_hash: "hashed".to_string(),
        salt: "salt".to_string(),
    };
    assert!(token_owner(ghostly).is_none());
}

#[test]
fn real_user_owns_the_token() {
    let user = User {
        id: 5,
        username: "someone".to_string(),
        password_hash: "hashed".to_string(),
        salt: "salt".to_string(),
    };
    let owner = token_owner(user).expect("a non-nil user owns the token");
    assert_eq!(owner.id, 5);
    assert_eq!(owner.username, "someone");
}
