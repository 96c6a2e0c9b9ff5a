use rusqlite::ffi;

use rust_bbs::db::{
    after_post_deleted, check_board_deletion, check_changed, check_key_slot, check_post_slot,
    DbError, Role, ThreadUpdate, CONSTRAINT_FOREIGNKEY, CONSTRAINT_PRIMARYKEY, CONSTRAINT_UNIQUE,
    MAX_KEYS_PER_USER, MAX_POSTS_PER_THREAD,
};

#[test]
fn roles_survive_storage() {
    for role in [Role::User, Role::Sysop] {
        assert_eq!(Role::parse(role.as_str()), Some(role));
        assert_eq!(Role::from_db(role.as_str()), role);
    }
    assert_eq!(Role::parse("root"), None);
    assert_eq!(Role::from_db("root"), Role::User);
}

#[test]
fn result_codes_are_those_of_sqlite() {
    assert_eq!(CONSTRAINT_UNIQUE, ffi::SQLITE_CONSTRAINT_UNIQUE);
    assert_eq!(CONSTRAINT_PRIMARYKEY, ffi::SQLITE_CONSTRAINT_PRIMARYKEY);
    assert_eq!(CONSTRAINT_FOREIGNKEY, ffi::SQLITE_CONSTRAINT_FOREIGNKEY);
    assert_eq!(DbError::from_code(Some(CONSTRAINT_UNIQUE)), DbError::Duplicate);
    assert_eq!(DbError::from_code(Some(CONSTRAINT_PRIMARYKEY)), DbError::Duplicate);
    assert_eq!(DbError::from_code(Some(CONSTRAINT_FOREIGNKEY)), DbError::NotFound);
    assert_eq!(DbError::from_code(Some(1)), DbError::Other);
    assert_eq!(DbError::from_code(None), DbError::Other);
}

#[test]
fn errors_in_words() {
    assert_eq!(DbError::Duplicate.text(), "already exists");
    assert_eq!(DbError::LimitReached.text(), "limit reached");
    assert_eq!(DbError::NotFound.text(), "not found");
    assert_eq!(DbError::NotEmpty.text(), "not empty");
    assert_eq!(DbError::Other.text(), "database error");
}

#[test]
fn slots_run_out() {
    assert_eq!(check_key_slot(MAX_KEYS_PER_USER as i64 - 1), Ok(()));
    assert_eq!(check_key_slot(MAX_KEYS_PER_USER as i64), Err(DbError::LimitReached));
    assert_eq!(check_post_slot(Some(MAX_POSTS_PER_THREAD as i64 - 1)), Ok(()));
    assert_eq!(check_post_slot(Some(MAX_POSTS_PER_THREAD as i64)), Err(DbError::LimitReached));
    assert_eq!(check_post_slot(None), Err(DbError::NotFound));
    assert_eq!(check_changed(0), Err(DbError::NotFound));
    assert_eq!(check_changed(1), Ok(()));
}

#[test]
fn the_last_post_takes_its_thread_along() {
    let (d, update) = after_post_deleted(4, 2, 0);
    assert!(d.thread_deleted);
    assert_eq!((d.thread_id, d.board_id), (4, 2));
    assert_eq!(update, ThreadUpdate::Delete);
    let (d, update) = after_post_deleted(4, 2, 3);
    assert!(!d.thread_deleted);
    assert_eq!(update, ThreadUpdate::Recount { posts: 3 });
}

#[test]
fn boards_with_threads_need_force() {
    assert_eq!(check_board_deletion(1, 2, false), Err(DbError::NotEmpty));
    assert_eq!(check_board_deletion(1, 2, true), Ok(()));
    assert_eq!(check_board_deletion(1, 0, false), Ok(()));
    assert_eq!(check_board_deletion(0, 0, true), Err(DbError::NotFound));
}
