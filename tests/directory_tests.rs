use chant::directory::DirectoryError;
use chant::read_transaction::ReadTransactionMethods;
use chant::store::{Store, StoreError};
use chant::user::{Role, User};
use chant::write_transaction::WriteTransaction;
use chant::directory::Directory;

fn user(telegram_id: i64, role: Role) -> User {
    User { telegram_id, role, commands_queue: Vec::new() }
}

fn roster() -> Vec<User> {
    vec![user(111, Role::Offerer), user(222, Role::Cantor), user(333, Role::Cantor)]
}

fn bootstrapped() -> WriteTransaction {
    let mut tx = WriteTransaction { directory: Directory::new() };
    assert_eq!(tx.add_users(&roster()), Ok(()));
    tx
}

fn strings(items: &[&str]) -> Vec<String> {
    items.iter().map(|s| s.to_string()).collect()
}

#[test]
fn identity_is_xxh3_of_decimal_text_big_endian() {
    let expected = xxhash_rust::xxh3::xxh3_128(b"111").to_be_bytes();
    assert_eq!(User::id_from_telegram_id(111).value, expected);
    let negative = xxhash_rust::xxh3::xxh3_128(b"-42").to_be_bytes();
    assert_eq!(User::id_from_telegram_id(-42).value, negative);
}

#[test]
fn identity_is_deterministic() {
    let a = User::id_from_telegram_id(123456789);
    let b = User::id_from_telegram_id(123456789);
    assert!(a.same_as(&b));
    assert_eq!(a.value, b.value);
}

#[test]
fn distinct_ids_get_distinct_identities() {
    let a = User::id_from_telegram_id(111);
    let b = User::id_from_telegram_id(222);
    assert!(!a.same_as(&b));
    assert_ne!(a.value, b.value);
}

#[test]
fn user_id_matches_its_telegram_id() {
    let u = user(222, Role::Cantor);
    assert_eq!(u.id().value, User::id_from_telegram_id(222).value);
}

#[test]
fn lookup_after_bootstrap() {
    let tx = bootstrapped();
    for t in [111i64, 222, 333] {
        let id = tx.get_user_id_by_telegram_id(t).expect("user present");
        assert_eq!(id.value, User::id_from_telegram_id(t).value);
    }
    assert!(tx.get_user_id_by_telegram_id(444).is_none());
}

#[test]
fn lookup_in_empty_directory_finds_nothing() {
    let tx = WriteTransaction { directory: Directory::new() };
    assert!(tx.get_user_id_by_telegram_id(111).is_none());
    assert!(tx.get_cantors_telegram_user_ids().is_empty());
}

#[test]
fn role_index_gives_exactly_the_cantors() {
    let tx = bootstrapped();
    let mut cantors = tx.get_cantors_telegram_user_ids();
    cantors.sort();
    assert_eq!(cantors, vec![222, 333]);
}

#[test]
fn duplicate_identity_is_refused_and_nothing_inserted() {
    let mut tx = bootstrapped();
    let again = vec![user(444, Role::Offerer), user(111, Role::Cantor)];
    assert_eq!(tx.add_users(&again), Err(DirectoryError::DuplicateIdentity));
    assert!(tx.get_user_id_by_telegram_id(444).is_none());
}

#[test]
fn duplicate_within_one_roster_is_refused() {
    let mut tx = WriteTransaction { directory: Directory::new() };
    let twice = vec![user(5, Role::Offerer), user(5, Role::Offerer)];
    assert_eq!(tx.add_users(&twice), Err(DirectoryError::DuplicateIdentity));
    assert!(tx.get_user_id_by_telegram_id(5).is_none());
}

#[test]
fn queue_replaces_rather_than_appends() {
    let mut tx = bootstrapped();
    let id = User::id_from_telegram_id(111);
    assert_eq!(tx.queue_commands(&id, strings(&["a1", "a2"])), Ok(()));
    assert_eq!(tx.queue_commands(&id, strings(&["b1"])), Ok(()));
    assert_eq!(tx.execute_commands_queue(111), Ok(strings(&["b1"])));
}

#[test]
fn queue_for_unknown_identity_fails() {
    let mut tx = bootstrapped();
    let id = User::id_from_telegram_id(999);
    assert_eq!(tx.queue_commands(&id, strings(&["x"])), Err(DirectoryError::NoSuchUser));
}

#[test]
fn drain_returns_queue_in_order_then_empties_it() {
    let mut tx = bootstrapped();
    let id = User::id_from_telegram_id(222);
    assert_eq!(tx.queue_commands(&id, strings(&["first", "second", "third"])), Ok(()));
    assert_eq!(tx.execute_commands_queue(222), Ok(strings(&["first", "second", "third"])));
    assert_eq!(tx.execute_commands_queue(222), Ok(Vec::new()));
}

#[test]
fn drain_of_empty_queue_is_a_noop() {
    let mut tx = bootstrapped();
    assert_eq!(tx.execute_commands_queue(333), Ok(Vec::new()));
    assert_eq!(tx.execute_commands_queue(333), Ok(Vec::new()));
}

#[test]
fn drain_for_unknown_user_fails() {
    let mut tx = bootstrapped();
    assert_eq!(tx.execute_commands_queue(777), Err(DirectoryError::NoSuchUser));
}

#[test]
fn aborted_drain_leaves_queue_whole() {
    let mut store = Store::new();
    let mut tx = store.try_begin_write().expect("quiescent");
    assert_eq!(tx.add_users(&roster()), Ok(()));
    let id = User::id_from_telegram_id(111);
    assert_eq!(tx.queue_commands(&id, strings(&["c1", "c2", "c3"])), Ok(()));
    store.commit(tx);

    let mut tx = store.try_begin_write().expect("quiescent");
    assert_eq!(tx.execute_commands_queue(111), Ok(strings(&["c1", "c2", "c3"])));
    // the second command fails: the transaction is dropped
    store.abort(tx);

    let mut tx = store.try_begin_write().expect("quiescent");
    assert_eq!(tx.execute_commands_queue(111), Ok(strings(&["c1", "c2", "c3"])));
    store.commit(tx);

    let mut tx = store.try_begin_write().expect("quiescent");
    assert_eq!(tx.execute_commands_queue(111), Ok(Vec::new()));
    store.abort(tx);
}

#[test]
fn reads_run_together_and_exclude_writes() {
    let mut store = Store::new();
    assert!(store.try_begin_read());
    assert!(store.try_begin_read());
    assert!(store.try_begin_write().is_none());
    store.end_read();
    assert!(store.try_begin_write().is_none());
    store.end_read();
    let tx = store.try_begin_write().expect("quiescent");
    assert!(!store.try_begin_read());
    assert!(store.try_begin_write().is_none());
    store.abort(tx);
    assert!(store.try_begin_read());
    store.end_read();
}

#[test]
fn read_view_sees_committed_directory_only() {
    let mut store = Store::new();
    let mut tx = store.try_begin_write().expect("quiescent");
    assert_eq!(tx.add_users(&roster()), Ok(()));
    store.abort(tx);
    assert!(store.try_begin_read());
    assert!(store.read().get_user_id_by_telegram_id(111).is_none());
    store.end_read();

    let mut tx = store.try_begin_write().expect("quiescent");
    assert_eq!(tx.add_users(&roster()), Ok(()));
    store.commit(tx);
    assert!(store.try_begin_read());
    let mut cantors = store.read().get_cantors_telegram_user_ids();
    cantors.sort();
    assert_eq!(cantors, vec![222, 333]);
    store.end_read();
}

#[test]
fn store_bootstrap_then_queue_replaces() {
    let mut store = Store::new();
    assert_eq!(store.add_users(&roster()), Ok(()));
    assert_eq!(store.add_users(&roster()), Err(StoreError::Directory(DirectoryError::DuplicateIdentity)));
    let id = User::id_from_telegram_id(111);
    assert_eq!(store.queue_commands(&id, strings(&["text A"])), Ok(()));
    assert_eq!(store.queue_commands(&id, strings(&["text B"])), Ok(()));
    let unknown = User::id_from_telegram_id(9);
    assert_eq!(store.queue_commands(&unknown, strings(&["x"])), Err(StoreError::Directory(DirectoryError::NoSuchUser)));
    let mut tx = store.try_begin_write().expect("quiescent");
    assert_eq!(tx.execute_commands_queue(111), Ok(strings(&["text B"])));
    store.abort(tx);
    let mut cantors = store.get_cantors_telegram_user_ids().expect("readable");
    cantors.sort();
    assert_eq!(cantors, vec![222, 333]);
}

#[test]
fn store_operations_are_busy_while_excluded() {
    let mut store = Store::new();
    assert!(store.try_begin_read());
    assert_eq!(store.add_users(&roster()), Err(StoreError::Busy));
    assert_eq!(store.get_cantors_telegram_user_ids(), Ok(Vec::new()));
    store.end_read();
    assert_eq!(store.add_users(&roster()), Ok(()));
    let tx = store.try_begin_write().expect("quiescent");
    assert_eq!(store.get_cantors_telegram_user_ids(), Err(StoreError::Busy));
    let id = User::id_from_telegram_id(111);
    assert_eq!(store.queue_commands(&id, strings(&["x"])), Err(StoreError::Busy));
    store.abort(tx);
}
