use sophia::call::{c_string, contains_nul, reply_length, setkey, setstring, setvalue};
use sophia::{Call, Db, DbObject, Env, SetGetOps};

fn test_db() -> (Env, Db) {
    let env = Env::new(0x1000);
    let db = env.get_db(0x2000).unwrap();
    (env, db)
}

fn set_string(target: usize, path: &[u8], data: &[u8]) -> Call {
    Call::SetString { target, path: path.to_vec(), data: data.to_vec() }
}

#[test]
fn c_string_appends_one_nul() {
    assert_eq!(c_string(b"sophia.path"), b"sophia.path\0".to_vec());
    assert_eq!(c_string(b""), vec![0u8]);
}

#[test]
fn contains_nul_finds_interior_nul() {
    assert!(contains_nul(b"a\0b"));
    assert!(contains_nul(b"\0"));
    assert!(!contains_nul(b"db.test"));
    assert!(!contains_nul(b""));
}

#[test]
fn setstring_passes_path_and_data() {
    assert_eq!(setstring(5, b"key\0", b"k1"), set_string(5, b"key\0", b"k1"));
    assert_eq!(setstring(5, b"a\0b\0", b"k1"), set_string(5, b"a\0b\0", b"k1"));
    assert_eq!(setkey(5, b"k1"), set_string(5, b"key\0", b"k1"));
    assert_eq!(setvalue(5, b"v1"), set_string(5, b"value\0", b"v1"));
}

#[test]
fn attr_sets_named_attribute() {
    let (_env, db) = test_db();
    let mut obj = db.obj(0x3000);
    assert_eq!(obj.attr("key", b"abc"), set_string(0x3000, b"key\0", b"abc"));
    assert_eq!(obj.attr("a.b", b"\0x"), set_string(0x3000, b"a.b\0", b"\0x"));
    assert_eq!(obj.handle(), 0x3000);
}

#[test]
fn shortcuts_match_attr() {
    let (_env, db) = test_db();
    let mut obj: DbObject = db.obj(0x3000);
    let data: &[u8] = b"42";
    assert_eq!(obj.key(data), obj.attr("key", data));
    assert_eq!(obj.key_b(data), obj.attr("key_b", data));
    assert_eq!(obj.value(data), obj.attr("value", data));
    assert_eq!(obj.val(data), obj.attr("val", data));
    assert_eq!(obj.order(data), obj.attr("order", data));
    assert_eq!(obj.prefix(data), obj.attr("prefix", data));
}

#[test]
fn val_sets_val() {
    let (_env, db) = test_db();
    let mut obj = db.obj(0x3000);
    assert_eq!(obj.val(b"x"), obj.attr("val", b"x"));
    assert_eq!(obj.val(b"x"), set_string(0x3000, b"val\0", b"x"));
    assert_ne!(obj.val(b"x"), obj.value(b"x"));
}

#[test]
fn released_object_is_destroyed() {
    let (_env, db) = test_db();
    let obj = db.obj(0x3000);
    assert_eq!(obj.release(), Some(Call::Destroy { target: 0x3000 }));
}

#[test]
fn set_hands_object_over() {
    let (_env, db) = test_db();
    let obj = db.obj(0x3000);
    assert_eq!(db.set(obj), Call::Store { backend: 0x2000, object: 0x3000 });
}

#[test]
fn get_found_owns_the_record() {
    let (_env, db) = test_db();
    let pattern = db.obj(0x3000);
    assert!(db.accepts_pattern(&pattern));
    assert_eq!(db.get_request(&pattern), Call::Fetch { backend: 0x2000, pattern: 0x3000 });
    let found = db.get(pattern, 0x4000).ok().unwrap();
    assert_eq!(found.handle(), 0x4000);
    assert_eq!(found.get_value(), Call::GetString { target: 0x4000, path: b"value\0".to_vec() });
    assert_eq!(found.get_key(), Call::GetString { target: 0x4000, path: b"key\0".to_vec() });
    assert_eq!(found.get_key_b(), Call::GetString { target: 0x4000, path: b"key_b\0".to_vec() });
    assert_eq!(found.release(), Some(Call::Destroy { target: 0x4000 }));
}

#[test]
fn patterns_belong_to_their_database() {
    let env = Env::new(0x1000);
    let db = env.get_db(0x2000).unwrap();
    let other = env.get_db(0x2100).unwrap();
    let pattern = db.obj(0x3000);
    assert_eq!(pattern.database(), 0x2000);
    assert_eq!(pattern.environment(), 0x1000);
    assert!(db.accepts_pattern(&pattern));
    assert!(!other.accepts_pattern(&pattern));
    let tx = env.begin(0x7000);
    assert!(tx.accepts_pattern(&pattern));
    let env2 = Env::new(0x1100);
    let tx2 = env2.begin(0x7100);
    assert!(!tx2.accepts_pattern(&pattern));
    assert_eq!(tx.get_request(&pattern), Call::Fetch { backend: 0x7000, pattern: 0x3000 });
    // A foreign pattern is still looked up, as the binding always did.
    assert_eq!(other.get_request(&pattern), Call::Fetch { backend: 0x2100, pattern: 0x3000 });
    assert_eq!(other.get(pattern, 0x4000).ok().unwrap().handle(), 0x4000);
}

#[test]
fn reply_length_rejects_negative_sizes() {
    assert_eq!(reply_length(-1), None);
    assert_eq!(reply_length(i32::MIN), None);
    assert_eq!(reply_length(0), Some(0));
    assert_eq!(reply_length(17), Some(17));
}

#[test]
fn get_missing_gives_pattern_back() {
    let (_env, db) = test_db();
    let pattern = db.obj(0x3000);
    let back = db.get(pattern, 0).err().unwrap();
    assert_eq!(back.handle(), 0x3000);
    assert_eq!(back.release(), Some(Call::Destroy { target: 0x3000 }));
}

#[test]
fn cursor_steps_until_null() {
    let (_env, db) = test_db();
    let pattern = db.obj(0x3000);
    assert_eq!(db.cursor_request(&pattern), Call::OpenCursor { backend: 0x2000, pattern: 0x3000 });
    let cursor = db.cursor(pattern, 0x5000);
    assert_eq!(cursor.next_request(), Call::Fetch { backend: 0x5000, pattern: 0 });
    assert_eq!(cursor.next(0x6000).unwrap().handle(), 0x6000);
    assert!(cursor.next(0).is_none());
    assert_eq!(cursor.release(), Call::Destroy { target: 0x5000 });
}

#[test]
fn env_configuration_calls() {
    assert_eq!(Env::new_request(), Call::NewEnv);
    let mut env = Env::new(0x1000);
    assert_eq!(env.handle(), 0x1000);
    assert_eq!(env.setattr("sophia.path", "./storage"), set_string(0x1000, b"sophia.path\0", b"./storage"));
    assert_eq!(env.db("test"), set_string(0x1000, b"db\0", b"test"));
    assert_eq!(
        env.setintattr("db.test.mmap", 1),
        Call::SetInt { target: 0x1000, path: b"db.test.mmap\0".to_vec(), value: 1 }
    );
    assert_eq!(env.open(), Call::Open { target: 0x1000 });
    assert_eq!(env.destroy(), Call::Destroy { target: 0x1000 });
}

#[test]
fn get_db_looks_under_db_prefix() {
    let env = Env::new(0x1000);
    assert_eq!(
        env.get_db_request("test"),
        Call::GetObject { target: 0x1000, path: b"db.test\0".to_vec() }
    );
    assert_eq!(env.get_db_request(""), Call::GetObject { target: 0x1000, path: b"db.\0".to_vec() });
    assert!(env.get_db(0).is_none());
    let db = env.get_db(0x2000).unwrap();
    assert_eq!(db.handle(), 0x2000);
    assert_eq!(db.backend(), 0x2000);
    assert_eq!(db.obj_request(), Call::NewObject { parent: 0x2000 });
}

#[test]
fn transaction_commit_and_rollback() {
    let env = Env::new(0x1000);
    assert_eq!(env.begin_request(), Call::Begin { env: 0x1000 });
    let tx = env.begin(0x7000);
    assert_eq!(tx.backend(), 0x7000);
    let db = env.get_db(0x2000).unwrap();
    let obj = db.obj(0x3000);
    assert_eq!(tx.set(obj), Call::Store { backend: 0x7000, object: 0x3000 });
    assert_eq!(tx.commit(), Call::Commit { tx: 0x7000 });
    let tx2 = env.begin(0x7100);
    assert_eq!(tx2.handle(), 0x7100);
    assert_eq!(tx2.release(), Some(Call::Destroy { target: 0x7100 }));
}
