use krustlet::object::{ObjectKey, TypeKey};
use krustlet::store::{Store, StoreError, Stored};
use krustlet::table::Key;

fn pods() -> TypeKey {
    TypeKey::new("", "v1", "Pod")
}

fn secrets() -> TypeKey {
    TypeKey::new("", "v1", "Secret")
}

fn ns(text: &str) -> Option<String> {
    Some(text.to_owned())
}

#[test]
fn empty_store_gives_nothing() {
    let store: Store<u32> = Store::new();
    assert!(matches!(store.get(&pods(), ns("default"), "a".to_owned()), Ok(None)));
}

#[test]
fn insert_then_get_gives_the_object() {
    let mut store: Store<u32> = Store::new();
    store.insert(&pods(), ns("default"), "a".to_owned(), 7);
    assert_eq!(store.get(&pods(), ns("default"), "a".to_owned()).unwrap(), Some(&7));
    assert!(matches!(store.get(&pods(), ns("default"), "b".to_owned()), Ok(None)));
    assert!(matches!(store.get(&pods(), ns("other"), "a".to_owned()), Ok(None)));
    assert!(matches!(store.get(&pods(), None, "a".to_owned()), Ok(None)));
    assert!(matches!(store.get(&secrets(), ns("default"), "a".to_owned()), Ok(None)));
}

#[test]
fn insert_overwrites() {
    let mut store: Store<&str> = Store::new();
    store.insert(&pods(), ns("default"), "a".to_owned(), "v1");
    store.insert(&pods(), ns("default"), "a".to_owned(), "v2");
    assert_eq!(store.get(&pods(), ns("default"), "a".to_owned()).unwrap(), Some(&"v2"));
}

#[test]
fn reads_observe_writes_in_order() {
    let mut store: Store<u32> = Store::new();
    let mut observed = Vec::new();
    let writes = [1u32, 2, 3, 4];
    for w in writes {
        store.insert(&pods(), None, "node".to_owned(), w);
        if w % 2 == 0 {
            observed.push(*store.get(&pods(), None, "node".to_owned()).unwrap().unwrap());
        }
    }
    assert_eq!(observed, vec![2, 4]);
}

#[test]
fn cluster_scoped_and_namespaced_keys_differ() {
    let mut store: Store<u32> = Store::new();
    store.insert(&pods(), None, "a".to_owned(), 1);
    store.insert(&pods(), ns(""), "a".to_owned(), 2);
    assert_eq!(store.get(&pods(), None, "a".to_owned()).unwrap(), Some(&1));
    assert_eq!(store.get(&pods(), ns(""), "a".to_owned()).unwrap(), Some(&2));
}

#[test]
fn delete_takes_one_object_out() {
    let mut store: Store<u32> = Store::new();
    store.insert(&pods(), ns("default"), "a".to_owned(), 1);
    store.insert(&pods(), ns("default"), "b".to_owned(), 2);
    store.delete_any(ns("default"), "a".to_owned(), &pods());
    assert!(matches!(store.get(&pods(), ns("default"), "a".to_owned()), Ok(None)));
    assert_eq!(store.get(&pods(), ns("default"), "b".to_owned()).unwrap(), Some(&2));
    store.delete_any(ns("default"), "never".to_owned(), &secrets());
    assert_eq!(store.get(&pods(), ns("default"), "b".to_owned()).unwrap(), Some(&2));
}

#[test]
fn reset_clears_one_type_only() {
    let mut store: Store<u32> = Store::new();
    store.insert(&pods(), ns("default"), "a".to_owned(), 1);
    store.insert(&pods(), ns("default"), "b".to_owned(), 2);
    store.insert(&secrets(), ns("default"), "a".to_owned(), 3);
    store.reset(&pods());
    assert!(matches!(store.get(&pods(), ns("default"), "a".to_owned()), Ok(None)));
    assert!(matches!(store.get(&pods(), ns("default"), "b".to_owned()), Ok(None)));
    assert_eq!(store.get(&secrets(), ns("default"), "a".to_owned()).unwrap(), Some(&3));
    store.insert(&pods(), ns("default"), "c".to_owned(), 4);
    assert_eq!(store.get(&pods(), ns("default"), "c".to_owned()).unwrap(), Some(&4));
}

#[test]
fn type_mismatch_is_an_error_not_a_panic() {
    let mut store: Store<u32> = Store::new();
    store.insert_any(ns("default"), "a".to_owned(), &pods(), Stored::new(secrets(), 9));
    match store.get(&pods(), ns("default"), "a".to_owned()) {
        Err(StoreError::TypeMismatch(wanted)) => {
            assert!(wanted.same(&pods()));
        }
        other => panic!("expected a type mismatch, got {:?}", other),
    }
    let e = store.get(&pods(), ns("default"), "a".to_owned()).unwrap_err();
    assert_eq!(e.message(), "Could not interpret interred object as type /v1 Pod");
    let apps = TypeKey::new("apps", "v1", "Deployment");
    assert_eq!(
        StoreError::TypeMismatch(apps).message(),
        "Could not interpret interred object as type apps/v1 Deployment"
    );
}

#[test]
fn insert_any_with_matching_schema_reads_back() {
    let mut store: Store<u32> = Store::new();
    store.insert_any(ns("default"), "a".to_owned(), &pods(), Stored::new(pods(), 9));
    assert_eq!(store.get(&pods(), ns("default"), "a".to_owned()).unwrap(), Some(&9));
}

#[test]
fn stored_objects_downcast_by_schema() {
    let stored = Stored::new(pods(), 5u8);
    assert_eq!(stored.downcast(&pods()), Some(&5));
    assert_eq!(stored.downcast(&secrets()), None);
    assert!(stored.schema().same(&pods()));
}

#[test]
fn object_keys_compare_by_both_fields() {
    let a = ObjectKey::new(ns("default"), "a".to_owned());
    assert!(a.same(&ObjectKey::new(ns("default"), "a".to_owned())));
    assert!(!a.same(&ObjectKey::new(ns("default"), "b".to_owned())));
    assert!(!a.same(&ObjectKey::new(ns("other"), "a".to_owned())));
    assert!(!a.same(&ObjectKey::new(None, "a".to_owned())));
    assert!(ObjectKey::new(None, "a".to_owned()).same(&ObjectKey::new(None, "a".to_owned())));
    let copy = a.duplicate();
    assert_eq!(copy.name(), "a");
    assert_eq!(copy.namespace(), &ns("default"));
}

#[test]
fn type_keys_compare_by_all_fields() {
    let a = TypeKey::new("apps", "v1", "Deployment");
    assert!(a.same(&a.duplicate()));
    assert!(!a.same(&TypeKey::new("apps", "v2", "Deployment")));
    assert!(!a.same(&TypeKey::new("core", "v1", "Deployment")));
    assert!(!a.same(&TypeKey::new("apps", "v1", "StatefulSet")));
    assert_eq!(a.group(), "apps");
    assert_eq!(a.version(), "v1");
    assert_eq!(a.kind(), "Deployment");
}

#[test]
fn a_mismatch_is_a_cache_miss_for_callers_that_ask_so() {
    let mut store: Store<u32> = Store::new();
    store.insert(&pods(), ns("default"), "good".to_owned(), 1);
    store.insert_any(ns("default"), "bad".to_owned(), &pods(), Stored::new(secrets(), 2));
    assert_eq!(store.cached(&pods(), ns("default"), "good".to_owned()), Some(&1));
    assert_eq!(store.cached(&pods(), ns("default"), "bad".to_owned()), None);
    assert_eq!(store.cached(&pods(), ns("default"), "absent".to_owned()), None);
}
