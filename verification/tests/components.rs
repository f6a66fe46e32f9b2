use file_sharing::get_file_alias;
use file_sharing::AliasIndex;
use file_sharing::FileCounter;
use file_sharing::FileData;
use file_sharing::FileMetadata;
use file_sharing::FileStore;
use file_sharing::IdentityRegistry;
use file_sharing::User;

#[test]
fn counter_starts_at_zero_and_issues_one_then_two() {
    let mut counter = FileCounter::new();
    assert_eq!(counter.count(), 0);
    assert_eq!(counter.next_id(), 1);
    assert_eq!(counter.next_id(), 2);
    assert_eq!(counter.count(), 2);
}

#[test]
fn store_keeps_metadata_across_content_changes() {
    let mut store = FileStore::new();
    let mut counter = FileCounter::new();
    let id = counter.next_id();
    store.create(FileMetadata {
        file_id: id,
        file_name: "a.txt".to_string(),
    });
    match store.get_metadata(id) {
        Some(m) => {
            assert_eq!(m.file_id, 1);
            assert_eq!(m.file_name, "a.txt");
        }
        None => panic!("entry was created"),
    }
    assert!(store.get_metadata(2).is_none());
    match store.get_content(id) {
        FileData::EmptyFile => {}
        FileData::NonEmptyFile(_) => panic!("nothing was uploaded"),
    }
    store.attach_content(id, vec![7, 8]);
    match store.get_content(id) {
        FileData::NonEmptyFile(c) => assert_eq!(c, vec![7, 8]),
        FileData::EmptyFile => panic!("content was attached"),
    }
    match store.get_metadata(id) {
        Some(m) => assert_eq!(m.file_name, "a.txt"),
        None => panic!("entry still exists"),
    }
}

#[test]
fn store_ignores_content_for_unknown_identifier() {
    let mut store = FileStore::new();
    store.attach_content(3, vec![1]);
    match store.get_content(3) {
        FileData::EmptyFile => {}
        FileData::NonEmptyFile(_) => panic!("identifier was never created"),
    }
}

#[test]
fn alias_index_resolves_what_was_registered() {
    let mut index = AliasIndex::new();
    let alias = get_file_alias(&[0x0a, 0x0b]);
    assert!(!index.contains(&alias));
    index.register(
        alias.clone(),
        FileMetadata {
            file_id: 1,
            file_name: "n".to_string(),
        },
    );
    assert!(index.contains(&alias));
    match index.resolve(&alias) {
        Some(m) => {
            assert_eq!(m.file_id, 1);
            assert_eq!(m.file_name, "n");
        }
        None => panic!("alias was registered"),
    }
    assert!(index.resolve("file-0a0c").is_none());
    assert!(!index.contains("file-0a0c"));
}

#[test]
fn identity_registry_keeps_the_last_profile() {
    let mut registry = IdentityRegistry::new();
    assert!(registry.get("id-1").is_none());
    registry.set(
        "id-1".to_string(),
        User {
            first_name: "Ada".to_string(),
            last_name: "Lovelace".to_string(),
        },
    );
    registry.set(
        "id-1".to_string(),
        User {
            first_name: "Grace".to_string(),
            last_name: "Hopper".to_string(),
        },
    );
    match registry.get("id-1") {
        Some(u) => {
            assert_eq!(u.first_name, "Grace");
            assert_eq!(u.last_name, "Hopper");
        }
        None => panic!("profile was registered"),
    }
    assert!(registry.get("id-2").is_none());
}
