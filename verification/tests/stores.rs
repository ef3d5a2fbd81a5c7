use oxidrive::collection::{refresh, Collection, InMemoryCollectionStore, RefreshCollection};
use oxidrive::file::File;
use oxidrive::file_store::InMemoryFileMetadata;
use oxidrive::ids::{AccountId, CollectionId, FileId};
use oxidrive::paginate::Paginate;
use oxidrive::services::{refresh_collection, refresh_step, RefreshStep};
use oxidrive::tag::Tag;
use oxidrive::tags::{Filter, Op};
use oxidrive::collection::with_linked_files;

const FILE_ID_1: u128 = 0x019433e9_ffbb_7c8b_af6c_d4cb061fb919;
const FILE_ID_2: u128 = 0x019433ea_5976_7982_bedb_760ad14d4c1a;
const OWNER_ID: u128 = 0x0194327d_becc_7ef3_809c_35dd09f62f45;
const COLLECTION_ID_1: u128 = 0x019497f6_6111_70c5_8575_420fff86e99b;
const COLLECTION_ID_2: u128 = 0x019497f7_6a4b_7226_9a3c_391628318f5c;

fn owner() -> AccountId {
    AccountId::from_u128(OWNER_ID)
}

fn file_1() -> File {
    let mut f = File::new(owner(), "hello.txt", "text/plain").tagged(Tag::parse("file1").unwrap());
    f.id = FileId::from_u128(FILE_ID_1);
    f
}

fn file_2() -> File {
    let mut f = File::new(owner(), "world.txt", "text/plain").tagged(Tag::parse("file2").unwrap());
    f.id = FileId::from_u128(FILE_ID_2);
    f
}

fn key(k: &str) -> Filter {
    Filter::Tag { key: k.to_string(), value: None }
}

fn key_value(k: &str, v: &str) -> Filter {
    Filter::Tag { key: k.to_string(), value: Some(v.to_string()) }
}

fn check_file(expected: &File, actual: &File) {
    assert_eq!(expected.id, actual.id);
    assert_eq!(expected.owner_id, actual.owner_id);
    assert_eq!(expected.name, actual.name);
    assert_eq!(expected.size, actual.size);
    assert!(expected.tags.same_as(&actual.tags));
}

#[test]
fn tests_it_lists_all_files() {
    let store = InMemoryFileMetadata::from_files(vec![
        File::new(owner(), "a.txt", "text/plain"),
        File::new(owner(), "b.txt", "text/plain"),
    ]);

    let forward = store.all_owned_by(owner(), &Paginate::first(2));
    assert_eq!(forward.len(), 2);
    let backward = store.all_owned_by(owner(), &Paginate::last(2));
    assert_eq!(backward.len(), 2);

    let forward_ids: Vec<FileId> = forward.items.iter().map(|f| f.id).collect();
    let backward_ids: Vec<FileId> = backward.items.iter().map(|f| f.id).collect();
    assert_eq!(forward_ids, backward_ids);
}

#[test]
fn tests_it_stores_and_loads_file_by_id() {
    let mut store = InMemoryFileMetadata::new();
    let file = File::new(owner(), "notes.md", "text/markdown");
    let stored = store.save(file.duplicate());
    check_file(&file, &stored);
    let loaded = store.by_id(owner(), file.id).unwrap();
    check_file(&file, &loaded);
    assert!(store.by_id(AccountId::new(), file.id).is_none());
}

#[test]
fn tests_it_stores_and_loads_file_by_name() {
    let mut store = InMemoryFileMetadata::new();
    let file = File::new(owner(), "notes.md", "text/markdown");
    store.save(file.duplicate());
    let loaded = store.by_name(owner(), "notes.md").unwrap();
    check_file(&file, &loaded);
    assert!(store.by_name(owner(), "other.md").is_none());
}

#[test]
fn saving_again_replaces_the_stored_file() {
    let mut store = InMemoryFileMetadata::new();
    let mut file = File::new(owner(), "notes.md", "text/markdown");
    store.save(file.duplicate());
    file.set_size(42);
    store.save(file.duplicate());
    assert_eq!(store.by_id(owner(), file.id).unwrap().size, 42);
    assert_eq!(store.all_owned_by(owner(), &Paginate::first(10)).len(), 1);
}

fn search_ids(store: &InMemoryFileMetadata, filter: Filter) -> Vec<u128> {
    let page = store.search(owner(), &filter, &Paginate::first(10));
    let mut ids: Vec<u128> = page.items.iter().map(|f| f.id.as_u128()).collect();
    ids.sort();
    ids
}

#[test]
fn tests_it_searches_files() {
    let store = InMemoryFileMetadata::from_files(vec![file_1(), file_2()]);

    assert_eq!(search_ids(&store, Filter::All), vec![FILE_ID_1, FILE_ID_2]);
    let both = Filter::Op { lhs: Box::new(key("name")), op: Op::And, rhs: Box::new(key_value("content_type", "text/plain")) };
    assert_eq!(search_ids(&store, both), vec![FILE_ID_1, FILE_ID_2]);
    assert_eq!(search_ids(&store, key_value("name", "hello.txt")), vec![FILE_ID_1]);
    assert_eq!(search_ids(&store, key_value("name", "world.txt")), vec![FILE_ID_2]);
    assert_eq!(search_ids(&store, key("file1")), vec![FILE_ID_1]);
    assert_eq!(search_ids(&store, key("file2")), vec![FILE_ID_2]);
}

#[test]
fn a_search_pages_forward_and_backward_by_identifier_text() {
    let store = InMemoryFileMetadata::from_files(vec![file_1(), file_2()]);

    // a page is taken in the store's walk order, so either file may come first
    let first = store.search(owner(), &Filter::All, &Paginate::first(1));
    assert_eq!(first.len(), 1);
    assert!(first.previous.is_none());
    let after = Paginate::Forward { after: first.next.clone().unwrap(), first: 1 };
    let second = store.search(owner(), &Filter::All, &after);
    if first.items[0].id.as_u128() == FILE_ID_1 {
        assert_eq!(first.next.as_deref(), Some("019433e9-ffbb-7c8b-af6c-d4cb061fb919"));
        assert_eq!(second.len(), 1);
        assert_eq!(second.items[0].id.as_u128(), FILE_ID_2);
    } else {
        assert_eq!(first.items[0].id.as_u128(), FILE_ID_2);
        assert_eq!(first.next.as_deref(), Some("019433ea-5976-7982-bedb-760ad14d4c1a"));
        assert!(second.is_empty());
    }

    let both = store.search(owner(), &Filter::All, &Paginate::first(2));
    let mut both_ids: Vec<u128> = both.items.iter().map(|f| f.id.as_u128()).collect();
    both_ids.sort();
    assert_eq!(both_ids, vec![FILE_ID_1, FILE_ID_2]);

    let before = Paginate::Backward { before: "019433ea-5976-7982-bedb-760ad14d4c1a".into(), last: 5 };
    let earlier = store.search(owner(), &Filter::All, &before);
    assert_eq!(earlier.len(), 1);
    assert_eq!(earlier.items[0].id.as_u128(), FILE_ID_1);
    assert_eq!(earlier.previous.as_deref(), Some("019433e9-ffbb-7c8b-af6c-d4cb061fb919"));
    assert!(earlier.next.is_none());

    let none = store.search(AccountId::new(), &Filter::All, &Paginate::first(10));
    assert!(none.is_empty());
    assert!(none.next.is_none());
}

fn collection_1() -> Collection {
    let mut c = Collection::new(owner(), "All Files", Filter::All);
    c.id = CollectionId::from_u128(COLLECTION_ID_1);
    c
}

fn collection_2() -> Collection {
    let filter = Filter::Op { lhs: Box::new(key_value("ext", "txt")), op: Op::Or, rhs: Box::new(key_value("content_type", "text/plain")) };
    let mut c = Collection::new(owner(), "Text Files", filter);
    c.id = CollectionId::from_u128(COLLECTION_ID_2);
    c
}

fn filter_text(c: &Collection) -> String {
    format!("{:?}", c.filter())
}

fn file_ids(c: &Collection) -> Vec<u128> {
    let mut ids: Vec<u128> = c.files().iter().map(|f| f.as_u128()).collect();
    ids.sort();
    ids
}

#[test]
fn it_refreshes_a_collection() {
    let files = InMemoryFileMetadata::from_files(vec![file_1(), file_2()]);
    let collection = Collection::new(owner(), "test", Filter::All);
    let collection_id = collection.id;
    let mut collections = InMemoryCollectionStore::new();
    collections.save(collection);

    assert!(refresh_collection(&mut collections, &files, RefreshCollection { collection_id }, &Paginate::first(100)));

    let collection = collections.by_id(collection_id).unwrap();
    assert!(collection.contains_file(FileId::from_u128(FILE_ID_1)));
    assert!(collection.contains_file(FileId::from_u128(FILE_ID_2)));

    assert!(!refresh_collection(&mut collections, &files, RefreshCollection { collection_id: CollectionId::new() }, &Paginate::first(100)));
}

#[test]
fn tests_it_lists_collections() {
    let files = InMemoryFileMetadata::from_files(vec![file_1(), file_2()]);
    let mut store = InMemoryCollectionStore::new();
    store.save(collection_2());
    store.save(collection_1());

    for id in [COLLECTION_ID_1, COLLECTION_ID_2] {
        let job = RefreshCollection { collection_id: CollectionId::from_u128(id) };
        assert!(refresh_collection(&mut store, &files, job, &Paginate::first(100)));
    }

    let listed = store.all_owned_by(owner(), &Paginate::first(100));
    assert_eq!(listed.len(), 2);
    let c1 = &listed.items[0];
    let c2 = &listed.items[1];
    assert_eq!(c1.id.as_u128(), COLLECTION_ID_1);
    assert_eq!(c1.owner_id, owner());
    assert_eq!(c1.name, "All Files");
    assert_eq!(filter_text(c1), format!("{:?}", collection_1().filter()));
    assert_eq!(file_ids(c1), vec![FILE_ID_1, FILE_ID_2]);
    assert_eq!(c2.id.as_u128(), COLLECTION_ID_2);
    assert_eq!(c2.owner_id, owner());
    assert_eq!(c2.name, "Text Files");
    assert_eq!(filter_text(c2), format!("{:?}", collection_2().filter()));
    assert_eq!(file_ids(c2), vec![FILE_ID_1, FILE_ID_2]);
    assert_eq!(listed.next.as_deref(), Some("019497f7-6a4b-7226-9a3c-391628318f5c"));
}

#[test]
fn tests_it_stores_and_fetches_a_collection_by_id() {
    let mut store = InMemoryCollectionStore::new();
    let mut collection = Collection::new(owner(), "mine", Filter::All);
    collection.add(vec![FileId::from_u128(FILE_ID_1)]);

    let saved = store.save(collection.duplicate());
    assert_eq!(saved.id, collection.id);
    assert_eq!(saved.owner_id, collection.owner_id);
    assert_eq!(saved.name, collection.name);
    assert_eq!(filter_text(&saved), filter_text(&collection));
    assert_eq!(file_ids(&saved), vec![FILE_ID_1]);

    let found = store.by_id(collection.id).unwrap();
    assert_eq!(found.id, collection.id);
    assert_eq!(found.name, "mine");
    assert_eq!(found.owner_id, collection.owner_id);
    assert_eq!(filter_text(&found), filter_text(&collection));
    assert_eq!(filter_text(&found), "All");
    assert_eq!(file_ids(&found), vec![FILE_ID_1]);
    assert!(store.by_id(CollectionId::new()).is_none());
}

#[test]
fn refreshing_replaces_the_files_with_what_was_found() {
    let files = InMemoryFileMetadata::from_files(vec![file_1(), file_2()]);
    let mut collection = Collection::new(owner(), "only one", key("file2"));
    collection.add(vec![FileId::from_u128(FILE_ID_1)]);
    let found = files.search(owner(), collection.filter(), &Paginate::first(10));
    let refreshed = refresh(collection, &found);
    assert_eq!(file_ids(&refreshed), vec![FILE_ID_2]);
}

#[test]
fn refreshing_all_collections_stops_at_the_last_page() {
    let mut store = InMemoryCollectionStore::new();
    store.save(collection_1());
    store.save(collection_2());

    let page = store.all_owned_by(owner(), &Paginate::first(1));
    match refresh_step(&page) {
        RefreshStep::Continue { refresh, next } => {
            // which of the two comes first depends on the store's walk order
            assert_eq!(refresh.len(), 1);
            if refresh[0].as_u128() == COLLECTION_ID_1 {
                assert_eq!(next, "019497f6-6111-70c5-8575-420fff86e99b");
            } else {
                assert_eq!(refresh[0].as_u128(), COLLECTION_ID_2);
                assert_eq!(next, "019497f7-6a4b-7226-9a3c-391628318f5c");
            }
        }
        RefreshStep::Done => panic!("expected more collections"),
    }

    let empty = store.all_owned_by(AccountId::new(), &Paginate::first(1));
    assert!(matches!(refresh_step(&empty), RefreshStep::Done));
}

#[test]
fn stored_links_become_the_files_of_their_collection() {
    let c = collection_1();
    let other = CollectionId::from_u128(COLLECTION_ID_2);
    let links = vec![
        (CollectionId::from_u128(COLLECTION_ID_1), FileId::from_u128(FILE_ID_2)),
        (other, FileId::from_u128(FILE_ID_1)),
        (CollectionId::from_u128(COLLECTION_ID_1), FileId::from_u128(FILE_ID_2)),
    ];
    let linked = with_linked_files(c, &links);
    assert_eq!(file_ids(&linked), vec![FILE_ID_2]);
}

#[test]
fn a_search_returns_only_stored_files() {
    let store = InMemoryFileMetadata::from_files(vec![file_1(), file_2()]);
    let page = store.search(owner(), &key("file2"), &Paginate::first(10));
    assert_eq!(page.len(), 1);
    for f in page.items.iter() {
        let stored = store.by_id(owner(), f.id).unwrap();
        check_file(&stored, f);
    }
}

#[test]
fn a_listing_returns_only_stored_collections_of_the_owner() {
    let mut store = InMemoryCollectionStore::new();
    store.save(collection_1());
    store.save(collection_2());
    store.save(Collection::new(AccountId::new(), "someone else's", Filter::All));
    let listed = store.all_owned_by(owner(), &Paginate::first(10));
    assert_eq!(listed.len(), 2);
    for c in listed.items.iter() {
        assert_eq!(c.owner_id, owner());
        let stored = store.by_id(c.id).unwrap();
        assert_eq!(stored.name, c.name);
    }
}
