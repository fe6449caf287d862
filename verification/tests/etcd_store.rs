use fusefs::store::etcd_store::{EtcdStore, Fetched, FileData, Held};
use std::time::{Duration, SystemTime};
use fusefs::store::store::{create_attr, FileType, StoreError};

fn index() -> EtcdStore {
    EtcdStore::new(true, &vec![]).unwrap()
}

fn file_entry(ino: u64, name: &str, parent: u64, data: &[u8]) -> FileData {
    let mut attr = create_attr(ino, 1, 2, FileType::RegularFile);
    attr.size = data.len() as u64;
    FileData { name: name.to_string(), attr, parent: Some(parent), data: data.to_vec() }
}

fn dir_entry(ino: u64, name: &str, parent: u64) -> FileData {
    let attr = create_attr(ino, 1, 2, FileType::Directory);
    FileData { name: name.to_string(), attr, parent: Some(parent), data: vec![] }
}

fn add_file(store: &mut EtcdStore, name: &str, parent: u64) -> u64 {
    let record = store.create_file(name.to_string(), parent, 0, 0).unwrap();
    store.commit_create(&record, true).unwrap().ino
}

fn add_dir(store: &mut EtcdStore, name: &str, parent: u64) -> u64 {
    let record = store.create_dir(name.to_string(), parent, 0, 0).unwrap();
    store.commit_create(&record, true).unwrap().ino
}

#[test]
fn root_entry_is_the_well_known_one() {
    let root = EtcdStore::root_record();
    assert_eq!(root.name, ".");
    assert_eq!(root.parent, None);
    assert!(root.data.is_empty());
    assert_eq!(root.attr.ino, 1);
    assert_eq!(root.attr.kind, FileType::Directory);
    assert_eq!(root.attr.perm, 0o755);
    assert_eq!(root.attr.nlink, 2);
    assert_eq!(root.attr.blksize, 512);
}

#[test]
fn no_store_without_the_root_entry() {
    assert_eq!(EtcdStore::new(false, &vec![]).err(), Some(StoreError::Unavailable));
    let store = EtcdStore::new(true, &vec![]).unwrap();
    assert_eq!(store.get_dir_entries(1), Vec::<u64>::new());
    assert_eq!(store.lookup_file(".".to_string(), 1), None);
}

#[test]
fn prepared_file_carries_the_next_identifier() {
    let mut store = index();
    let record = store.create_file("f".to_string(), 1, 7, 8).unwrap();
    assert_eq!(record.name, "f");
    assert_eq!(record.parent, Some(1));
    assert!(record.data.is_empty());
    assert_eq!(record.attr.ino, 2);
    assert_eq!(record.attr.kind, FileType::RegularFile);
    assert_eq!(record.attr.perm, 0o644);
    assert_eq!((record.attr.uid, record.attr.gid), (7, 8));
    assert_eq!(record.attr.size, 0);
    assert_eq!(record.attr.nlink, 1);
    let next = store.create_dir("d".to_string(), 1, 7, 8).unwrap();
    assert_eq!(next.attr.ino, 3);
    assert_eq!(next.attr.kind, FileType::Directory);
    assert_eq!(next.attr.perm, 0o755);
}

#[test]
fn index_learns_of_a_record_only_after_the_put() {
    let mut store = index();
    let record = store.create_file("f".to_string(), 1, 0, 0).unwrap();
    assert_eq!(store.lookup_file("f".to_string(), 1), None);
    assert_eq!(store.get_dir_entries(1), Vec::<u64>::new());
    assert_eq!(store.commit_create(&record, false).err(), Some(StoreError::Unavailable));
    assert_eq!(store.lookup_file("f".to_string(), 1), None);
    assert_eq!(store.get_dir_entries(1), Vec::<u64>::new());
    let attr = store.commit_create(&record, true).unwrap();
    assert_eq!(attr.ino, 2);
    assert_eq!(store.lookup_file("f".to_string(), 1), Some(2));
    assert_eq!(store.get_dir_entries(1), vec![2]);
}

#[test]
fn index_refuses_what_it_cannot_place() {
    let mut store = index();
    let record = store.create_file("f".to_string(), 1, 0, 0).unwrap();
    store.commit_create(&record, true).unwrap();
    assert_eq!(store.commit_create(&record, true).err(), Some(StoreError::NotFound));
    assert_eq!(
        store.commit_create(&file_entry(9, "late", 1, b""), true).err(),
        Some(StoreError::NotFound)
    );
    assert_eq!(
        store.commit_create(&file_entry(1, "root", 1, b""), true).err(),
        Some(StoreError::NotFound)
    );
    let orphan = EtcdStore::root_record();
    assert_eq!(store.commit_create(&orphan, true).err(), Some(StoreError::NotFound));
    let pending = store.create_file("g".to_string(), 1, 0, 0).unwrap();
    let misplaced = FileData { parent: Some(2), ..pending };
    assert_eq!(store.commit_create(&misplaced, true).err(), Some(StoreError::NotFound));
    assert_eq!(store.get_dir_entries(1), vec![2]);
}

#[test]
fn create_under_an_unknown_directory_is_not_found() {
    let mut store = index();
    add_file(&mut store, "f", 1);
    assert_eq!(
        store.create_file("x".to_string(), 5, 0, 0).err(),
        Some(StoreError::NotFound)
    );
    assert_eq!(
        store.create_dir("x".to_string(), 2, 0, 0).err(),
        Some(StoreError::NotFound)
    );
    let next = store.create_file("y".to_string(), 1, 0, 0).unwrap();
    assert_eq!(next.attr.ino, 3);
}

#[test]
fn index_mirrors_the_tree() {
    let mut store = index();
    let d = add_dir(&mut store, "d", 1);
    let f = add_file(&mut store, "f", d);
    let g = add_file(&mut store, "g", 1);
    assert_eq!((d, f, g), (2, 3, 4));
    assert_eq!(store.get_dir_entries(1), vec![2, 4]);
    assert_eq!(store.get_dir_entries(2), vec![3]);
    assert_eq!(store.get_dir_entries(3), Vec::<u64>::new());
    assert_eq!(store.lookup_file("f".to_string(), 2), Some(3));
    assert_eq!(store.lookup_file("f".to_string(), 1), None);
    assert_eq!(store.lookup_file("g".to_string(), 1), Some(4));
    assert_eq!(store.lookup_file("d".to_string(), 1), Some(2));
}

#[test]
fn index_resolves_to_the_record_issued_last() {
    let mut store = index();
    add_file(&mut store, "x", 1);
    add_file(&mut store, "x", 1);
    assert_eq!(store.lookup_file("x".to_string(), 1), Some(3));
    assert_eq!(store.delete_file("x".to_string()), Some(3));
}

#[test]
fn file_deletion_resolves_files_only() {
    let mut store = index();
    add_dir(&mut store, "d", 1);
    add_file(&mut store, "f", 2);
    assert_eq!(store.delete_file("f".to_string()), Some(3));
    assert_eq!(store.delete_file("d".to_string()), None);
    assert_eq!(store.delete_file("nothing".to_string()), None);
    assert_eq!(store.delete_file(".".to_string()), None);
}

#[test]
fn directory_deletion_is_refused_while_children_remain() {
    let mut store = index();
    add_dir(&mut store, "d", 1);
    add_file(&mut store, "f", 2);
    assert_eq!(store.delete_dir("d".to_string()), Err(StoreError::NotEmpty));
    assert_eq!(store.delete_dir("f".to_string()), Ok(None));
    assert_eq!(store.delete_dir("nothing".to_string()), Ok(None));
    assert_eq!(store.delete_dir(".".to_string()), Ok(None));
    assert_eq!(store.commit_delete(3, true), Ok(()));
    assert_eq!(store.delete_dir("d".to_string()), Ok(Some(2)));
}

#[test]
fn index_forgets_a_record_only_after_the_delete() {
    let mut store = index();
    add_dir(&mut store, "d", 1);
    add_file(&mut store, "f", 2);
    add_file(&mut store, "g", 2);
    assert_eq!(store.commit_delete(3, false), Err(StoreError::Unavailable));
    assert_eq!(store.get_dir_entries(2), vec![3, 4]);
    assert_eq!(store.lookup_file("f".to_string(), 2), Some(3));
    assert_eq!(store.commit_delete(3, true), Ok(()));
    assert_eq!(store.get_dir_entries(2), vec![4]);
    assert_eq!(store.lookup_file("f".to_string(), 2), None);
    assert_eq!(store.lookup_file("g".to_string(), 2), Some(4));
}

#[test]
fn index_keeps_the_root_and_full_directories() {
    let mut store = index();
    add_dir(&mut store, "d", 1);
    add_file(&mut store, "f", 2);
    assert_eq!(store.commit_delete(1, true), Ok(()));
    assert_eq!(store.commit_delete(2, true), Ok(()));
    assert_eq!(store.commit_delete(77, true), Ok(()));
    assert_eq!(store.get_dir_entries(1), vec![2]);
    assert_eq!(store.get_dir_entries(2), vec![3]);
    assert_eq!(store.lookup_file("d".to_string(), 1), Some(2));
}

#[test]
fn deleted_directory_leaves_the_index() {
    let mut store = index();
    add_dir(&mut store, "d", 1);
    add_dir(&mut store, "e", 1);
    assert_eq!(store.commit_delete(2, true), Ok(()));
    assert_eq!(store.get_dir_entries(1), vec![3]);
    assert_eq!(
        store.create_file("x".to_string(), 2, 0, 0).err(),
        Some(StoreError::NotFound)
    );
    let next = store.create_file("x".to_string(), 3, 0, 0).unwrap();
    assert_eq!(next.attr.ino, 4);
}

#[test]
fn lookup_reply_places_the_entry_under_the_parent() {
    let entry = file_entry(3, "f", 2, b"abc");
    let crtime = entry.attr.crtime;
    let (ino, info) = EtcdStore::lookup_reply(3, 2, Fetched::Found(entry)).unwrap();
    assert_eq!(ino, 3);
    assert_eq!(info.name, "f");
    assert_eq!(info.parent, Some(2));
    assert_eq!(info.attr.ino, 3);
    assert_eq!(info.attr.size, 3);
    assert_eq!(info.attr.crtime, crtime);
    assert!(EtcdStore::lookup_reply(3, 2, Fetched::Missing).is_none());
    assert!(EtcdStore::lookup_reply(3, 2, Fetched::Failed).is_none());
}

#[test]
fn listing_shows_what_was_found() {
    let fetched = vec![
        Fetched::Found(file_entry(3, "f", 2, b"")),
        Fetched::Missing,
        Fetched::Found(dir_entry(5, "d", 2)),
        Fetched::Failed,
    ];
    let entries = EtcdStore::dir_listing(2, &fetched);
    assert_eq!(
        entries,
        vec![
            (2, FileType::Directory, ".".to_string()),
            (2, FileType::Directory, "..".to_string()),
            (3, FileType::RegularFile, "f".to_string()),
            (5, FileType::Directory, "d".to_string()),
        ]
    );
    assert_eq!(
        EtcdStore::dir_listing(1, &vec![]),
        vec![
            (1, FileType::Directory, ".".to_string()),
            (1, FileType::Directory, "..".to_string()),
        ]
    );
}

#[test]
fn remote_read_is_cut_at_the_end_of_the_content() {
    let found = Fetched::Found(file_entry(3, "f", 1, b"hello"));
    assert_eq!(EtcdStore::read_data(&found, 0, 5), Ok(b"hello".to_vec()));
    assert_eq!(EtcdStore::read_data(&found, 1, 2), Ok(b"el".to_vec()));
    assert_eq!(EtcdStore::read_data(&found, 3, 100), Ok(b"lo".to_vec()));
    assert_eq!(EtcdStore::read_data(&found, 5, 1), Ok(vec![]));
    assert_eq!(EtcdStore::read_data(&found, 100, 1), Ok(vec![]));
    assert_eq!(EtcdStore::read_data(&found, -1, 1), Ok(vec![]));
}

#[test]
fn remote_read_reports_what_went_wrong() {
    assert_eq!(EtcdStore::read_data(&Fetched::Missing, 0, 1), Err(StoreError::NotFound));
    assert_eq!(EtcdStore::read_data(&Fetched::Failed, 0, 1), Err(StoreError::Unavailable));
    let dir = Fetched::Found(dir_entry(2, "d", 1));
    assert_eq!(EtcdStore::read_data(&dir, 0, 1), Err(StoreError::NotFound));
}

#[test]
fn remote_write_replaces_or_appends() {
    let replaced =
        EtcdStore::write_data(Fetched::Found(file_entry(3, "f", 1, b"old")), b"fresh", 0)
            .unwrap();
    assert_eq!(replaced.data, b"fresh".to_vec());
    assert_eq!(replaced.attr.size, 5);
    assert_eq!(replaced.name, "f");
    assert_eq!(replaced.parent, Some(1));
    assert_eq!(replaced.attr.ino, 3);
    let appended =
        EtcdStore::write_data(Fetched::Found(file_entry(3, "f", 1, b"old")), b"er", 3).unwrap();
    assert_eq!(appended.data, b"older".to_vec());
    assert_eq!(appended.attr.size, 5);
    let below =
        EtcdStore::write_data(Fetched::Found(file_entry(3, "f", 1, b"old")), b"x", -1).unwrap();
    assert_eq!(below.data, b"x".to_vec());
}

#[test]
fn remote_write_reports_what_went_wrong() {
    assert_eq!(
        EtcdStore::write_data(Fetched::Missing, b"x", 0).err(),
        Some(StoreError::NotFound)
    );
    assert_eq!(
        EtcdStore::write_data(Fetched::Failed, b"x", 0).err(),
        Some(StoreError::Unavailable)
    );
    assert_eq!(
        EtcdStore::write_data(Fetched::Found(dir_entry(2, "d", 1)), b"x", 0).err(),
        Some(StoreError::NotFound)
    );
    assert_eq!(EtcdStore::write_reply(b"hello", true), Ok(5));
    assert_eq!(EtcdStore::write_reply(b"", true), Ok(0));
    assert_eq!(EtcdStore::write_reply(b"hello", false), Err(StoreError::Unavailable));
}

#[test]
fn remote_open_and_attributes_need_the_entry() {
    let found = Fetched::Found(file_entry(3, "f", 1, b"abc"));
    assert_eq!(EtcdStore::open_file(3, &found), Some(3));
    assert_eq!(EtcdStore::open_file(3, &Fetched::Missing), None);
    assert_eq!(EtcdStore::open_file(3, &Fetched::Failed), None);
    let attr = EtcdStore::get_file_attr(&found).unwrap();
    assert_eq!((attr.ino, attr.size, attr.uid, attr.gid), (3, 3, 1, 2));
    assert!(EtcdStore::get_file_attr(&Fetched::Missing).is_none());
    assert!(EtcdStore::get_file_attr(&Fetched::Failed).is_none());
}

#[test]
fn remote_attributes_change_as_asked() {
    let entry = file_entry(3, "f", 1, b"abc");
    let crtime = entry.attr.crtime;
    let changed =
        EtcdStore::set_file_attr(Fetched::Found(entry), Some(9), None, None).unwrap();
    assert_eq!((changed.attr.uid, changed.attr.gid, changed.attr.size), (9, 2, 3));
    assert_eq!(changed.attr.crtime, crtime);
    assert_eq!(changed.attr.ino, 3);
    assert_eq!(changed.attr.kind, FileType::RegularFile);
    assert_eq!(changed.data, b"abc".to_vec());
    assert_eq!(changed.name, "f");
    assert_eq!(changed.parent, Some(1));
    assert_eq!(EtcdStore::set_attr_reply(&changed, true).unwrap().uid, 9);
    assert!(EtcdStore::set_attr_reply(&changed, false).is_none());
    assert!(EtcdStore::set_file_attr(Fetched::Missing, Some(9), None, None).is_none());
    assert!(EtcdStore::set_file_attr(Fetched::Failed, Some(9), None, None).is_none());
}

#[test]
fn remote_attributes_carry_the_reading() {
    let at = SystemTime::UNIX_EPOCH + Duration::from_secs(500);
    let entry = file_entry(3, "f", 1, b"abc");
    let crtime = entry.attr.crtime;
    let changed =
        EtcdStore::set_file_attr_at(Fetched::Found(entry), None, Some(4), None, at).unwrap();
    assert_eq!((changed.attr.atime, changed.attr.mtime, changed.attr.ctime), (at, at, at));
    assert_eq!(changed.attr.crtime, crtime);
    assert_eq!((changed.attr.uid, changed.attr.gid, changed.attr.size), (1, 4, 3));
    assert!(EtcdStore::set_file_attr_at(Fetched::Missing, None, None, None, at).is_none());
    assert!(EtcdStore::set_file_attr_at(Fetched::Failed, None, None, None, at).is_none());
}

#[test]
fn remote_attributes_are_refreshed() {
    let entry = file_entry(3, "f", 1, b"abc");
    let made = entry.attr.crtime;
    while SystemTime::now() <= made {}
    let changed = EtcdStore::set_file_attr(Fetched::Found(entry), None, None, None).unwrap();
    assert!(changed.attr.atime > made);
    assert_eq!(changed.attr.mtime, changed.attr.atime);
    assert_eq!(changed.attr.ctime, changed.attr.atime);
    assert_eq!(changed.attr.crtime, made);
}

#[test]
fn remote_bytes_follow_the_size() {
    let at = SystemTime::UNIX_EPOCH;
    let cut = EtcdStore::set_file_attr_at(
        Fetched::Found(file_entry(3, "f", 1, b"hello")),
        None,
        None,
        Some(2),
        at,
    )
    .unwrap();
    assert_eq!((cut.attr.size, cut.data), (2, b"he".to_vec()));
    let filled = EtcdStore::set_file_attr_at(
        Fetched::Found(file_entry(3, "f", 1, b"hi")),
        None,
        None,
        Some(4),
        at,
    )
    .unwrap();
    assert_eq!((filled.attr.size, filled.data), (4, vec![104, 105, 0, 0]));
    let dir =
        EtcdStore::set_file_attr_at(Fetched::Found(dir_entry(2, "d", 1)), None, None, Some(4), at)
            .unwrap();
    assert_eq!((dir.attr.size, dir.data), (4, vec![]));
}

fn held(key: &str, record: Option<FileData>) -> Held {
    Held { key: key.to_string(), record }
}

#[test]
fn restored_index_mirrors_the_entries() {
    let entries = vec![
        held("1", Some(EtcdStore::root_record())),
        held("2", Some(dir_entry(2, "d", 1))),
        held("3", Some(file_entry(3, "f", 2, b"abc"))),
        held("5", Some(file_entry(5, "g", 1, b""))),
    ];
    let mut store = EtcdStore::new(true, &entries).unwrap();
    assert_eq!(store.last_ino(), 5);
    assert_eq!(store.get_dir_entries(1), vec![2, 5]);
    assert_eq!(store.get_dir_entries(2), vec![3]);
    assert_eq!(store.lookup_file("d".to_string(), 1), Some(2));
    assert_eq!(store.lookup_file("f".to_string(), 2), Some(3));
    assert_eq!(store.lookup_file("g".to_string(), 1), Some(5));
    assert_eq!(store.delete_dir("d".to_string()), Err(StoreError::NotEmpty));
    let next = store.create_file("new".to_string(), 2, 0, 0).unwrap();
    assert_eq!(next.attr.ino, 6);
}

#[test]
fn restored_index_never_reissues_an_identifier() {
    let entries = vec![
        held("40", None),
        held("7", Some(file_entry(7, "lost", 99, b""))),
        held("12", Some(file_entry(13, "mismatch", 1, b""))),
        held("not a key", Some(file_entry(90, "x", 1, b""))),
        held("", None),
        held("0", Some(file_entry(0, "zero", 1, b""))),
    ];
    let mut store = EtcdStore::new(true, &entries).unwrap();
    assert_eq!(store.last_ino(), 40);
    assert_eq!(store.get_dir_entries(1), Vec::<u64>::new());
    assert_eq!(store.lookup_file("lost".to_string(), 99), None);
    assert_eq!(store.lookup_file("mismatch".to_string(), 1), None);
    let next = store.create_file("new".to_string(), 1, 0, 0).unwrap();
    assert_eq!(next.attr.ino, 41);
}

#[test]
fn restored_index_places_what_it_can_in_the_order_given() {
    let entries = vec![
        held("3", Some(file_entry(3, "early", 2, b""))),
        held("2", Some(dir_entry(2, "d", 1))),
        held("2", Some(dir_entry(2, "again", 1))),
        held("4", Some(file_entry(4, "late", 2, b""))),
    ];
    let store = EtcdStore::new(true, &entries).unwrap();
    assert_eq!(store.last_ino(), 4);
    assert_eq!(store.get_dir_entries(1), vec![2]);
    assert_eq!(store.get_dir_entries(2), vec![4]);
    assert_eq!(store.lookup_file("d".to_string(), 1), Some(2));
    assert_eq!(store.lookup_file("again".to_string(), 1), None);
    assert_eq!(store.lookup_file("early".to_string(), 2), None);
    assert_eq!(EtcdStore::new(false, &entries).err(), Some(StoreError::Unavailable));
}

#[test]
fn identifiers_stay_issued_after_a_failed_put() {
    let mut store = index();
    assert_eq!(store.last_ino(), 1);
    let lost = store.create_file("f".to_string(), 1, 0, 0).unwrap();
    assert_eq!(store.last_ino(), 2);
    assert_eq!(store.commit_create(&lost, false).err(), Some(StoreError::Unavailable));
    let next = store.create_file("f".to_string(), 1, 0, 0).unwrap();
    assert_eq!(next.attr.ino, 3);
    assert_eq!(store.commit_create(&next, true).unwrap().ino, 3);
    assert_eq!(store.lookup_file("f".to_string(), 1), Some(3));
    assert_eq!(store.commit_create(&lost, true).unwrap().ino, 2);
    assert_eq!(store.get_dir_entries(1), vec![3, 2]);
    assert_eq!(store.lookup_file("f".to_string(), 1), Some(3));
}
