use fusefs::fuse::{readdir_window, reply_code, DirSlot, Errno, FuseFS, Reply};
use fusefs::store::memory_store::MemoryStore;
use fusefs::store::store::{FileType, StoreError};

fn adapter() -> FuseFS<MemoryStore> {
    FuseFS::new().unwrap()
}

fn attr_of(reply: Reply) -> fusefs::store::store::FileAttr {
    match reply {
        Reply::Created(attr) | Reply::Entry(attr) | Reply::Attr(attr) => attr,
        other => panic!("no attributes in {:?}", other),
    }
}

fn slots_of(reply: Reply) -> Vec<(u64, i64, FileType, String)> {
    match reply {
        Reply::Directory(slots) => {
            slots.into_iter().map(|s| (s.ino, s.next_offset, s.kind, s.name)).collect()
        }
        other => panic!("no listing in {:?}", other),
    }
}

fn is_error(reply: &Reply, code: Errno) -> bool {
    matches!(reply, Reply::Error(c) if *c == code)
}

#[test]
fn store_failures_map_to_reply_codes() {
    assert_eq!(reply_code(StoreError::NotFound), Errno::NoEntry);
    assert_eq!(reply_code(StoreError::NotEmpty), Errno::NotEmpty);
    assert_eq!(reply_code(StoreError::Unavailable), Errno::Io);
}

#[test]
fn adapter_serves_the_scenario() {
    let mut fs = adapter();
    let dir = attr_of(fs.mkdir(1, "a".to_string(), 1000, 1000));
    assert_eq!((dir.ino, dir.kind), (2, FileType::Directory));
    let file = attr_of(fs.create(2, "b.txt".to_string(), 1000, 1000));
    assert_eq!((file.ino, file.kind), (3, FileType::RegularFile));
    assert!(matches!(fs.write(3, 0, b"hello"), Reply::Written(5)));
    assert_eq!(attr_of(fs.getattr(3)).size, 5);
    assert!(matches!(fs.read(3, 0, 5), Reply::Data(bytes) if bytes == b"hello".to_vec()));
    assert!(is_error(&fs.rmdir("a".to_string()), Errno::NotEmpty));
    assert!(matches!(fs.unlink("b.txt".to_string()), Reply::Empty));
    assert!(matches!(fs.rmdir("a".to_string()), Reply::Empty));
    assert!(is_error(&fs.getattr(2), Errno::NoEntry));
    assert!(is_error(&fs.getattr(3), Errno::NoEntry));
}

#[test]
fn adapter_opens_with_the_identifier_as_handle() {
    let mut fs = adapter();
    fs.create(1, "f".to_string(), 0, 0);
    assert!(matches!(fs.open(2), Reply::Opened { fh: 2, keep_cache: true }));
    assert!(matches!(fs.open(1), Reply::Opened { fh: 1, keep_cache: true }));
    assert!(is_error(&fs.open(3), Errno::NoEntry));
}

#[test]
fn adapter_reports_missing_entries() {
    let mut fs = adapter();
    assert!(is_error(&fs.lookup(1, "f".to_string()), Errno::NoEntry));
    assert!(is_error(&fs.create(9, "f".to_string(), 0, 0), Errno::NoEntry));
    assert!(is_error(&fs.mkdir(9, "d".to_string(), 0, 0), Errno::NoEntry));
    assert!(is_error(&fs.write(9, 0, b"x"), Errno::NoEntry));
    assert!(is_error(&fs.read(9, 0, 1), Errno::NoEntry));
    assert!(is_error(&fs.setattr(9, None, None, None), Errno::NoEntry));
    assert!(matches!(fs.unlink("nothing".to_string()), Reply::Empty));
    assert!(matches!(fs.rmdir("nothing".to_string()), Reply::Empty));
}

#[test]
fn adapter_looks_up_what_was_created() {
    let mut fs = adapter();
    let made = attr_of(fs.create(1, "f".to_string(), 4, 5));
    let found = attr_of(fs.lookup(1, "f".to_string()));
    assert_eq!(found.ino, made.ino);
    assert_eq!((found.uid, found.gid), (4, 5));
    assert_eq!(found.crtime, made.crtime);
    let changed = attr_of(fs.setattr(2, Some(6), None, Some(10)));
    assert_eq!((changed.uid, changed.gid, changed.size), (6, 5, 10));
}

#[test]
fn adapter_lists_from_an_offset() {
    let mut fs = adapter();
    fs.create(1, "f".to_string(), 0, 0);
    fs.mkdir(1, "d".to_string(), 0, 0);
    assert_eq!(
        slots_of(fs.readdir(1, 0)),
        vec![
            (1, 1, FileType::Directory, ".".to_string()),
            (1, 2, FileType::Directory, "..".to_string()),
            (2, 3, FileType::RegularFile, "f".to_string()),
            (3, 4, FileType::Directory, "d".to_string()),
        ]
    );
    assert_eq!(
        slots_of(fs.readdir(1, 2)),
        vec![
            (2, 3, FileType::RegularFile, "f".to_string()),
            (3, 4, FileType::Directory, "d".to_string()),
        ]
    );
    assert_eq!(slots_of(fs.readdir(1, 4)), vec![]);
    assert_eq!(slots_of(fs.readdir(1, 5)), vec![]);
    assert_eq!(slots_of(fs.readdir(1, -1)), vec![]);
}

#[test]
fn window_counts_from_the_start_of_the_listing() {
    let entries = vec![
        (7, FileType::Directory, ".".to_string()),
        (7, FileType::Directory, "..".to_string()),
        (9, FileType::RegularFile, "x".to_string()),
    ];
    let all: Vec<DirSlot> = readdir_window(&entries, 0);
    assert_eq!(all.len(), 3);
    assert_eq!(all[0].next_offset, 1);
    assert_eq!(all[2].next_offset, 3);
    assert_eq!(all[2].ino, 9);
    assert_eq!(all[2].name, "x");
    let last: Vec<DirSlot> = readdir_window(&entries, 2);
    assert_eq!(last.len(), 1);
    assert_eq!(last[0].ino, 9);
    assert_eq!(last[0].next_offset, 3);
    assert_eq!(last[0].kind, FileType::RegularFile);
    assert!(readdir_window(&entries, 3).is_empty());
    assert!(readdir_window(&entries, i64::MAX).is_empty());
    assert!(readdir_window(&entries, i64::MIN).is_empty());
    assert!(readdir_window(&vec![], 0).is_empty());
}

#[test]
fn replies_carry_what_the_store_returned() {
    assert_eq!(Reply::written(Ok(3)), Reply::Written(3));
    assert_eq!(Reply::written(Err(StoreError::NotFound)), Reply::Error(Errno::NoEntry));
    assert_eq!(Reply::written(Err(StoreError::Unavailable)), Reply::Error(Errno::Io));
    assert_eq!(Reply::opened(Some(4)), Reply::Opened { fh: 4, keep_cache: true });
    assert_eq!(Reply::opened(None), Reply::Error(Errno::NoEntry));
    assert_eq!(Reply::data(Ok(vec![1, 2])), Reply::Data(vec![1, 2]));
    assert_eq!(Reply::data(Err(StoreError::Unavailable)), Reply::Error(Errno::Io));
    assert_eq!(Reply::removed(Ok(())), Reply::Empty);
    assert_eq!(Reply::removed(Err(StoreError::NotEmpty)), Reply::Error(Errno::NotEmpty));
    assert_eq!(Reply::removed(Err(StoreError::Unavailable)), Reply::Error(Errno::Io));
    assert_eq!(Reply::attr(None), Reply::Error(Errno::NoEntry));
    assert_eq!(Reply::found(None), Reply::Error(Errno::NoEntry));
    assert_eq!(Reply::created(Err(StoreError::Unavailable)), Reply::Error(Errno::Io));
    assert_eq!(Reply::entry(Err(StoreError::NotFound)), Reply::Error(Errno::NoEntry));
}

#[test]
fn replies_carry_the_attributes() {
    let attr = fusefs::store::store::create_attr(5, 1, 2, FileType::RegularFile);
    assert_eq!(Reply::created(Ok(attr)), Reply::Created(attr));
    assert_eq!(Reply::entry(Ok(attr)), Reply::Entry(attr));
    assert_eq!(Reply::attr(Some(attr)), Reply::Attr(attr));
    let info = fusefs::store::store::FileInfo { parent: Some(1), name: "f".to_string(), attr };
    assert_eq!(Reply::found(Some((5, info))), Reply::Entry(attr));
}

#[test]
fn listing_reply_is_the_window() {
    let entries = vec![
        (1, FileType::Directory, ".".to_string()),
        (1, FileType::Directory, "..".to_string()),
        (2, FileType::RegularFile, "f".to_string()),
    ];
    assert_eq!(
        Reply::listing(&entries, 1),
        Reply::Directory(vec![
            DirSlot { ino: 1, next_offset: 2, kind: FileType::Directory, name: "..".to_string() },
            DirSlot { ino: 2, next_offset: 3, kind: FileType::RegularFile, name: "f".to_string() },
        ])
    );
    assert_eq!(Reply::listing(&entries, 9), Reply::Directory(vec![]));
}

#[test]
fn adapter_resizes_a_file() {
    let mut fs = adapter();
    fs.create(1, "f".to_string(), 0, 0);
    fs.write(2, 0, b"hello");
    assert_eq!(attr_of(fs.setattr(2, None, None, Some(3))).size, 3);
    assert_eq!(fs.read(2, 0, 10), Reply::Data(b"hel".to_vec()));
    assert_eq!(attr_of(fs.setattr(2, None, None, Some(5))).size, 5);
    assert_eq!(fs.read(2, 0, 10), Reply::Data(vec![104, 101, 108, 0, 0]));
    assert_eq!(attr_of(fs.getattr(2)).size, 5);
}
