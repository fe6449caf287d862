use fusefs::store::store::{
    create_attr, create_attr_at, fits, read_bytes, resize_bytes, root_attr, root_attr_for,
    update_attr, update_attr_at, write_bytes, FileInfo, FileType, BLOCK_SIZE, ROOT_INO,
};
use std::time::{Duration, SystemTime};

fn at(secs: u64) -> SystemTime {
    SystemTime::UNIX_EPOCH + Duration::from_secs(secs)
}

#[test]
fn fresh_attributes_follow_the_kind() {
    let file = create_attr(9, 1, 2, FileType::RegularFile);
    assert_eq!((file.ino, file.uid, file.gid), (9, 1, 2));
    assert_eq!(file.perm, 0o644);
    assert_eq!(file.kind, FileType::RegularFile);
    assert_eq!((file.size, file.blocks, file.nlink, file.rdev, file.flags), (0, 0, 1, 0, 0));
    assert_eq!(file.blksize, BLOCK_SIZE);
    let dir = create_attr(10, 3, 4, FileType::Directory);
    assert_eq!(dir.perm, 0o755);
    assert_eq!(dir.kind, FileType::Directory);
    assert_eq!(dir.nlink, 1);
}

#[test]
fn root_attributes_are_fixed() {
    let root = root_attr();
    assert_eq!(root.ino, ROOT_INO);
    assert_eq!(ROOT_INO, 1);
    assert_eq!(root.kind, FileType::Directory);
    assert_eq!(root.perm, 0o755);
    assert_eq!(root.nlink, 2);
    assert_eq!((root.uid, root.gid, root.size, root.blocks), (0, 0, 0, 0));
    assert_eq!(root.blksize, 512);
}

#[test]
fn updated_attributes_keep_the_rest() {
    let before = create_attr(9, 1, 2, FileType::RegularFile);
    let after = update_attr(&before, Some(5), Some(6), Some(7));
    assert_eq!((after.uid, after.gid, after.size), (5, 6, 7));
    assert_eq!(after.ino, 9);
    assert_eq!(after.perm, before.perm);
    assert_eq!(after.kind, before.kind);
    assert_eq!(after.nlink, before.nlink);
    assert_eq!(after.blksize, before.blksize);
    assert_eq!(after.crtime, before.crtime);
    assert!(after.mtime >= before.mtime);
    let same = update_attr(&after, None, None, None);
    assert_eq!((same.uid, same.gid, same.size), (5, 6, 7));
}

#[test]
fn read_bytes_clamps_to_the_content() {
    let content = b"0123456789".to_vec();
    assert_eq!(read_bytes(&content, 0, 10), content);
    assert_eq!(read_bytes(&content, 0, 11), content);
    assert_eq!(read_bytes(&content, 2, 3), b"234".to_vec());
    assert_eq!(read_bytes(&content, 9, 1), b"9".to_vec());
    assert_eq!(read_bytes(&content, 9, 2), b"9".to_vec());
    assert_eq!(read_bytes(&content, 10, 1), Vec::<u8>::new());
    assert_eq!(read_bytes(&content, 11, 0), Vec::<u8>::new());
    assert_eq!(read_bytes(&content, -5, 3), Vec::<u8>::new());
    assert_eq!(read_bytes(&content, i64::MIN, u32::MAX), Vec::<u8>::new());
    assert_eq!(read_bytes(&content, 5, u32::MAX), b"56789".to_vec());
    assert_eq!(read_bytes(&vec![], 0, 4), Vec::<u8>::new());
}

#[test]
fn write_bytes_replaces_or_appends() {
    assert_eq!(write_bytes(b"abc".to_vec(), b"xy", 0), b"xy".to_vec());
    assert_eq!(write_bytes(b"abc".to_vec(), b"xy", 1), b"abcxy".to_vec());
    assert_eq!(write_bytes(b"abc".to_vec(), b"xy", 3), b"abcxy".to_vec());
    assert_eq!(write_bytes(b"abc".to_vec(), b"xy", i64::MAX), b"abcxy".to_vec());
    assert_eq!(write_bytes(b"abc".to_vec(), b"xy", -1), b"xy".to_vec());
    assert_eq!(write_bytes(vec![], b"", 0), Vec::<u8>::new());
    assert_eq!(write_bytes(vec![], b"a", 7), b"a".to_vec());
}

#[test]
fn record_clone_is_equal() {
    let info = FileInfo {
        parent: Some(1),
        name: "n".to_string(),
        attr: create_attr(2, 0, 0, FileType::RegularFile),
    };
    assert_eq!(info.clone(), info);
}

#[test]
fn fresh_attributes_carry_the_reading() {
    let attr = create_attr_at(9, 1, 2, FileType::RegularFile, at(100));
    assert_eq!((attr.atime, attr.mtime), (at(100), at(100)));
    assert_eq!((attr.ctime, attr.crtime), (at(100), at(100)));
    assert_eq!((attr.ino, attr.uid, attr.gid, attr.perm, attr.size), (9, 1, 2, 0o644, 0));
    let dir = create_attr_at(3, 0, 0, FileType::Directory, at(7));
    assert_eq!((dir.perm, dir.nlink, dir.crtime), (0o755, 1, at(7)));
    let root = root_attr_for(at(5));
    assert_eq!((root.ino, root.nlink, root.perm), (1, 2, 0o755));
    assert_eq!((root.atime, root.mtime, root.ctime, root.crtime), (at(5), at(5), at(5), at(5)));
}

#[test]
fn updated_attributes_carry_the_reading() {
    let before = create_attr_at(9, 1, 2, FileType::RegularFile, at(100));
    let same = update_attr_at(&before, None, None, None, at(200));
    assert_eq!((same.atime, same.mtime, same.ctime), (at(200), at(200), at(200)));
    assert_eq!(same.crtime, at(100));
    assert_eq!((same.uid, same.gid, same.size), (1, 2, 0));
    let changed = update_attr_at(&same, Some(7), Some(8), Some(9), at(150));
    assert_eq!((changed.uid, changed.gid, changed.size), (7, 8, 9));
    assert_eq!((changed.atime, changed.mtime, changed.ctime), (at(150), at(150), at(150)));
    assert_eq!(changed.crtime, at(100));
    assert_eq!((changed.ino, changed.kind, changed.perm), (9, FileType::RegularFile, 0o644));
}

#[test]
fn clock_readings_lie_between_two_looks_at_the_clock() {
    let before = SystemTime::now();
    let made = create_attr(1, 0, 0, FileType::RegularFile);
    let updated = update_attr(&made, None, None, None);
    let after = SystemTime::now();
    assert!(before <= made.crtime && made.crtime <= updated.atime && updated.atime <= after);
    assert_eq!((updated.mtime, updated.ctime), (updated.atime, updated.atime));
}

#[test]
fn resize_cuts_or_fills_with_zeros() {
    assert_eq!(resize_bytes(b"hello".to_vec(), 2), b"he".to_vec());
    assert_eq!(resize_bytes(b"hello".to_vec(), 5), b"hello".to_vec());
    assert_eq!(resize_bytes(b"hello".to_vec(), 0), Vec::<u8>::new());
    assert_eq!(resize_bytes(b"hi".to_vec(), 4), vec![104, 105, 0, 0]);
    assert_eq!(resize_bytes(vec![], 3), vec![0, 0, 0]);
    assert_eq!(resize_bytes(vec![], 0), Vec::<u8>::new());
}

#[test]
fn sizes_fit_a_buffer() {
    assert!(fits(None));
    assert!(fits(Some(0)));
    assert!(fits(Some(1 << 20)));
    assert_eq!(fits(Some(u64::MAX)), u64::MAX <= usize::MAX as u64);
}
