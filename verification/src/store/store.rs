//! The data model shared by every storage engine: attributes, records and
//! the failures an engine can report.
use super::model::{read_range, resized, write_range, StoreModel};
use std::time::SystemTime;
use vstd::prelude::*;
use vstd::slice::{slice_subrange, slice_to_vec};

verus! {

/// A point in time as the standard library reports it. The storage engines
/// carry such values through without looking inside them.
#[verifier::external_type_specification]
#[verifier::external_body]
pub struct ExSystemTime(SystemTime);

/// Reads the clock through `SystemTime::now`. Nothing is claimed of the
/// value that comes back: two calls may differ in any way.
#[verifier::external_body]
pub(crate) fn now() -> (t: SystemTime) {
    SystemTime::now()
}

/// What a record stands for.
#[derive(Clone, Copy, Debug, PartialEq, Eq, Structural)]
pub enum FileType {
    RegularFile,
    Directory,
}

/// The attributes of one file or directory.
#[derive(Clone, Copy, Debug, PartialEq, Eq)]
pub struct FileAttr {
    pub ino: u64,
    pub size: u64,
    pub blocks: u64,
    pub atime: SystemTime,
    pub mtime: SystemTime,
    pub ctime: SystemTime,
    pub crtime: SystemTime,
    pub kind: FileType,
    pub perm: u16,
    pub nlink: u32,
    pub uid: u32,
    pub gid: u32,
    pub rdev: u32,
    pub blksize: u32,
    pub flags: u32,
}

/// Which storage engine a process runs on.
#[derive(Clone, Copy, Debug, PartialEq, Eq, Structural)]
pub enum StoreType {
    InMemory,
    Etcd,
}

/// The failures a storage engine reports.
#[derive(Clone, Copy, Debug, PartialEq, Eq, Structural)]
pub enum StoreError {
    /// A name or an identifier does not resolve.
    NotFound,
    /// A directory still has children.
    NotEmpty,
    /// The engine cannot serve the request: the remote service behind it
    /// did not answer, or no identifier is left to issue.
    Unavailable,
}

/// One record: the attributes of a file or directory together with the name
/// edge that places it in the tree. The root alone has no parent.
#[derive(Debug, PartialEq, Eq)]
pub struct FileInfo {
    pub parent: Option<u64>,
    pub name: String,
    pub attr: FileAttr,
}

impl Clone for FileInfo {
    fn clone(&self) -> (r: Self)
        ensures
            r == *self,
    {
        FileInfo { parent: self.parent, name: self.name.clone(), attr: self.attr }
    }
}

/// Identifier of the root directory.
pub const ROOT_INO: u64 = 1;

/// Block size reported for every record.
pub const BLOCK_SIZE: u32 = 512;

/// What a newly created object of kind `kind` carries when the clock read
/// `at`: it is empty, singly linked, owned by `uid` and `gid`, has the
/// permission bits of its kind, and its four times are `at`.
pub open spec fn fresh_attr(
    ino: u64,
    uid: u32,
    gid: u32,
    kind: FileType,
    at: SystemTime,
) -> FileAttr {
    FileAttr {
        ino,
        kind,
        perm: if kind == FileType::Directory {
            0o755u16
        } else {
            0o644u16
        },
        uid,
        gid,
        size: 0,
        blocks: 0,
        atime: at,
        mtime: at,
        ctime: at,
        crtime: at,
        nlink: 1,
        rdev: 0,
        flags: 0,
        blksize: BLOCK_SIZE,
    }
}

/// `attr` is what a newly created object of kind `kind` carries: the
/// attributes of `fresh_attr` for the one reading of the clock that its
/// times hold.
pub open spec fn is_fresh_attr(
    attr: FileAttr,
    ino: u64,
    uid: u32,
    gid: u32,
    kind: FileType,
) -> bool {
    attr == fresh_attr(ino, uid, gid, kind, attr.crtime)
}

/// What the root directory carries when a store is made while the clock
/// reads `at`.
pub open spec fn root_attr_at(at: SystemTime) -> FileAttr {
    FileAttr {
        ino: ROOT_INO,
        size: 0,
        blocks: 0,
        atime: at,
        mtime: at,
        ctime: at,
        crtime: at,
        kind: FileType::Directory,
        perm: 0o755u16,
        nlink: 2,
        uid: 0,
        gid: 0,
        rdev: 0,
        flags: 0,
        blksize: BLOCK_SIZE,
    }
}

/// `attr` is what the root directory carries when a store is made.
pub open spec fn is_root_attr(attr: FileAttr) -> bool {
    attr == root_attr_at(attr.crtime)
}

/// `before` with the given owner and size put in, every omitted one kept,
/// and the access, modification and change times set to `at`. Nothing else
/// differs; the creation time stays.
pub open spec fn updated_attr(
    before: FileAttr,
    uid: Option<u32>,
    gid: Option<u32>,
    size: Option<u64>,
    at: SystemTime,
) -> FileAttr {
    FileAttr {
        uid: if let Some(u) = uid {
            u
        } else {
            before.uid
        },
        gid: if let Some(g) = gid {
            g
        } else {
            before.gid
        },
        size: if let Some(s) = size {
            s
        } else {
            before.size
        },
        atime: at,
        mtime: at,
        ctime: at,
        ..before
    }
}

/// `after` is `before` changed as asked and refreshed: the attributes of
/// `updated_attr` for the one reading of the clock that its access,
/// modification and change times hold.
pub open spec fn is_updated_attr(
    after: FileAttr,
    before: FileAttr,
    uid: Option<u32>,
    gid: Option<u32>,
    size: Option<u64>,
) -> bool {
    after == updated_attr(before, uid, gid, size, after.atime)
}

/// Attributes of a new object of kind `kind` for a clock that reads `at`.
pub fn create_attr_at(ino: u64, uid: u32, gid: u32, kind: FileType, at: SystemTime) -> (attr:
    FileAttr)
    ensures
        attr == fresh_attr(ino, uid, gid, kind, at),
{
    let perm: u16 = match kind {
        FileType::Directory => 0o755,
        FileType::RegularFile => 0o644,
    };
    FileAttr {
        ino,
        kind,
        perm,
        uid,
        gid,
        size: 0,
        blocks: 0,
        atime: at,
        mtime: at,
        ctime: at,
        crtime: at,
        nlink: 1,
        rdev: 0,
        flags: 0,
        blksize: BLOCK_SIZE,
    }
}

/// Attributes of a new object of kind `kind`, stamped with one reading of
/// the clock.
pub fn create_attr(ino: u64, uid: u32, gid: u32, kind: FileType) -> (attr: FileAttr)
    ensures
        is_fresh_attr(attr, ino, uid, gid, kind),
{
    create_attr_at(ino, uid, gid, kind, now())
}

/// Attributes of the root directory for a clock that reads `at`.
pub fn root_attr_for(at: SystemTime) -> (attr: FileAttr)
    ensures
        attr == root_attr_at(at),
{
    FileAttr {
        ino: ROOT_INO,
        size: 0,
        blocks: 0,
        atime: at,
        mtime: at,
        ctime: at,
        crtime: at,
        kind: FileType::Directory,
        perm: 0o755,
        nlink: 2,
        uid: 0,
        gid: 0,
        rdev: 0,
        flags: 0,
        blksize: BLOCK_SIZE,
    }
}

/// Attributes of the root directory, stamped with one reading of the clock.
pub fn root_attr() -> (attr: FileAttr)
    ensures
        is_root_attr(attr),
{
    root_attr_for(now())
}

/// `attr` with the given owner and size put in and its access, modification
/// and change times set to `at`.
pub fn update_attr_at(
    attr: &FileAttr,
    uid: Option<u32>,
    gid: Option<u32>,
    size: Option<u64>,
    at: SystemTime,
) -> (after: FileAttr)
    ensures
        after == updated_attr(*attr, uid, gid, size, at),
{
    let mut after = *attr;
    if let Some(s) = size {
        after.size = s;
    }
    if let Some(u) = uid {
        after.uid = u;
    }
    if let Some(g) = gid {
        after.gid = g;
    }
    after.atime = at;
    after.mtime = at;
    after.ctime = at;
    after
}

/// `attr` with the given owner and size put in and its access, modification
/// and change times refreshed by one reading of the clock.
pub fn update_attr(
    attr: &FileAttr,
    uid: Option<u32>,
    gid: Option<u32>,
    size: Option<u64>,
) -> (after: FileAttr)
    ensures
        is_updated_attr(after, *attr, uid, gid, size),
{
    update_attr_at(attr, uid, gid, size, now())
}

/// Whether a size that is asked for can be the length of a buffer on this
/// machine. No size asked for fits.
pub open spec fn size_fits(size: Option<u64>) -> bool {
    size matches Some(n) ==> n <= usize::MAX
}

/// Whether a size that is asked for can be the length of a buffer on this
/// machine.
pub fn fits(size: Option<u64>) -> (r: bool)
    ensures
        r == size_fits(size),
{
    match size {
        Some(n) => n <= usize::MAX as u64,
        None => true,
    }
}

/// `content` cut or lengthened to `n` bytes: a longer one loses its end, a
/// shorter one is filled up with zeros.
pub fn resize_bytes(content: Vec<u8>, n: usize) -> (bytes: Vec<u8>)
    ensures
        bytes@ == resized(content@, n as nat),
{
    let mut bytes = content;
    if n <= bytes.len() {
        bytes.truncate(n);
        assert(bytes@ =~= resized(content@, n as nat));
        return bytes;
    }
    while bytes.len() < n
        invariant
            content@.len() <= bytes@.len() <= n,
            bytes@ =~= content@ + Seq::new((bytes@.len() - content@.len()) as nat, |i: int| 0u8),
        decreases n - bytes.len(),
    {
        bytes.push(0);
    }
    bytes
}

/// The bytes of `content` that a read of `size` bytes at `offset` returns.
pub fn read_bytes(content: &Vec<u8>, offset: i64, size: u32) -> (bytes: Vec<u8>)
    ensures
        bytes@ == read_range(content@, offset, size),
{
    let len = content.len();
    if offset < 0 || offset as u64 >= len as u64 {
        return Vec::new();
    }
    let start = offset as usize;
    let room = len - start;
    let end = if size as u64 > room as u64 {
        len
    } else {
        start + size as usize
    };
    let bytes = slice_to_vec(slice_subrange(content.as_slice(), start, end));
    bytes
}

/// The bytes a file holds after `data` is written at `offset` over
/// `content`: appended at a positive offset, alone at any other.
pub fn write_bytes(content: Vec<u8>, data: &[u8], offset: i64) -> (bytes: Vec<u8>)
    ensures
        bytes@ == write_range(content@, data@, offset),
{
    if offset > 0 {
        let mut bytes = content;
        bytes.extend_from_slice(data);
        bytes
    } else {
        slice_to_vec(data)
    }
}

/// What every storage engine offers. The contracts speak of the engine's
/// state through its view, a `StoreModel`.
pub trait Store: View<V = StoreModel> + Sized {
    /// A store that holds the root directory and nothing else.
    fn new() -> (r: Result<Self, StoreError>)
        ensures
            match r {
                Ok(s) => s@.wf() && s@.is_initial(),
                Err(e) => e == StoreError::Unavailable,
            },
    ;

    /// Deletes the regular file that `name` resolves to. A name that does
    /// not resolve, or that resolves to a directory, is passed over.
    fn delete_file(&mut self, name: String) -> (r: Result<(), StoreError>)
        requires
            old(self)@.wf(),
        ensures
            r is Ok,
            final(self)@.wf(),
            final(self)@ == old(self)@.after_delete_file(name@),
    ;

    /// Writes `data` to the file `ino`: at offset 0 or below the bytes
    /// replace what the file held, at a positive offset they are appended.
    /// Returns the number of bytes taken, reduced modulo 2^32.
    fn write_data(&mut self, ino: u64, data: &[u8], offset: i64) -> (r: Result<u32, StoreError>)
        requires
            old(self)@.wf(),
        ensures
            final(self)@.wf(),
            match r {
                Ok(n) => {
                    &&& old(self)@.is_file(ino)
                    &&& n as int == data@.len() % 0x1_0000_0000
                    &&& final(self)@ == old(self)@.written(ino, data@, offset)
                },
                Err(e) => {
                    &&& e == StoreError::NotFound
                    &&& !old(self)@.is_file(ino)
                    &&& final(self)@ == old(self)@
                },
            },
    ;

    /// Confirms that `ino` names a live record.
    fn open_file(&self, ino: u64) -> (r: Option<u64>)
        requires
            self@.wf(),
        ensures
            r == (if self@.records.contains_key(ino) {
                Some(ino)
            } else {
                None
            }),
    ;

    /// Reads up to `size` bytes of the file `ino`, starting at `offset`.
    fn read_data(&self, ino: u64, offset: i64, size: u32) -> (r: Result<Vec<u8>, StoreError>)
        requires
            self@.wf(),
        ensures
            match r {
                Ok(bytes) => self@.is_file(ino) && bytes@ == read_range(
                    self@.contents[ino],
                    offset,
                    size,
                ),
                Err(e) => e == StoreError::NotFound && !self@.is_file(ino),
            },
    ;

    /// Creates an empty regular file named `name` under the directory
    /// `parent` and issues it the next identifier. A parent that is no live
    /// directory is not found; under a live one, a store that has issued
    /// its last identifier is unavailable for this.
    fn create_file(&mut self, name: String, parent: u64, uid: u32, gid: u32) -> (r: Result<
        FileAttr,
        StoreError,
    >)
        requires
            old(self)@.wf(),
        ensures
            final(self)@.wf(),
            match r {
                Ok(attr) => {
                    &&& old(self)@.can_create(parent)
                    &&& is_fresh_attr(
                        attr,
                        (old(self)@.last_ino + 1) as u64,
                        uid,
                        gid,
                        FileType::RegularFile,
                    )
                    &&& final(self)@ == old(self)@.created(
                        FileInfo { parent: Some(parent), name, attr },
                    )
                },
                Err(e) => {
                    &&& final(self)@ == old(self)@
                    &&& e == old(self)@.create_refusal(parent)
                    &&& !old(self)@.can_create(parent)
                },
            },
    ;

    /// Resolves `name` under the directory `parent`.
    fn lookup_file(&self, name: String, parent: u64) -> (r: Option<(u64, FileInfo)>)
        requires
            self@.wf(),
        ensures
            match self@.find(name@, Some(parent)) {
                Some(k) => r == Some((k, self@.records[k])),
                None => r is None,
            },
    ;

    /// Creates an empty directory named `name` under the directory `parent`
    /// and issues it the next identifier. A parent that is no live directory
    /// is not found; under a live one, a store that has issued its last
    /// identifier is unavailable for this.
    fn create_dir(&mut self, name: String, parent: u64, uid: u32, gid: u32) -> (r: Result<
        FileAttr,
        StoreError,
    >)
        requires
            old(self)@.wf(),
        ensures
            final(self)@.wf(),
            match r {
                Ok(attr) => {
                    &&& old(self)@.can_create(parent)
                    &&& is_fresh_attr(
                        attr,
                        (old(self)@.last_ino + 1) as u64,
                        uid,
                        gid,
                        FileType::Directory,
                    )
                    &&& final(self)@ == old(self)@.created(
                        FileInfo { parent: Some(parent), name, attr },
                    )
                },
                Err(e) => {
                    &&& final(self)@ == old(self)@
                    &&& e == old(self)@.create_refusal(parent)
                    &&& !old(self)@.can_create(parent)
                },
            },
    ;

    /// Deletes the directory that `name` resolves to, unless it still has
    /// children. A name that does not resolve, or that resolves to a regular
    /// file, is passed over.
    fn delete_dir(&mut self, name: String) -> (r: Result<(), StoreError>)
        requires
            old(self)@.wf(),
        ensures
            final(self)@.wf(),
            final(self)@ == old(self)@.after_delete_dir(name@),
            match r {
                Ok(_) => !old(self)@.delete_dir_blocked(name@),
                Err(e) => {
                    &&& e == StoreError::NotEmpty
                    &&& old(self)@.delete_dir_blocked(name@)
                    &&& final(self)@ == old(self)@
                },
            },
    ;

    /// Lists `ino`: the entries "." and "..", then its children in the
    /// order in which they were created.
    fn get_dir_entries(&self, ino: u64) -> (entries: Vec<(u64, FileType, String)>)
        requires
            self@.wf(),
        ensures
            self@.is_listing(entries@, ino),
    ;

    /// The attributes of `ino`.
    fn get_file_attr(&self, ino: u64) -> (r: Option<FileAttr>)
        requires
            self@.wf(),
        ensures
            r == (if self@.records.contains_key(ino) {
                Some(self@.records[ino].attr)
            } else {
                None
            }),
    ;

    /// Puts the given owner and size into the attributes of `ino` and
    /// refreshes its access, modification and change times. A regular file
    /// that is given a size has its bytes cut or filled up with zeros to
    /// that size, which has to fit a buffer's length.
    fn set_file_attr(
        &mut self,
        ino: u64,
        uid: Option<u32>,
        gid: Option<u32>,
        size: Option<u64>,
    ) -> (r: Option<FileAttr>)
        requires
            old(self)@.wf(),
            size_fits(size),
        ensures
            final(self)@.wf(),
            match r {
                Some(attr) => {
                    &&& old(self)@.records.contains_key(ino)
                    &&& is_updated_attr(attr, old(self)@.records[ino].attr, uid, gid, size)
                    &&& final(self)@ == old(self)@.with_attr(ino, attr)
                },
                None => {
                    &&& !old(self)@.records.contains_key(ino)
                    &&& final(self)@ == old(self)@
                },
            },
    ;
}

} // verus!
