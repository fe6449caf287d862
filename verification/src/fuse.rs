//! The protocol adapter: one method for each request of the kernel, which
//! asks the storage engine and says what is to be replied.
use crate::store::model::{read_range, StoreModel};
use crate::store::store::{
    fits, is_fresh_attr, is_updated_attr, size_fits, FileAttr, FileInfo, FileType, Store,
    StoreError,
};
use vstd::prelude::*;

verus! {

/// How long, in seconds, the kernel may keep an answer.
pub const TTL_SECS: u64 = 1;

/// The failures that a reply can carry.
#[derive(Clone, Copy, Debug, PartialEq, Eq, Structural)]
pub enum Errno {
    /// No such entry.
    NoEntry,
    /// The directory is not empty.
    NotEmpty,
    /// Input or output failed.
    Io,
}

/// The failure that a reply carries for a failure of the store.
pub open spec fn errno_of(e: StoreError) -> Errno {
    match e {
        StoreError::NotFound => Errno::NoEntry,
        StoreError::NotEmpty => Errno::NotEmpty,
        StoreError::Unavailable => Errno::Io,
    }
}

/// The failure that a reply carries for a failure of the store.
pub fn reply_code(e: StoreError) -> (code: Errno)
    ensures
        code == errno_of(e),
{
    match e {
        StoreError::NotFound => Errno::NoEntry,
        StoreError::NotEmpty => Errno::NotEmpty,
        StoreError::Unavailable => Errno::Io,
    }
}

/// One entry of a directory as it is handed to the kernel.
#[derive(Debug, PartialEq, Eq)]
pub struct DirSlot {
    pub ino: u64,
    /// The offset at which a later listing goes on after this entry.
    pub next_offset: i64,
    pub kind: FileType,
    pub name: String,
}

/// What is replied to a request.
#[derive(Debug, PartialEq, Eq)]
pub enum Reply {
    /// Done; nothing to report.
    Empty,
    /// So many bytes were taken.
    Written(u32),
    /// The file is open under the handle `fh`; the kernel may keep its
    /// cached pages.
    Opened { fh: u64, keep_cache: bool },
    /// The bytes read.
    Data(Vec<u8>),
    /// The file was created, with these attributes.
    Created(FileAttr),
    /// The entry exists, with these attributes.
    Entry(FileAttr),
    /// The attributes asked for.
    Attr(FileAttr),
    /// The entries of a directory from the offset asked for.
    Directory(Vec<DirSlot>),
    /// The request failed.
    Error(Errno),
}

/// `slots` is what a listing shows of `entries` from `offset` on: every
/// entry from that position, each with the offset of the entry after it.
/// An offset below zero or past the end shows nothing.
pub open spec fn is_window(
    slots: Seq<DirSlot>,
    entries: Seq<(u64, FileType, String)>,
    offset: i64,
) -> bool {
    let start = if offset < 0 || offset > entries.len() {
        entries.len() as int
    } else {
        offset as int
    };
    &&& slots.len() == entries.len() - start
    &&& forall|k: int|
        0 <= k < slots.len() ==> {
            &&& (#[trigger] slots[k]).ino == entries[start + k].0
            &&& slots[k].next_offset == start + k + 1
            &&& slots[k].kind == entries[start + k].1
            &&& slots[k].name@ == entries[start + k].2@
        }
}

/// The part of a listing that is handed out from `offset` on. A listing
/// too long for its offsets to be counted is cut where the counting stops.
pub fn readdir_window(entries: &Vec<(u64, FileType, String)>, offset: i64) -> (slots: Vec<DirSlot>)
    requires
        entries@.len() < i64::MAX,
    ensures
        is_window(slots@, entries@, offset),
{
    let mut slots: Vec<DirSlot> = Vec::new();
    let len = entries.len();
    if offset < 0 || offset as u64 > len as u64 {
        return slots;
    }
    let start = offset as usize;
    let mut i: usize = start;
    while i < len
        invariant
            start <= i <= len,
            len == entries@.len(),
            len < i64::MAX,
            slots@.len() == i - start,
            forall|k: int|
                0 <= k < slots@.len() ==> {
                    &&& (#[trigger] slots@[k]).ino == entries@[start + k].0
                    &&& slots@[k].next_offset == start + k + 1
                    &&& slots@[k].kind == entries@[start + k].1
                    &&& slots@[k].name@ == entries@[start + k].2@
                },
        decreases len - i,
    {
        let entry = &entries[i];
        slots.push(
            DirSlot {
                ino: entry.0,
                next_offset: (i + 1) as i64,
                kind: entry.1,
                name: entry.2.clone(),
            },
        );
        i = i + 1;
    }
    slots
}

impl Reply {
    /// The reply to a write, from what the store returned.
    pub fn written(result: Result<u32, StoreError>) -> (reply: Reply)
        ensures
            reply == (match result {
                Ok(n) => Reply::Written(n),
                Err(e) => Reply::Error(errno_of(e)),
            }),
    {
        match result {
            Ok(n) => Reply::Written(n),
            Err(e) => Reply::Error(reply_code(e)),
        }
    }

    /// The reply to an open, from what the store returned: the identifier
    /// serves as the handle.
    pub fn opened(result: Option<u64>) -> (reply: Reply)
        ensures
            reply == (match result {
                Some(fh) => Reply::Opened { fh, keep_cache: true },
                None => Reply::Error(Errno::NoEntry),
            }),
    {
        match result {
            Some(fh) => Reply::Opened { fh, keep_cache: true },
            None => Reply::Error(Errno::NoEntry),
        }
    }

    /// The reply to a read, from what the store returned.
    pub fn data(result: Result<Vec<u8>, StoreError>) -> (reply: Reply)
        ensures
            reply == (match result {
                Ok(bytes) => Reply::Data(bytes),
                Err(e) => Reply::Error(errno_of(e)),
            }),
    {
        match result {
            Ok(bytes) => Reply::Data(bytes),
            Err(e) => Reply::Error(reply_code(e)),
        }
    }

    /// The reply to the creation of a file, from what the store returned.
    pub fn created(result: Result<FileAttr, StoreError>) -> (reply: Reply)
        ensures
            reply == (match result {
                Ok(attr) => Reply::Created(attr),
                Err(e) => Reply::Error(errno_of(e)),
            }),
    {
        match result {
            Ok(attr) => Reply::Created(attr),
            Err(e) => Reply::Error(reply_code(e)),
        }
    }

    /// The reply to the creation of a directory, from what the store
    /// returned.
    pub fn entry(result: Result<FileAttr, StoreError>) -> (reply: Reply)
        ensures
            reply == (match result {
                Ok(attr) => Reply::Entry(attr),
                Err(e) => Reply::Error(errno_of(e)),
            }),
    {
        match result {
            Ok(attr) => Reply::Entry(attr),
            Err(e) => Reply::Error(reply_code(e)),
        }
    }

    /// The reply to a lookup, from what the store returned.
    pub fn found(result: Option<(u64, FileInfo)>) -> (reply: Reply)
        ensures
            reply == (match result {
                Some(hit) => Reply::Entry(hit.1.attr),
                None => Reply::Error(Errno::NoEntry),
            }),
    {
        match result {
            Some((_, info)) => Reply::Entry(info.attr),
            None => Reply::Error(Errno::NoEntry),
        }
    }

    /// The reply to the removal of a directory, from what the store
    /// returned.
    pub fn removed(result: Result<(), StoreError>) -> (reply: Reply)
        ensures
            reply == (match result {
                Ok(_) => Reply::Empty,
                Err(e) => Reply::Error(errno_of(e)),
            }),
    {
        match result {
            Ok(_) => Reply::Empty,
            Err(e) => Reply::Error(reply_code(e)),
        }
    }

    /// The reply to a question for attributes, or to a change of them, from
    /// what the store returned.
    pub fn attr(result: Option<FileAttr>) -> (reply: Reply)
        ensures
            reply == (match result {
                Some(attr) => Reply::Attr(attr),
                None => Reply::Error(Errno::NoEntry),
            }),
    {
        match result {
            Some(attr) => Reply::Attr(attr),
            None => Reply::Error(Errno::NoEntry),
        }
    }

    /// The reply to a listing from `offset` on, from the entries that the
    /// store returned. A listing too long for its offsets to be counted is
    /// answered with an input/output failure.
    pub fn listing(entries: &Vec<(u64, FileType, String)>, offset: i64) -> (reply: Reply)
        ensures
            match reply {
                Reply::Directory(slots) => entries@.len() < i64::MAX && is_window(
                    slots@,
                    entries@,
                    offset,
                ),
                Reply::Error(code) => code == Errno::Io && entries@.len() >= i64::MAX,
                _ => false,
            },
    {
        if entries.len() as u64 >= 0x7fff_ffff_ffff_ffffu64 {
            return Reply::Error(Errno::Io);
        }
        Reply::Directory(readdir_window(entries, offset))
    }
}

/// The adapter between the kernel's requests and one storage engine, which
/// it owns for as long as the process lives.
pub struct FuseFS<S: Store> {
    store: S,
}

impl<S: Store> View for FuseFS<S> {
    type V = StoreModel;

    closed spec fn view(&self) -> StoreModel {
        self.store@
    }
}

impl<S: Store> FuseFS<S> {
    /// An adapter on a fresh store.
    pub fn new() -> (r: Result<Self, StoreError>)
        ensures
            match r {
                Ok(fs) => fs@.wf() && fs@.is_initial(),
                Err(e) => e == StoreError::Unavailable,
            },
    {
        match S::new() {
            Ok(store) => Ok(FuseFS { store }),
            Err(e) => Err(e),
        }
    }

    /// Removes a file by name. The reply never reports a failure: a name
    /// that does not resolve to a file is passed over.
    pub fn unlink(&mut self, name: String) -> (reply: Reply)
        requires
            old(self)@.wf(),
        ensures
            final(self)@.wf(),
            final(self)@ == old(self)@.after_delete_file(name@),
            reply is Empty,
    {
        let _ = self.store.delete_file(name);
        Reply::Empty
    }

    /// Writes to a file.
    pub fn write(&mut self, ino: u64, offset: i64, data: &[u8]) -> (reply: Reply)
        requires
            old(self)@.wf(),
        ensures
            final(self)@.wf(),
            if old(self)@.is_file(ino) {
                &&& final(self)@ == old(self)@.written(ino, data@, offset)
                &&& reply matches Reply::Written(n)
                &&& n as int == data@.len() % 0x1_0000_0000
            } else {
                &&& final(self)@ == old(self)@
                &&& reply == Reply::Error(Errno::NoEntry)
            },
    {
        Reply::written(self.store.write_data(ino, data, offset))
    }

    /// Opens a file: the handle is the identifier itself.
    pub fn open(&mut self, ino: u64) -> (reply: Reply)
        requires
            old(self)@.wf(),
        ensures
            final(self)@ == old(self)@,
            reply == (if old(self)@.records.contains_key(ino) {
                Reply::Opened { fh: ino, keep_cache: true }
            } else {
                Reply::Error(Errno::NoEntry)
            }),
    {
        Reply::opened(self.store.open_file(ino))
    }

    /// Reads from a file.
    pub fn read(&mut self, ino: u64, offset: i64, size: u32) -> (reply: Reply)
        requires
            old(self)@.wf(),
        ensures
            final(self)@ == old(self)@,
            if old(self)@.is_file(ino) {
                reply matches Reply::Data(bytes) && bytes@ == read_range(
                    old(self)@.contents[ino],
                    offset,
                    size,
                )
            } else {
                reply == Reply::Error(Errno::NoEntry)
            },
    {
        Reply::data(self.store.read_data(ino, offset, size))
    }

    /// Creates a file for the user `uid` of the group `gid`. Under a live
    /// directory, a store that has issued its last identifier answers with
    /// an input/output failure.
    pub fn create(&mut self, parent: u64, name: String, uid: u32, gid: u32) -> (reply: Reply)
        requires
            old(self)@.wf(),
        ensures
            final(self)@.wf(),
            if !old(self)@.is_dir(parent) {
                final(self)@ == old(self)@ && reply == Reply::Error(Errno::NoEntry)
            } else if old(self)@.last_ino < u64::MAX {
                &&& reply matches Reply::Created(attr)
                &&& is_fresh_attr(
                    attr,
                    (old(self)@.last_ino + 1) as u64,
                    uid,
                    gid,
                    FileType::RegularFile,
                )
                &&& final(self)@ == old(self)@.created(
                    FileInfo { parent: Some(parent), name, attr },
                )
            } else {
                final(self)@ == old(self)@ && reply == Reply::Error(Errno::Io)
            },
    {
        Reply::created(self.store.create_file(name, parent, uid, gid))
    }

    /// Looks a name up under a directory.
    pub fn lookup(&mut self, parent: u64, name: String) -> (reply: Reply)
        requires
            old(self)@.wf(),
        ensures
            final(self)@ == old(self)@,
            reply == (match old(self)@.find(name@, Some(parent)) {
                Some(k) => Reply::Entry(old(self)@.records[k].attr),
                None => Reply::Error(Errno::NoEntry),
            }),
    {
        Reply::found(self.store.lookup_file(name, parent))
    }

    /// Creates a directory for the user `uid` of the group `gid`. Under a
    /// live directory, a store that has issued its last identifier answers
    /// with an input/output failure.
    pub fn mkdir(&mut self, parent: u64, name: String, uid: u32, gid: u32) -> (reply: Reply)
        requires
            old(self)@.wf(),
        ensures
            final(self)@.wf(),
            if !old(self)@.is_dir(parent) {
                final(self)@ == old(self)@ && reply == Reply::Error(Errno::NoEntry)
            } else if old(self)@.last_ino < u64::MAX {
                &&& reply matches Reply::Entry(attr)
                &&& is_fresh_attr(
                    attr,
                    (old(self)@.last_ino + 1) as u64,
                    uid,
                    gid,
                    FileType::Directory,
                )
                &&& final(self)@ == old(self)@.created(
                    FileInfo { parent: Some(parent), name, attr },
                )
            } else {
                final(self)@ == old(self)@ && reply == Reply::Error(Errno::Io)
            },
    {
        Reply::entry(self.store.create_dir(name, parent, uid, gid))
    }

    /// Removes a directory by name, unless it has children.
    pub fn rmdir(&mut self, name: String) -> (reply: Reply)
        requires
            old(self)@.wf(),
        ensures
            final(self)@.wf(),
            final(self)@ == old(self)@.after_delete_dir(name@),
            reply == (if old(self)@.delete_dir_blocked(name@) {
                Reply::Error(Errno::NotEmpty)
            } else {
                Reply::Empty
            }),
    {
        Reply::removed(self.store.delete_dir(name))
    }

    /// Lists a directory from `offset` on. A listing too long for its
    /// offsets to be counted answers with an input/output failure.
    pub fn readdir(&mut self, ino: u64, offset: i64) -> (reply: Reply)
        requires
            old(self)@.wf(),
        ensures
            final(self)@ == old(self)@,
            match reply {
                Reply::Directory(slots) => exists|entries: Seq<(u64, FileType, String)>|
                    #[trigger] old(self)@.is_listing(entries, ino) && is_window(
                        slots@,
                        entries,
                        offset,
                    ),
                Reply::Error(code) => code == Errno::Io && old(self)@.children(ino).len() + 2
                    >= i64::MAX,
                _ => false,
            },
    {
        let entries = self.store.get_dir_entries(ino);
        assert(entries@.len() == 2 + old(self)@.children(ino).len());
        let reply = Reply::listing(&entries, offset);
        assert(reply matches Reply::Directory(slots) ==> old(self)@.is_listing(entries@, ino)
            && is_window(slots@, entries@, offset));
        reply
    }

    /// Reports the attributes of a record.
    pub fn getattr(&mut self, ino: u64) -> (reply: Reply)
        requires
            old(self)@.wf(),
        ensures
            final(self)@ == old(self)@,
            reply == (if old(self)@.records.contains_key(ino) {
                Reply::Attr(old(self)@.records[ino].attr)
            } else {
                Reply::Error(Errno::NoEntry)
            }),
    {
        Reply::attr(self.store.get_file_attr(ino))
    }

    /// Changes owner and size of a record and reports its attributes. A
    /// regular file that is given a size has its bytes cut or filled up with
    /// zeros to that size; a size that no buffer on this machine can have is
    /// answered with an input/output failure.
    pub fn setattr(
        &mut self,
        ino: u64,
        uid: Option<u32>,
        gid: Option<u32>,
        size: Option<u64>,
    ) -> (reply: Reply)
        requires
            old(self)@.wf(),
        ensures
            final(self)@.wf(),
            if !size_fits(size) {
                final(self)@ == old(self)@ && reply == Reply::Error(Errno::Io)
            } else if old(self)@.records.contains_key(ino) {
                &&& reply matches Reply::Attr(attr)
                &&& is_updated_attr(attr, old(self)@.records[ino].attr, uid, gid, size)
                &&& final(self)@ == old(self)@.with_attr(ino, attr)
            } else {
                final(self)@ == old(self)@ && reply == Reply::Error(Errno::NoEntry)
            },
    {
        if !fits(size) {
            return Reply::Error(Errno::Io);
        }
        Reply::attr(self.store.set_file_attr(ino, uid, gid, size))
    }
}

} // verus!
