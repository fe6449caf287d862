//! The in-memory storage engine: every record and every byte lives in the
//! process.
use super::model::{resized, StoreModel};
use super::store::{
    create_attr, is_fresh_attr, read_bytes, resize_bytes, root_attr, update_attr, write_bytes,
    FileAttr, FileInfo, FileType, Store, StoreError, ROOT_INO,
};
use std::collections::HashMap;
use vstd::prelude::*;

verus! {

broadcast use vstd::std_specs::hash::group_hash_axioms;

/// A store held entirely in memory. It owns the identifier counter, the
/// records and the byte buffers; nothing else can reach them.
pub struct MemoryStore {
    ino_counter: u64,
    files: HashMap<u64, FileInfo>,
    files_data: HashMap<u64, Vec<u8>>,
}

impl View for MemoryStore {
    type V = StoreModel;

    closed spec fn view(&self) -> StoreModel {
        StoreModel {
            records: self.files@,
            contents: Map::new(
                |k: u64| self.files_data@.contains_key(k),
                |k: u64| self.files_data@[k]@,
            ),
            last_ino: self.ino_counter,
        }
    }
}

impl MemoryStore {
    /// The identifier that was issued last.
    pub fn last_ino(&self) -> (n: u64)
        ensures
            n == self@.last_ino,
    {
        self.ino_counter
    }

    /// The record issued last among those that `name` reaches, under
    /// `within` where one is given.
    fn find(&self, name: &String, within: Option<u64>) -> (r: Option<u64>)
        requires
            self@.wf(),
        ensures
            r == self@.find(name@, within),
    {
        let mut i: u64 = self.ino_counter;
        while i >= 1
            invariant
                self@.wf(),
                i <= self.ino_counter,
                forall|j: u64| j > i ==> !#[trigger] self@.bound(j, name@, within),
            decreases i,
        {
            if let Some(info) = self.files.get(&i) {
                let placed = match info.parent {
                    Some(p) => match within {
                        Some(w) => p == w,
                        None => true,
                    },
                    None => false,
                };
                if placed && info.name == *name {
                    proof {
                        self@.lemma_find_some(name@, within, i);
                    }
                    return Some(i);
                }
            }
            i = i - 1;
        }
        proof {
            self@.lemma_find_none(name@, within);
        }
        None
    }

    /// Whether some record hangs directly under `dir`.
    fn has_children(&self, dir: u64) -> (r: bool)
        requires
            self@.wf(),
        ensures
            r == self@.has_children(dir),
    {
        let mut i: u64 = self.ino_counter;
        while i >= 1
            invariant
                self@.wf(),
                i <= self.ino_counter,
                forall|j: u64| j > i ==> !#[trigger] self@.is_child(j, dir),
            decreases i,
        {
            if let Some(info) = self.files.get(&i) {
                if let Some(p) = info.parent {
                    if p == dir {
                        assert(self@.is_child(i, dir));
                        return true;
                    }
                }
            }
            i = i - 1;
        }
        false
    }

    /// Takes the record `ino` and its bytes out of the store.
    fn remove(&mut self, ino: u64)
        requires
            old(self)@.wf(),
            old(self)@.records.contains_key(ino),
            ino != ROOT_INO,
            !old(self)@.has_children(ino),
        ensures
            final(self)@.wf(),
            final(self)@ == old(self)@.removed(ino),
    {
        self.files_data.remove(&ino);
        self.files.remove(&ino);
        proof {
            assert(self@.contents =~= old(self)@.contents.remove(ino));
            old(self)@.lemma_removed_wf(ino);
        }
    }
}

impl MemoryStore {
    /// Issues the next identifier to a new record of kind `kind` named
    /// `name` under the directory `parent`.
    fn create(&mut self, name: String, parent: u64, uid: u32, gid: u32, kind: FileType) -> (r:
        Result<FileAttr, StoreError>)
        requires
            old(self)@.wf(),
        ensures
            final(self)@.wf(),
            match r {
                Ok(attr) => {
                    &&& old(self)@.can_create(parent)
                    &&& is_fresh_attr(attr, (old(self)@.last_ino + 1) as u64, uid, gid, kind)
                    &&& final(self)@ == old(self)@.created(
                        FileInfo { parent: Some(parent), name, attr },
                    )
                },
                Err(e) => {
                    &&& final(self)@ == old(self)@
                    &&& e == old(self)@.create_refusal(parent)
                    &&& !old(self)@.can_create(parent)
                },
            },
    {
        let parent_is_dir = match self.files.get(&parent) {
            Some(info) => match info.attr.kind {
                FileType::Directory => true,
                FileType::RegularFile => false,
            },
            None => false,
        };
        if !parent_is_dir {
            return Err(StoreError::NotFound);
        }
        if self.ino_counter == u64::MAX {
            return Err(StoreError::Unavailable);
        }
        self.ino_counter = self.ino_counter + 1;
        let ino = self.ino_counter;
        let attr = create_attr(ino, uid, gid, kind);
        let ghost info = FileInfo { parent: Some(parent), name, attr };
        self.files.insert(ino, FileInfo { parent: Some(parent), name, attr });
        match kind {
            FileType::RegularFile => {
                self.files_data.insert(ino, Vec::new());
            },
            FileType::Directory => {},
        }
        proof {
            assert(!old(self)@.is_file(ino));
            assert(self@.contents =~= old(self)@.created(info).contents);
            old(self)@.lemma_created_wf(info, parent);
        }
        Ok(attr)
    }
}

impl Store for MemoryStore {
    fn new() -> (r: Result<Self, StoreError>)
        ensures
            r is Ok,
    {
        let mut store = MemoryStore {
            ino_counter: ROOT_INO,
            files: HashMap::new(),
            files_data: HashMap::new(),
        };
        let root = FileInfo { parent: None, name: ".".to_owned(), attr: root_attr() };
        store.files.insert(ROOT_INO, root);
        proof {
            assert(store@.contents =~= Map::empty());
        }
        Ok(store)
    }

    fn delete_file(&mut self, name: String) -> (r: Result<(), StoreError>) {
        if let Some(ino) = self.find(&name, None) {
            proof {
                self@.lemma_find_is_newest(name@, None);
            }
            let is_file = match self.files.get(&ino) {
                Some(info) => match info.attr.kind {
                    FileType::RegularFile => true,
                    FileType::Directory => false,
                },
                None => false,
            };
            if is_file {
                proof {
                    self@.lemma_file_has_no_children(ino);
                }
                self.remove(ino);
            }
        }
        Ok(())
    }

    fn write_data(&mut self, ino: u64, data: &[u8], offset: i64) -> (r: Result<u32, StoreError>) {
        let held = self.files_data.remove(&ino);
        let content = match held {
            Some(content) => content,
            None => {
                proof {
                    assert(!old(self)@.contents.contains_key(ino));
                    assert(self.files_data@ =~= old(self).files_data@);
                }
                return Err(StoreError::NotFound);
            },
        };
        assert(old(self)@.contents.contains_key(ino) && content@ == old(self)@.contents[ino]);
        let content = write_bytes(content, data, offset);
        let size = content.len() as u64;
        self.files_data.insert(ino, content);
        let before = self.files.remove(&ino).unwrap();
        let after = FileInfo {
            parent: before.parent,
            name: before.name,
            attr: FileAttr { size, ..before.attr },
        };
        self.files.insert(ino, after);
        proof {
            let goal = old(self)@.written(ino, data@, offset);
            assert(self@.contents =~= goal.contents);
            assert(self@.records =~= goal.records);
            old(self)@.lemma_written_wf(ino, data@, offset);
        }
        let taken = data.len() as u64 % 0x1_0000_0000u64;
        Ok(taken as u32)
    }

    fn open_file(&self, ino: u64) -> (r: Option<u64>) {
        if self.files.contains_key(&ino) {
            Some(ino)
        } else {
            None
        }
    }

    fn read_data(&self, ino: u64, offset: i64, size: u32) -> (r: Result<Vec<u8>, StoreError>) {
        match self.files_data.get(&ino) {
            Some(content) => {
                assert(self@.contents.contains_key(ino));
                Ok(read_bytes(content, offset, size))
            },
            None => {
                assert(!self@.contents.contains_key(ino));
                Err(StoreError::NotFound)
            },
        }
    }

    fn create_file(&mut self, name: String, parent: u64, uid: u32, gid: u32) -> (r: Result<
        FileAttr,
        StoreError,
    >) {
        self.create(name, parent, uid, gid, FileType::RegularFile)
    }

    fn lookup_file(&self, name: String, parent: u64) -> (r: Option<(u64, FileInfo)>) {
        match self.find(&name, Some(parent)) {
            Some(ino) => {
                proof {
                    self@.lemma_find_is_newest(name@, Some(parent));
                }
                match self.files.get(&ino) {
                    Some(info) => Some((ino, info.clone())),
                    None => None,
                }
            },
            None => None,
        }
    }

    fn create_dir(&mut self, name: String, parent: u64, uid: u32, gid: u32) -> (r: Result<
        FileAttr,
        StoreError,
    >) {
        self.create(name, parent, uid, gid, FileType::Directory)
    }

    fn delete_dir(&mut self, name: String) -> (r: Result<(), StoreError>) {
        if let Some(ino) = self.find(&name, None) {
            proof {
                self@.lemma_find_is_newest(name@, None);
            }
            let is_dir = match self.files.get(&ino) {
                Some(info) => match info.attr.kind {
                    FileType::Directory => true,
                    FileType::RegularFile => false,
                },
                None => false,
            };
            if is_dir {
                if self.has_children(ino) {
                    return Err(StoreError::NotEmpty);
                }
                self.remove(ino);
            }
        }
        Ok(())
    }

    fn get_dir_entries(&self, ino: u64) -> (entries: Vec<(u64, FileType, String)>) {
        let mut entries: Vec<(u64, FileType, String)> = Vec::new();
        entries.push((ino, FileType::Directory, ".".to_owned()));
        entries.push((ino, FileType::Directory, "..".to_owned()));
        let mut i: u64 = 0;
        while i < self.ino_counter
            invariant
                self@.wf(),
                i <= self.ino_counter,
                entries@.len() == 2 + self@.children_upto(ino, i as nat).len(),
                entries@[0].0 == ino && entries@[0].1 == FileType::Directory && entries@[0].2@
                    == "."@,
                entries@[1].0 == ino && entries@[1].1 == FileType::Directory && entries@[1].2@
                    == ".."@,
                forall|n: int|
                    0 <= n < self@.children_upto(ino, i as nat).len() ==> {
                        &&& (#[trigger] entries@[2 + n]).0 == self@.children_upto(ino, i as nat)[n]
                        &&& entries@[2 + n].1 == self@.records[self@.children_upto(
                            ino,
                            i as nat,
                        )[n]].attr.kind
                        &&& entries@[2 + n].2@ == self@.records[self@.children_upto(
                            ino,
                            i as nat,
                        )[n]].name@
                    },
            decreases self.ino_counter - i,
        {
            i = i + 1;
            if let Some(info) = self.files.get(&i) {
                if let Some(p) = info.parent {
                    if p == ino {
                        entries.push((i, info.attr.kind, info.name.clone()));
                    }
                }
            }
        }
        entries
    }

    fn get_file_attr(&self, ino: u64) -> (r: Option<FileAttr>) {
        match self.files.get(&ino) {
            Some(info) => Some(info.attr),
            None => None,
        }
    }

    fn set_file_attr(
        &mut self,
        ino: u64,
        uid: Option<u32>,
        gid: Option<u32>,
        size: Option<u64>,
    ) -> (r: Option<FileAttr>) {
        match self.files.remove(&ino) {
            Some(before) => {
                let attr = update_attr(&before.attr, uid, gid, size);
                self.files.insert(
                    ino,
                    FileInfo { parent: before.parent, name: before.name, attr },
                );
                if let Some(n) = size {
                    if let Some(content) = self.files_data.remove(&ino) {
                        self.files_data.insert(ino, resize_bytes(content, n as usize));
                    }
                }
                proof {
                    let goal = old(self)@.with_attr(ino, attr);
                    assert(self@.records =~= goal.records);
                    if old(self)@.is_file(ino) {
                        assert(old(self)@.contents.contains_key(ino));
                        if size is None {
                            assert(resized(old(self)@.contents[ino], attr.size as nat)
                                =~= old(self)@.contents[ino]);
                        }
                    } else {
                        assert(!old(self)@.contents.contains_key(ino));
                    }
                    assert(self@.contents =~= goal.contents);
                    old(self)@.lemma_with_attr_wf(ino, attr);
                }
                Some(attr)
            },
            None => {
                proof {
                    assert(self.files@ =~= old(self).files@);
                }
                None
            },
        }
    }
}

} // verus!
