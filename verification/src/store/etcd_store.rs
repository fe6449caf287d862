//! The storage engine backed by a remote key-value service. Each record
//! lives remotely, with its bytes, under the decimal form of its
//! identifier; the process keeps an index of the tree beside it. The
//! functions here decide what to ask of the service and what to make of
//! its answers; whoever drives them performs the calls in between.
use super::index::{
    is_not, law_created_is_placed, law_deleted_is_gone, law_restored_keeps_identifiers,
    names_identifier, HeldView, IndexModel,
};
use super::model::{read_range, resized, write_range};
use super::store::{
    create_attr, is_root_attr, is_updated_attr, now, read_bytes, resize_bytes, root_attr,
    size_fits, update_attr_at, updated_attr, write_bytes, FileAttr, FileInfo, FileType,
    StoreError, ROOT_INO,
};
use crate::decimal::{decimal, decimal_value, is_decimal, parse_decimal, to_decimal};
use std::collections::HashMap;
use std::time::SystemTime;
use vstd::prelude::*;

verus! {

broadcast use vstd::std_specs::hash::group_hash_axioms;

/// One remote entry: a record together with its bytes.
#[derive(Debug, PartialEq, Eq)]
pub struct FileData {
    pub name: String,
    pub attr: FileAttr,
    pub parent: Option<u64>,
    pub data: Vec<u8>,
}

/// A remote entry as contracts see it.
pub struct FileDataView {
    pub name: Seq<char>,
    pub attr: FileAttr,
    pub parent: Option<u64>,
    pub data: Seq<u8>,
}

impl FileDataView {
    /// The size attribute of a regular file is the number of its bytes.
    pub open spec fn holds_its_size(self) -> bool {
        self.attr.kind == FileType::RegularFile ==> self.data.len() == self.attr.size
    }
}

/// `record` with the attributes `attr`; the bytes of a regular file that
/// was given a size are cut or filled up with zeros to that size.
pub open spec fn resized_entry(
    record: FileDataView,
    attr: FileAttr,
    size: Option<u64>,
) -> FileDataView {
    FileDataView {
        attr,
        data: if record.attr.kind == FileType::RegularFile && size is Some {
            resized(record.data, size.unwrap() as nat)
        } else {
            record.data
        },
        ..record
    }
}

impl View for FileData {
    type V = FileDataView;

    open spec fn view(&self) -> FileDataView {
        FileDataView { name: self.name@, attr: self.attr, parent: self.parent, data: self.data@ }
    }
}

/// One entry that the service holds: the key it is held under, and the
/// record that its value decodes to, if it decodes.
#[derive(Debug, PartialEq, Eq)]
pub struct Held {
    pub key: String,
    pub record: Option<FileData>,
}

impl View for Held {
    type V = HeldView;

    open spec fn view(&self) -> HeldView {
        HeldView {
            key: self.key@,
            record: match self.record {
                Some(record) => Some(record@),
                None => None,
            },
        }
    }
}

/// The entries that the service holds, as contracts see them.
pub open spec fn held_views(held: Seq<Held>) -> Seq<HeldView> {
    Seq::new(held.len(), |i: int| held[i]@)
}

/// What came of asking the service for one entry.
#[derive(Debug, PartialEq, Eq)]
pub enum Fetched {
    /// The entry exists.
    Found(FileData),
    /// The service answered and holds no such entry.
    Missing,
    /// The service did not answer.
    Failed,
}

/// The local index of the remote store: which identifiers were issued, what
/// each record is called, and which children each directory has.
pub struct EtcdStore {
    ino_count: u64,
    dirs: HashMap<u64, Vec<u64>>,
    ino_to_name: HashMap<u64, String>,
}

impl View for EtcdStore {
    type V = IndexModel;

    closed spec fn view(&self) -> IndexModel {
        IndexModel {
            dirs: Map::new(|d: u64| self.dirs@.contains_key(d), |d: u64| self.dirs@[d]@),
            names: Map::new(
                |k: u64| self.ino_to_name@.contains_key(k),
                |k: u64| self.ino_to_name@[k]@,
            ),
            last_ino: self.ino_count,
        }
    }
}

impl EtcdStore {
    /// The entry of the root directory, which is put under the root's key
    /// before a store is used. Putting it again over an earlier one is no
    /// failure.
    pub fn root_record() -> (record: FileData)
        ensures
            record.name@ == "."@,
            is_root_attr(record.attr),
            record.parent is None,
            record.data@.len() == 0,
    {
        FileData { name: ".".to_owned(), attr: root_attr(), parent: None, data: Vec::new() }
    }

    /// The index of a store, once the service has taken the root entry,
    /// restored from the entries that the service holds. Without the root
    /// entry there is no store. Every identifier that an entry is held
    /// under counts as issued, so that none is issued again; an entry is
    /// taken into the tree if it can be placed when its turn comes, which
    /// it can where the entries come in the order of their identifiers.
    pub fn new(root_stored: bool, held: &Vec<Held>) -> (r: Result<EtcdStore, StoreError>)
        ensures
            match r {
                Ok(store) => {
                    &&& root_stored
                    &&& store@.wf()
                    &&& store@ == IndexModel::initial().restored(held_views(held@))
                    &&& forall|i: int|
                        0 <= i < held@.len() && names_identifier((#[trigger] held@[i]).key@)
                            ==> held@[i]@.ino() <= store@.last_ino
                },
                Err(e) => !root_stored && e == StoreError::Unavailable,
            },
    {
        if !root_stored {
            return Err(StoreError::Unavailable);
        }
        let mut dirs: HashMap<u64, Vec<u64>> = HashMap::new();
        let mut ino_to_name: HashMap<u64, String> = HashMap::new();
        dirs.insert(ROOT_INO, Vec::new());
        ino_to_name.insert(ROOT_INO, ".".to_owned());
        let mut store = EtcdStore { dirs, ino_to_name, ino_count: ROOT_INO };
        let ghost seen = held_views(held@);
        proof {
            assert(store@.dirs =~= map![ROOT_INO => Seq::<u64>::empty()]);
            assert(store@.names =~= map![ROOT_INO => "."@]);
            assert(store@ == IndexModel::initial());
            assert(seen.take(0) =~= Seq::<HeldView>::empty());
        }
        let mut i: usize = 0;
        while i < held.len()
            invariant
                i <= held.len(),
                seen == held_views(held@),
                IndexModel::initial().wf(),
                store@.wf(),
                store@ == IndexModel::initial().restored(seen.take(i as int)),
            decreases held.len() - i,
        {
            proof {
                assert(seen.take(i + 1).drop_last() =~= seen.take(i as int));
                assert(seen.take(i + 1).last() == held@[i as int]@);
            }
            store.take_held(&held[i]);
            i = i + 1;
        }
        proof {
            assert(seen.take(held@.len() as int) =~= seen);
            law_restored_keeps_identifiers(IndexModel::initial(), seen);
            assert forall|i: int|
                0 <= i < held@.len() && names_identifier(
                    (#[trigger] held@[i]).key@,
                ) implies held@[i]@.ino() <= store@.last_ino by {
                assert(seen[i] == held@[i]@);
            }
        }
        Ok(store)
    }

    /// Sees one entry that the service holds.
    fn take_held(&mut self, held: &Held)
        requires
            old(self)@.wf(),
        ensures
            final(self)@.wf(),
            final(self)@ == old(self)@.with_held(held@),
    {
        if let Some(ino) = key_ino(held.key.as_str()) {
            if ino > self.ino_count {
                self.ino_count = ino;
            }
            proof {
                assert(self@.dirs =~= old(self)@.dirs);
                assert(self@.names =~= old(self)@.names);
                assert(self@ == old(self)@.raised(ino));
                old(self)@.lemma_raised_wf(ino);
            }
            if let Some(record) = &held.record {
                if record.attr.ino == ino {
                    let _ = self.commit_create(record, true);
                }
            }
        }
    }

    /// The identifier that was issued last.
    pub fn last_ino(&self) -> (n: u64)
        ensures
            n == self@.last_ino,
    {
        self.ino_count
    }

    /// Issues the next identifier to a new record of kind `kind` under the
    /// directory `parent` and returns the entry to put. The index learns of
    /// the record only when `commit_create` is told that the put succeeded.
    fn prepare(&mut self, name: String, parent: u64, uid: u32, gid: u32, kind: FileType) -> (r:
        Result<FileData, StoreError>)
        requires
            old(self)@.wf(),
        ensures
            final(self)@.wf(),
            match r {
                Ok(record) => {
                    &&& old(self)@.can_create(parent)
                    &&& old(self)@.is_new_entry(record@, name@, parent, uid, gid, kind)
                    &&& final(self)@ == old(self)@.issued()
                    &&& final(self)@.accepts(record@)
                },
                Err(e) => {
                    &&& !old(self)@.can_create(parent)
                    &&& e == old(self)@.create_refusal(parent)
                    &&& final(self)@ == old(self)@
                },
            },
    {
        if !self.dirs.contains_key(&parent) {
            return Err(StoreError::NotFound);
        }
        if self.ino_count == u64::MAX {
            return Err(StoreError::Unavailable);
        }
        self.ino_count = self.ino_count + 1;
        let attr = create_attr(self.ino_count, uid, gid, kind);
        proof {
            assert(self@.dirs =~= old(self)@.dirs);
            assert(self@.names =~= old(self)@.names);
            old(self)@.lemma_issued_wf();
            assert(!old(self)@.names.contains_key(self.ino_count));
        }
        Ok(FileData { name, attr, parent: Some(parent), data: Vec::new() })
    }

    /// Prepares the creation of an empty regular file named `name` under
    /// the directory `parent`: issues the next identifier and returns the
    /// entry to put under it. The outcome of the put is then given to
    /// `commit_create`. A parent that is no known directory is not found;
    /// under a known one, a store that has issued its last identifier is
    /// unavailable for this. The identifier stays issued whatever becomes
    /// of the put.
    pub fn create_file(&mut self, name: String, parent: u64, uid: u32, gid: u32) -> (r: Result<
        FileData,
        StoreError,
    >)
        requires
            old(self)@.wf(),
        ensures
            final(self)@.wf(),
            match r {
                Ok(record) => {
                    &&& old(self)@.can_create(parent)
                    &&& old(self)@.is_new_entry(
                        record@,
                        name@,
                        parent,
                        uid,
                        gid,
                        FileType::RegularFile,
                    )
                    &&& final(self)@ == old(self)@.issued()
                    &&& final(self)@.accepts(record@)
                },
                Err(e) => {
                    &&& !old(self)@.can_create(parent)
                    &&& e == old(self)@.create_refusal(parent)
                    &&& final(self)@ == old(self)@
                },
            },
    {
        self.prepare(name, parent, uid, gid, FileType::RegularFile)
    }

    /// Prepares the creation of an empty directory named `name` under the
    /// directory `parent`: issues the next identifier and returns the entry
    /// to put under it. The outcome of the put is then given to
    /// `commit_create`. A parent that is no known directory is not found;
    /// under a known one, a store that has issued its last identifier is
    /// unavailable for this. The identifier stays issued whatever becomes
    /// of the put.
    pub fn create_dir(&mut self, name: String, parent: u64, uid: u32, gid: u32) -> (r: Result<
        FileData,
        StoreError,
    >)
        requires
            old(self)@.wf(),
        ensures
            final(self)@.wf(),
            match r {
                Ok(record) => {
                    &&& old(self)@.can_create(parent)
                    &&& old(self)@.is_new_entry(
                        record@,
                        name@,
                        parent,
                        uid,
                        gid,
                        FileType::Directory,
                    )
                    &&& final(self)@ == old(self)@.issued()
                    &&& final(self)@.accepts(record@)
                },
                Err(e) => {
                    &&& !old(self)@.can_create(parent)
                    &&& e == old(self)@.create_refusal(parent)
                    &&& final(self)@ == old(self)@
                },
            },
    {
        self.prepare(name, parent, uid, gid, FileType::Directory)
    }

    /// Takes a created record into the index, once the service has taken
    /// its entry. After a failed put the index stays as it was, and the
    /// store was unavailable. A record that the index cannot place (its
    /// identifier was never issued or is known already, or its parent is no
    /// known directory) is not found and changes nothing.
    pub fn commit_create(&mut self, record: &FileData, stored: bool) -> (r: Result<
        FileAttr,
        StoreError,
    >)
        requires
            old(self)@.wf(),
        ensures
            final(self)@.wf(),
            match r {
                Ok(attr) => {
                    &&& stored
                    &&& old(self)@.accepts(record@)
                    &&& attr == record.attr
                    &&& final(self)@ == old(self)@.with_created(record@)
                },
                Err(e) => {
                    &&& final(self)@ == old(self)@
                    &&& e == (if stored {
                        StoreError::NotFound
                    } else {
                        StoreError::Unavailable
                    })
                    &&& stored ==> !old(self)@.accepts(record@)
                },
            },
    {
        if !stored {
            return Err(StoreError::Unavailable);
        }
        let ino = record.attr.ino;
        let parent = match record.parent {
            Some(parent) => parent,
            None => {
                return Err(StoreError::NotFound);
            },
        };
        if ino <= ROOT_INO || ino > self.ino_count || self.ino_to_name.contains_key(&ino)
            || !self.dirs.contains_key(&parent) {
            return Err(StoreError::NotFound);
        }
        let ghost before = self@;
        assert(!before.dirs.contains_key(ino));
        let mut kids = self.dirs.remove(&parent).unwrap();
        kids.push(ino);
        self.dirs.insert(parent, kids);
        match record.attr.kind {
            FileType::Directory => {
                self.dirs.insert(ino, Vec::new());
            },
            FileType::RegularFile => {},
        }
        self.ino_to_name.insert(ino, record.name.clone());
        proof {
            let goal = before.with_created(record@);
            assert(self@.dirs =~= goal.dirs);
            assert(self@.names =~= goal.names);
            law_created_is_placed(before, record@);
        }
        Ok(record.attr)
    }
}

/// Whether `x` occurs in `list`.
fn holds(list: &Vec<u64>, x: u64) -> (r: bool)
    ensures
        r == list@.contains(x),
{
    let mut i: usize = 0;
    while i < list.len()
        invariant
            i <= list.len(),
            forall|j: int| 0 <= j < i ==> list@[j] != x,
        decreases list.len() - i,
    {
        if list[i] == x {
            return true;
        }
        i = i + 1;
    }
    false
}

/// `list` without every occurrence of `x`.
fn without(list: &Vec<u64>, x: u64) -> (r: Vec<u64>)
    ensures
        r@ == list@.filter(is_not(x)),
{
    let mut kept: Vec<u64> = Vec::new();
    let mut i: usize = 0;
    proof {
        assert(list@.take(0) =~= Seq::<u64>::empty());
        reveal(Seq::filter);
    }
    while i < list.len()
        invariant
            i <= list.len(),
            kept@ == list@.take(i as int).filter(is_not(x)),
        decreases list.len() - i,
    {
        proof {
            assert(list@.take(i + 1) =~= list@.take(i as int).push(list@[i as int]));
            list@.take(i as int).lemma_filter_push(list@[i as int], is_not(x));
        }
        if list[i] != x {
            kept.push(list[i]);
        }
        i = i + 1;
    }
    proof {
        assert(list@.take(list@.len() as int) =~= list@);
    }
    kept
}

impl EtcdStore {
    /// The record issued last among those that `name` reaches, under
    /// `within` where one is given.
    fn find(&self, name: &String, within: Option<u64>) -> (r: Option<u64>)
        requires
            self@.wf(),
        ensures
            r == self@.find(name@, within),
    {
        let mut i: u64 = self.ino_count;
        while i > ROOT_INO
            invariant
                self@.wf(),
                i <= self.ino_count,
                forall|j: u64| j > i ==> !#[trigger] self@.bound(j, name@, within),
            decreases i,
        {
            if let Some(known) = self.ino_to_name.get(&i) {
                if *known == *name {
                    let placed = match within {
                        Some(dir) => match self.dirs.get(&dir) {
                            Some(kids) => holds(kids, i),
                            None => false,
                        },
                        None => true,
                    };
                    if placed {
                        proof {
                            self@.lemma_find_some(name@, within, i);
                        }
                        return Some(i);
                    }
                }
            }
            i = i - 1;
        }
        proof {
            self@.lemma_find_none(name@, within);
        }
        None
    }

    /// Resolves the file that deleting `name` removes. With `Some`, its
    /// entry is to be deleted remotely and the outcome given to
    /// `commit_delete`; with `None` there is nothing to do.
    pub fn delete_file(&self, name: String) -> (r: Option<u64>)
        requires
            self@.wf(),
        ensures
            r == self@.file_to_delete(name@),
    {
        match self.find(&name, None) {
            Some(ino) => if self.dirs.contains_key(&ino) {
                None
            } else {
                Some(ino)
            },
            None => None,
        }
    }

    /// Resolves the directory that deleting `name` removes, and refuses
    /// while it has children. With `Some`, its entry is to be deleted
    /// remotely and the outcome given to `commit_delete`; with `None` there
    /// is nothing to do.
    pub fn delete_dir(&self, name: String) -> (r: Result<Option<u64>, StoreError>)
        requires
            self@.wf(),
        ensures
            match r {
                Ok(target) => !self@.delete_dir_blocked(name@) && target == self@.dir_to_delete(
                    name@,
                ),
                Err(e) => e == StoreError::NotEmpty && self@.delete_dir_blocked(name@),
            },
    {
        match self.find(&name, None) {
            Some(ino) => match self.dirs.get(&ino) {
                Some(kids) => if kids.len() > 0 {
                    Err(StoreError::NotEmpty)
                } else {
                    Ok(Some(ino))
                },
                None => Ok(None),
            },
            None => Ok(None),
        }
    }

    /// Takes a record out of the index, once the service has deleted its
    /// entry. After a failed delete the index stays as it was. The root, a
    /// directory with children, and what the index does not know stay in
    /// any case.
    pub fn commit_delete(&mut self, ino: u64, deleted: bool) -> (r: Result<(), StoreError>)
        requires
            old(self)@.wf(),
        ensures
            final(self)@.wf(),
            match r {
                Ok(_) => deleted && final(self)@ == (if old(self)@.releases(ino) {
                    old(self)@.with_deleted(ino)
                } else {
                    old(self)@
                }),
                Err(e) => !deleted && e == StoreError::Unavailable && final(self)@ == old(self)@,
            },
    {
        if !deleted {
            return Err(StoreError::Unavailable);
        }
        let childless = match self.dirs.get(&ino) {
            Some(kids) => kids.len() == 0,
            None => true,
        };
        if ino == ROOT_INO || !self.ino_to_name.contains_key(&ino) || !childless {
            return Ok(());
        }
        let ghost before = self@;
        let ghost goal = before.with_deleted(ino);
        self.ino_to_name.remove(&ino);
        self.dirs.remove(&ino);
        let mut d: u64 = 0;
        while d < self.ino_count
            invariant
                d <= self.ino_count,
                before.wf(),
                before.releases(ino),
                self.ino_count == before.last_ino,
                self@.names =~= before.names.remove(ino),
                self@.dirs.dom() =~= goal.dirs.dom(),
                forall|k: u64|
                    self@.dirs.contains_key(k) ==> #[trigger] self@.dirs[k] == (if k <= d {
                        before.dirs[k].filter(is_not(ino))
                    } else {
                        before.dirs[k]
                    }),
            decreases self.ino_count - d,
        {
            d = d + 1;
            let ghost mid = self@;
            let ghost raw = self.dirs@;
            if let Some(kids) = self.dirs.remove(&d) {
                assert(raw.contains_key(d) && raw[d] == kids);
                assert(mid.dirs.contains_key(d));
                assert(mid.dirs[d] == before.dirs[d]);
                let kept = without(&kids, ino);
                self.dirs.insert(d, kept);
                proof {
                    assert(self.dirs@ =~= raw.insert(d, kept));
                    assert(self@.dirs.dom() =~= mid.dirs.dom());
                    assert forall|k: u64| self@.dirs.contains_key(k) implies #[trigger] self@.dirs[k]
                        == (if k <= d {
                        before.dirs[k].filter(is_not(ino))
                    } else {
                        before.dirs[k]
                    }) by {
                        if k != d {
                            assert(mid.dirs.contains_key(k));
                            assert(self@.dirs[k] == mid.dirs[k]);
                        }
                    }
                }
            } else {
                proof {
                    assert(self.dirs@ =~= raw);
                    assert(self@.dirs =~= mid.dirs);
                    assert forall|k: u64| self@.dirs.contains_key(k) implies #[trigger] self@.dirs[k]
                        == (if k <= d {
                        before.dirs[k].filter(is_not(ino))
                    } else {
                        before.dirs[k]
                    }) by {
                        assert(mid.dirs.contains_key(k));
                        assert(k != d);
                    }
                }
            }
        }
        proof {
            assert forall|k: u64| self@.dirs.contains_key(k) implies #[trigger] self@.dirs[k]
                == goal.dirs[k] by {
                assert(before.dirs.contains_key(k));
                assert(before.names.contains_key(k));
            }
            assert(self@.dirs =~= goal.dirs);
            assert(self@ == goal);
            law_deleted_is_gone(before, ino);
        }
        Ok(())
    }

    /// Resolves `name` under the directory `parent`. With `Some`, the
    /// record's entry is to be fetched and given to `lookup_reply`.
    pub fn lookup_file(&self, name: String, parent: u64) -> (r: Option<u64>)
        requires
            self@.wf(),
        ensures
            r == self@.find(name@, Some(parent)),
    {
        self.find(&name, Some(parent))
    }

    /// The children of `ino`, whose entries are to be fetched one by one,
    /// in this order, and given to `dir_listing`.
    pub fn get_dir_entries(&self, ino: u64) -> (kids: Vec<u64>)
        requires
            self@.wf(),
        ensures
            kids@ == self@.children(ino),
    {
        match self.dirs.get(&ino) {
            Some(kids) => kids.clone(),
            None => Vec::new(),
        }
    }
}

/// What the listing of a directory shows of the entries fetched for its
/// children: identifier, kind and name of each entry that was found, in
/// the order of the fetches. A child whose entry is missing, or whose fetch
/// failed, is left out.
pub open spec fn listed(fetched: Seq<Fetched>) -> Seq<(u64, FileType, Seq<char>)>
    decreases fetched.len(),
{
    if fetched.len() == 0 {
        Seq::empty()
    } else {
        let rest = listed(fetched.drop_last());
        match fetched.last() {
            Fetched::Found(record) => rest.push(
                (record.attr.ino, record.attr.kind, record.name@),
            ),
            _ => rest,
        }
    }
}

/// A listing as contracts see it: each entry with its name as characters.
pub open spec fn entry_views(entries: Seq<(u64, FileType, String)>) -> Seq<
    (u64, FileType, Seq<char>),
> {
    Seq::new(entries.len(), |i: int| (entries[i].0, entries[i].1, entries[i].2@))
}

impl EtcdStore {
    /// What a lookup returns, given the entry fetched for the identifier
    /// that the name resolved to: the identifier with the entry's name and
    /// attributes, placed under the directory that was searched. Without an
    /// entry the lookup finds nothing.
    pub fn lookup_reply(ino: u64, parent: u64, fetched: Fetched) -> (r: Option<(u64, FileInfo)>)
        ensures
            match fetched {
                Fetched::Found(record) => r == Some(
                    (ino, FileInfo { parent: Some(parent), name: record.name, attr: record.attr }),
                ),
                _ => r is None,
            },
    {
        match fetched {
            Fetched::Found(record) => Some(
                (ino, FileInfo { parent: Some(parent), name: record.name, attr: record.attr }),
            ),
            _ => None,
        }
    }

    /// The listing of `ino`, given what was fetched for its children: the
    /// entries "." and "..", then what `listed` shows.
    pub fn dir_listing(ino: u64, fetched: &Vec<Fetched>) -> (entries: Vec<(u64, FileType, String)>)
        ensures
            entry_views(entries@) == seq![
                (ino, FileType::Directory, "."@),
                (ino, FileType::Directory, ".."@),
            ] + listed(fetched@),
    {
        let mut entries: Vec<(u64, FileType, String)> = Vec::new();
        entries.push((ino, FileType::Directory, ".".to_owned()));
        entries.push((ino, FileType::Directory, "..".to_owned()));
        let ghost dots = seq![(ino, FileType::Directory, "."@), (ino, FileType::Directory, ".."@)];
        let mut i: usize = 0;
        proof {
            assert(fetched@.take(0) =~= Seq::<Fetched>::empty());
            assert(entry_views(entries@) =~= dots + listed(fetched@.take(0)));
        }
        while i < fetched.len()
            invariant
                i <= fetched.len(),
                dots == seq![(ino, FileType::Directory, "."@), (ino, FileType::Directory, ".."@)],
                entry_views(entries@) == dots + listed(fetched@.take(i as int)),
            decreases fetched.len() - i,
        {
            let ghost shown = entry_views(entries@);
            proof {
                assert(fetched@.take(i + 1).drop_last() =~= fetched@.take(i as int));
                assert(fetched@.take(i + 1).last() == fetched@[i as int]);
            }
            match &fetched[i] {
                Fetched::Found(record) => {
                    entries.push((record.attr.ino, record.attr.kind, record.name.clone()));
                    proof {
                        assert(entry_views(entries@) =~= shown.push(
                            (record.attr.ino, record.attr.kind, record.name@),
                        ));
                        assert(shown.push((record.attr.ino, record.attr.kind, record.name@))
                            =~= dots + listed(fetched@.take(i + 1)));
                    }
                },
                _ => {},
            }
            i = i + 1;
        }
        proof {
            assert(fetched@.take(fetched@.len() as int) =~= fetched@);
        }
        entries
    }

    /// The bytes a read returns, given the entry fetched for the file: up
    /// to `size` bytes of its content, starting at `offset`.
    pub fn read_data(fetched: &Fetched, offset: i64, size: u32) -> (r: Result<Vec<u8>, StoreError>)
        ensures
            match *fetched {
                Fetched::Found(record) => if record.attr.kind == FileType::RegularFile {
                    r is Ok && r.unwrap()@ == read_range(record.data@, offset, size)
                } else {
                    r == Err::<Vec<u8>, StoreError>(StoreError::NotFound)
                },
                Fetched::Missing => r == Err::<Vec<u8>, StoreError>(StoreError::NotFound),
                Fetched::Failed => r == Err::<Vec<u8>, StoreError>(StoreError::Unavailable),
            },
    {
        match fetched {
            Fetched::Found(record) => match record.attr.kind {
                FileType::RegularFile => Ok(read_bytes(&record.data, offset, size)),
                FileType::Directory => Err(StoreError::NotFound),
            },
            Fetched::Missing => Err(StoreError::NotFound),
            Fetched::Failed => Err(StoreError::Unavailable),
        }
    }

    /// The entry to put after a write, given the entry fetched for the
    /// file: at offset 0 or below `data` replaces the content, at a positive
    /// offset it is appended, and the size attribute follows. The outcome of
    /// the put is then given to `write_reply`.
    pub fn write_data(fetched: Fetched, data: &[u8], offset: i64) -> (r: Result<
        FileData,
        StoreError,
    >)
        ensures
            match fetched {
                Fetched::Found(record) => if record.attr.kind == FileType::RegularFile {
                    &&& r is Ok
                    &&& r.unwrap()@ == (FileDataView {
                        data: write_range(record.data@, data@, offset),
                        attr: FileAttr {
                            size: write_range(record.data@, data@, offset).len() as u64,
                            ..record.attr
                        },
                        ..record@
                    })
                    &&& r.unwrap()@.holds_its_size()
                } else {
                    r is Err && r.unwrap_err() == StoreError::NotFound
                },
                Fetched::Missing => r is Err && r.unwrap_err() == StoreError::NotFound,
                Fetched::Failed => r is Err && r.unwrap_err() == StoreError::Unavailable,
            },
    {
        match fetched {
            Fetched::Found(record) => match record.attr.kind {
                FileType::RegularFile => {
                    let content = write_bytes(record.data, data, offset);
                    let size = content.len() as u64;
                    Ok(
                        FileData {
                            name: record.name,
                            attr: FileAttr { size, ..record.attr },
                            parent: record.parent,
                            data: content,
                        },
                    )
                },
                FileType::Directory => Err(StoreError::NotFound),
            },
            Fetched::Missing => Err(StoreError::NotFound),
            Fetched::Failed => Err(StoreError::Unavailable),
        }
    }

    /// What a write returns once the put is over: the number of bytes
    /// taken, reduced modulo 2^32, or that the service was unavailable.
    pub fn write_reply(data: &[u8], stored: bool) -> (r: Result<u32, StoreError>)
        ensures
            match r {
                Ok(n) => stored && n as int == data@.len() % 0x1_0000_0000,
                Err(e) => !stored && e == StoreError::Unavailable,
            },
    {
        if stored {
            let taken = data.len() as u64 % 0x1_0000_0000u64;
            Ok(taken as u32)
        } else {
            Err(StoreError::Unavailable)
        }
    }

    /// Confirms that `ino` names a record, given what was fetched for it.
    pub fn open_file(ino: u64, fetched: &Fetched) -> (r: Option<u64>)
        ensures
            r == (if *fetched is Found {
                Some(ino)
            } else {
                None
            }),
    {
        match fetched {
            Fetched::Found(_) => Some(ino),
            _ => None,
        }
    }

    /// The attributes of a record, given the entry fetched for it.
    pub fn get_file_attr(fetched: &Fetched) -> (r: Option<FileAttr>)
        ensures
            r == (match *fetched {
                Fetched::Found(record) => Some(record.attr),
                _ => None,
            }),
    {
        match fetched {
            Fetched::Found(record) => Some(record.attr),
            _ => None,
        }
    }

    /// The entry to put after a change of attributes while the clock reads
    /// `at`, given the entry fetched for the record: the given owner and
    /// size are put in, the access, modification and change times are `at`,
    /// and the bytes of a regular file that is given a size are cut or
    /// filled up with zeros to that size.
    pub fn set_file_attr_at(
        fetched: Fetched,
        uid: Option<u32>,
        gid: Option<u32>,
        size: Option<u64>,
        at: SystemTime,
    ) -> (r: Option<FileData>)
        requires
            size_fits(size),
        ensures
            match fetched {
                Fetched::Found(record) => r is Some && r.unwrap()@ == resized_entry(
                    record@,
                    updated_attr(record.attr, uid, gid, size, at),
                    size,
                ),
                _ => r is None,
            },
    {
        match fetched {
            Fetched::Found(record) => {
                let attr = update_attr_at(&record.attr, uid, gid, size, at);
                let data = match (record.attr.kind, size) {
                    (FileType::RegularFile, Some(n)) => resize_bytes(record.data, n as usize),
                    _ => record.data,
                };
                Some(FileData { name: record.name, attr, parent: record.parent, data })
            },
            _ => None,
        }
    }

    /// The entry to put after a change of attributes, given the entry
    /// fetched for the record: what `set_file_attr_at` gives for one
    /// reading of the clock. The outcome of the put is then given to
    /// `set_attr_reply`.
    pub fn set_file_attr(
        fetched: Fetched,
        uid: Option<u32>,
        gid: Option<u32>,
        size: Option<u64>,
    ) -> (r: Option<FileData>)
        requires
            size_fits(size),
        ensures
            match fetched {
                Fetched::Found(record) => {
                    &&& r is Some
                    &&& is_updated_attr(r.unwrap().attr, record.attr, uid, gid, size)
                    &&& r.unwrap()@ == resized_entry(record@, r.unwrap().attr, size)
                    &&& record@.holds_its_size() || size is Some ==> r.unwrap()@.holds_its_size()
                },
                _ => r is None,
            },
    {
        Self::set_file_attr_at(fetched, uid, gid, size, now())
    }

    /// What a change of attributes returns once the put is over: the new
    /// attributes, or nothing if the service did not take them.
    pub fn set_attr_reply(record: &FileData, stored: bool) -> (r: Option<FileAttr>)
        ensures
            r == (if stored {
                Some(record.attr)
            } else {
                None
            }),
    {
        if stored {
            Some(record.attr)
        } else {
            None
        }
    }
}

/// The key under which the entry of `ino` lives remotely: the identifier
/// in decimal notation.
pub fn ino_key(ino: u64) -> (key: String)
    ensures
        key@ == decimal(ino as nat),
{
    to_decimal(ino)
}

/// The identifier that a remote key stands for. A key that is no number in
/// decimal notation, or a number that is no identifier, stands for none.
pub fn key_ino(key: &str) -> (r: Option<u64>)
    ensures
        match r {
            Some(ino) => is_decimal(key@) && decimal_value(key@) == ino,
            None => !is_decimal(key@) || decimal_value(key@) > u64::MAX,
        },
{
    parse_decimal(key)
}

/// The key of an identifier stands for that identifier.
pub proof fn law_key_round_trip(ino: u64)
    ensures
        is_decimal(decimal(ino as nat)),
        decimal_value(decimal(ino as nat)) == ino,
{
    crate::decimal::law_decimal_round_trip(ino as nat);
}

} // verus!
