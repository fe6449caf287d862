//! The mathematical model of a store: which records exist, what bytes each
//! file holds, and what every operation of a storage engine does to them.
use super::store::{FileAttr, FileInfo, FileType, StoreError, ROOT_INO};
use vstd::prelude::*;

verus! {

/// The state of a store as contracts see it.
pub struct StoreModel {
    /// Every live record, by identifier.
    pub records: Map<u64, FileInfo>,
    /// The bytes of every regular file, by identifier.
    pub contents: Map<u64, Seq<u8>>,
    /// The identifier issued last. Identifiers are never issued twice.
    pub last_ino: u64,
}

/// The bytes a read of `size` bytes at `offset` returns from `content`:
/// the range that starts at `offset` and stops at the end of `content` at the
/// latest. A read that starts outside `content` returns nothing.
pub open spec fn read_range(content: Seq<u8>, offset: i64, size: u32) -> Seq<u8> {
    if offset < 0 || offset >= content.len() {
        Seq::empty()
    } else if offset + size > content.len() {
        content.subrange(offset as int, content.len() as int)
    } else {
        content.subrange(offset as int, offset + size)
    }
}

/// The bytes a file holds after `data` is written at `offset` over
/// `content`: a write at a positive offset appends, any other replaces.
pub open spec fn write_range(content: Seq<u8>, data: Seq<u8>, offset: i64) -> Seq<u8> {
    if offset > 0 {
        content + data
    } else {
        data
    }
}

/// `content` cut or lengthened to `n` bytes: a longer one loses its end, a
/// shorter one is filled up with zeros.
pub open spec fn resized(content: Seq<u8>, n: nat) -> Seq<u8> {
    if n <= content.len() {
        content.take(n as int)
    } else {
        content + Seq::new((n - content.len()) as nat, |i: int| 0u8)
    }
}

impl StoreModel {
    /// `ino` names a live directory.
    pub open spec fn is_dir(self, ino: u64) -> bool {
        self.records.contains_key(ino) && self.records[ino].attr.kind == FileType::Directory
    }

    /// `ino` names a live regular file.
    pub open spec fn is_file(self, ino: u64) -> bool {
        self.records.contains_key(ino) && self.records[ino].attr.kind == FileType::RegularFile
    }

    /// `ino` is a live record placed directly under `dir`.
    pub open spec fn is_child(self, ino: u64, dir: u64) -> bool {
        self.records.contains_key(ino) && self.records[ino].parent == Some(dir)
    }

    /// Some live record is placed directly under `dir`.
    pub open spec fn has_children(self, dir: u64) -> bool {
        exists|k: u64| #[trigger] self.is_child(k, dir)
    }

    /// The state is a tree: the root is a directory without a name edge, and
    /// every other record was issued its own identifier, hangs under a live
    /// directory, and has a byte buffer exactly when it is a regular file.
    /// The size attribute of a regular file is the length of its buffer.
    pub open spec fn wf(self) -> bool {
        &&& self.last_ino >= ROOT_INO
        &&& self.is_dir(ROOT_INO)
        &&& self.records[ROOT_INO].parent is None
        &&& forall|k: u64| #[trigger]
            self.records.contains_key(k) ==> ROOT_INO <= k <= self.last_ino
                && self.records[k].attr.ino == k
        &&& forall|k: u64| #[trigger]
            self.records.contains_key(k) && k != ROOT_INO ==> self.records[k].parent is Some
                && self.is_dir(self.records[k].parent.unwrap())
        &&& forall|k: u64| #[trigger]
            self.contents.contains_key(k) <==> self.is_file(k)
        &&& forall|k: u64| #[trigger]
            self.contents.contains_key(k) ==> self.contents[k].len()
                == self.records[k].attr.size
    }

    /// The state of a store that holds the root directory and nothing else.
    pub open spec fn is_initial(self) -> bool {
        &&& self.last_ino == ROOT_INO
        &&& self.records.dom() =~= set![ROOT_INO]
        &&& self.records[ROOT_INO].parent is None
        &&& self.records[ROOT_INO].name@ == "."@
        &&& super::store::is_root_attr(self.records[ROOT_INO].attr)
        &&& self.contents =~= Map::empty()
    }

    /// `ino` is reached by the name edge `name`; with `within` given, by that
    /// edge under that parent. The root has no name edge.
    pub open spec fn bound(self, ino: u64, name: Seq<char>, within: Option<u64>) -> bool {
        &&& self.records.contains_key(ino)
        &&& self.records[ino].parent is Some
        &&& within is Some ==> self.records[ino].parent == within
        &&& self.records[ino].name@ == name
    }

    /// No two records under one parent bear the same name.
    pub open spec fn names_unique(self) -> bool {
        forall|a: u64, b: u64|
            #![trigger self.records[a], self.records[b]]
            self.records.contains_key(a) && self.records.contains_key(b) && a != b
                && self.records[a].parent is Some && self.records[a].parent
                == self.records[b].parent ==> self.records[a].name@ != self.records[b].name@
    }

    /// `ino` is the record issued last among those that `name` reaches.
    pub open spec fn newest_bound(self, ino: u64, name: Seq<char>, within: Option<u64>) -> bool {
        &&& self.bound(ino, name, within)
        &&& forall|j: u64| j > ino ==> !#[trigger] self.bound(j, name, within)
    }

    /// What `name` resolves to: the record issued last among those that it
    /// reaches, or nothing.
    pub open spec fn find(self, name: Seq<char>, within: Option<u64>) -> Option<u64> {
        if exists|k: u64| self.newest_bound(k, name, within) {
            Some(choose|k: u64| self.newest_bound(k, name, within))
        } else {
            None
        }
    }

    /// The children of `dir` among the identifiers `1..=n`, in rising order.
    pub open spec fn children_upto(self, dir: u64, n: nat) -> Seq<u64>
        decreases n,
    {
        if n == 0 {
            Seq::empty()
        } else {
            let rest = self.children_upto(dir, (n - 1) as nat);
            if n <= u64::MAX && self.is_child(n as u64, dir) {
                rest.push(n as u64)
            } else {
                rest
            }
        }
    }

    /// The children of `dir`, in the order in which they were created.
    pub open spec fn children(self, dir: u64) -> Seq<u64> {
        self.children_upto(dir, self.last_ino as nat)
    }

    /// `entries` is the listing of `dir`: the directory itself under the
    /// names "." and "..", then one entry for each child, in the order of
    /// `children`.
    pub open spec fn is_listing(self, entries: Seq<(u64, FileType, String)>, dir: u64) -> bool {
        let kids = self.children(dir);
        &&& entries.len() == 2 + kids.len()
        &&& entries[0].0 == dir && entries[0].1 == FileType::Directory && entries[0].2@ == "."@
        &&& entries[1].0 == dir && entries[1].1 == FileType::Directory && entries[1].2@ == ".."@
        &&& forall|i: int|
            0 <= i < kids.len() ==> {
                &&& (#[trigger] entries[2 + i]).0 == kids[i]
                &&& entries[2 + i].1 == self.records[kids[i]].attr.kind
                &&& entries[2 + i].2@ == self.records[kids[i]].name@
            }
    }

    /// A record can be created under `parent`: an identifier is left to
    /// issue, and `parent` is a live directory.
    pub open spec fn can_create(self, parent: u64) -> bool {
        self.last_ino < u64::MAX && self.is_dir(parent)
    }

    /// Why a creation under `parent` is refused: a parent that is no live
    /// directory is not found, and under a live one the store is
    /// unavailable once it has issued its last identifier.
    pub open spec fn create_refusal(self, parent: u64) -> StoreError {
        if !self.is_dir(parent) {
            StoreError::NotFound
        } else {
            StoreError::Unavailable
        }
    }

    /// The state after the next identifier was issued to `info`.
    pub open spec fn created(self, info: FileInfo) -> StoreModel {
        let ino = (self.last_ino + 1) as u64;
        StoreModel {
            records: self.records.insert(ino, info),
            contents: if info.attr.kind == FileType::RegularFile {
                self.contents.insert(ino, Seq::empty())
            } else {
                self.contents
            },
            last_ino: ino,
        }
    }

    /// The state without the record `ino` and its bytes.
    pub open spec fn removed(self, ino: u64) -> StoreModel {
        StoreModel {
            records: self.records.remove(ino),
            contents: self.contents.remove(ino),
            last_ino: self.last_ino,
        }
    }

    /// The state after the file named `name` was deleted. A name that does
    /// not resolve, or resolves to a directory, changes nothing.
    pub open spec fn after_delete_file(self, name: Seq<char>) -> StoreModel {
        match self.find(name, None) {
            Some(k) => if self.is_file(k) {
                self.removed(k)
            } else {
                self
            },
            None => self,
        }
    }

    /// Deleting the directory named `name` is refused: the name resolves to
    /// a directory that still has children.
    pub open spec fn delete_dir_blocked(self, name: Seq<char>) -> bool {
        match self.find(name, None) {
            Some(k) => self.is_dir(k) && self.has_children(k),
            None => false,
        }
    }

    /// The state after the directory named `name` was deleted. A name that
    /// does not resolve, or resolves to a file or to a directory with
    /// children, changes nothing.
    pub open spec fn after_delete_dir(self, name: Seq<char>) -> StoreModel {
        match self.find(name, None) {
            Some(k) => if self.is_dir(k) && !self.has_children(k) {
                self.removed(k)
            } else {
                self
            },
            None => self,
        }
    }

    /// The state after `data` was written to the file `ino` at `offset`:
    /// the file holds `write_range` of its old bytes, and its size attribute
    /// is their number.
    pub open spec fn written(self, ino: u64, data: Seq<u8>, offset: i64) -> StoreModel {
        let content = write_range(self.contents[ino], data, offset);
        let before = self.records[ino];
        StoreModel {
            records: self.records.insert(
                ino,
                FileInfo {
                    parent: before.parent,
                    name: before.name,
                    attr: FileAttr { size: content.len() as u64, ..before.attr },
                },
            ),
            contents: self.contents.insert(ino, content),
            last_ino: self.last_ino,
        }
    }

    /// The state after the attributes of `ino` were replaced by `attr`. The
    /// bytes of a regular file follow its size: they are cut or filled up
    /// with zeros to the size that `attr` gives.
    pub open spec fn with_attr(self, ino: u64, attr: FileAttr) -> StoreModel {
        let before = self.records[ino];
        StoreModel {
            records: self.records.insert(
                ino,
                FileInfo { parent: before.parent, name: before.name, attr },
            ),
            contents: if self.is_file(ino) {
                self.contents.insert(ino, resized(self.contents[ino], attr.size as nat))
            } else {
                self.contents
            },
            last_ino: self.last_ino,
        }
    }

    /// A record that is the newest one a name reaches is what the name
    /// resolves to.
    pub proof fn lemma_find_some(self, name: Seq<char>, within: Option<u64>, ino: u64)
        requires
            self.newest_bound(ino, name, within),
        ensures
            self.find(name, within) == Some(ino),
    {
        let c = choose|k: u64| self.newest_bound(k, name, within);
        assert(self.newest_bound(c, name, within));
        if c < ino {
            assert(self.bound(ino, name, within));
        } else if c > ino {
            assert(self.bound(c, name, within));
        }
    }

    /// A name that reaches no record resolves to nothing.
    pub proof fn lemma_find_none(self, name: Seq<char>, within: Option<u64>)
        requires
            forall|j: u64| !#[trigger] self.bound(j, name, within),
        ensures
            self.find(name, within) is None,
    {
    }

    /// What a name resolves to is a live record that the name reaches, and
    /// no record issued later is reached by it.
    pub proof fn lemma_find_is_newest(self, name: Seq<char>, within: Option<u64>)
        ensures
            match self.find(name, within) {
                Some(k) => self.newest_bound(k, name, within),
                None => true,
            },
    {
    }

    /// Issuing the next identifier to a record under a live directory leaves
    /// the state a tree.
    pub proof fn lemma_created_wf(self, info: FileInfo, parent: u64)
        requires
            self.wf(),
            self.can_create(parent),
            info.parent == Some(parent),
            info.attr.ino == self.last_ino + 1,
            info.attr.size == 0,
        ensures
            self.created(info).wf(),
    {
        let ino = (self.last_ino + 1) as u64;
        let after = self.created(info);
        assert(!self.records.contains_key(ino));
        assert forall|k: u64| #[trigger] after.contents.contains_key(k) <==> after.is_file(k) by {
            if k != ino {
                assert(self.contents.contains_key(k) <==> self.is_file(k));
            } else {
                assert(!self.is_file(k));
                assert(!self.contents.contains_key(k));
            }
        }
        assert forall|k: u64| #[trigger]
            after.records.contains_key(k) && k != ROOT_INO implies after.records[k].parent is Some
            && after.is_dir(after.records[k].parent.unwrap()) by {
            if k != ino {
                assert(self.records.contains_key(k));
            }
        }
    }

    /// Taking out a record that is not the root and has no children leaves
    /// the state a tree.
    pub proof fn lemma_removed_wf(self, ino: u64)
        requires
            self.wf(),
            self.records.contains_key(ino),
            ino != ROOT_INO,
            !self.has_children(ino),
        ensures
            self.removed(ino).wf(),
    {
        let after = self.removed(ino);
        assert forall|k: u64| #[trigger] after.contents.contains_key(k) <==> after.is_file(k) by {
            assert(self.contents.contains_key(k) <==> self.is_file(k));
        }
        assert forall|k: u64| #[trigger]
            after.records.contains_key(k) && k != ROOT_INO implies after.records[k].parent is Some
            && after.is_dir(after.records[k].parent.unwrap()) by {
            assert(self.records.contains_key(k));
            if self.records[k].parent.unwrap() == ino {
                assert(self.is_child(k, ino));
            }
        }
    }

    /// A regular file has no children.
    pub proof fn lemma_file_has_no_children(self, ino: u64)
        requires
            self.wf(),
            self.is_file(ino),
        ensures
            !self.has_children(ino),
    {
        assert forall|k: u64| !#[trigger] self.is_child(k, ino) by {
            if self.is_child(k, ino) {
                assert(self.records.contains_key(k));
                assert(self.is_dir(ino));
            }
        }
    }

    /// Writing to a regular file leaves the state a tree, as long as the
    /// size attribute can hold the new length.
    pub proof fn lemma_written_wf(self, ino: u64, data: Seq<u8>, offset: i64)
        requires
            self.wf(),
            self.is_file(ino),
            write_range(self.contents[ino], data, offset).len() <= u64::MAX,
        ensures
            self.written(ino, data, offset).wf(),
    {
        let after = self.written(ino, data, offset);
        assert forall|k: u64| #[trigger] after.contents.contains_key(k) <==> after.is_file(k) by {
            assert(self.contents.contains_key(k) <==> self.is_file(k));
        }
        assert forall|k: u64| #[trigger]
            after.records.contains_key(k) && k != ROOT_INO implies after.records[k].parent is Some
            && after.is_dir(after.records[k].parent.unwrap()) by {
            assert(self.records.contains_key(k));
        }
    }

    /// Replacing the attributes of a record by others of the same
    /// identifier and kind leaves the state a tree.
    pub proof fn lemma_with_attr_wf(self, ino: u64, attr: FileAttr)
        requires
            self.wf(),
            self.records.contains_key(ino),
            attr.ino == ino,
            attr.kind == self.records[ino].attr.kind,
        ensures
            self.with_attr(ino, attr).wf(),
    {
        let after = self.with_attr(ino, attr);
        assert forall|k: u64| #[trigger] after.contents.contains_key(k) <==> after.is_file(k) by {
            assert(self.contents.contains_key(k) <==> self.is_file(k));
        }
        assert forall|k: u64| #[trigger]
            after.records.contains_key(k) && k != ROOT_INO implies after.records[k].parent is Some
            && after.is_dir(after.records[k].parent.unwrap()) by {
            assert(self.records.contains_key(k));
        }
    }
}

} // verus!
