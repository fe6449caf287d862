//! The index that the remote-backed engine keeps beside the service, as
//! contracts see it: which records are known, what each is called, which
//! children each directory has, and what taking a record in or letting one
//! go does to that.
use super::etcd_store::FileDataView;
use super::store::{is_fresh_attr, FileType, StoreError, ROOT_INO};
use crate::decimal::{decimal_value, is_decimal};
use vstd::prelude::*;

verus! {

/// The predicate "is not `x`".
pub open spec fn is_not(x: u64) -> spec_fn(u64) -> bool {
    |k: u64| k != x
}

/// One entry that the service holds, as contracts see it: the key it is
/// held under, and the record that its value decodes to, if it decodes.
pub struct HeldView {
    pub key: Seq<char>,
    pub record: Option<FileDataView>,
}

/// `key` is the key of an identifier: a number in decimal notation that
/// fits one.
pub open spec fn names_identifier(key: Seq<char>) -> bool {
    is_decimal(key) && decimal_value(key) <= u64::MAX
}

impl HeldView {
    /// The identifier that the entry is held under.
    pub open spec fn ino(self) -> u64 {
        decimal_value(self.key) as u64
    }
}

/// The index as contracts see it.
pub struct IndexModel {
    /// The children of every directory.
    pub dirs: Map<u64, Seq<u64>>,
    /// The name of every record.
    pub names: Map<u64, Seq<char>>,
    /// The identifier issued last.
    pub last_ino: u64,
}

impl IndexModel {
    /// `ino` is a child of the directory `dir`.
    pub open spec fn is_child(self, ino: u64, dir: u64) -> bool {
        self.dirs.contains_key(dir) && self.dirs[dir].contains(ino)
    }

    /// The index mirrors a tree: the root is a directory, every directory
    /// is named, every child is named, and every named record but the root
    /// is the child of exactly one directory.
    pub open spec fn wf(self) -> bool {
        &&& self.last_ino >= ROOT_INO
        &&& self.dirs.contains_key(ROOT_INO)
        &&& forall|k: u64| #[trigger] self.names.contains_key(k) ==> ROOT_INO <= k <= self.last_ino
        &&& forall|d: u64| #[trigger] self.dirs.contains_key(d) ==> self.names.contains_key(d)
        &&& forall|d: u64, k: u64| #[trigger]
            self.is_child(k, d) ==> self.names.contains_key(k) && k != ROOT_INO
        &&& forall|k: u64| #[trigger]
            self.names.contains_key(k) && k != ROOT_INO ==> exists|d: u64| #[trigger]
                self.is_child(k, d)
        &&& forall|k: u64, d1: u64, d2: u64|
            #![trigger self.is_child(k, d1), self.is_child(k, d2)]
            self.is_child(k, d1) && self.is_child(k, d2) ==> d1 == d2
    }

    /// The index of a store that holds the root directory and nothing else.
    pub open spec fn initial() -> IndexModel {
        IndexModel {
            dirs: map![ROOT_INO => Seq::<u64>::empty()],
            names: map![ROOT_INO => "."@],
            last_ino: ROOT_INO,
        }
    }

    /// `ino` is reached by the name edge `name`; with `within` given, by
    /// that edge under that parent. The root has no name edge.
    pub open spec fn bound(self, ino: u64, name: Seq<char>, within: Option<u64>) -> bool {
        &&& self.names.contains_key(ino)
        &&& ino != ROOT_INO
        &&& within is Some ==> self.is_child(ino, within.unwrap())
        &&& self.names[ino] == name
    }

    /// `ino` is the record issued last among those that `name` reaches.
    pub open spec fn newest_bound(self, ino: u64, name: Seq<char>, within: Option<u64>) -> bool {
        &&& self.bound(ino, name, within)
        &&& forall|j: u64| j > ino ==> !#[trigger] self.bound(j, name, within)
    }

    /// What `name` resolves to: the record issued last among those that it
    /// reaches, or nothing.
    pub open spec fn find(self, name: Seq<char>, within: Option<u64>) -> Option<u64> {
        if exists|k: u64| self.newest_bound(k, name, within) {
            Some(choose|k: u64| self.newest_bound(k, name, within))
        } else {
            None
        }
    }

    /// A record that is the newest one a name reaches is what the name
    /// resolves to.
    pub proof fn lemma_find_some(self, name: Seq<char>, within: Option<u64>, ino: u64)
        requires
            self.newest_bound(ino, name, within),
        ensures
            self.find(name, within) == Some(ino),
    {
        let c = choose|k: u64| self.newest_bound(k, name, within);
        assert(self.newest_bound(c, name, within));
        if c < ino {
            assert(self.bound(ino, name, within));
        } else if c > ino {
            assert(self.bound(c, name, within));
        }
    }

    /// A name that reaches no record resolves to nothing.
    pub proof fn lemma_find_none(self, name: Seq<char>, within: Option<u64>)
        requires
            forall|j: u64| !#[trigger] self.bound(j, name, within),
        ensures
            self.find(name, within) is None,
    {
    }

    /// What a name resolves to is a record that the name reaches, and no
    /// record issued later is reached by it.
    pub proof fn lemma_find_is_newest(self, name: Seq<char>, within: Option<u64>)
        ensures
            match self.find(name, within) {
                Some(k) => self.newest_bound(k, name, within),
                None => true,
            },
    {
    }

    /// A record can be created under `parent`: an identifier is left to
    /// issue, and `parent` is a known directory.
    pub open spec fn can_create(self, parent: u64) -> bool {
        self.last_ino < u64::MAX && self.dirs.contains_key(parent)
    }

    /// Why a creation under `parent` is refused: a parent that is no known
    /// directory is not found, and under a known one the store is
    /// unavailable once it has issued its last identifier.
    pub open spec fn create_refusal(self, parent: u64) -> StoreError {
        if !self.dirs.contains_key(parent) {
            StoreError::NotFound
        } else {
            StoreError::Unavailable
        }
    }

    /// The index once the identifier `ino` is known to have been issued:
    /// the identifier issued last is `ino` at least. Nothing else moves.
    pub open spec fn raised(self, ino: u64) -> IndexModel {
        IndexModel {
            last_ino: if ino > self.last_ino {
                ino
            } else {
                self.last_ino
            },
            ..self
        }
    }

    /// Knowing of one more issued identifier leaves the index the mirror of
    /// a tree.
    pub proof fn lemma_raised_wf(self, ino: u64)
        requires
            self.wf(),
        ensures
            self.raised(ino).wf(),
    {
        let after = self.raised(ino);
        assert forall|d: u64, k: u64| #[trigger] after.is_child(k, d) implies after.names.contains_key(
            k,
        ) && k != ROOT_INO by {
            assert(self.is_child(k, d));
        }
        assert forall|k: u64| #[trigger]
            after.names.contains_key(k) && k != ROOT_INO implies exists|d: u64| #[trigger]
            after.is_child(k, d) by {
            let d = choose|d: u64| #[trigger] self.is_child(k, d);
            assert(after.is_child(k, d));
        }
        assert forall|k: u64, d1: u64, d2: u64|
            #![trigger after.is_child(k, d1), after.is_child(k, d2)]
            after.is_child(k, d1) && after.is_child(k, d2) implies d1 == d2 by {
            assert(self.is_child(k, d1) && self.is_child(k, d2));
        }
    }

    /// The index after it saw one entry that the service holds. An entry
    /// under the key of an identifier makes that identifier known as
    /// issued; if its record decodes, carries that identifier and can be
    /// placed, the record is taken in as well. Any other key is passed over.
    pub open spec fn with_held(self, held: HeldView) -> IndexModel {
        if names_identifier(held.key) {
            let raised = self.raised(held.ino());
            if held.record is Some && held.record.unwrap().attr.ino == held.ino()
                && raised.accepts(held.record.unwrap()) {
                raised.with_created(held.record.unwrap())
            } else {
                raised
            }
        } else {
            self
        }
    }

    /// The index after it saw, one after the other, the entries that the
    /// service holds.
    pub open spec fn restored(self, held: Seq<HeldView>) -> IndexModel
        decreases held.len(),
    {
        if held.len() == 0 {
            self
        } else {
            self.restored(held.drop_last()).with_held(held.last())
        }
    }

    /// The index after one more identifier was issued. Nothing else moves.
    pub open spec fn issued(self) -> IndexModel {
        IndexModel { last_ino: (self.last_ino + 1) as u64, ..self }
    }

    /// Issuing one more identifier leaves the index the mirror of a tree.
    pub proof fn lemma_issued_wf(self)
        requires
            self.wf(),
            self.last_ino < u64::MAX,
        ensures
            self.issued().wf(),
    {
        self.lemma_raised_wf((self.last_ino + 1) as u64);
        assert(self.issued() == self.raised((self.last_ino + 1) as u64));
    }

    /// `record` is the entry of a new, empty object of kind `kind` named
    /// `name` under `parent`, with the identifier that is issued next.
    pub open spec fn is_new_entry(
        self,
        record: FileDataView,
        name: Seq<char>,
        parent: u64,
        uid: u32,
        gid: u32,
        kind: FileType,
    ) -> bool {
        &&& record.name == name
        &&& record.parent == Some(parent)
        &&& record.data.len() == 0
        &&& is_fresh_attr(record.attr, (self.last_ino + 1) as u64, uid, gid, kind)
    }

    /// The index may take `record` in: it hangs under a known directory and
    /// carries an identifier that was issued and is not yet known.
    pub open spec fn accepts(self, record: FileDataView) -> bool {
        &&& record.parent is Some
        &&& self.dirs.contains_key(record.parent.unwrap())
        &&& ROOT_INO < record.attr.ino <= self.last_ino
        &&& !self.names.contains_key(record.attr.ino)
    }

    /// The index after `record` was taken in: it is named, it is the last
    /// child of its parent, and a directory has no children yet.
    pub open spec fn with_created(self, record: FileDataView) -> IndexModel {
        let ino = record.attr.ino;
        let parent = record.parent.unwrap();
        let placed = self.dirs.insert(parent, self.dirs[parent].push(ino));
        IndexModel {
            dirs: if record.attr.kind == FileType::Directory {
                placed.insert(ino, Seq::empty())
            } else {
                placed
            },
            names: self.names.insert(ino, record.name),
            last_ino: self.last_ino,
        }
    }

    /// `ino` may leave the index: it is known, it is not the root, and it
    /// has no children.
    pub open spec fn releases(self, ino: u64) -> bool {
        &&& self.names.contains_key(ino)
        &&& ino != ROOT_INO
        &&& self.dirs.contains_key(ino) ==> self.dirs[ino].len() == 0
    }

    /// The file that deleting `name` removes: what the name resolves to,
    /// unless that is a directory.
    pub open spec fn file_to_delete(self, name: Seq<char>) -> Option<u64> {
        match self.find(name, None) {
            Some(k) => if self.dirs.contains_key(k) {
                None
            } else {
                Some(k)
            },
            None => None,
        }
    }

    /// Deleting the directory named `name` is refused: the name resolves to
    /// a directory that still has children.
    pub open spec fn delete_dir_blocked(self, name: Seq<char>) -> bool {
        match self.find(name, None) {
            Some(k) => self.dirs.contains_key(k) && self.dirs[k].len() > 0,
            None => false,
        }
    }

    /// The directory that deleting `name` removes: what the name resolves
    /// to, if that is a directory without children.
    pub open spec fn dir_to_delete(self, name: Seq<char>) -> Option<u64> {
        match self.find(name, None) {
            Some(k) => if self.dirs.contains_key(k) && self.dirs[k].len() == 0 {
                Some(k)
            } else {
                None
            },
            None => None,
        }
    }

    /// The children of `dir`, in the order in which they were taken in. What
    /// is no directory has none.
    pub open spec fn children(self, dir: u64) -> Seq<u64> {
        if self.dirs.contains_key(dir) {
            self.dirs[dir]
        } else {
            Seq::empty()
        }
    }

    /// The index after `ino` left it: it has no name, it is no directory,
    /// and it is nobody's child.
    pub open spec fn with_deleted(self, ino: u64) -> IndexModel {
        IndexModel {
            dirs: Map::new(
                |d: u64| self.dirs.contains_key(d) && d != ino,
                |d: u64| self.dirs[d].filter(is_not(ino)),
            ),
            names: self.names.remove(ino),
            last_ino: self.last_ino,
        }
    }
}

/// What is left of a list without `x` is what the list held, but `x`.
proof fn lemma_without(s: Seq<u64>, x: u64)
    ensures
        forall|k: u64| s.filter(is_not(x)).contains(k) <==> (s.contains(k) && k != x),
{
    assert forall|k: u64| s.filter(is_not(x)).contains(k) <==> (s.contains(k) && k != x) by {
        if s.filter(is_not(x)).contains(k) {
            let i = choose|i: int| 0 <= i < s.filter(is_not(x)).len() && s.filter(is_not(x))[i] == k;
            s.lemma_filter_pred(is_not(x), i);
            s.lemma_filter_contains_rev(is_not(x), k);
        }
        if s.contains(k) && k != x {
            let i = choose|i: int| 0 <= i < s.len() && s[i] == k;
            s.lemma_filter_contains(is_not(x), i);
        }
    }
}

/// An index that lets a record go is still the mirror of a tree.
proof fn lemma_deleted_wf(m: IndexModel, ino: u64)
    requires
        m.wf(),
        m.releases(ino),
    ensures
        m.with_deleted(ino).wf(),
{
    let after = m.with_deleted(ino);
    assert forall|d: u64, k: u64| #[trigger] after.is_child(k, d) implies m.is_child(k, d) && k
        != ino by {
        lemma_without(m.dirs[d], ino);
    }
    assert forall|d: u64, k: u64| #[trigger]
        m.is_child(k, d) && k != ino implies after.is_child(k, d) by {
        lemma_without(m.dirs[d], ino);
        if d == ino {
            assert(m.dirs[d].len() == 0);
        }
    }
    assert forall|d: u64, k: u64| #[trigger] after.is_child(k, d) implies after.names.contains_key(
        k,
    ) && k != ROOT_INO by {
        assert(m.is_child(k, d));
    }
    assert forall|k: u64| #[trigger]
        after.names.contains_key(k) && k != ROOT_INO implies exists|d: u64| #[trigger]
        after.is_child(k, d) by {
        assert(m.names.contains_key(k));
        let d = choose|d: u64| #[trigger] m.is_child(k, d);
        assert(after.is_child(k, d));
    }
    assert forall|k: u64, d1: u64, d2: u64|
        #![trigger after.is_child(k, d1), after.is_child(k, d2)]
        after.is_child(k, d1) && after.is_child(k, d2) implies d1 == d2 by {
        assert(m.is_child(k, d1) && m.is_child(k, d2));
    }
    assert forall|d: u64| #[trigger] after.dirs.contains_key(d) implies after.names.contains_key(
        d,
    ) by {
        assert(m.dirs.contains_key(d));
    }
    assert forall|k: u64| #[trigger] after.names.contains_key(k) implies ROOT_INO <= k
        <= after.last_ino by {
        assert(m.names.contains_key(k));
    }
}

/// An index that takes a record in is still the mirror of a tree, and the
/// record is then a child of its parent and of nothing else; whatever was
/// a child before is still one.
pub proof fn law_created_is_placed(before: IndexModel, record: FileDataView)
    requires
        before.wf(),
        before.accepts(record),
    ensures
        before.with_created(record).wf(),
        before.with_created(record).is_child(record.attr.ino, record.parent.unwrap()),
        forall|d: u64, k: u64|
            before.with_created(record).is_child(k, d) <==> (before.is_child(k, d) || (k
                == record.attr.ino && d == record.parent.unwrap())),
{
    let goal = before.with_created(record);
    let ino = record.attr.ino;
    let parent = record.parent.unwrap();
    assert(!before.dirs.contains_key(ino));
    assert forall|k: u64| !before.is_child(ino, k) by {}
    assert forall|d: u64, k: u64| #[trigger] goal.is_child(k, d) implies (k == ino && d
        == parent) || before.is_child(k, d) by {
        if d == ino {
        } else if d == parent {
            let i = choose|i: int| 0 <= i < goal.dirs[d].len() && goal.dirs[d][i] == k;
            if i < before.dirs[d].len() {
                assert(before.dirs[d][i] == k);
            }
        }
    }
    assert forall|d: u64, k: u64| #[trigger] before.is_child(k, d) implies goal.is_child(
        k,
        d,
    ) by {
        if d == parent {
            let i = choose|i: int| 0 <= i < before.dirs[d].len() && before.dirs[d][i] == k;
            assert(goal.dirs[d][i] == k);
        }
    }
    assert(goal.is_child(ino, parent)) by {
        assert(goal.dirs[parent][before.dirs[parent].len() as int] == ino);
    }
    assert forall|k: u64| #[trigger]
        goal.names.contains_key(k) && k != ROOT_INO implies exists|d: u64| #[trigger]
        goal.is_child(k, d) by {
        if k == ino {
            assert(goal.is_child(k, parent));
        } else {
            assert(before.names.contains_key(k));
            let d = choose|d: u64| #[trigger] before.is_child(k, d);
            assert(goal.is_child(k, d));
        }
    }
    assert forall|k: u64, d1: u64, d2: u64|
        #![trigger goal.is_child(k, d1), goal.is_child(k, d2)]
        goal.is_child(k, d1) && goal.is_child(k, d2) implies d1 == d2 by {
        if k != ino {
            assert(before.is_child(k, d1) && before.is_child(k, d2));
        }
    }
    assert forall|d: u64, k: u64| #[trigger] goal.is_child(k, d) implies goal.names.contains_key(
        k,
    ) && k != ROOT_INO by {
        if !(k == ino && d == parent) {
            assert(before.is_child(k, d));
        }
    }
    assert forall|d: u64| #[trigger] goal.dirs.contains_key(d) implies goal.names.contains_key(
        d,
    ) by {
        if d != ino {
            assert(before.dirs.contains_key(d));
        }
    }
    assert forall|k: u64| #[trigger] goal.names.contains_key(k) implies ROOT_INO <= k
        <= goal.last_ino by {
        if k != ino {
            assert(before.names.contains_key(k));
        }
    }
    assert forall|d: u64, k: u64|
        goal.is_child(k, d) <==> (before.is_child(k, d) || (k == ino && d == parent)) by {
        if goal.is_child(k, d) {
            assert((k == ino && d == parent) || before.is_child(k, d));
        }
        if before.is_child(k, d) {
            assert(goal.is_child(k, d));
        }
    }
}

/// A record that was just issued its identifier and taken into the index
/// is what its name resolves to under its parent.
pub proof fn law_index_finds_the_created(before: IndexModel, record: FileDataView)
    requires
        before.wf(),
        before.accepts(record),
        record.attr.ino == before.last_ino,
    ensures
        before.with_created(record).find(record.name, record.parent) == Some(record.attr.ino),
{
    let goal = before.with_created(record);
    let ino = record.attr.ino;
    law_created_is_placed(before, record);
    assert(goal.bound(ino, record.name, record.parent));
    assert forall|j: u64| j > ino implies !#[trigger] goal.bound(j, record.name, record.parent) by {
        if goal.names.contains_key(j) {
            assert(before.names.contains_key(j));
        }
    }
    goal.lemma_find_some(record.name, record.parent, ino);
}

/// An index that lets a record go is still the mirror of a tree; the record
/// is no longer known, is nobody's child and resolves from no name, and
/// every other record is placed as before.
pub proof fn law_deleted_is_gone(before: IndexModel, ino: u64)
    requires
        before.wf(),
        before.releases(ino),
    ensures
        before.with_deleted(ino).wf(),
        !before.with_deleted(ino).names.contains_key(ino),
        !before.with_deleted(ino).dirs.contains_key(ino),
        forall|d: u64, k: u64|
            before.with_deleted(ino).is_child(k, d) <==> (before.is_child(k, d) && k != ino),
        forall|name: Seq<char>, within: Option<u64>|
            before.with_deleted(ino).find(name, within) != Some(ino),
{
    let after = before.with_deleted(ino);
    lemma_deleted_wf(before, ino);
    assert forall|d: u64, k: u64| after.is_child(k, d) <==> (before.is_child(k, d) && k
        != ino) by {
        if before.dirs.contains_key(d) {
            lemma_without(before.dirs[d], ino);
        }
        if before.is_child(k, d) && d == ino {
            assert(before.dirs[d].len() == 0);
        }
    }
    assert forall|name: Seq<char>, within: Option<u64>| after.find(name, within) != Some(ino) by {
        after.lemma_find_is_newest(name, within);
    }
}

/// An index that sees an entry of the service is still the mirror of a
/// tree, forgets no identifier, and knows the entry's identifier as issued.
pub proof fn law_held_is_counted(m: IndexModel, held: HeldView)
    requires
        m.wf(),
    ensures
        m.with_held(held).wf(),
        m.with_held(held).last_ino >= m.last_ino,
        names_identifier(held.key) ==> m.with_held(held).last_ino >= held.ino(),
{
    if names_identifier(held.key) {
        m.lemma_raised_wf(held.ino());
        let raised = m.raised(held.ino());
        if held.record is Some && raised.accepts(held.record.unwrap()) {
            law_created_is_placed(raised, held.record.unwrap());
        }
    }
}

/// An index that was restored from the entries of the service is the
/// mirror of a tree, and no identifier that an entry is held under will be
/// issued again: each is at most the identifier issued last.
pub proof fn law_restored_keeps_identifiers(m: IndexModel, held: Seq<HeldView>)
    requires
        m.wf(),
    ensures
        m.restored(held).wf(),
        m.restored(held).last_ino >= m.last_ino,
        forall|i: int|
            0 <= i < held.len() && names_identifier((#[trigger] held[i]).key) ==> held[i].ino()
                <= m.restored(held).last_ino,
    decreases held.len(),
{
    if held.len() > 0 {
        let front = held.drop_last();
        law_restored_keeps_identifiers(m, front);
        law_held_is_counted(m.restored(front), held.last());
        assert forall|i: int|
            0 <= i < held.len() && names_identifier((#[trigger] held[i]).key) implies held[i].ino()
            <= m.restored(held).last_ino by {
            if i < held.len() - 1 {
                assert(front[i] == held[i]);
            }
        }
    }
}

/// Entry `i` of `held` hangs under the root or under a directory that an
/// earlier entry holds.
pub open spec fn parent_comes_first(held: Seq<HeldView>, i: int) -> bool {
    let parent = held[i].record.unwrap().parent.unwrap();
    parent == ROOT_INO || exists|j: int|
        0 <= j < i && (#[trigger] held[j]).ino() == parent && held[j].record is Some
            && held[j].record.unwrap().attr.kind == FileType::Directory && parent != ROOT_INO
}

/// The entries are those of a tree, in an order in which the tree can be
/// built: each is held under the key of an identifier; each but the root's
/// decodes to a record that carries that identifier, is held under no
/// earlier key, and hangs under the root or under a directory that an
/// earlier entry holds.
pub open spec fn in_tree_order(held: Seq<HeldView>) -> bool {
    forall|i: int|
        0 <= i < held.len() ==> {
            &&& names_identifier((#[trigger] held[i]).key)
            &&& held[i].ino() == ROOT_INO || {
                &&& held[i].ino() > ROOT_INO
                &&& held[i].record is Some
                &&& held[i].record.unwrap().attr.ino == held[i].ino()
                &&& held[i].record.unwrap().parent is Some
                &&& parent_comes_first(held, i)
                &&& forall|j: int| 0 <= j < i ==> (#[trigger] held[j]).ino() != held[i].ino()
            }
        }
}

/// The index mirrors the entries: every entry but the root's is known
/// under its name, is a child of its parent, and is a directory of the index
/// exactly if its record is one; and the index knows nothing else.
pub open spec fn mirrors(m: IndexModel, held: Seq<HeldView>) -> bool {
    &&& forall|i: int|
        0 <= i < held.len() && (#[trigger] held[i]).ino() != ROOT_INO ==> {
            &&& m.names.contains_key(held[i].ino())
            &&& m.names[held[i].ino()] == held[i].record.unwrap().name
            &&& m.is_child(held[i].ino(), held[i].record.unwrap().parent.unwrap())
            &&& m.dirs.contains_key(held[i].ino()) <==> held[i].record.unwrap().attr.kind
                == FileType::Directory
        }
    &&& forall|k: u64| #[trigger]
        m.names.contains_key(k) ==> k == ROOT_INO || exists|i: int|
            0 <= i < held.len() && (#[trigger] held[i]).ino() == k
}

/// An index restored from the entries of a tree, taken in an order in which
/// the tree can be built, mirrors them all.
pub proof fn law_restored_mirrors(held: Seq<HeldView>)
    requires
        in_tree_order(held),
    ensures
        IndexModel::initial().restored(held).wf(),
        mirrors(IndexModel::initial().restored(held), held),
    decreases held.len(),
{
    let start = IndexModel::initial();
    assert(start.wf()) by {
        assert forall|d: u64, k: u64| !#[trigger] start.is_child(k, d) by {}
    }
    law_restored_keeps_identifiers(start, held);
    if held.len() > 0 {
        let front = held.drop_last();
        let last = held.last();
        let n = held.len() - 1;
        assert forall|i: int| 0 <= i < front.len() implies front[i] == held[i] by {}
        assert(in_tree_order(front)) by {
            assert forall|i: int| 0 <= i < front.len() implies {
                &&& names_identifier((#[trigger] front[i]).key)
                &&& front[i].ino() == ROOT_INO || {
                    &&& front[i].ino() > ROOT_INO
                    &&& front[i].record is Some
                    &&& front[i].record.unwrap().attr.ino == front[i].ino()
                    &&& front[i].record.unwrap().parent is Some
                    &&& parent_comes_first(front, i)
                    &&& forall|j: int| 0 <= j < i ==> (#[trigger] front[j]).ino() != front[i].ino()
                }
            } by {
                assert(front[i] == held[i]);
                if held[i].ino() != ROOT_INO {
                    assert(parent_comes_first(held, i));
                    let parent = held[i].record.unwrap().parent.unwrap();
                    if parent != ROOT_INO {
                        let j = choose|j: int|
                            0 <= j < i && (#[trigger] held[j]).ino() == parent
                                && held[j].record is Some && held[j].record.unwrap().attr.kind
                                == FileType::Directory && parent != ROOT_INO;
                        assert(front[j] == held[j]);
                    }
                    assert forall|j: int| 0 <= j < i implies (#[trigger] front[j]).ino()
                        != front[i].ino() by {
                        assert(front[j] == held[j]);
                    }
                }
            }
        }
        law_restored_mirrors(front);
        let before = start.restored(front);
        let after = before.with_held(last);
        assert(after == start.restored(held));
        assert(held[n] == last);
        assert(names_identifier(last.key));
        let raised = before.raised(last.ino());
        before.lemma_raised_wf(last.ino());
        if last.ino() == ROOT_INO {
            assert(after == raised);
            assert forall|d: u64, k: u64| after.is_child(k, d) == before.is_child(k, d) by {}
            assert(mirrors(after, held)) by {
                assert forall|i: int|
                    0 <= i < held.len() && (#[trigger] held[i]).ino() != ROOT_INO implies {
                    &&& after.names.contains_key(held[i].ino())
                    &&& after.names[held[i].ino()] == held[i].record.unwrap().name
                    &&& after.is_child(held[i].ino(), held[i].record.unwrap().parent.unwrap())
                    &&& after.dirs.contains_key(held[i].ino()) <==> held[i].record.unwrap().attr.kind
                        == FileType::Directory
                } by {
                    assert(front[i] == held[i]);
                }
                assert forall|k: u64| #[trigger] after.names.contains_key(k) implies k == ROOT_INO
                    || exists|i: int| 0 <= i < held.len() && (#[trigger] held[i]).ino() == k by {
                    if k != ROOT_INO {
                        let i = choose|i: int|
                            0 <= i < front.len() && (#[trigger] front[i]).ino() == k;
                        assert(held[i].ino() == k);
                    }
                }
            }
        } else {
            let record = last.record.unwrap();
            let ino = last.ino();
            let parent = record.parent.unwrap();
            assert(parent_comes_first(held, n));
            assert(raised.dirs.contains_key(parent)) by {
                if parent != ROOT_INO {
                    let j = choose|j: int|
                        0 <= j < n && (#[trigger] held[j]).ino() == parent && held[j].record is Some
                            && held[j].record.unwrap().attr.kind == FileType::Directory
                            && parent != ROOT_INO;
                    assert(front[j] == held[j]);
                    assert(before.dirs.contains_key(front[j].ino()));
                }
            }
            assert(!raised.names.contains_key(ino)) by {
                if before.names.contains_key(ino) {
                    let i = choose|i: int|
                        0 <= i < front.len() && (#[trigger] front[i]).ino() == ino;
                    assert(held[i].ino() == ino);
                }
            }
            assert(raised.accepts(record));
            assert(after == raised.with_created(record));
            law_created_is_placed(raised, record);
            assert forall|d: u64, k: u64| raised.is_child(k, d) == before.is_child(k, d) by {}
            assert(!raised.dirs.contains_key(ino));
            assert(mirrors(after, held)) by {
                assert forall|i: int|
                    0 <= i < held.len() && (#[trigger] held[i]).ino() != ROOT_INO implies {
                    &&& after.names.contains_key(held[i].ino())
                    &&& after.names[held[i].ino()] == held[i].record.unwrap().name
                    &&& after.is_child(held[i].ino(), held[i].record.unwrap().parent.unwrap())
                    &&& after.dirs.contains_key(held[i].ino()) <==> held[i].record.unwrap().attr.kind
                        == FileType::Directory
                } by {
                    if i < n {
                        assert(front[i] == held[i]);
                        assert(held[i].ino() != ino);
                        assert(before.is_child(
                            held[i].ino(),
                            held[i].record.unwrap().parent.unwrap(),
                        ));
                        assert(raised.is_child(
                            held[i].ino(),
                            held[i].record.unwrap().parent.unwrap(),
                        ));
                    }
                }
                assert forall|k: u64| #[trigger] after.names.contains_key(k) implies k == ROOT_INO
                    || exists|i: int| 0 <= i < held.len() && (#[trigger] held[i]).ino() == k by {
                    if k != ROOT_INO {
                        if k == ino {
                            assert(held[n].ino() == k);
                        } else {
                            assert(before.names.contains_key(k));
                            let i = choose|i: int|
                                0 <= i < front.len() && (#[trigger] front[i]).ino() == k;
                            assert(held[i].ino() == k);
                        }
                    }
                }
            }
        }
    } else {
        assert(start.restored(held) == start);
        assert(start.names.dom() =~= set![ROOT_INO]);
    }
}

/// After a restore, the identifier that is issued next lies above every
/// identifier that an entry is held under: no entry of the service is ever
/// put over by a creation.
pub proof fn law_restored_issues_above(held: Seq<HeldView>, i: int)
    requires
        0 <= i < held.len(),
        names_identifier(held[i].key),
        IndexModel::initial().restored(held).last_ino < u64::MAX,
    ensures
        IndexModel::initial().restored(held).issued().last_ino > held[i].ino(),
{
    let start = IndexModel::initial();
    assert(start.wf()) by {
        assert forall|d: u64, k: u64| !#[trigger] start.is_child(k, d) by {}
    }
    law_restored_keeps_identifiers(start, held);
}

} // verus!
