//! What holds of every store, whatever came before: statements that relate
//! several operations to one another, proved over the model.
use super::model::{read_range, resized, write_range, StoreModel};
use super::store::{FileAttr, FileInfo, FileType, ROOT_INO};
use vstd::prelude::*;

verus! {

/// The children listed among `1..=n` are exactly the children with an
/// identifier in that range, and they are listed in strictly rising order.
pub proof fn lemma_children_upto(m: StoreModel, dir: u64, n: nat)
    ensures
        forall|k: u64|
            m.children_upto(dir, n).contains(k) <==> (1 <= k <= n && m.is_child(k, dir)),
        forall|i: int, j: int|
            0 <= i < j < m.children_upto(dir, n).len() ==> m.children_upto(dir, n)[i]
                < m.children_upto(dir, n)[j],
        forall|i: int|
            0 <= i < m.children_upto(dir, n).len() ==> 1 <= #[trigger] m.children_upto(dir, n)[i]
                <= n,
    decreases n,
{
    if n > 0 {
        lemma_children_upto(m, dir, (n - 1) as nat);
        let rest = m.children_upto(dir, (n - 1) as nat);
        let all = m.children_upto(dir, n);
        if n <= u64::MAX && m.is_child(n as u64, dir) {
            assert(all == rest.push(n as u64));
            assert forall|k: u64| all.contains(k) <==> (1 <= k <= n && m.is_child(k, dir)) by {
                if all.contains(k) {
                    let i = choose|i: int| 0 <= i < all.len() && all[i] == k;
                    if i < rest.len() {
                        assert(rest[i] == k);
                        assert(rest.contains(k));
                    }
                }
                if 1 <= k <= n && m.is_child(k, dir) {
                    if k == n {
                        assert(all[rest.len() as int] == k);
                    } else {
                        assert(rest.contains(k));
                        let i = choose|i: int| 0 <= i < rest.len() && rest[i] == k;
                        assert(all[i] == k);
                    }
                }
            }
        } else {
            assert(all == rest);
        }
    }
}

/// The listing of a directory names each of its children once, in the order
/// in which they were created, and nothing else.
pub proof fn law_children_are_the_children(m: StoreModel, dir: u64)
    requires
        m.wf(),
    ensures
        forall|k: u64| m.children(dir).contains(k) <==> m.is_child(k, dir),
        forall|i: int, j: int|
            0 <= i < j < m.children(dir).len() ==> m.children(dir)[i] < m.children(dir)[j],
{
    lemma_children_upto(m, dir, m.last_ino as nat);
    assert forall|k: u64| m.children(dir).contains(k) <==> m.is_child(k, dir) by {
        if m.is_child(k, dir) {
            assert(m.records.contains_key(k));
        }
    }
}

/// A name resolves to nothing exactly when it reaches no record.
pub proof fn law_find_none_iff_unbound(m: StoreModel, name: Seq<char>, within: Option<u64>)
    requires
        m.wf(),
    ensures
        m.find(name, within) is None <==> forall|k: u64| !#[trigger] m.bound(k, name, within),
{
    if m.find(name, within) is None {
        assert forall|k: u64| !#[trigger] m.bound(k, name, within) by {
            if m.bound(k, name, within) {
                lemma_newest_exists(m, name, within, m.last_ino);
                assert(m.records.contains_key(k));
            }
        }
    } else {
        m.lemma_find_is_newest(name, within);
    }
}

/// Among the identifiers up to `n`, either none is reached by the name or
/// one of them is the last that is.
proof fn lemma_newest_exists(m: StoreModel, name: Seq<char>, within: Option<u64>, n: u64)
    requires
        forall|j: u64| j > n ==> !#[trigger] m.bound(j, name, within),
    ensures
        (exists|k: u64| m.newest_bound(k, name, within)) || forall|j: u64|
            !#[trigger] m.bound(j, name, within),
    decreases n,
{
    if m.bound(n, name, within) {
        assert(m.newest_bound(n, name, within));
    } else if n > 0 {
        assert forall|j: u64| j > (n - 1) as u64 implies !#[trigger] m.bound(j, name, within) by {
            if j != n {
                assert(j > n);
            }
        }
        lemma_newest_exists(m, name, within, (n - 1) as u64);
    } else {
        assert forall|j: u64| !#[trigger] m.bound(j, name, within) by {
            if j != 0 {
                assert(j > n);
            }
        }
    }
}

/// A name that was just created under a directory resolves, under that
/// directory, to the identifier and the record that the creation gave.
pub proof fn law_created_is_found(m: StoreModel, info: FileInfo, parent: u64)
    requires
        m.wf(),
        m.can_create(parent),
        info.parent == Some(parent),
        info.attr.ino == m.last_ino + 1,
        info.attr.size == 0,
    ensures
        m.created(info).wf(),
        m.created(info).find(info.name@, Some(parent)) == Some((m.last_ino + 1) as u64),
        m.created(info).records[(m.last_ino + 1) as u64] == info,
{
    let ino = (m.last_ino + 1) as u64;
    let after = m.created(info);
    assert(!m.records.contains_key(ino));
    assert(after.bound(ino, info.name@, Some(parent)));
    assert forall|j: u64| j > ino implies !#[trigger] after.bound(j, info.name@, Some(parent)) by {
        if after.records.contains_key(j) {
            assert(m.records.contains_key(j));
        }
    }
    after.lemma_find_some(info.name@, Some(parent), ino);
    m.lemma_created_wf(info, parent);
}

/// A write at offset 0 replaces: after two of them the file holds what the
/// second one wrote, and its size attribute says so.
pub proof fn law_write_replaces(m: StoreModel, ino: u64, b1: Seq<u8>, b2: Seq<u8>)
    requires
        m.wf(),
        m.is_file(ino),
    ensures
        m.written(ino, b1, 0).written(ino, b2, 0).contents[ino] == b2,
        m.written(ino, b1, 0).written(ino, b2, 0).records[ino].attr.size == b2.len() as u64,
{
}

/// A write at a positive offset appends: after a write of `b1` at offset 0
/// and a write of `b2` at any positive offset the file holds `b1` followed
/// by `b2`.
pub proof fn law_write_appends(m: StoreModel, ino: u64, b1: Seq<u8>, b2: Seq<u8>, offset: i64)
    requires
        m.wf(),
        m.is_file(ino),
        offset > 0,
    ensures
        m.written(ino, b1, 0).written(ino, b2, offset).contents[ino] == b1 + b2,
        m.written(ino, b1, 0).written(ino, b2, offset).records[ino].attr.size == (b1
            + b2).len() as u64,
{
}

/// A write changes one file's bytes and size and nothing else, and leaves
/// the store a tree.
pub proof fn law_write_keeps_the_rest(m: StoreModel, ino: u64, data: Seq<u8>, offset: i64)
    requires
        m.wf(),
        m.is_file(ino),
        write_range(m.contents[ino], data, offset).len() <= u64::MAX,
    ensures
        m.written(ino, data, offset).wf(),
        m.written(ino, data, offset).records.dom() == m.records.dom(),
        forall|k: u64|
            k != ino && m.records.contains_key(k) ==> m.written(ino, data, offset).records[k]
                == m.records[k],
        forall|k: u64|
            k != ino && m.contents.contains_key(k) ==> m.written(ino, data, offset).contents[k]
                == m.contents[k],
{
    let after = m.written(ino, data, offset);
    assert(after.records.dom() =~= m.records.dom());
    m.lemma_written_wf(ino, data, offset);
}

/// A read never reaches outside the buffer: what it returns is a stretch of
/// the buffer no longer than asked for, cut short at the buffer's end, and
/// empty when it starts at or past the end.
pub proof fn law_read_stays_inside(content: Seq<u8>, offset: i64, size: u32)
    ensures
        read_range(content, offset, size).len() <= size,
        read_range(content, offset, size).len() <= content.len(),
        offset >= content.len() ==> read_range(content, offset, size).len() == 0,
        0 <= offset < content.len() ==> read_range(content, offset, size).len() == (if offset
            + size > content.len() {
            content.len() - offset
        } else {
            size as int
        }),
        forall|i: int|
            0 <= i < read_range(content, offset, size).len() ==> read_range(
                content,
                offset,
                size,
            )[i] == content[offset + i],
{
}

/// Deleting a directory without children takes it out of the store and so
/// out of its parent's listing; everything else stays.
pub proof fn law_delete_empty_dir(m: StoreModel, name: Seq<char>, dir: u64)
    requires
        m.wf(),
        m.find(name, None) == Some(dir),
        m.is_dir(dir),
        !m.has_children(dir),
    ensures
        !m.delete_dir_blocked(name),
        m.after_delete_dir(name) == m.removed(dir),
        m.after_delete_dir(name).wf(),
        !m.after_delete_dir(name).records.contains_key(dir),
        !m.after_delete_dir(name).children(m.records[dir].parent.unwrap()).contains(dir),
        forall|k: u64|
            k != dir && m.records.contains_key(k) ==> m.after_delete_dir(name).records.contains_key(
                k,
            ) && m.after_delete_dir(name).records[k] == m.records[k],
{
    let after = m.removed(dir);
    m.lemma_find_is_newest(name, None);
    m.lemma_removed_wf(dir);
    let parent = m.records[dir].parent.unwrap();
    law_children_are_the_children(after, parent);
    assert(!after.is_child(dir, parent));
    assert(after.children(parent).contains(dir) <==> after.is_child(dir, parent));
}

/// Deleting a directory that has a child is refused and changes nothing.
pub proof fn law_delete_full_dir(m: StoreModel, name: Seq<char>, dir: u64)
    requires
        m.wf(),
        m.find(name, None) == Some(dir),
        m.is_dir(dir),
        m.has_children(dir),
    ensures
        m.delete_dir_blocked(name),
        m.after_delete_dir(name) == m,
{
}

/// Deleting a file takes it and its bytes out of the store; everything else
/// stays, and the store is still a tree.
pub proof fn law_delete_file(m: StoreModel, name: Seq<char>, ino: u64)
    requires
        m.wf(),
        m.find(name, None) == Some(ino),
        m.is_file(ino),
    ensures
        m.after_delete_file(name) == m.removed(ino),
        m.after_delete_file(name).wf(),
        !m.after_delete_file(name).records.contains_key(ino),
        !m.after_delete_file(name).contents.contains_key(ino),
        forall|k: u64|
            k != ino && m.records.contains_key(k) ==> m.after_delete_file(
                name,
            ).records.contains_key(k) && m.after_delete_file(name).records[k] == m.records[k],
{
    m.lemma_find_is_newest(name, None);
    m.lemma_file_has_no_children(ino);
    m.lemma_removed_wf(ino);
}

/// Every listing starts with the directory itself under the names "." and
/// "..", and lists after them exactly the directory's children.
pub proof fn law_listing_has_dots_and_children(
    m: StoreModel,
    entries: Seq<(u64, FileType, String)>,
    dir: u64,
)
    requires
        m.wf(),
        m.is_listing(entries, dir),
    ensures
        entries.len() >= 2,
        entries[0].0 == dir && entries[0].2@ == "."@,
        entries[1].0 == dir && entries[1].2@ == ".."@,
        forall|k: u64|
            m.is_child(k, dir) <==> exists|i: int|
                2 <= i < entries.len() && (#[trigger] entries[i]).0 == k,
        forall|i: int|
            2 <= i < entries.len() ==> m.is_child((#[trigger] entries[i]).0, dir) && entries[i].2@
                == m.records[entries[i].0].name@ && entries[i].1 == m.records[entries[i].0].attr.kind,
{
    law_children_are_the_children(m, dir);
    let kids = m.children(dir);
    assert forall|i: int| 2 <= i < entries.len() implies m.is_child(
        (#[trigger] entries[i]).0,
        dir,
    ) && entries[i].2@ == m.records[entries[i].0].name@ && entries[i].1
        == m.records[entries[i].0].attr.kind by {
        assert(entries[2 + (i - 2)].0 == kids[i - 2]);
        assert(kids.contains(kids[i - 2]));
    }
    assert forall|k: u64| m.is_child(k, dir) implies exists|i: int|
        2 <= i < entries.len() && (#[trigger] entries[i]).0 == k by {
        assert(kids.contains(k));
        let n = choose|n: int| 0 <= n < kids.len() && kids[n] == k;
        assert(entries[2 + n].0 == k);
    }
}

/// The listing of the root names nothing outside the root: each entry is
/// the root itself or one of its children.
pub proof fn law_root_listing_stays_inside(m: StoreModel, entries: Seq<(u64, FileType, String)>)
    requires
        m.wf(),
        m.is_listing(entries, ROOT_INO),
    ensures
        forall|i: int|
            0 <= i < entries.len() ==> (#[trigger] entries[i]).0 == ROOT_INO || m.is_child(
                entries[i].0,
                ROOT_INO,
            ),
{
    law_listing_has_dots_and_children(m, entries, ROOT_INO);
}

/// Where names are unique within each parent, a name under a parent
/// resolves to the one record that bears it there.
pub proof fn law_unique_name_resolves(m: StoreModel, name: Seq<char>, parent: u64, ino: u64)
    requires
        m.names_unique(),
        m.bound(ino, name, Some(parent)),
    ensures
        m.find(name, Some(parent)) == Some(ino),
{
    assert forall|j: u64| j > ino implies !#[trigger] m.bound(j, name, Some(parent)) by {
        if m.bound(j, name, Some(parent)) {
            assert(m.records[j].name@ == m.records[ino].name@);
        }
    }
    m.lemma_find_some(name, Some(parent), ino);
}

/// A creation under a name that does not yet resolve under the parent
/// keeps names unique within each parent.
pub proof fn law_fresh_name_stays_unique(m: StoreModel, info: FileInfo, parent: u64)
    requires
        m.wf(),
        m.names_unique(),
        m.can_create(parent),
        info.parent == Some(parent),
        m.find(info.name@, Some(parent)) is None,
    ensures
        m.created(info).names_unique(),
{
    let new = (m.last_ino + 1) as u64;
    let after = m.created(info);
    law_find_none_iff_unbound(m, info.name@, Some(parent));
    assert(!m.records.contains_key(new));
    assert forall|a: u64, b: u64|
        #![trigger after.records[a], after.records[b]]
        after.records.contains_key(a) && after.records.contains_key(b) && a != b
            && after.records[a].parent is Some && after.records[a].parent
            == after.records[b].parent implies after.records[a].name@
        != after.records[b].name@ by {
        if a == new {
            assert(!m.bound(b, info.name@, Some(parent)));
        } else if b == new {
            assert(!m.bound(a, info.name@, Some(parent)));
        } else {
            assert(m.records[a].name@ != m.records[b].name@);
        }
    }
}

/// A removal, a write and a change of attributes keep names unique within
/// each parent.
pub proof fn law_names_stay_unique(
    m: StoreModel,
    ino: u64,
    data: Seq<u8>,
    offset: i64,
    attr: FileAttr,
)
    requires
        m.names_unique(),
    ensures
        m.removed(ino).names_unique(),
        m.is_file(ino) ==> m.written(ino, data, offset).names_unique(),
        m.records.contains_key(ino) ==> m.with_attr(ino, attr).names_unique(),
{
    let gone = m.removed(ino);
    assert forall|a: u64, b: u64|
        #![trigger gone.records[a], gone.records[b]]
        gone.records.contains_key(a) && gone.records.contains_key(b) && a != b
            && gone.records[a].parent is Some && gone.records[a].parent
            == gone.records[b].parent implies gone.records[a].name@ != gone.records[b].name@ by {
        assert(m.records[a].name@ != m.records[b].name@);
    }
    if m.is_file(ino) {
        let after = m.written(ino, data, offset);
        assert forall|a: u64, b: u64|
            #![trigger after.records[a], after.records[b]]
            after.records.contains_key(a) && after.records.contains_key(b) && a != b
                && after.records[a].parent is Some && after.records[a].parent
                == after.records[b].parent implies after.records[a].name@
            != after.records[b].name@ by {
            assert(m.records[a].name@ != m.records[b].name@);
        }
    }
    if m.records.contains_key(ino) {
        let after = m.with_attr(ino, attr);
        assert forall|a: u64, b: u64|
            #![trigger after.records[a], after.records[b]]
            after.records.contains_key(a) && after.records.contains_key(b) && a != b
                && after.records[a].parent is Some && after.records[a].parent
                == after.records[b].parent implies after.records[a].name@
            != after.records[b].name@ by {
            assert(m.records[a].name@ != m.records[b].name@);
        }
    }
}

/// Identifiers are issued in rising order and never twice: the identifier
/// that a creation issues lies above every identifier issued before, live
/// or deleted, and no operation lowers the count of issued identifiers.
pub proof fn law_identifiers_are_never_reissued(
    m: StoreModel,
    info: FileInfo,
    parent: u64,
    ino: u64,
    data: Seq<u8>,
    offset: i64,
    attr: FileAttr,
)
    requires
        m.wf(),
        m.can_create(parent),
    ensures
        m.created(info).last_ino == m.last_ino + 1,
        !m.records.contains_key(m.created(info).last_ino),
        forall|k: u64| m.records.contains_key(k) ==> k < m.created(info).last_ino,
        m.removed(ino).last_ino == m.last_ino,
        m.written(ino, data, offset).last_ino == m.last_ino,
        m.with_attr(ino, attr).last_ino == m.last_ino,
{
}

/// The bytes of a file follow its size: after a change of attributes the
/// buffer is as long as the size says, it begins with the bytes it held
/// before, as far as they fit, and zeros fill the rest; a read from the
/// start returns as many bytes as asked for, up to that size.
pub proof fn law_bytes_follow_the_size(m: StoreModel, ino: u64, attr: FileAttr)
    requires
        m.wf(),
        m.is_file(ino),
        attr.ino == ino,
        attr.kind == FileType::RegularFile,
    ensures
        m.with_attr(ino, attr).wf(),
        m.with_attr(ino, attr).contents[ino] == resized(m.contents[ino], attr.size as nat),
        m.with_attr(ino, attr).contents[ino].len() == attr.size,
        forall|i: int|
            0 <= i < attr.size && i < m.contents[ino].len() ==> m.with_attr(
                ino,
                attr,
            ).contents[ino][i] == m.contents[ino][i],
        forall|i: int|
            m.contents[ino].len() <= i < attr.size ==> m.with_attr(ino, attr).contents[ino][i]
                == 0,
        forall|k: u32|
            read_range(m.with_attr(ino, attr).contents[ino], 0, k).len() == (if k <= attr.size {
                k as int
            } else {
                attr.size as int
            }),
        attr.size == m.records[ino].attr.size ==> m.with_attr(ino, attr).contents
            == m.contents,
{
    m.lemma_with_attr_wf(ino, attr);
    assert(m.contents.contains_key(ino));
    if attr.size == m.records[ino].attr.size {
        assert(resized(m.contents[ino], attr.size as nat) =~= m.contents[ino]);
        assert(m.with_attr(ino, attr).contents =~= m.contents);
    }
}

/// In a store that is a tree, the size attribute of every regular file is
/// the length of its buffer, whatever was done to reach it.
pub proof fn law_size_is_the_length(m: StoreModel, ino: u64)
    requires
        m.wf(),
        m.is_file(ino),
    ensures
        m.contents[ino].len() == m.records[ino].attr.size,
{
    assert(m.contents.contains_key(ino));
}

} // verus!
