//! A filesystem that mirrors a directory of the host: the table that maps
//! identifiers to host paths, and the attributes made from what the host
//! reports of a file.
use crate::store::store::{FileAttr, FileType, ROOT_INO};
use std::collections::HashMap;
use std::time::{Duration, SystemTime};
use vstd::prelude::*;
use vstd::string::StringExecFns;

verus! {

broadcast use vstd::std_specs::hash::group_hash_axioms;

/// How long, in seconds, the kernel may keep an answer.
pub const TTL_SECS: u64 = 10;

/// The span of `secs` whole seconds.
pub uninterp spec fn whole_seconds(secs: u64) -> Duration;

/// Makes a span of `secs` whole seconds with `Duration::from_secs`.
#[verifier::external_body]
fn duration_from_secs(secs: u64) -> (span: Duration)
    ensures
        span == whole_seconds(secs),
{
    Duration::from_secs(secs)
}

/// The instant that lies `span` after the start of the Unix epoch.
pub uninterp spec fn after_epoch(span: Duration) -> SystemTime;

/// Adds `span` to `SystemTime::UNIX_EPOCH` with `SystemTime::checked_add`.
/// What comes back, if anything does, is the instant that lies so long
/// after the epoch; whether the machine can represent that instant is not
/// said.
#[verifier::external_body]
fn epoch_plus(span: Duration) -> (t: Option<SystemTime>)
    ensures
        t matches Some(at) ==> at == after_epoch(span),
{
    SystemTime::UNIX_EPOCH.checked_add(span)
}

/// The instant `secs` whole seconds after the start of the Unix epoch.
pub open spec fn seconds_after_epoch(secs: u64) -> SystemTime {
    after_epoch(whole_seconds(secs))
}

/// The number of seconds that a signed count stands for when it is read as
/// an unsigned one: itself if it is not negative, else 2^64 more.
pub open spec fn unsigned_seconds(t: i64) -> u64 {
    if t >= 0 {
        t as u64
    } else {
        (t + 0x1_0000_0000_0000_0000) as u64
    }
}

/// Reads a signed count of seconds as an unsigned one.
pub fn seconds_as_unsigned(t: i64) -> (secs: u64)
    ensures
        secs == unsigned_seconds(t),
{
    if t >= 0 {
        t as u64
    } else {
        (t + 0x7fff_ffff_ffff_ffff + 1) as u64 + 0x8000_0000_0000_0000u64
    }
}

/// The instant `t` seconds after the epoch, with `t` read as an unsigned
/// count, where the machine can represent it.
pub fn i64_to_systemtime(t: i64) -> (r: Option<SystemTime>)
    ensures
        r matches Some(at) ==> at == seconds_after_epoch(unsigned_seconds(t)),
{
    epoch_plus(duration_from_secs(seconds_as_unsigned(t)))
}

/// What the host reports of one file, as plain numbers.
#[derive(Clone, Copy, Debug, PartialEq, Eq)]
pub struct HostMetadata {
    pub ino: u64,
    pub size: u64,
    pub blksize: u64,
    pub blocks: u64,
    pub atime: i64,
    pub mtime: i64,
    pub ctime: i64,
    pub uid: u32,
    pub gid: u32,
    pub nlink: u64,
    pub mode: u32,
    pub rdev: u64,
}

/// The attributes of a regular file with the counts that the host reports
/// of it and the given times. Counts that the attributes hold in fewer bits
/// are reduced to those bits; the creation time is the change time.
pub open spec fn attr_of_host(
    md: HostMetadata,
    atime: SystemTime,
    mtime: SystemTime,
    ctime: SystemTime,
) -> FileAttr {
    FileAttr {
        ino: md.ino,
        size: md.size,
        blksize: (md.blksize % 0x1_0000_0000) as u32,
        blocks: md.blocks,
        crtime: ctime,
        atime,
        ctime,
        uid: md.uid,
        gid: md.gid,
        kind: FileType::RegularFile,
        mtime,
        nlink: (md.nlink % 0x1_0000_0000) as u32,
        perm: (md.mode % 0x1_0000) as u16,
        rdev: (md.rdev % 0x1_0000_0000) as u32,
        flags: 0,
    }
}

/// The attributes of a regular file with the counts that the host reports
/// of it and the given times.
pub fn fileattr_with_times(
    md: &HostMetadata,
    atime: SystemTime,
    mtime: SystemTime,
    ctime: SystemTime,
) -> (attr: FileAttr)
    ensures
        attr == attr_of_host(*md, atime, mtime, ctime),
{
    FileAttr {
        ino: md.ino,
        size: md.size,
        blksize: (md.blksize % 0x1_0000_0000) as u32,
        blocks: md.blocks,
        crtime: ctime,
        atime,
        ctime,
        uid: md.uid,
        gid: md.gid,
        kind: FileType::RegularFile,
        mtime,
        nlink: (md.nlink % 0x1_0000_0000) as u32,
        perm: (md.mode % 0x1_0000) as u16,
        rdev: (md.rdev % 0x1_0000_0000) as u32,
        flags: 0,
    }
}

/// The attributes of a regular file made from what the host reports of it,
/// its times counted in seconds from the epoch and made by the machine:
/// what becomes of them, made or not, is what `fileattr_from_times` says.
pub fn fileattr_from_md(md: &HostMetadata) -> (r: Option<FileAttr>)
    ensures
        r matches Some(attr) ==> attr == attr_of_host(
            *md,
            seconds_after_epoch(unsigned_seconds(md.atime)),
            seconds_after_epoch(unsigned_seconds(md.mtime)),
            seconds_after_epoch(unsigned_seconds(md.ctime)),
        ),
{
    let atime = i64_to_systemtime(md.atime);
    let mtime = i64_to_systemtime(md.mtime);
    let ctime = i64_to_systemtime(md.ctime);
    fileattr_from_times(md, atime, mtime, ctime)
}

/// The attributes of a regular file with the counts that the host reports
/// of it, given what came of making each of its three times: with all three
/// at hand there are attributes, and they carry those times; with one of
/// them lacking there are none.
pub fn fileattr_from_times(
    md: &HostMetadata,
    atime: Option<SystemTime>,
    mtime: Option<SystemTime>,
    ctime: Option<SystemTime>,
) -> (r: Option<FileAttr>)
    ensures
        r == (match (atime, mtime, ctime) {
            (Some(a), Some(m), Some(c)) => Some(attr_of_host(*md, a, m, c)),
            _ => None,
        }),
{
    match (atime, mtime, ctime) {
        (Some(a), Some(m), Some(c)) => Some(fileattr_with_times(md, a, m, c)),
        _ => None,
    }
}

/// One row of the table: a host path and what lies there.
#[derive(Debug, PartialEq, Eq)]
pub struct PathInfo {
    pub ino: u64,
    pub path: String,
    pub kind: FileType,
}

/// A row as contracts see it.
pub struct PathInfoView {
    pub ino: u64,
    pub path: Seq<char>,
    pub kind: FileType,
}

impl View for PathInfo {
    type V = PathInfoView;

    open spec fn view(&self) -> PathInfoView {
        PathInfoView { ino: self.ino, path: self.path@, kind: self.kind }
    }
}

/// The table of a mirroring filesystem.
pub struct PassthroughFS {
    pub root_path: String,
    ino_to_path: HashMap<u64, PathInfo>,
}

impl PassthroughFS {
    /// The rows of the table, by identifier.
    pub closed spec fn rows(&self) -> Map<u64, PathInfoView> {
        Map::new(|k: u64| self.ino_to_path@.contains_key(k), |k: u64| self.ino_to_path@[k]@)
    }

    /// The host path of the mirrored directory.
    pub closed spec fn root(&self) -> Seq<char> {
        self.root_path@
    }

    /// A table that holds the mirrored directory itself, as the root.
    pub fn new(root_path: String) -> (fs: Self)
        ensures
            fs.root() == root_path@,
            fs.rows() == map![ROOT_INO => PathInfoView {
                ino: ROOT_INO,
                path: root_path@,
                kind: FileType::Directory,
            }],
    {
        let mut fs = Self { root_path: root_path.clone(), ino_to_path: HashMap::new() };
        fs.ino_to_path.insert(
            ROOT_INO,
            PathInfo { ino: ROOT_INO, path: root_path, kind: FileType::Directory },
        );
        proof {
            assert(fs.rows() =~= map![ROOT_INO => PathInfoView {
                ino: ROOT_INO,
                path: root_path@,
                kind: FileType::Directory,
            }]);
        }
        fs
    }

    /// The host path of a new file named `name`: the mirrored directory, a
    /// slash, and the name.
    pub fn create_path(&self, name: &str) -> (path: String)
        ensures
            path@ == self.root() + "/"@ + name@,
    {
        let mut path = self.root_path.clone();
        path.append("/");
        path.append(name);
        path
    }

    /// Enters the regular file that was created at `path`, under the
    /// identifier that the host gave it. An earlier row of that identifier
    /// is replaced.
    pub fn create(&mut self, ino: u64, path: String)
        ensures
            final(self).root() == old(self).root(),
            final(self).rows() == old(self).rows().insert(
                ino,
                PathInfoView { ino, path: path@, kind: FileType::RegularFile },
            ),
    {
        self.ino_to_path.insert(ino, PathInfo { ino, path, kind: FileType::RegularFile });
        proof {
            assert(self.rows() =~= old(self).rows().insert(
                ino,
                PathInfoView { ino, path: path@, kind: FileType::RegularFile },
            ));
        }
    }

    /// The host path whose entries a listing of `ino` shows: the path of
    /// the row, if the row is a directory.
    pub fn readdir(&self, ino: u64) -> (path: Option<String>)
        ensures
            match path {
                Some(p) => self.rows().contains_key(ino) && self.rows()[ino].kind
                    == FileType::Directory && p@ == self.rows()[ino].path,
                None => !self.rows().contains_key(ino) || self.rows()[ino].kind
                    != FileType::Directory,
            },
    {
        match self.ino_to_path.get(&ino) {
            Some(row) => match row.kind {
                FileType::Directory => Some(row.path.clone()),
                FileType::RegularFile => None,
            },
            None => None,
        }
    }

    /// Whether `ino` can be opened as a directory: whether its row is one.
    pub fn opendir(&self, ino: u64) -> (opened: bool)
        ensures
            opened == (self.rows().contains_key(ino) && self.rows()[ino].kind
                == FileType::Directory),
    {
        match self.ino_to_path.get(&ino) {
            Some(row) => match row.kind {
                FileType::Directory => true,
                FileType::RegularFile => false,
            },
            None => false,
        }
    }
}

} // verus!
