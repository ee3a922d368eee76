//! The file system a FUSE mount shows: a root directory holding `volumes`,
//! which holds one `<name>.vol` file per volume.  This module keeps its
//! inode table and answers lookups, listings and attribute changes; the
//! bytes of a volume file are read and written through `block_io`, and
//! the kernel's requests are taken and answered by the caller.
use vstd::prelude::*;
use crate::Volume;
use crate::text::{append_str, str_eq};

verus! {

/// Size of a block of a volume file.
pub const FUSE_BLOCK_SIZE: u64 = 4096;

/// "No such file or directory", as Linux numbers it.
pub const ENOENT: i32 = 2;
/// "Is a directory".
pub const EISDIR: i32 = 21;
/// "Not a directory".
pub const ENOTDIR: i32 = 20;

/// Kinds of node the mount shows.
#[derive(Clone, Copy, Debug, PartialEq, Eq, Structural)]
pub enum FuseFileKind {
    Directory,
    RegularFile,
}

/// Attributes of a node.  Times are in milliseconds since the Unix epoch.
#[derive(Debug)]
pub struct FileMetadata {
    pub ino: u64,
    pub name: String,
    pub kind: FuseFileKind,
    pub size: u64,
    pub blocks: u64,
    pub atime: i64,
    pub mtime: i64,
    pub ctime: i64,
    pub mode: u16,
    pub nlink: u32,
    pub uid: u32,
    pub gid: u32,
    pub rdev: u32,
    pub blksize: u32,
    pub volume_id: Option<u128>,
    pub block_offset: u64,
}

/// How many blocks hold `size` bytes.
pub open spec fn blocks_of(size: nat) -> nat {
    (size + 4095) / 4096
}

fn blocks_for(size: u64) -> (n: u64)
    ensures
        n == blocks_of(size as nat),
{
    size / 4096 + if size % 4096 == 0 { 0 } else { 1 }
}

impl FileMetadata {
    /// A directory: 4096 bytes in 8 blocks, mode 755, two links, owned by
    /// `uid` and `gid`, all times `now`.
    pub fn new_dir(ino: u64, name: String, uid: u32, gid: u32, now: i64) -> (m: Self)
        ensures
            m.ino == ino,
            m.name@ == name@,
            m.kind == FuseFileKind::Directory,
            m.size == 4096 && m.blocks == 8,
            m.atime == now && m.mtime == now && m.ctime == now,
            m.mode == 0o755 && m.nlink == 2,
            m.uid == uid && m.gid == gid,
            m.rdev == 0 && m.blksize == 4096,
            m.volume_id is None && m.block_offset == 0,
    {
        FileMetadata {
            ino,
            name,
            kind: FuseFileKind::Directory,
            size: 4096,
            blocks: 8,
            atime: now,
            mtime: now,
            ctime: now,
            mode: 0o755,
            nlink: 2,
            uid,
            gid,
            rdev: 0,
            blksize: 4096,
            volume_id: None,
            block_offset: 0,
        }
    }

    /// The file of a volume: its size and the blocks that hold it, mode
    /// 644, one link, owned by `uid` and `gid`, all times `now`.
    pub fn new_file(ino: u64, name: String, size: u64, volume_id: u128, uid: u32, gid: u32, now: i64) -> (m: Self)
        ensures
            m.ino == ino,
            m.name@ == name@,
            m.kind == FuseFileKind::RegularFile,
            m.size == size && m.blocks == blocks_of(size as nat),
            m.atime == now && m.mtime == now && m.ctime == now,
            m.mode == 0o644 && m.nlink == 1,
            m.uid == uid && m.gid == gid,
            m.rdev == 0 && m.blksize == 4096,
            m.volume_id == Some(volume_id) && m.block_offset == 0,
    {
        FileMetadata {
            ino,
            name,
            kind: FuseFileKind::RegularFile,
            size,
            blocks: blocks_for(size),
            atime: now,
            mtime: now,
            ctime: now,
            mode: 0o644,
            nlink: 1,
            uid,
            gid,
            rdev: 0,
            blksize: 4096,
            volume_id: Some(volume_id),
            block_offset: 0,
        }
    }
}

/// Two nodes' attributes that hold the same values.
pub open spec fn same_metadata(a: FileMetadata, b: FileMetadata) -> bool {
    &&& a.ino == b.ino && a.name@ == b.name@ && a.kind == b.kind
    &&& a.size == b.size && a.blocks == b.blocks
    &&& a.atime == b.atime && a.mtime == b.mtime && a.ctime == b.ctime
    &&& a.mode == b.mode && a.nlink == b.nlink && a.uid == b.uid && a.gid == b.gid
    &&& a.rdev == b.rdev && a.blksize == b.blksize
    &&& a.volume_id == b.volume_id && a.block_offset == b.block_offset
}

/// A copy of a node's attributes.
pub fn copy_metadata(m: &FileMetadata) -> (r: FileMetadata)
    ensures
        same_metadata(r, *m),
{
    FileMetadata {
        ino: m.ino,
        name: m.name.clone(),
        kind: m.kind,
        size: m.size,
        blocks: m.blocks,
        atime: m.atime,
        mtime: m.mtime,
        ctime: m.ctime,
        mode: m.mode,
        nlink: m.nlink,
        uid: m.uid,
        gid: m.gid,
        rdev: m.rdev,
        blksize: m.blksize,
        volume_id: m.volume_id,
        block_offset: m.block_offset,
    }
}

/// Whether a volume already has a file.
pub open spec fn has_file(nodes: Seq<FileMetadata>, volume_id: u128) -> bool {
    exists|i: int| 0 <= i < nodes.len() && nodes[i].volume_id == Some(volume_id)
}

/// Index of the first volume file named `name` from index `i` on, or -1.
pub open spec fn file_named_from(nodes: Seq<FileMetadata>, name: Seq<char>, i: int) -> int
    decreases nodes.len() - i,
{
    if i < 0 || i >= nodes.len() {
        -1
    } else if nodes[i].name@ == name && nodes[i].volume_id is Some {
        i
    } else {
        file_named_from(nodes, name, i + 1)
    }
}

/// The volume files, in inode order, each as its number and name.
pub open spec fn volume_file_entries(nodes: Seq<FileMetadata>) -> Seq<(u64, FuseFileKind, Seq<char>)>
    decreases nodes.len(),
{
    if nodes.len() == 0 {
        Seq::empty()
    } else {
        let prev = volume_file_entries(nodes.drop_last());
        if nodes.last().volume_id is Some {
            prev.push((nodes.last().ino, FuseFileKind::RegularFile, nodes.last().name@))
        } else {
            prev
        }
    }
}

/// The entries of a directory listing from `offset` on, each with the
/// offset of the entry after it.
pub open spec fn listing_from(entries: Seq<(u64, FuseFileKind, Seq<char>)>, offset: int) -> Seq<(u64, i64, FuseFileKind, Seq<char>)> {
    let skip = if offset < 0 || offset > entries.len() { entries.len() as int } else { offset };
    Seq::new((entries.len() - skip) as nat, |k: int| (entries[skip + k].0, (skip + k + 1) as i64, entries[skip + k].1, entries[skip + k].2))
}

/// The FUSE view of the volumes.
#[derive(Debug)]
pub struct GalleonFuseFS {
    inodes: Vec<FileMetadata>,
    next_ino: u64,
    uid: u32,
    gid: u32,
}

impl GalleonFuseFS {
    /// Inode `n` is kept at index `n - 1`, the root and `volumes` first,
    /// and the next number is one past the last.
    pub open spec fn wf(&self) -> bool {
        &&& self.nodes_view().len() >= 2
        &&& self.next_view() == self.nodes_view().len() + 1
        &&& forall|i: int| 0 <= i < self.nodes_view().len() ==> (#[trigger] self.nodes_view()[i]).ino == i + 1
        &&& self.nodes_view()[0].volume_id is None
        &&& self.nodes_view()[1].volume_id is None
    }

    /// The nodes, by inode number.
    pub closed spec fn nodes_view(&self) -> Seq<FileMetadata> {
        self.inodes@
    }

    /// The number the next node gets.
    pub closed spec fn next_view(&self) -> u64 {
        self.next_ino
    }

    /// The owner of the nodes.
    pub closed spec fn owner_view(&self) -> (u32, u32) {
        (self.uid, self.gid)
    }

    /// The root directory (inode 1, `/`) and `volumes` (inode 2), owned by
    /// `uid` and `gid`; the next node is number 3.
    pub fn new(uid: u32, gid: u32, now: i64) -> (f: Self)
        ensures
            f.wf(),
            f.nodes_view().len() == 2,
            f.nodes_view()[0].name@ == "/"@ && f.nodes_view()[0].kind == FuseFileKind::Directory,
            f.nodes_view()[1].name@ == "volumes"@ && f.nodes_view()[1].kind == FuseFileKind::Directory,
            f.owner_view() == (uid, gid),
    {
        let mut inodes: Vec<FileMetadata> = Vec::new();
        inodes.push(FileMetadata::new_dir(1, "/".to_owned(), uid, gid, now));
        inodes.push(FileMetadata::new_dir(2, "volumes".to_owned(), uid, gid, now));
        GalleonFuseFS { inodes, next_ino: 3, uid, gid }
    }

    /// Hands out the next inode number.
    pub fn get_next_ino(&mut self) -> (ino: u64)
        requires
            old(self).next_view() < u64::MAX,
        ensures
            ino == old(self).next_view(),
            final(self).next_view() == old(self).next_view() + 1,
            final(self).nodes_view() == old(self).nodes_view(),
            final(self).owner_view() == old(self).owner_view(),
    {
        let ino = self.next_ino;
        self.next_ino = self.next_ino + 1;
        ino
    }

    fn has_volume_file(&self, volume_id: u128) -> (b: bool)
        ensures
            b == has_file(self.nodes_view(), volume_id),
    {
        let mut i: usize = 0;
        while i < self.inodes.len()
            invariant
                i <= self.inodes@.len(),
                forall|k: int| 0 <= k < i ==> self.inodes@[k].volume_id != Some(volume_id),
            decreases self.inodes.len() - i,
        {
            if self.inodes[i].volume_id == Some(volume_id) {
                return true;
            }
            i += 1;
        }
        false
    }

    /// Adds a file `<name>.vol` for each volume that has none yet, in the
    /// volumes' order, with the next inode numbers; existing nodes stay.
    pub fn sync_volumes(&mut self, volumes: &Vec<Volume>, now: i64)
        requires
            old(self).wf(),
            old(self).next_view() + volumes@.len() < u64::MAX,
        ensures
            final(self).wf(),
            final(self).owner_view() == old(self).owner_view(),
            final(self).nodes_view().len() >= old(self).nodes_view().len(),
            final(self).nodes_view().subrange(0, old(self).nodes_view().len() as int) == old(self).nodes_view(),
            forall|i: int| 0 <= i < volumes@.len() ==> has_file(final(self).nodes_view(), #[trigger] volumes@[i].id),
            forall|k: int| old(self).nodes_view().len() <= k < final(self).nodes_view().len() ==> {
                let m = #[trigger] final(self).nodes_view()[k];
                &&& m.kind == FuseFileKind::RegularFile
                &&& exists|i: int| 0 <= i < volumes@.len() && m.volume_id == Some(volumes@[i].id)
                    && m.name@ == volumes@[i].name@ + ".vol"@ && m.size == volumes@[i].size_bytes
                    && !has_file(old(self).nodes_view(), volumes@[i].id)
            },
    {
        let ghost n0 = self.inodes@;
        let mut i: usize = 0;
        while i < volumes.len()
            invariant
                i <= volumes@.len(),
                self.wf(),
                self.owner_view() == old(self).owner_view(),
                self.next_view() <= old(self).next_view() + i,
                old(self).next_view() + volumes@.len() < u64::MAX,
                self.inodes@.len() >= n0.len(),
                n0 == old(self).nodes_view(),
                self.inodes@.subrange(0, n0.len() as int) == n0,
                forall|t: int| 0 <= t < i ==> has_file(self.inodes@, #[trigger] volumes@[t].id),
                forall|k: int| n0.len() <= k < self.inodes@.len() ==> {
                    let m = #[trigger] self.inodes@[k];
                    &&& m.kind == FuseFileKind::RegularFile
                    &&& exists|t: int| 0 <= t < volumes@.len() && m.volume_id == Some(volumes@[t].id)
                        && m.name@ == volumes@[t].name@ + ".vol"@ && m.size == volumes@[t].size_bytes
                        && !has_file(n0, volumes@[t].id)
                },
            decreases volumes.len() - i,
        {
            let v = &volumes[i];
            if !self.has_volume_file(v.id) {
                let ghost before = self.inodes@;
                proof {
                    assert(!has_file(n0, v.id)) by {
                        if has_file(n0, v.id) {
                            let k = choose|k: int| 0 <= k < n0.len() && n0[k].volume_id == Some(v.id);
                            assert(before[k] == n0[k]);
                        }
                    }
                }
                let ino = self.get_next_ino();
                let mut name = v.name.clone();
                append_str(&mut name, ".vol");
                let m = FileMetadata::new_file(ino, name, v.size_bytes, v.id, self.uid, self.gid, now);
                self.inodes.push(m);
                proof {
                    let after = self.inodes@;
                    assert(after[after.len() - 1] == m);
                    assert(after.subrange(0, n0.len() as int) =~= n0) by {
                        assert(forall|k: int| 0 <= k < n0.len() ==> after[k] == before[k]);
                    }
                    assert forall|t: int| 0 <= t <= i implies has_file(after, #[trigger] volumes@[t].id) by {
                        if t < i {
                            let k = choose|k: int| 0 <= k < before.len() && before[k].volume_id == Some(volumes@[t].id);
                            assert(after[k] == before[k]);
                        } else {
                            assert(after[after.len() - 1].volume_id == Some(v.id));
                        }
                    }
                    assert forall|k: int| n0.len() <= k < after.len() implies {
                        let m2 = #[trigger] after[k];
                        &&& m2.kind == FuseFileKind::RegularFile
                        &&& exists|t: int| 0 <= t < volumes@.len() && m2.volume_id == Some(volumes@[t].id)
                            && m2.name@ == volumes@[t].name@ + ".vol"@ && m2.size == volumes@[t].size_bytes
                            && !has_file(n0, volumes@[t].id)
                    } by {
                        if k < before.len() {
                            assert(after[k] == before[k]);
                        } else {
                            assert(after[k] == m);
                            assert(m.volume_id == Some(volumes@[i as int].id));
                        }
                    }
                    assert forall|k: int| 0 <= k < after.len() implies (#[trigger] after[k]).ino == k + 1 by {
                        if k < before.len() {
                            assert(after[k] == before[k]);
                        }
                    }
                    assert(after[0] == before[0] && after[1] == before[1]);
                }
            }
            i += 1;
        }
    }

    /// The node named `name` in directory `parent`: `volumes` in the root,
    /// a volume file in `volumes`, nothing elsewhere.
    pub fn find_by_name(&self, parent: u64, name: &str) -> (r: Option<FileMetadata>)
        requires
            self.wf(),
        ensures
            parent == 1 ==> (if name@ == "volumes"@ {
                r matches Some(m) && same_metadata(m, self.nodes_view()[1])
            } else {
                r is None
            }),
            parent == 2 ==> ({
                let i = file_named_from(self.nodes_view(), name@, 0);
                if i >= 0 { r matches Some(m) && same_metadata(m, self.nodes_view()[i]) } else { r is None }
            }),
            parent != 1 && parent != 2 ==> r is None,
    {
        if parent == 1 {
            let v = "volumes".to_owned();
            if str_eq(&v, name) {
                return Some(copy_metadata(&self.inodes[1]));
            }
            return None;
        }
        if parent != 2 {
            return None;
        }
        let mut i: usize = 0;
        while i < self.inodes.len()
            invariant
                i <= self.inodes@.len(),
                parent == 2,
                file_named_from(self.inodes@, name@, 0) == file_named_from(self.inodes@, name@, i as int),
            decreases self.inodes.len() - i,
        {
            if str_eq(&self.inodes[i].name, name) && self.inodes[i].volume_id.is_some() {
                return Some(copy_metadata(&self.inodes[i]));
            }
            i += 1;
        }
        None
    }

    /// The attributes of node `ino`.
    pub fn getattr(&self, ino: u64) -> (r: Option<&FileMetadata>)
        requires
            self.wf(),
        ensures
            1 <= ino <= self.nodes_view().len() ==> r == Some(&self.nodes_view()[ino - 1]),
            !(1 <= ino <= self.nodes_view().len()) ==> r is None,
    {
        if ino >= 1 && ino <= self.inodes.len() as u64 {
            Some(&self.inodes[(ino - 1) as usize])
        } else {
            None
        }
    }

    /// The listing of directory `ino` from `offset` on, each entry with
    /// the offset after it: `.`, `..` and `volumes` in the root; `.`,
    /// `..` and the volume files in `volumes`.  Any other node is no
    /// directory.
    pub fn readdir(&self, ino: u64, offset: i64) -> (r: Result<Vec<(u64, i64, FuseFileKind, String)>, i32>)
        requires
            self.wf(),
            self.nodes_view().len() + 3 < i64::MAX,
        ensures
            ino == 1 ==> (r matches Ok(es) && es@.len() == listing_from(seq![(1u64, FuseFileKind::Directory, "."@),
                (1u64, FuseFileKind::Directory, ".."@), (2u64, FuseFileKind::Directory, "volumes"@)], offset as int).len()
                && forall|k: int| 0 <= k < es@.len() ==> {
                    let w = listing_from(seq![(1u64, FuseFileKind::Directory, "."@), (1u64, FuseFileKind::Directory, ".."@),
                        (2u64, FuseFileKind::Directory, "volumes"@)], offset as int)[k];
                    &&& (#[trigger] es@[k]).0 == w.0 && es@[k].1 == w.1 && es@[k].2 == w.2 && es@[k].3@ == w.3
                }),
            ino == 2 ==> (r matches Ok(es) && {
                let all = seq![(2u64, FuseFileKind::Directory, "."@), (1u64, FuseFileKind::Directory, ".."@)]
                    + volume_file_entries(self.nodes_view());
                &&& es@.len() == listing_from(all, offset as int).len()
                &&& forall|k: int| 0 <= k < es@.len() ==> {
                    let w = listing_from(all, offset as int)[k];
                    &&& (#[trigger] es@[k]).0 == w.0 && es@[k].1 == w.1 && es@[k].2 == w.2 && es@[k].3@ == w.3
                }
            }),
            ino != 1 && ino != 2 ==> r == Err::<Vec<(u64, i64, FuseFileKind, String)>, i32>(ENOTDIR),
    {
        let mut all: Vec<(u64, FuseFileKind, String)> = Vec::new();
        if ino == 1 {
            all.push((1, FuseFileKind::Directory, ".".to_owned()));
            all.push((1, FuseFileKind::Directory, "..".to_owned()));
            all.push((2, FuseFileKind::Directory, "volumes".to_owned()));
        } else if ino == 2 {
            all.push((2, FuseFileKind::Directory, ".".to_owned()));
            all.push((1, FuseFileKind::Directory, "..".to_owned()));
            let mut i: usize = 0;
            let ghost head = seq![(2u64, FuseFileKind::Directory, "."@), (1u64, FuseFileKind::Directory, ".."@)];
            while i < self.inodes.len()
                invariant
                    i <= self.inodes@.len(),
                    all@.len() <= i + 2,
                    all@.len() == head.len() + volume_file_entries(self.inodes@.subrange(0, i as int)).len(),
                    forall|k: int| 0 <= k < all@.len() ==> {
                        let w = (head + volume_file_entries(self.inodes@.subrange(0, i as int)))[k];
                        (#[trigger] all@[k]).0 == w.0 && all@[k].1 == w.1 && all@[k].2@ == w.2
                    },
                decreases self.inodes.len() - i,
            {
                proof {
                    assert(self.inodes@.subrange(0, i + 1).drop_last() =~= self.inodes@.subrange(0, i as int));
                }
                let m = &self.inodes[i];
                if m.volume_id.is_some() {
                    all.push((m.ino, FuseFileKind::RegularFile, m.name.clone()));
                }
                i += 1;
            }
            assert(self.inodes@.subrange(0, self.inodes@.len() as int) =~= self.inodes@);
        } else {
            return Err(ENOTDIR);
        }
        let ghost want = all@;
        let n = all.len();
        assert(n <= self.inodes@.len() + 3);
        let skip: usize = if offset < 0 || offset as u64 > n as u64 { n } else { offset as usize };
        let mut es: Vec<(u64, i64, FuseFileKind, String)> = Vec::new();
        let mut k: usize = skip;
        while k < n
            invariant
                skip <= k <= n,
                n == all@.len(),
                n + 1 < i64::MAX,
                es@.len() == k - skip,
                forall|t: int| 0 <= t < es@.len() ==> (#[trigger] es@[t]).0 == all@[skip + t].0
                    && es@[t].1 == skip + t + 1 && es@[t].2 == all@[skip + t].1 && es@[t].3@ == all@[skip + t].2@,
            decreases n - k,
        {
            let e = &all[k];
            es.push((e.0, (k + 1) as i64, e.1, e.2.clone()));
            k += 1;
        }
        Ok(es)
    }

    /// Which volume node `ino` reads or writes: refused as missing
    /// (`ENOENT`) or as a directory (`EISDIR`).
    pub fn volume_of(&self, ino: u64) -> (r: Result<u128, i32>)
        requires
            self.wf(),
        ensures
            !(1 <= ino <= self.nodes_view().len()) ==> r == Err::<u128, i32>(ENOENT),
            1 <= ino <= self.nodes_view().len() ==> match self.nodes_view()[ino - 1].volume_id {
                Some(v) => r == Ok::<u128, i32>(v),
                None => r == Err::<u128, i32>(EISDIR),
            },
    {
        match self.getattr(ino) {
            None => Err(ENOENT),
            Some(m) => match m.volume_id {
                Some(v) => Ok(v),
                None => Err(EISDIR),
            },
        }
    }

    /// Records a write of `written` bytes at `offset` to file `ino`: a
    /// file that grows gets the new size, the blocks that hold it and the
    /// time `now` as modification time.
    pub fn record_write(&mut self, ino: u64, offset: u64, written: u32, now: i64)
        requires
            old(self).wf(),
            1 <= ino <= old(self).nodes_view().len(),
            offset + written + 4095 <= u64::MAX,
        ensures
            final(self).wf(),
            ({
                let m = old(self).nodes_view()[ino - 1];
                let end = offset + written;
                if end > m.size {
                    final(self).nodes_view() == old(self).nodes_view().update(ino - 1,
                        FileMetadata { size: end as u64, blocks: blocks_of(end as nat) as u64, mtime: now, ..m })
                } else {
                    final(self).nodes_view() == old(self).nodes_view()
                }
            }),
            final(self).next_view() == old(self).next_view(),
    {
        let idx = (ino - 1) as usize;
        let end = offset + written as u64;
        if end > self.inodes[idx].size {
            let ghost n0 = self.inodes@;
            let mut m = self.inodes.remove(idx);
            m.size = end;
            m.blocks = blocks_for(end);
            m.mtime = now;
            self.inodes.insert(idx, m);
            proof {
                assert(self.inodes@ =~= n0.update(idx as int, m));
                assert forall|k: int| 0 <= k < self.inodes@.len() implies (#[trigger] self.inodes@[k]).ino == k + 1 by {
                    if k != idx {
                        assert(self.inodes@[k] == n0[k]);
                    }
                }
                let m0 = n0[idx as int];
                assert(m == FileMetadata { size: end, blocks: blocks_of(end as nat) as u64, mtime: now, ..m0 });
                assert(n0 == old(self).nodes_view());
                assert(idx == ino - 1);
                assert(end == offset + written);
                assert(self.inodes@ == old(self).nodes_view().update(ino - 1,
                        FileMetadata { size: (offset + written) as u64, blocks: blocks_of((offset + written) as nat) as u64, mtime: now, ..old(self).nodes_view()[ino - 1] }));
            }
        }
    }

    /// Changes the size of volume file `ino` when asked to (the volume's
    /// data is left as it is): a different size sets the size, the blocks
    /// that hold it and the time `now`.  Gives the attributes after.
    pub fn setattr(&mut self, ino: u64, size: Option<u64>, now: i64) -> (r: Option<FileMetadata>)
        requires
            old(self).wf(),
        ensures
            final(self).wf(),
            final(self).next_view() == old(self).next_view(),
            !(1 <= ino <= old(self).nodes_view().len()) ==> r is None && final(self).nodes_view() == old(self).nodes_view(),
            1 <= ino <= old(self).nodes_view().len() ==> {
                let m = old(self).nodes_view()[ino - 1];
                let changes = size matches Some(s) && m.volume_id is Some && s != m.size;
                &&& (changes ==> final(self).nodes_view() == old(self).nodes_view().update(ino - 1,
                    FileMetadata { size: size->0, blocks: blocks_of(size->0 as nat) as u64, mtime: now, ..m }))
                &&& (!changes ==> final(self).nodes_view() == old(self).nodes_view())
                &&& r matches Some(a) && same_metadata(a, final(self).nodes_view()[ino - 1])
            },
    {
        if !(ino >= 1 && ino <= self.inodes.len() as u64) {
            return None;
        }
        let idx = (ino - 1) as usize;
        if let Some(s) = size {
            if self.inodes[idx].volume_id.is_some() && s != self.inodes[idx].size {
                let ghost n0 = self.inodes@;
                let mut m = self.inodes.remove(idx);
                m.size = s;
                m.blocks = blocks_for(s);
                m.mtime = now;
                self.inodes.insert(idx, m);
                proof {
                    assert(self.inodes@ =~= n0.update(idx as int, m));
                    assert forall|k: int| 0 <= k < self.inodes@.len() implies (#[trigger] self.inodes@[k]).ino == k + 1 by {
                        if k != idx {
                            assert(self.inodes@[k] == n0[k]);
                        }
                    }
                }
            }
        }
        Some(copy_metadata(&self.inodes[idx]))
    }
}

} // verus!
