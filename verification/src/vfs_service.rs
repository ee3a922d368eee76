//! The block-level file system kept inside a volume: its inodes and
//! directory entries, the cache of them, the operations queued for the
//! storage, and the allocation of data blocks.
use vstd::prelude::*;
use std::collections::HashMap;
use crate::vfs::file_mapping::{
    keys_distinct, lemma_table_get, lemma_table_push, lemma_table_remove, lemma_table_update, path_pairs, table_map,
};
use crate::text::str_eq;

verus! {

/// Size of a file system block in bytes.
pub const BLOCK_SIZE: u64 = 4096;
/// Block of the file system's metadata.
pub const METADATA_BLOCK: u64 = 0;
/// Block of the allocation bitmap.
pub const ALLOCATION_BITMAP_BLOCK: u64 = 1;
/// Block of the root directory.
pub const ROOT_DIRECTORY_BLOCK: u64 = 2;
/// First block that holds file data.
pub const FIRST_DATA_BLOCK: u64 = 3;

/// Kinds of inode.
#[derive(Clone, Copy, Debug, PartialEq, Eq, Structural)]
pub enum VFSFileType {
    RegularFile,
    Directory,
    Symlink,
}

/// An inode: its kind, mode and owner, size, data blocks and times
/// (milliseconds since the Unix epoch).
#[derive(Debug)]
pub struct VFSInode {
    pub ino: u64,
    pub file_type: VFSFileType,
    pub mode: u32,
    pub uid: u32,
    pub gid: u32,
    pub size: u64,
    pub blocks: Vec<u64>,
    pub created_at: i64,
    pub modified_at: i64,
    pub accessed_at: i64,
    pub link_count: u32,
}

/// A name in a directory and the inode it refers to.
#[derive(Debug)]
pub struct VFSDirectoryEntry {
    pub name: String,
    pub inode: u64,
}

/// Inodes, directory entries and blocks held in memory, with the times
/// inodes and blocks were last changed without being stored.
#[derive(Debug)]
pub struct VFSCache {
    pub inodes: HashMap<u64, VFSInode>,
    pub directory_entries: HashMap<u64, Vec<VFSDirectoryEntry>>,
    pub blocks: HashMap<u64, Vec<u8>>,
    pub dirty_inodes: HashMap<u64, i64>,
    pub dirty_blocks: HashMap<u64, i64>,
}

impl VFSCache {
    /// An empty cache.
    pub fn new() -> (c: Self)
        ensures
            c.inodes@.dom().len() == 0,
            c.directory_entries@.dom().len() == 0,
            c.blocks@.dom().len() == 0,
            c.dirty_inodes@.dom().len() == 0,
            c.dirty_blocks@.dom().len() == 0,
    {
        let c = VFSCache {
            inodes: HashMap::new(),
            directory_entries: HashMap::new(),
            blocks: HashMap::new(),
            dirty_inodes: HashMap::new(),
            dirty_blocks: HashMap::new(),
        };
        assert(c.inodes@.dom() =~= Set::<u64>::empty());
        assert(c.directory_entries@.dom() =~= Set::<u64>::empty());
        assert(c.blocks@.dom() =~= Set::<u64>::empty());
        assert(c.dirty_inodes@.dom() =~= Set::<u64>::empty());
        assert(c.dirty_blocks@.dom() =~= Set::<u64>::empty());
        c
    }
}

/// A change to carry to the storage.
#[derive(Debug)]
pub enum VFSSyncOperation {
    CreateFile { path: String, inode: u64 },
    WriteFile { path: String, inode: u64, offset: u64, data: Vec<u8> },
    DeleteFile { path: String, inode: u64 },
    CreateDirectory { path: String, inode: u64 },
    DeleteDirectory { path: String, inode: u64 },
    RenameFile { old_path: String, new_path: String, inode: u64 },
    UpdateMetadata { path: String, inode: u64 },
}

/// The root directory's inode: number 1, mode 755, owned by root, empty,
/// in the root directory block, two links, made at `now`.
pub fn root_inode(now: i64) -> (i: VFSInode)
    ensures
        i.ino == 1,
        i.file_type == VFSFileType::Directory,
        i.mode == 0o755,
        i.uid == 0 && i.gid == 0,
        i.size == 0,
        i.blocks@ == seq![ROOT_DIRECTORY_BLOCK],
        i.created_at == now && i.modified_at == now && i.accessed_at == now,
        i.link_count == 2,
{
    let mut blocks: Vec<u64> = Vec::new();
    blocks.push(ROOT_DIRECTORY_BLOCK);
    VFSInode {
        ino: 1,
        file_type: VFSFileType::Directory,
        mode: 0o755,
        uid: 0,
        gid: 0,
        size: 0,
        blocks,
        created_at: now,
        modified_at: now,
        accessed_at: now,
        link_count: 2,
    }
}

/// The free blocks of `[lo, hi)`, in order.
pub open spec fn free_between(b: Seq<bool>, lo: int, hi: int) -> Seq<u64>
    decreases hi - lo,
{
    if hi <= lo {
        Seq::empty()
    } else {
        let p = free_between(b, lo, hi - 1);
        if !b[hi - 1] { p.push((hi - 1) as u64) } else { p }
    }
}

/// The free data blocks, in order.
pub open spec fn free_data_blocks(b: Seq<bool>) -> Seq<u64> {
    free_between(b, FIRST_DATA_BLOCK as int, b.len() as int)
}

/// How many blocks an allocation of `count` takes: `count`, except that
/// asking for none still takes the first free block when there is one.
pub open spec fn allocation_size(count: nat, free: nat) -> nat {
    if count == 0 { if free > 0 { 1 } else { 0 } } else { count }
}

proof fn lemma_free_between_prefix(b: Seq<bool>, lo: int, hi: int, hi2: int)
    requires
        lo <= hi <= hi2 <= b.len(),
        b.len() <= u64::MAX,
    ensures
        free_between(b, lo, hi).len() <= free_between(b, lo, hi2).len(),
        free_between(b, lo, hi2).take(free_between(b, lo, hi).len() as int) == free_between(b, lo, hi),
    decreases hi2 - hi,
{
    if hi < hi2 {
        lemma_free_between_prefix(b, lo, hi, hi2 - 1);
        let p = free_between(b, lo, hi2 - 1);
        let q = free_between(b, lo, hi2);
        let n = free_between(b, lo, hi).len() as int;
        assert(q.take(n) =~= p.take(n));
    } else {
        assert(free_between(b, lo, hi).take(free_between(b, lo, hi).len() as int) =~= free_between(b, lo, hi));
    }
}

proof fn lemma_free_between_members(b: Seq<bool>, lo: int, hi: int)
    requires
        0 <= lo <= hi <= b.len(),
        b.len() <= u64::MAX,
    ensures
        forall|k: int| 0 <= k < free_between(b, lo, hi).len() ==> lo <= #[trigger] free_between(b, lo, hi)[k] < hi
            && !b[free_between(b, lo, hi)[k] as int],
        forall|j: int| lo <= j < hi && !b[j] ==> #[trigger] free_between(b, lo, hi).contains(j as u64),
    decreases hi - lo,
{
    if lo < hi {
        lemma_free_between_members(b, lo, hi - 1);
        let p = free_between(b, lo, hi - 1);
        let q = free_between(b, lo, hi);
        assert forall|k: int| 0 <= k < q.len() implies lo <= #[trigger] q[k] < hi && !b[q[k] as int] by {
            if k < p.len() {
                assert(q[k] == p[k]);
            }
        }
        assert forall|j: int| lo <= j < hi && !b[j] implies #[trigger] free_between(b, lo, hi).contains(j as u64) by {
            if j < hi - 1 {
                assert(p.contains(j as u64));
                let k = choose|k: int| 0 <= k < p.len() && p[k] == j as u64;
                if !b[hi - 1] {
                    assert(p.push((hi - 1) as u64)[k] == p[k]);
                }
                assert(free_between(b, lo, hi)[k] == j as u64);
            } else {
                assert(free_between(b, lo, hi)[p.len() as int] == j as u64);
            }
        }
    }
}

proof fn lemma_free_between_agree(b: Seq<bool>, c: Seq<bool>, lo: int, hi: int)
    requires
        forall|j: int| lo <= j < hi ==> b[j] == c[j],
    ensures
        free_between(b, lo, hi) == free_between(c, lo, hi),
    decreases hi - lo,
{
    if lo < hi {
        lemma_free_between_agree(b, c, lo, hi - 1);
    }
}

/// Taking the first free block of a range leaves the others free, in order.
proof fn lemma_free_between_take_first(b: Seq<bool>, lo: int, hi: int)
    requires
        0 <= lo <= hi <= b.len(),
        b.len() <= u64::MAX,
        free_between(b, lo, hi).len() > 0,
    ensures
        free_between(b.update(free_between(b, lo, hi)[0] as int, true), lo, hi) == free_between(b, lo, hi).drop_first(),
    decreases hi - lo,
{
    let x = free_between(b, lo, hi)[0] as int;
    let c = b.update(x, true);
    let p = free_between(b, lo, hi - 1);
    lemma_free_between_members(b, lo, hi);
    lemma_free_between_members(b, lo, hi - 1);
    if p.len() > 0 {
        assert(free_between(b, lo, hi)[0] == p[0]);
        lemma_free_between_take_first(b, lo, hi - 1);
        assert(p[0] < hi - 1);
        assert(c[hi - 1] == b[hi - 1]);
        if !b[hi - 1] {
            assert(p.push((hi - 1) as u64).drop_first() =~= p.drop_first().push((hi - 1) as u64));
        }
    } else {
        assert(x == hi - 1);
        lemma_free_between_agree(b, c, lo, hi - 1);
        assert(free_between(b, lo, hi).drop_first() =~= Seq::<u64>::empty());
    }
}

/// Marking the first free data block taken leaves the other free data
/// blocks, in order.
pub proof fn lemma_take_first_free(b: Seq<bool>)
    requires
        b.len() <= u64::MAX,
        free_data_blocks(b).len() > 0,
    ensures
        free_data_blocks(b.update(free_data_blocks(b)[0] as int, true)) == free_data_blocks(b).drop_first(),
{
    if b.len() < FIRST_DATA_BLOCK {
        assert(free_between(b, FIRST_DATA_BLOCK as int, b.len() as int).len() == 0);
    }
    lemma_free_between_members(b, FIRST_DATA_BLOCK as int, b.len() as int);
    assert(b.update(free_data_blocks(b)[0] as int, true).len() == b.len());
    lemma_free_between_take_first(b, FIRST_DATA_BLOCK as int, b.len() as int);
}

/// The allocation bitmap of the data blocks and the count of used blocks.
#[derive(Debug)]
pub struct BlockAllocator {
    bitmap: Vec<bool>,
    used_blocks: u64,
}

impl BlockAllocator {
    /// Which blocks are taken.
    pub closed spec fn bitmap_view(&self) -> Seq<bool> {
        self.bitmap@
    }

    /// The count of used blocks.
    pub closed spec fn used_view(&self) -> u64 {
        self.used_blocks
    }

    /// A bitmap of `total_blocks` blocks in which the metadata, bitmap and
    /// root directory blocks are taken and no other.
    pub fn new(total_blocks: usize) -> (a: Self)
        requires
            total_blocks >= 3,
        ensures
            a.bitmap_view().len() == total_blocks,
            forall|j: int| 0 <= j < total_blocks ==> a.bitmap_view()[j] == (j < FIRST_DATA_BLOCK),
            a.used_view() == 0,
    {
        let mut bitmap: Vec<bool> = Vec::new();
        let mut i: usize = 0;
        while i < total_blocks
            invariant
                i <= total_blocks,
                bitmap@.len() == i,
                forall|j: int| 0 <= j < i ==> bitmap@[j] == (j < FIRST_DATA_BLOCK),
            decreases total_blocks - i,
        {
            bitmap.push(i < 3);
            i += 1;
        }
        BlockAllocator { bitmap, used_blocks: 0 }
    }

    /// Takes the first free data blocks, in order, and counts them used.
    /// When fewer are free than asked for, nothing is taken and the
    /// request is refused.
    pub fn allocate_blocks(&mut self, count: usize) -> (r: Result<Vec<u64>, String>)
        requires
            old(self).used_view() + free_data_blocks(old(self).bitmap_view()).len() <= u64::MAX,
            old(self).bitmap_view().len() >= FIRST_DATA_BLOCK,
        ensures
            final(self).bitmap_view().len() == old(self).bitmap_view().len(),
            ({
                let free = free_data_blocks(old(self).bitmap_view());
                if free.len() < count {
                    r matches Err(e) && e@ == "Insufficient free blocks"@ && final(self).bitmap_view() == old(self).bitmap_view()
                        && final(self).used_view() == old(self).used_view()
                } else {
                    let k = allocation_size(count as nat, free.len());
                    r matches Ok(v) && {
                        &&& v@ == free.take(k as int)
                        &&& final(self).used_view() == old(self).used_view() + k
                        &&& forall|j: int| 0 <= j < old(self).bitmap_view().len() ==> #[trigger] final(self).bitmap_view()[j]
                            == (old(self).bitmap_view()[j] || v@.contains(j as u64))
                    }
                }
            }),
    {
        let ghost b0 = self.bitmap@;
        let len = self.bitmap.len();
        assert(b0.len() <= u64::MAX);
        let mut allocated: Vec<u64> = Vec::new();
        let mut found: usize = 0;
        let mut i: usize = 3;
        while i < len && (found == 0 || found < count)
            invariant
                3 <= i <= len,
                len == b0.len(),
                self.bitmap@.len() == len,
                self.used_blocks == old(self).used_blocks,
                found == allocated@.len(),
                found <= i,
                count > 0 ==> found <= count,
                count == 0 ==> found <= 1,
                b0.len() <= u64::MAX,
                allocated@ == free_between(b0, 3, i as int),
                forall|j: int| 0 <= j < len ==> #[trigger] self.bitmap@[j] == (b0[j] || (3 <= j < i)),
            decreases len - i,
        {
            if !self.bitmap[i] {
                self.bitmap.set(i, true);
                allocated.push(i as u64);
                found += 1;
            }
            i += 1;
        }
        proof {
            lemma_free_between_prefix(b0, 3, i as int, len as int);
            lemma_free_between_members(b0, 3, i as int);
        }
        if found < count {
            let mut k: usize = 0;
            while k < len
                invariant
                    k <= len,
                    len == b0.len(),
                    self.bitmap@.len() == len,
                    forall|j: int| 0 <= j < k ==> #[trigger] self.bitmap@[j] == b0[j],
                    forall|j: int| k <= j < len ==> #[trigger] self.bitmap@[j] == (b0[j] || (3 <= j < i)),
                    3 <= i <= len,
                    b0.len() <= u64::MAX,
                    allocated@ == free_between(b0, 3, i as int),
                    self.used_blocks == old(self).used_blocks,
                decreases len - k,
            {
                proof {
                    lemma_free_between_members(b0, 3, i as int);
                }
                let orig = k < 3 || k >= i || !allocated_contains(&allocated, k as u64);
                self.bitmap.set(k, if orig { self.bitmap[k] } else { false });
                proof {
                    if allocated@.contains(k as u64) {
                        let t = choose|t: int| 0 <= t < allocated@.len() && allocated@[t] == k as u64;
                        assert(!b0[allocated@[t] as int]);
                        assert(3 <= allocated@[t] < i);
                    }
                    if 3 <= k < i && !b0[k as int] {
                        assert(free_between(b0, 3, i as int).contains(k as u64));
                    }
                }
                k += 1;
            }
            proof {
                assert(self.bitmap@ =~= b0);
                assert(free_data_blocks(b0).len() < count) by {
                    if free_data_blocks(b0).len() >= count {
                        assert(i == len);
                    }
                }
            }
            return Err("Insufficient free blocks".to_owned());
        }
        assert(found <= free_data_blocks(b0).len());
        self.used_blocks = self.used_blocks + found as u64;
        proof {
            let free = free_data_blocks(b0);
            assert(free.len() >= count);
            assert(allocated@ =~= free.take(allocated@.len() as int));
            if i < len {
                assert(found > 0 && found >= count);
            } else {
                assert(allocated@ =~= free);
            }
            assert forall|j: int| 0 <= j < len implies #[trigger] self.bitmap@[j] == (b0[j] || allocated@.contains(j as u64)) by {
                if 3 <= j < i && !b0[j] {
                    assert(allocated@.contains(j as u64));
                }
                if allocated@.contains(j as u64) {
                    let t = choose|t: int| 0 <= t < allocated@.len() && allocated@[t] == j as u64;
                    assert(3 <= allocated@[t] < i);
                }
            }
        }
        proof {
            let free = free_data_blocks(b0);
            let k = allocation_size(count as nat, free.len());
            assert(allocated@.len() == k);
            assert(allocated@ == free.take(k as int));
        }
        Ok(allocated)
    }

    /// Gives data blocks back (blocks below the first data block stay
    /// taken) and counts that many fewer used, stopping at zero.
    pub fn free_blocks(&mut self, blocks: &Vec<u64>)
        requires
            forall|k: int| 0 <= k < blocks@.len() ==> #[trigger] blocks@[k] < old(self).bitmap_view().len(),
        ensures
            final(self).bitmap_view().len() == old(self).bitmap_view().len(),
            forall|j: int| 0 <= j < old(self).bitmap_view().len() ==> #[trigger] final(self).bitmap_view()[j]
                == (old(self).bitmap_view()[j] && !(j >= FIRST_DATA_BLOCK && blocks@.contains(j as u64))),
            final(self).used_view() == if old(self).used_view() >= blocks@.len() {
                (old(self).used_view() - blocks@.len()) as u64
            } else {
                0
            },
    {
        let ghost b0 = self.bitmap@;
        let total = self.bitmap.len();
        let mut i: usize = 0;
        while i < blocks.len()
            invariant
                i <= blocks@.len(),
                self.bitmap@.len() == b0.len(),
                b0.len() == total,
                self.used_blocks == old(self).used_blocks,
                forall|k: int| 0 <= k < blocks@.len() ==> #[trigger] blocks@[k] < b0.len(),
                forall|j: int| 0 <= j < b0.len() ==> #[trigger] self.bitmap@[j]
                    == (b0[j] && !(j >= FIRST_DATA_BLOCK && blocks@.subrange(0, i as int).contains(j as u64))),
            decreases blocks.len() - i,
        {
            let b = blocks[i];
            assert(b < b0.len());
            let ghost prev = self.bitmap@;
            if b >= FIRST_DATA_BLOCK {
                self.bitmap.set(b as usize, false);
                assert(self.bitmap@ =~= prev.update(b as int, false));
            }
            proof {
                assert forall|j: int| 0 <= j < b0.len() implies #[trigger] self.bitmap@[j]
                    == (b0[j] && !(j >= FIRST_DATA_BLOCK && blocks@.subrange(0, i + 1).contains(j as u64))) by {
                    let s0 = blocks@.subrange(0, i as int);
                    let s1 = blocks@.subrange(0, i + 1);
                    assert(s1 =~= s0.push(b));
                    assert(prev[j] == (b0[j] && !(j >= FIRST_DATA_BLOCK && s0.contains(j as u64))));
                    assert(s1[s0.len() as int] == b);
                    if b >= FIRST_DATA_BLOCK && j == b {
                        assert(self.bitmap@[j] == false);
                    } else {
                        assert(self.bitmap@[j] == prev[j]);
                    }
                    if s0.contains(j as u64) {
                        let t = choose|t: int| 0 <= t < s0.len() && s0[t] == j as u64;
                        assert(s1[t] == j as u64);
                    }
                    if s1.contains(j as u64) && !s0.contains(j as u64) {
                        let t = choose|t: int| 0 <= t < s1.len() && s1[t] == j as u64;
                        if t < s0.len() {
                            assert(s0[t] == j as u64);
                        }
                    }
                }
            }
            i += 1;
        }
        assert(blocks@.subrange(0, blocks@.len() as int) =~= blocks@);
        let n = blocks.len() as u64;
        self.used_blocks = self.used_blocks.saturating_sub(n);
    }
}

fn allocated_contains(v: &Vec<u64>, x: u64) -> (b: bool)
    ensures
        b == v@.contains(x),
{
    let mut i: usize = 0;
    while i < v.len()
        invariant
            i <= v@.len(),
            forall|k: int| 0 <= k < i ==> v@[k] != x,
        decreases v.len() - i,
    {
        if v[i] == x {
            return true;
        }
        i += 1;
    }
    false
}

impl BlockAllocator {
    /// A bitmap of `total_blocks` blocks, none taken, with `used` blocks
    /// counted as used.
    pub fn unformatted(total_blocks: usize, used: u64) -> (a: Self)
        ensures
            a.bitmap_view() == Seq::new(total_blocks as nat, |j: int| false),
            a.used_view() == used,
    {
        let mut bitmap: Vec<bool> = Vec::new();
        let mut i: usize = 0;
        while i < total_blocks
            invariant
                i <= total_blocks,
                bitmap@ == Seq::new(i as nat, |j: int| false),
            decreases total_blocks - i,
        {
            bitmap.push(false);
            i += 1;
            assert(bitmap@ =~= Seq::new(i as nat, |j: int| false));
        }
        BlockAllocator { bitmap, used_blocks: used }
    }

    /// Takes the metadata, bitmap and root directory blocks.
    pub fn reserve_metadata_blocks(&mut self)
        requires
            old(self).bitmap_view().len() >= FIRST_DATA_BLOCK,
        ensures
            final(self).bitmap_view() == old(self).bitmap_view().update(0, true).update(1, true).update(2, true),
            final(self).used_view() == old(self).used_view(),
    {
        self.bitmap.set(0, true);
        self.bitmap.set(1, true);
        self.bitmap.set(2, true);
    }
}

/// The file system's totals: version, volume, block size and count, used
/// blocks, root inode, next inode number, and times (milliseconds since the
/// Unix epoch).
#[derive(Clone, Copy, Debug)]
pub struct VFSMetadata {
    pub version: u32,
    pub volume_id: u128,
    pub block_size: u64,
    pub total_blocks: u64,
    pub used_blocks: u64,
    pub root_inode: u64,
    pub next_inode: u64,
    pub created_at: i64,
    pub last_modified: i64,
}

/// A path in the file system as the watcher reports it, relative to the
/// mount point, with its parent directory and last component where it has
/// them.
#[derive(Debug)]
pub struct VfsPath {
    pub path: String,
    pub parent: Option<String>,
    pub file_name: Option<String>,
}

/// The inode a new file gets: a regular file, mode 644, owned by root,
/// empty, one link, all its times `now`.
pub open spec fn new_file_inode(i: VFSInode, ino: u64, now: i64) -> bool {
    &&& i.ino == ino
    &&& i.file_type == VFSFileType::RegularFile
    &&& i.mode == 0o644
    &&& i.uid == 0 && i.gid == 0
    &&& i.size == 0
    &&& i.blocks@.len() == 0
    &&& i.created_at == now && i.modified_at == now && i.accessed_at == now
    &&& i.link_count == 1
}

/// The inode a new directory gets: mode 755, owned by root, empty, no
/// blocks, two links, all its times `now`.
pub open spec fn new_dir_inode(i: VFSInode, ino: u64, now: i64) -> bool {
    &&& i.ino == ino
    &&& i.file_type == VFSFileType::Directory
    &&& i.mode == 0o755
    &&& i.uid == 0 && i.gid == 0
    &&& i.size == 0
    &&& i.blocks@.len() == 0
    &&& i.created_at == now && i.modified_at == now && i.accessed_at == now
    &&& i.link_count == 2
}

/// The directory entries without those named `name`, in order.
pub open spec fn without_name(s: Seq<VFSDirectoryEntry>, name: Seq<char>) -> Seq<VFSDirectoryEntry> {
    s.filter(|e: VFSDirectoryEntry| e.name@ != name)
}

/// The file system kept in a volume's blocks: its totals, the inodes and
/// directory entries in memory, the allocation bitmap, and the path of each
/// inode both ways.
#[derive(Debug)]
pub struct HighPerformanceVFS {
    volume_id: u128,
    mount_point: String,
    metadata: VFSMetadata,
    cache: VFSCache,
    allocator: BlockAllocator,
    path_to_inode: Vec<(String, u64)>,
    inode_to_path: HashMap<u64, String>,
    ops_count: u64,
}

fn find_path_index(v: &Vec<(String, u64)>, path: &str) -> (r: Option<usize>)
    ensures
        match r {
            Some(i) => i < v@.len() && v@[i as int].0@ == path@,
            None => forall|i: int| 0 <= i < v@.len() ==> v@[i].0@ != path@,
        },
{
    let mut i: usize = 0;
    while i < v.len()
        invariant
            i <= v@.len(),
            forall|j: int| 0 <= j < i ==> v@[j].0@ != path@,
        decreases v.len() - i,
    {
        if str_eq(&v[i].0, path) {
            return Some(i);
        }
        i += 1;
    }
    None
}

impl HighPerformanceVFS {
    /// The inodes in memory.
    pub closed spec fn inodes(&self) -> Map<u64, VFSInode> {
        self.cache.inodes@
    }

    /// The directory entries of each directory in memory.
    pub closed spec fn dirs(&self) -> Map<u64, Vec<VFSDirectoryEntry>> {
        self.cache.directory_entries@
    }

    /// The entries of each directory in memory, in order.
    pub closed spec fn dir_view(&self) -> Map<u64, Seq<VFSDirectoryEntry>> {
        Map::new(|k: u64| self.cache.directory_entries@.contains_key(k), |k: u64| self.cache.directory_entries@[k]@)
    }

    /// The inodes changed since they were last saved, with when.
    pub closed spec fn dirty(&self) -> Map<u64, i64> {
        self.cache.dirty_inodes@
    }

    /// The inode of each path.
    pub closed spec fn paths(&self) -> Map<Seq<char>, u64> {
        table_map(path_pairs(self.path_to_inode@))
    }

    /// The path of each inode.
    pub closed spec fn inode_paths(&self) -> Map<u64, String> {
        self.inode_to_path@
    }

    /// Which blocks are taken.
    pub closed spec fn bitmap(&self) -> Seq<bool> {
        self.allocator.bitmap_view()
    }

    /// The totals, with the used blocks counted by the allocation.
    pub closed spec fn metadata_view(&self) -> VFSMetadata {
        VFSMetadata { used_blocks: self.allocator.used_view(), ..self.metadata }
    }

    /// Operations carried out since the count was last taken.
    pub closed spec fn ops_view(&self) -> u64 {
        self.ops_count
    }

    pub closed spec fn wf(&self) -> bool {
        &&& keys_distinct(path_pairs(self.path_to_inode@))
        &&& self.allocator.bitmap_view().len() == self.metadata.total_blocks
        &&& forall|n: u64| #[trigger] self.cache.inodes@.contains_key(n) ==> n < self.metadata.next_inode
        &&& forall|n: u64| #[trigger] self.cache.inodes@.contains_key(n) ==> forall|k: int|
            0 <= k < self.cache.inodes@[n].blocks@.len() ==> #[trigger] self.cache.inodes@[n].blocks@[k] < self.metadata.total_blocks
        &&& self.metadata.next_inode >= 2
        &&& forall|i: int| 0 <= i < self.path_to_inode@.len() ==> #[trigger] self.path_to_inode@[i].1 < self.metadata.next_inode
    }

    /// The file system of a volume of `volume_size` bytes at `mount_point`
    /// before it is formatted or loaded: all its blocks free but the three
    /// metadata blocks counted used, root inode 1, next inode 2, nothing in
    /// memory.
    pub fn new(volume_id: u128, mount_point: String, volume_size: u64, now: i64) -> (v: Self)
        requires
            volume_size / BLOCK_SIZE <= usize::MAX,
        ensures
            v.wf(),
            v.metadata_view() == (VFSMetadata {
                version: 1,
                volume_id,
                block_size: BLOCK_SIZE,
                total_blocks: volume_size / BLOCK_SIZE,
                used_blocks: FIRST_DATA_BLOCK,
                root_inode: 1,
                next_inode: 2,
                created_at: now,
                last_modified: now,
            }),
            v.bitmap() == Seq::new((volume_size / BLOCK_SIZE) as nat, |j: int| false),
            v.inodes().dom().len() == 0,
            v.dirs().dom().len() == 0,
            v.dirty().dom().len() == 0,
            v.paths().dom().len() == 0,
            v.inode_paths().dom().len() == 0,
            v.ops_view() == 0,
    {
        let total_blocks = volume_size / BLOCK_SIZE;
        let metadata = VFSMetadata {
            version: 1,
            volume_id,
            block_size: BLOCK_SIZE,
            total_blocks,
            used_blocks: FIRST_DATA_BLOCK,
            root_inode: 1,
            next_inode: 2,
            created_at: now,
            last_modified: now,
        };
        let v = HighPerformanceVFS {
            volume_id,
            mount_point,
            metadata,
            cache: VFSCache::new(),
            allocator: BlockAllocator::unformatted(total_blocks as usize, FIRST_DATA_BLOCK),
            path_to_inode: Vec::new(),
            inode_to_path: HashMap::new(),
            ops_count: 0,
        };
        assert(v.paths() =~= Map::empty());
        assert(v.cache.inodes@.dom() =~= Set::empty());
        assert(v.cache.directory_entries@.dom() =~= Set::empty());
        assert(v.cache.dirty_inodes@.dom() =~= Set::empty());
        assert(v.inode_to_path@.dom() =~= Set::empty());
        v
    }

    /// The totals, with the used blocks counted by the allocation.
    pub fn metadata(&self) -> (m: VFSMetadata)
        ensures
            m == self.metadata_view(),
    {
        VFSMetadata { used_blocks: self.allocator.used_blocks, ..self.metadata }
    }

    /// Formats a new file system: the metadata, bitmap and root directory
    /// blocks are taken, and the root directory (inode 1) is in memory with
    /// no entries. The caller then saves the metadata, the bitmap and the
    /// root inode.
    pub fn initialize_new_filesystem(&mut self, now: i64)
        requires
            old(self).wf(),
            old(self).metadata_view().total_blocks >= FIRST_DATA_BLOCK,
        ensures
            final(self).wf(),
            final(self).bitmap() == old(self).bitmap().update(0, true).update(1, true).update(2, true),
            final(self).inodes().contains_key(1),
            final(self).inodes() == old(self).inodes().insert(1, final(self).inodes()[1]),
            ({
                let r = final(self).inodes()[1];
                &&& r.ino == 1 && r.file_type == VFSFileType::Directory && r.mode == 0o755
                &&& r.blocks@ == seq![ROOT_DIRECTORY_BLOCK] && r.link_count == 2 && r.size == 0
                &&& r.created_at == now
            }),
            final(self).dirs().contains_key(1),
            final(self).dirs()[1]@.len() == 0,
            final(self).dirs().remove(1) == old(self).dirs().remove(1),
            final(self).dirty() == old(self).dirty(),
            final(self).paths() == old(self).paths(),
            final(self).inode_paths() == old(self).inode_paths(),
            final(self).metadata_view() == old(self).metadata_view(),
    {
        self.allocator.reserve_metadata_blocks();
        let root = root_inode(now);
        self.cache.inodes.insert(1, root);
        self.cache.directory_entries.insert(1, Vec::new());
        proof {
            assert(self.cache.directory_entries@.remove(1) =~= old(self).cache.directory_entries@.remove(1));
        }
    }

    /// The inode of a path, if it has one.
    pub fn get_inode_for_path(&self, path: &str) -> (r: Option<u64>)
        requires
            self.wf(),
        ensures
            r == if self.paths().contains_key(path@) { Some(self.paths()[path@]) } else { None::<u64> },
    {
        let ghost ps = path_pairs(self.path_to_inode@);
        proof {
            lemma_table_get(ps, path@);
        }
        match find_path_index(&self.path_to_inode, path) {
            Some(i) => {
                proof {
                    assert(ps[i as int].0 == path@);
                }
                Some(self.path_to_inode[i].1)
            },
            None => {
                proof {
                    if self.paths().contains_key(path@) {
                        let k = choose|k: int| 0 <= k < ps.len() && ps[k].0 == path@;
                        assert(self.path_to_inode@[k].0@ == path@);
                    }
                }
                None
            },
        }
    }

    /// Marks an inode saved: it is no longer dirty (an inode not in
    /// memory changes nothing).
    pub fn save_inode(&mut self, inode: u64)
        ensures
            final(self).dirty() == if old(self).inodes().contains_key(inode) {
                old(self).dirty().remove(inode)
            } else {
                old(self).dirty()
            },
            final(self).inodes() == old(self).inodes(),
            final(self).dirs() == old(self).dirs(),
            final(self).paths() == old(self).paths(),
            final(self).inode_paths() == old(self).inode_paths(),
            final(self).bitmap() == old(self).bitmap(),
            final(self).metadata_view() == old(self).metadata_view(),
            final(self).ops_view() == old(self).ops_view(),
            old(self).wf() ==> final(self).wf(),
    {
        if self.cache.inodes.contains_key(&inode) {
            self.cache.dirty_inodes.remove(&inode);
        }
    }

    /// The inode of a path, giving the path a new empty regular file with
    /// the next inode number where it has none (then saved, so not dirty).
    pub fn get_or_create_inode_for_path(&mut self, path: &str, now: i64) -> (r: u64)
        requires
            old(self).wf(),
            !old(self).paths().contains_key(path@) ==> old(self).metadata_view().next_inode < u64::MAX,
        ensures
            final(self).wf(),
            final(self).dirs() == old(self).dirs(),
            final(self).bitmap() == old(self).bitmap(),
            final(self).ops_view() == old(self).ops_view(),
            old(self).paths().contains_key(path@) ==> {
                &&& r == old(self).paths()[path@]
                &&& final(self).paths() == old(self).paths()
                &&& final(self).inodes() == old(self).inodes()
                &&& final(self).inode_paths() == old(self).inode_paths()
                &&& final(self).dirty() == old(self).dirty()
                &&& final(self).metadata_view() == old(self).metadata_view()
            },
            !old(self).paths().contains_key(path@) ==> {
                &&& r == old(self).metadata_view().next_inode
                &&& !old(self).inodes().contains_key(r)
                &&& final(self).metadata_view() == (VFSMetadata { next_inode: (r + 1) as u64, ..old(self).metadata_view() })
                &&& final(self).paths() == old(self).paths().insert(path@, r)
                &&& final(self).inode_paths().contains_key(r) && final(self).inode_paths()[r]@ == path@
                &&& final(self).inode_paths().remove(r) == old(self).inode_paths().remove(r)
                &&& final(self).inodes().contains_key(r)
                &&& new_file_inode(final(self).inodes()[r], r, now)
                &&& final(self).inodes().remove(r) == old(self).inodes()
                &&& final(self).dirty() == old(self).dirty().remove(r)
            },
    {
        let ghost ps = path_pairs(self.path_to_inode@);
        proof {
            lemma_table_get(ps, path@);
        }
        match find_path_index(&self.path_to_inode, path) {
            Some(i) => {
                proof {
                    assert(ps[i as int].0 == path@);
                }
                return self.path_to_inode[i].1;
            },
            None => {},
        }
        proof {
            assert forall|i: int| 0 <= i < ps.len() implies ps[i].0 != path@ by {
                assert(ps[i].0 == self.path_to_inode@[i].0@);
            }
            lemma_table_push(ps, path@, self.metadata.next_inode);
        }
        let inode = self.metadata.next_inode;
        self.metadata.next_inode = inode + 1;
        let file = VFSInode {
            ino: inode,
            file_type: VFSFileType::RegularFile,
            mode: 0o644,
            uid: 0,
            gid: 0,
            size: 0,
            blocks: Vec::new(),
            created_at: now,
            modified_at: now,
            accessed_at: now,
            link_count: 1,
        };
        self.cache.inodes.insert(inode, file);
        self.path_to_inode.push((path.to_owned(), inode));
        self.inode_to_path.insert(inode, path.to_owned());
        proof {
            assert(path_pairs(self.path_to_inode@) =~= ps.push((path@, inode)));
            assert(self.cache.inodes@.remove(inode) =~= old(self).cache.inodes@);
            assert(self.inode_to_path@.remove(inode) =~= old(self).inode_to_path@.remove(inode));
        }
        self.save_inode(inode);
        proof {
            assert(self.cache.dirty_inodes@ =~= old(self).cache.dirty_inodes@.remove(inode));
        }
        inode
    }

    /// The inode of a directory path: the root for an empty path, else the
    /// inode the path names, or the root when it names none.
    fn parent_inode(&self, parent_path: &str) -> (r: u64)
        requires
            self.wf(),
        ensures
            r == parent_of(self.paths(), parent_path@),
    {
        if crate::text::chars_of(parent_path).len() == 0 {
            1
        } else {
            match self.get_inode_for_path(parent_path) {
                Some(i) => i,
                None => 1,
            }
        }
    }

    /// Adds an entry `name` for `inode` at the end of the parent's
    /// directory (made where it has none yet).
    pub fn add_directory_entry(&mut self, parent_path: &str, name: String, inode: u64)
        requires
            old(self).wf(),
        ensures
            final(self).wf(),
            ({
                let p = parent_of(old(self).paths(), parent_path@);
                let before = if old(self).dirs().contains_key(p) { old(self).dirs()[p]@ } else { Seq::empty() };
                &&& final(self).dirs().contains_key(p)
                &&& final(self).dirs()[p]@ == before.push(VFSDirectoryEntry { name, inode })
                &&& final(self).dirs().remove(p) == old(self).dirs().remove(p)
            }),
            final(self).dir_view() == add_entry(old(self).dir_view(), parent_of(old(self).paths(), parent_path@), VFSDirectoryEntry { name, inode }),
            final(self).inodes() == old(self).inodes(),
            final(self).dirty() == old(self).dirty(),
            final(self).paths() == old(self).paths(),
            final(self).inode_paths() == old(self).inode_paths(),
            final(self).bitmap() == old(self).bitmap(),
            final(self).metadata_view() == old(self).metadata_view(),
            final(self).ops_view() == old(self).ops_view(),
    {
        let parent = self.parent_inode(parent_path);
        let mut entries = match self.cache.directory_entries.remove(&parent) {
            Some(e) => e,
            None => Vec::new(),
        };
        entries.push(VFSDirectoryEntry { name, inode });
        self.cache.directory_entries.insert(parent, entries);
        proof {
            assert(self.cache.directory_entries@.remove(parent) =~= old(self).cache.directory_entries@.remove(parent));
            assert(self.dir_view() =~= add_entry(old(self).dir_view(), parent, VFSDirectoryEntry { name, inode }));
        }
    }

    /// Removes the entries named `name` from the parent's directory (a
    /// directory not in memory changes nothing).
    pub fn remove_directory_entry(&mut self, parent_path: &str, name: &str)
        requires
            old(self).wf(),
        ensures
            final(self).wf(),
            ({
                let p = parent_of(old(self).paths(), parent_path@);
                if old(self).dirs().contains_key(p) {
                    &&& final(self).dirs().contains_key(p)
                    &&& final(self).dirs()[p]@ == without_name(old(self).dirs()[p]@, name@)
                    &&& final(self).dirs().remove(p) == old(self).dirs().remove(p)
                } else {
                    final(self).dirs() == old(self).dirs()
                }
            }),
            final(self).dir_view() == remove_entry(old(self).dir_view(), parent_of(old(self).paths(), parent_path@), name@),
            final(self).inodes() == old(self).inodes(),
            final(self).dirty() == old(self).dirty(),
            final(self).paths() == old(self).paths(),
            final(self).inode_paths() == old(self).inode_paths(),
            final(self).bitmap() == old(self).bitmap(),
            final(self).metadata_view() == old(self).metadata_view(),
            final(self).ops_view() == old(self).ops_view(),
    {
        let parent = self.parent_inode(parent_path);
        let mut old_list = match self.cache.directory_entries.remove(&parent) {
            Some(e) => e,
            None => {
                proof {
                    assert(self.dir_view() =~= remove_entry(old(self).dir_view(), parent, name@));
                }
                return;
            },
        };
        let ghost s0 = old_list@;
        let mut kept: Vec<VFSDirectoryEntry> = Vec::new();
        let n = old_list.len();
        let mut i: usize = 0;
        while i < n
            invariant
                i <= n,
                n == s0.len(),
                old_list@ == s0.subrange(i as int, n as int),
                kept@ == without_name(s0.subrange(0, i as int), name@),
            decreases n - i,
        {
            let e = old_list.remove(0);
            proof {
                assert(e == s0[i as int]);
                assert(s0.subrange(0, i + 1).drop_last() =~= s0.subrange(0, i as int));
                reveal(Seq::filter);
            }
            if !str_eq(&e.name, name) {
                kept.push(e);
            }
            i += 1;
            proof {
                assert(old_list@ =~= s0.subrange(i as int, n as int));
            }
        }
        assert(s0.subrange(0, n as int) =~= s0);
        self.cache.directory_entries.insert(parent, kept);
        proof {
            assert(self.cache.directory_entries@.remove(parent) =~= old(self).cache.directory_entries@.remove(parent));
            assert(self.dir_view() =~= remove_entry(old(self).dir_view(), parent, name@));
        }
    }
}

/// The directory a parent path names: the root for an empty path, else the
/// inode the path names, or the root when it names none.
pub open spec fn parent_of(paths: Map<Seq<char>, u64>, parent_path: Seq<char>) -> u64 {
    if parent_path.len() == 0 {
        1
    } else if paths.contains_key(parent_path) {
        paths[parent_path]
    } else {
        1
    }
}


/// One piece of a write into a file's blocks: the block, where in it the
/// piece starts, and the bytes of the written buffer it takes.
#[derive(Clone, Copy, Debug, PartialEq, Eq, Structural)]
pub struct FileChunk {
    pub block_id: u64,
    pub block_offset: u64,
    pub data_start: usize,
    pub data_end: usize,
}

/// How many blocks hold the first `end` bytes of a file.
pub open spec fn blocks_for(end: int) -> int {
    (end + 4095) / 4096
}

/// How many pieces a write of `len` bytes at `offset` is split into.
pub open spec fn chunk_count(offset: int, len: int) -> int {
    blocks_for(offset + len) - offset / 4096
}

/// The `i`-th piece of a write of `len` bytes at `offset` into a file whose
/// blocks are `blocks`: from `offset` to the end of its block, then whole
/// blocks, then what is left.
pub open spec fn file_chunk(blocks: Seq<u64>, offset: int, len: int, i: int) -> FileChunk {
    let first = offset / 4096;
    let end = (first + i + 1) * 4096 - offset;
    FileChunk {
        block_id: blocks[first + i],
        block_offset: (if i == 0 { offset % 4096 } else { 0 }) as u64,
        data_start: (if i == 0 { 0 } else { (first + i) * 4096 - offset }) as usize,
        data_end: (if end < len { end } else { len }) as usize,
    }
}

/// The pieces of a write of `len` bytes at `offset` into a file whose
/// blocks are `blocks`, in order.
pub open spec fn chunks_of_write(chunks: Seq<FileChunk>, blocks: Seq<u64>, offset: int, len: int) -> bool {
    &&& chunks.len() == chunk_count(offset, len)
    &&& forall|i: int| 0 <= i < chunks.len() ==> #[trigger] chunks[i] == file_chunk(blocks, offset, len, i)
}

/// Splits a write of `len` bytes at `offset` over the file's blocks.
pub fn file_chunks(blocks: &Vec<u64>, offset: u64, len: usize) -> (r: Vec<FileChunk>)
    requires
        len > 0,
        offset + len + 4095 <= u64::MAX,
        blocks@.len() >= blocks_for(offset + len),
    ensures
        chunks_of_write(r@, blocks@, offset as int, len as int),
{
    let first = offset / 4096;
    let need = (offset + len as u64 + 4095) / 4096;
    assert(first < need) by (nonlinear_arith)
        requires first == offset / 4096, need == (offset + len + 4095) / 4096, len > 0;
    assert(need * 4096 <= offset + len + 4095) by (nonlinear_arith)
        requires need == (offset + len + 4095) / 4096;
    assert(first * 4096 <= offset && offset < first * 4096 + 4096) by (nonlinear_arith)
        requires first == offset / 4096;
    let n = need - first;
    let mut r: Vec<FileChunk> = Vec::new();
    let mut i: u64 = 0;
    while i < n
        invariant
            i <= n,
            n == need - first,
            first == offset / 4096,
            need == blocks_for(offset + len),
            need * 4096 <= offset + len + 4095,
            first * 4096 <= offset < first * 4096 + 4096,
            offset + len + 4095 <= u64::MAX,
            blocks@.len() >= need,
            r@.len() == i,
            forall|j: int| 0 <= j < i ==> #[trigger] r@[j] == file_chunk(blocks@, offset as int, len as int, j),
        decreases n - i,
    {
        assert((first + i + 1) * 4096 <= need * 4096) by (nonlinear_arith)
            requires first + i + 1 <= need;
        assert((first + i) * 4096 + 4096 == (first + i + 1) * 4096) by (nonlinear_arith);
        assert(first * 4096 + i * 4096 == (first + i) * 4096) by (nonlinear_arith);
        let block_end: u64 = (first + i + 1) * 4096 - offset;
        let start: u64 = if i == 0 { 0 } else { (first + i) * 4096 - offset };
        let end: u64 = if block_end < len as u64 { block_end } else { len as u64 };
        let off: u64 = if i == 0 { offset % 4096 } else { 0 };
        let bl = blocks.len();
        assert(first + i < bl);
        let idx: usize = (first + i) as usize;
        let c = FileChunk {
            block_id: blocks[idx],
            block_offset: off,
            data_start: start as usize,
            data_end: end as usize,
        };
        proof {
            let spec_c = file_chunk(blocks@, offset as int, len as int, i as int);
            assert(c.block_id == spec_c.block_id);
            assert(c.block_offset == spec_c.block_offset);
            assert(c.data_start == spec_c.data_start);
            assert(c.data_end == spec_c.data_end);
        }
        r.push(c);
        i += 1;
    }
    r
}

/// A bitmap with the given blocks marked taken.
pub open spec fn taken(b: Seq<bool>, blocks: Seq<u64>) -> Seq<bool> {
    Seq::new(b.len(), |j: int| b[j] || blocks.contains(j as u64))
}

/// The inode after a write of the bytes up to `end`: the blocks it now
/// has, a size grown to `end`, modified at `now`, the rest as it was.
pub open spec fn written_inode(before: VFSInode, after: VFSInode, blocks: Seq<u64>, end: int, now: i64) -> bool {
    &&& after.ino == before.ino && after.file_type == before.file_type && after.mode == before.mode
    &&& after.uid == before.uid && after.gid == before.gid && after.link_count == before.link_count
    &&& after.created_at == before.created_at && after.accessed_at == before.accessed_at
    &&& after.blocks@ == blocks
    &&& after.size == if before.size >= end { before.size as int } else { end }
    &&& after.modified_at == now
}

impl HighPerformanceVFS {
    /// Plans a write of `len` bytes at `offset` into a file: takes data
    /// blocks, one at a time, from the first free ones until the file has
    /// enough, and splits the write over its blocks.  The blocks are given
    /// back with the pieces; the caller writes each piece into its block
    /// (read, patch, write back) and then records the write with
    /// `finish_file_data_write`.  An empty write or an inode not in memory
    /// plans nothing.  When the blocks run out the write is refused, and
    /// the blocks taken before that stay taken.
    pub fn plan_file_data_write(&mut self, inode: u64, offset: u64, len: usize) -> (r: Result<Option<(Vec<u64>, Vec<FileChunk>)>, String>)
        requires
            old(self).wf(),
            offset + len + 4095 <= u64::MAX,
            old(self).metadata_view().used_blocks + free_data_blocks(old(self).bitmap()).len() <= u64::MAX,
        ensures
            final(self).wf(),
            final(self).inodes() == old(self).inodes(),
            final(self).dirs() == old(self).dirs(),
            final(self).dirty() == old(self).dirty(),
            final(self).paths() == old(self).paths(),
            final(self).inode_paths() == old(self).inode_paths(),
            final(self).ops_view() == old(self).ops_view(),
            ({
                let free = free_data_blocks(old(self).bitmap());
                let md = old(self).metadata_view();
                if len == 0 || !old(self).inodes().contains_key(inode) {
                    &&& r matches Ok(None)
                    &&& final(self).bitmap() == old(self).bitmap()
                    &&& final(self).metadata_view() == md
                } else {
                    let have = old(self).inodes()[inode].blocks@;
                    let extra = blocks_for(offset + len) - have.len();
                    if extra <= 0 {
                        &&& r matches Ok(Some((blocks, chunks)))
                        &&& blocks@ == have
                        &&& chunks_of_write(chunks@, blocks@, offset as int, len as int)
                        &&& final(self).bitmap() == old(self).bitmap()
                        &&& final(self).metadata_view() == md
                    } else if extra <= free.len() {
                        &&& r matches Ok(Some((blocks, chunks)))
                        &&& blocks@ == have + free.take(extra)
                        &&& chunks_of_write(chunks@, blocks@, offset as int, len as int)
                        &&& final(self).bitmap() == taken(old(self).bitmap(), free.take(extra))
                        &&& final(self).metadata_view() == (VFSMetadata { used_blocks: (md.used_blocks + extra) as u64, ..md })
                    } else {
                        &&& r matches Err(e) && e@ == "Insufficient free blocks"@
                        &&& final(self).bitmap() == taken(old(self).bitmap(), free)
                        &&& final(self).metadata_view() == (VFSMetadata { used_blocks: (md.used_blocks + free.len()) as u64, ..md })
                    }
                }
            }),
    {
        if len == 0 {
            return Ok(None);
        }
        let have: Vec<u64> = match self.cache.inodes.get(&inode) {
            Some(i) => copy_blocks(&i.blocks),
            None => {
                return Ok(None);
            },
        };
        let need = (offset + len as u64 + 4095) / 4096;
        let ghost b0 = self.allocator.bitmap_view();
        let ghost free0 = free_data_blocks(b0);
        let ghost used0 = self.allocator.used_view();
        let ghost have0 = have@;
        let mut blocks = have;
        let ghost mut added: Seq<u64> = Seq::empty();
        proof {
            assert(taken(b0, added) =~= b0);
            assert(free0.skip(0) =~= free0);
            assert(free0.take(0) =~= added);
        }
        while (blocks.len() as u64) < need
            invariant
                need == blocks_for(offset + len),
                len > 0,
                old(self).cache.inodes@.contains_key(inode),
                have0 == old(self).cache.inodes@[inode].blocks@,
                self.wf(),
                self.allocator.bitmap_view().len() == b0.len(),
                b0 == old(self).allocator.bitmap_view(),
                free0 == free_data_blocks(b0),
                used0 == old(self).allocator.used_view(),
                used0 + free0.len() <= u64::MAX,
                added.len() <= free0.len(),
                added == free0.take(added.len() as int),
                free_data_blocks(self.allocator.bitmap_view()) == free0.skip(added.len() as int),
                self.allocator.bitmap_view() == taken(b0, added),
                self.allocator.used_view() == used0 + added.len(),
                blocks@ == have0 + added,
                added.len() > 0 ==> blocks@.len() <= need,
                self.cache == old(self).cache,
                self.metadata == old(self).metadata,
                self.path_to_inode == old(self).path_to_inode,
                self.inode_to_path == old(self).inode_to_path,
                self.ops_count == old(self).ops_count,
            decreases need - blocks@.len(),
        {
            let ghost bi = self.allocator.bitmap_view();
            if self.allocator.bitmap.len() < 3 {
                proof {
                    assert(free_between(bi, FIRST_DATA_BLOCK as int, bi.len() as int).len() == 0);
                    assert(free0.skip(added.len() as int).len() == 0);
                    assert(added =~= free0);
                }
                return Err("Insufficient free blocks".to_owned());
            }
            match self.allocator.allocate_blocks(1) {
                Ok(v) => {
                    proof {
                        let fi = free_data_blocks(bi);
                        assert(v@ =~= seq![fi[0]]);
                        lemma_free_between_members(bi, FIRST_DATA_BLOCK as int, bi.len() as int);
                        let x = fi[0];
                        assert(self.allocator.bitmap_view() =~= bi.update(x as int, true)) by {
                            assert forall|j: int| 0 <= j < bi.len() implies #[trigger] self.allocator.bitmap_view()[j] == bi.update(x as int, true)[j] by {
                                if j == x {
                                    assert(v@[0] == x);
                                    assert(v@.contains(j as u64));
                                }
                            }
                        }
                        lemma_take_first_free(bi);
                        assert(fi[0] == free0[added.len() as int]);
                        assert(free0.skip(added.len() as int).drop_first() =~= free0.skip(added.len() as int + 1));
                        assert(added.push(x) =~= free0.take(added.len() as int + 1));
                        assert(self.allocator.bitmap_view() =~= taken(b0, added.push(x))) by {
                            assert forall|j: int| 0 <= j < b0.len() implies #[trigger] self.allocator.bitmap_view()[j] == taken(b0, added.push(x))[j] by {
                                if added.push(x).contains(j as u64) && j != x {
                                    let t = choose|t: int| 0 <= t < added.push(x).len() && added.push(x)[t] == j as u64;
                                    assert(added[t] == j as u64);
                                }
                                if added.contains(j as u64) {
                                    let t = choose|t: int| 0 <= t < added.len() && added[t] == j as u64;
                                    assert(added.push(x)[t] == j as u64);
                                }
                                if j == x {
                                    assert(added.push(x)[added.len() as int] == x);
                                }
                            }
                        }
                        added = added.push(x);
                    }
                    blocks.push(v[0]);
                },
                Err(e) => {
                    proof {
                        assert(free0.skip(added.len() as int).len() == 0);
                        assert(added =~= free0);
                    }
                    return Err(e);
                },
            }
        }
        proof {
            if added.len() > 0 {
                assert(added =~= free0.take(blocks_for(offset + len) - have0.len()));
            } else {
                assert(blocks@ =~= have0);
            }
        }
        let chunks = file_chunks(&blocks, offset, len);
        Ok(Some((blocks, chunks)))
    }

    /// Records a write of `len` bytes at `offset` into a file once its
    /// pieces are written: the file has the given blocks, grows to the end
    /// of the write, is modified at `now`, and is marked dirty at `now`.
    /// An inode not in memory changes nothing.
    pub fn finish_file_data_write(&mut self, inode: u64, blocks: Vec<u64>, offset: u64, len: usize, now: i64)
        requires
            old(self).wf(),
            offset + len <= u64::MAX,
            forall|k: int| 0 <= k < blocks@.len() ==> #[trigger] blocks@[k] < old(self).bitmap().len(),
        ensures
            final(self).wf(),
            old(self).inodes().contains_key(inode) ==> {
                &&& final(self).inodes().contains_key(inode)
                &&& written_inode(old(self).inodes()[inode], final(self).inodes()[inode], blocks@, offset + len, now)
                &&& final(self).inodes().remove(inode) == old(self).inodes().remove(inode)
                &&& final(self).dirty() == old(self).dirty().insert(inode, now)
            },
            !old(self).inodes().contains_key(inode) ==> final(self).inodes() == old(self).inodes() && final(self).dirty() == old(self).dirty(),
            final(self).dirs() == old(self).dirs(),
            final(self).paths() == old(self).paths(),
            final(self).inode_paths() == old(self).inode_paths(),
            final(self).bitmap() == old(self).bitmap(),
            final(self).metadata_view() == old(self).metadata_view(),
            final(self).ops_view() == old(self).ops_view(),
    {
        match self.cache.inodes.remove(&inode) {
            Some(mut info) => {
                let end = offset + len as u64;
                info.blocks = blocks;
                if info.size < end {
                    info.size = end;
                }
                info.modified_at = now;
                self.cache.inodes.insert(inode, info);
                self.cache.dirty_inodes.insert(inode, now);
                proof {
                    assert(self.cache.inodes@.remove(inode) =~= old(self).cache.inodes@.remove(inode));
                    assert forall|n: u64| #[trigger] self.cache.inodes@.contains_key(n) implies n < self.metadata.next_inode by {
                        assert(old(self).cache.inodes@.contains_key(n));
                    }
                    assert forall|n: u64| #[trigger] self.cache.inodes@.contains_key(n) implies forall|k: int|
                        0 <= k < self.cache.inodes@[n].blocks@.len() ==> #[trigger] self.cache.inodes@[n].blocks@[k] < self.metadata.total_blocks by {
                        if n != inode {
                            assert(self.cache.inodes@[n] == old(self).cache.inodes@[n]);
                        }
                    }
                }
            },
            None => {},
        }
    }
}

/// A copy of a list of block numbers.
fn copy_blocks(v: &Vec<u64>) -> (r: Vec<u64>)
    ensures
        r@ == v@,
{
    let mut r: Vec<u64> = Vec::new();
    let mut i: usize = 0;
    while i < v.len()
        invariant
            i <= v@.len(),
            r@ == v@.subrange(0, i as int),
        decreases v.len() - i,
    {
        r.push(v[i]);
        i += 1;
        assert(r@ =~= v@.subrange(0, i as int));
    }
    assert(v@.subrange(0, v@.len() as int) =~= v@);
    r
}


/// The directories with an entry added at the end of directory `p` (made
/// where it has none).
pub open spec fn add_entry(m: Map<u64, Seq<VFSDirectoryEntry>>, p: u64, e: VFSDirectoryEntry) -> Map<u64, Seq<VFSDirectoryEntry>> {
    m.insert(p, (if m.contains_key(p) { m[p] } else { Seq::empty() }).push(e))
}

/// The directories without the entries named `name` in directory `p`.
pub open spec fn remove_entry(m: Map<u64, Seq<VFSDirectoryEntry>>, p: u64, name: Seq<char>) -> Map<u64, Seq<VFSDirectoryEntry>> {
    if m.contains_key(p) { m.insert(p, without_name(m[p], name)) } else { m }
}

/// The directories once `at` is entered, as inode `ino`, in its parent
/// (a path without a parent is entered nowhere).
pub open spec fn link_entry(m: Map<u64, Seq<VFSDirectoryEntry>>, paths: Map<Seq<char>, u64>, at: VfsPath, ino: u64) -> Map<u64, Seq<VFSDirectoryEntry>> {
    match at.parent {
        Some(p) => add_entry(m, parent_of(paths, p@), VFSDirectoryEntry { name: at.file_name->0, inode: ino }),
        None => m,
    }
}

/// The directories once `at` is taken out of its parent.
pub open spec fn unlink_entry(m: Map<u64, Seq<VFSDirectoryEntry>>, paths: Map<Seq<char>, u64>, at: VfsPath) -> Map<u64, Seq<VFSDirectoryEntry>> {
    match at.parent {
        Some(p) => remove_entry(m, parent_of(paths, p@), at.file_name->0@),
        None => m,
    }
}

/// A path with a parent has a last component.
pub open spec fn well_split(at: VfsPath) -> bool {
    at.parent is Some ==> at.file_name is Some
}

/// The data blocks of an inode in memory (none for one that is not).
pub open spec fn inode_blocks(inodes: Map<u64, VFSInode>, ino: u64) -> Seq<u64> {
    if inodes.contains_key(ino) { inodes[ino].blocks@ } else { Seq::empty() }
}

/// A bitmap with the given data blocks given back (blocks below the first
/// data block stay taken).
pub open spec fn released(b: Seq<bool>, blocks: Seq<u64>) -> Seq<bool> {
    Seq::new(b.len(), |j: int| b[j] && !(j >= FIRST_DATA_BLOCK && blocks.contains(j as u64)))
}

/// The used count after `n` blocks are given back, stopping at zero.
pub open spec fn used_after_release(used: u64, n: int) -> u64 {
    if used >= n { (used - n) as u64 } else { 0 }
}

impl HighPerformanceVFS {
    /// Takes a path out of the path table.
    fn remove_path(&mut self, path: &str)
        requires
            old(self).wf(),
        ensures
            final(self).wf(),
            final(self).paths() == old(self).paths().remove(path@),
            final(self).cache == old(self).cache,
            final(self).allocator == old(self).allocator,
            final(self).metadata == old(self).metadata,
            final(self).inode_to_path == old(self).inode_to_path,
            final(self).ops_count == old(self).ops_count,
    {
        let ghost ps = path_pairs(self.path_to_inode@);
        proof {
            lemma_table_get(ps, path@);
        }
        match find_path_index(&self.path_to_inode, path) {
            Some(i) => {
                proof {
                    lemma_table_remove(ps, i as int);
                    assert(ps[i as int].0 == path@);
                }
                let ghost before = self.path_to_inode@;
                self.path_to_inode.remove(i);
                proof {
                    assert(path_pairs(self.path_to_inode@) =~= ps.remove(i as int));
                    assert forall|k: int| 0 <= k < self.path_to_inode@.len() implies #[trigger] self.path_to_inode@[k].1 < self.metadata.next_inode by {
                        if k < i {
                            assert(self.path_to_inode@[k] == before[k]);
                        } else {
                            assert(self.path_to_inode@[k] == before[k + 1]);
                        }
                    }
                }
            },
            None => {
                proof {
                    if old(self).paths().contains_key(path@) {
                        let k = choose|k: int| 0 <= k < ps.len() && ps[k].0 == path@;
                        assert(self.path_to_inode@[k].0@ == path@);
                    }
                    assert(old(self).paths().remove(path@) =~= old(self).paths());
                }
            },
        }
    }

    /// Sets the inode of a path in the path table.
    fn set_path(&mut self, path: &str, ino: u64)
        requires
            old(self).wf(),
            ino < old(self).metadata.next_inode,
        ensures
            final(self).wf(),
            final(self).paths() == old(self).paths().insert(path@, ino),
            final(self).cache == old(self).cache,
            final(self).allocator == old(self).allocator,
            final(self).metadata == old(self).metadata,
            final(self).inode_to_path == old(self).inode_to_path,
            final(self).ops_count == old(self).ops_count,
    {
        let ghost ps = path_pairs(self.path_to_inode@);
        proof {
            lemma_table_get(ps, path@);
        }
        let ghost before = self.path_to_inode@;
        match find_path_index(&self.path_to_inode, path) {
            Some(i) => {
                proof {
                    lemma_table_update(ps, i as int, ino);
                    assert(ps[i as int].0 == path@);
                }
                let key = self.path_to_inode[i].0.clone();
                self.path_to_inode.set(i, (key, ino));
                proof {
                    assert(path_pairs(self.path_to_inode@) =~= ps.update(i as int, (ps[i as int].0, ino)));
                    assert forall|k: int| 0 <= k < self.path_to_inode@.len() implies #[trigger] self.path_to_inode@[k].1 < self.metadata.next_inode by {
                        if k != i {
                            assert(self.path_to_inode@[k] == before[k]);
                        }
                    }
                }
            },
            None => {
                proof {
                    assert forall|k: int| 0 <= k < ps.len() implies ps[k].0 != path@ by {
                        assert(ps[k].0 == self.path_to_inode@[k].0@);
                    }
                    lemma_table_push(ps, path@, ino);
                }
                self.path_to_inode.push((path.to_owned(), ino));
                proof {
                    assert(path_pairs(self.path_to_inode@) =~= ps.push((path@, ino)));
                    assert forall|k: int| 0 <= k < self.path_to_inode@.len() implies #[trigger] self.path_to_inode@[k].1 < self.metadata.next_inode by {
                        if k < before.len() {
                            assert(self.path_to_inode@[k] == before[k]);
                        }
                    }
                }
            },
        }
    }

    /// The inode a path names is below the next inode number.
    proof fn lemma_path_inode_bound(&self, path: Seq<char>)
        requires
            self.wf(),
            self.paths().contains_key(path),
        ensures
            self.paths()[path] < self.metadata.next_inode,
    {
        let ps = path_pairs(self.path_to_inode@);
        lemma_table_get(ps, path);
        let k = choose|k: int| 0 <= k < ps.len() && ps[k].0 == path;
        assert(ps[k].1 == self.path_to_inode@[k].1);
    }

    /// Gives back the data blocks of an inode in memory.
    pub fn free_inode_blocks(&mut self, inode: u64)
        requires
            old(self).wf(),
        ensures
            final(self).wf(),
            final(self).bitmap() == released(old(self).bitmap(), inode_blocks(old(self).inodes(), inode)),
            final(self).metadata_view() == (VFSMetadata {
                used_blocks: used_after_release(old(self).metadata_view().used_blocks, inode_blocks(old(self).inodes(), inode).len() as int),
                ..old(self).metadata_view()
            }),
            final(self).inodes() == old(self).inodes(),
            final(self).dirs() == old(self).dirs(),
            final(self).dirty() == old(self).dirty(),
            final(self).paths() == old(self).paths(),
            final(self).inode_paths() == old(self).inode_paths(),
            final(self).ops_view() == old(self).ops_view(),
    {
        let blocks: Vec<u64> = match self.cache.inodes.get(&inode) {
            Some(i) => copy_blocks(&i.blocks),
            None => Vec::new(),
        };
        proof {
            if self.cache.inodes@.contains_key(inode) {
                assert(blocks@ == self.cache.inodes@[inode].blocks@);
            }
        }
        if blocks.len() > 0 {
            self.allocator.free_blocks(&blocks);
            proof {
                assert(self.allocator.bitmap_view() =~= released(old(self).bitmap(), blocks@));
            }
        } else {
            proof {
                assert(old(self).bitmap() =~= released(old(self).bitmap(), blocks@));
            }
        }
    }

    /// Carries out the deletion of a file: when the path names an inode,
    /// its blocks are given back, the inode leaves memory, the path leaves
    /// both path tables, and the file's entry leaves its parent directory
    /// (looked up once the path is gone).
    pub fn sync_file_deletion(&mut self, path: &VfsPath)
        requires
            old(self).wf(),
            well_split(*path),
        ensures
            final(self).wf(),
            final(self).dirty() == old(self).dirty(),
            final(self).ops_view() == old(self).ops_view(),
            !old(self).paths().contains_key(path.path@) ==> {
                &&& final(self).inodes() == old(self).inodes()
                &&& final(self).dir_view() == old(self).dir_view()
                &&& final(self).paths() == old(self).paths()
                &&& final(self).inode_paths() == old(self).inode_paths()
                &&& final(self).bitmap() == old(self).bitmap()
                &&& final(self).metadata_view() == old(self).metadata_view()
            },
            old(self).paths().contains_key(path.path@) ==> {
                let ino = old(self).paths()[path.path@];
                let blocks = inode_blocks(old(self).inodes(), ino);
                &&& final(self).inodes() == old(self).inodes().remove(ino)
                &&& final(self).paths() == old(self).paths().remove(path.path@)
                &&& final(self).inode_paths() == old(self).inode_paths().remove(ino)
                &&& final(self).dir_view() == unlink_entry(old(self).dir_view(), final(self).paths(), *path)
                &&& final(self).bitmap() == released(old(self).bitmap(), blocks)
                &&& final(self).metadata_view() == (VFSMetadata {
                    used_blocks: used_after_release(old(self).metadata_view().used_blocks, blocks.len() as int),
                    ..old(self).metadata_view()
                })
            },
    {
        if let Some(inode) = self.get_inode_for_path(&path.path) {
            self.free_inode_blocks(inode);
            self.cache.inodes.remove(&inode);
            proof {
                assert(self.dir_view() =~= old(self).dir_view());
            }
            self.remove_path(&path.path);
            self.inode_to_path.remove(&inode);
            if let Some(parent) = &path.parent {
                let name = match &path.file_name {
                    Some(n) => n.clone(),
                    None => String::new(),
                };
                self.remove_directory_entry(parent, &name);
            }
        }
    }

    /// Carries out the creation of a directory: the path gets an inode (a
    /// new one where it has none), which becomes an empty directory in
    /// memory, saved, and entered in its parent directory.
    pub fn sync_directory_creation(&mut self, path: &VfsPath, now: i64)
        requires
            old(self).wf(),
            well_split(*path),
            !old(self).paths().contains_key(path.path@) ==> old(self).metadata_view().next_inode < u64::MAX,
        ensures
            final(self).wf(),
            ({
                let known = old(self).paths().contains_key(path.path@);
                let ino = if known { old(self).paths()[path.path@] } else { old(self).metadata_view().next_inode };
                &&& final(self).paths() == old(self).paths().insert(path.path@, ino)
                &&& final(self).metadata_view() == if known {
                    old(self).metadata_view()
                } else {
                    VFSMetadata { next_inode: (ino + 1) as u64, ..old(self).metadata_view() }
                }
                &&& final(self).inodes().contains_key(ino)
                &&& new_dir_inode(final(self).inodes()[ino], ino, now)
                &&& final(self).inodes().remove(ino) == old(self).inodes().remove(ino)
                &&& final(self).dirty() == old(self).dirty().remove(ino)
                &&& final(self).dir_view() == link_entry(old(self).dir_view().insert(ino, Seq::empty()), final(self).paths(), *path, ino)
                &&& !known ==> final(self).inode_paths().contains_key(ino) && final(self).inode_paths()[ino]@ == path.path@
                &&& !known ==> final(self).inode_paths().remove(ino) == old(self).inode_paths().remove(ino)
                &&& known ==> final(self).inode_paths() == old(self).inode_paths()
            }),
            final(self).bitmap() == old(self).bitmap(),
            final(self).ops_view() == old(self).ops_view(),
    {
        let inode = self.get_or_create_inode_for_path(&path.path, now);
        proof {
            if old(self).paths().contains_key(path.path@) {
                old(self).lemma_path_inode_bound(path.path@);
                assert(self.paths() =~= old(self).paths().insert(path.path@, inode));
            }
        }
        let dir = VFSInode {
            ino: inode,
            file_type: VFSFileType::Directory,
            mode: 0o755,
            uid: 0,
            gid: 0,
            size: 0,
            blocks: Vec::new(),
            created_at: now,
            modified_at: now,
            accessed_at: now,
            link_count: 2,
        };
        let ghost mid = *self;
        self.cache.inodes.insert(inode, dir);
        self.cache.directory_entries.insert(inode, Vec::new());
        proof {
            assert(self.dir_view() =~= old(self).dir_view().insert(inode, Seq::empty()));
            assert(self.cache.inodes@.remove(inode) =~= old(self).cache.inodes@.remove(inode));
            assert forall|n: u64| #[trigger] self.cache.inodes@.contains_key(n) implies n < self.metadata.next_inode by {
                if n != inode {
                    assert(mid.cache.inodes@.contains_key(n));
                }
            }
            assert forall|n: u64| #[trigger] self.cache.inodes@.contains_key(n) implies forall|k: int|
                0 <= k < self.cache.inodes@[n].blocks@.len() ==> #[trigger] self.cache.inodes@[n].blocks@[k] < self.metadata.total_blocks by {
                if n != inode {
                    assert(self.cache.inodes@[n] == mid.cache.inodes@[n]);
                }
            }
        }
        self.save_inode(inode);
        proof {
            assert(self.cache.dirty_inodes@ =~= old(self).cache.dirty_inodes@.remove(inode));
        }
        if let Some(parent) = &path.parent {
            let name = match &path.file_name {
                Some(n) => n.clone(),
                None => String::new(),
            };
            self.add_directory_entry(parent, name, inode);
        }
    }

    /// Carries out the deletion of a directory: when the path names an
    /// inode, its entries and the inode leave memory, the path leaves both
    /// path tables, and its entry leaves its parent directory.  Its blocks
    /// are not given back.
    pub fn sync_directory_deletion(&mut self, path: &VfsPath)
        requires
            old(self).wf(),
            well_split(*path),
        ensures
            final(self).wf(),
            final(self).dirty() == old(self).dirty(),
            final(self).bitmap() == old(self).bitmap(),
            final(self).metadata_view() == old(self).metadata_view(),
            final(self).ops_view() == old(self).ops_view(),
            !old(self).paths().contains_key(path.path@) ==> {
                &&& final(self).inodes() == old(self).inodes()
                &&& final(self).dir_view() == old(self).dir_view()
                &&& final(self).paths() == old(self).paths()
                &&& final(self).inode_paths() == old(self).inode_paths()
            },
            old(self).paths().contains_key(path.path@) ==> {
                let ino = old(self).paths()[path.path@];
                &&& final(self).inodes() == old(self).inodes().remove(ino)
                &&& final(self).paths() == old(self).paths().remove(path.path@)
                &&& final(self).inode_paths() == old(self).inode_paths().remove(ino)
                &&& final(self).dir_view() == unlink_entry(old(self).dir_view().remove(ino), final(self).paths(), *path)
            },
    {
        if let Some(inode) = self.get_inode_for_path(&path.path) {
            self.cache.directory_entries.remove(&inode);
            self.cache.inodes.remove(&inode);
            proof {
                assert(self.dir_view() =~= old(self).dir_view().remove(inode));
            }
            self.remove_path(&path.path);
            self.inode_to_path.remove(&inode);
            if let Some(parent) = &path.parent {
                let name = match &path.file_name {
                    Some(n) => n.clone(),
                    None => String::new(),
                };
                self.remove_directory_entry(parent, &name);
            }
        }
    }

    /// Carries out a rename: when the old path names an inode, the new path
    /// names it instead (in both path tables), its entry leaves the old
    /// parent directory and is entered, under the new name, in the new one.
    pub fn sync_file_rename(&mut self, old_path: &VfsPath, new_path: &VfsPath)
        requires
            old(self).wf(),
            well_split(*old_path),
            well_split(*new_path),
        ensures
            final(self).wf(),
            final(self).inodes() == old(self).inodes(),
            final(self).dirty() == old(self).dirty(),
            final(self).bitmap() == old(self).bitmap(),
            final(self).metadata_view() == old(self).metadata_view(),
            final(self).ops_view() == old(self).ops_view(),
            !old(self).paths().contains_key(old_path.path@) ==> {
                &&& final(self).dir_view() == old(self).dir_view()
                &&& final(self).paths() == old(self).paths()
                &&& final(self).inode_paths() == old(self).inode_paths()
            },
            old(self).paths().contains_key(old_path.path@) ==> {
                let ino = old(self).paths()[old_path.path@];
                &&& final(self).paths() == old(self).paths().remove(old_path.path@).insert(new_path.path@, ino)
                &&& final(self).inode_paths().contains_key(ino)
                &&& final(self).inode_paths()[ino]@ == new_path.path@
                &&& final(self).inode_paths().remove(ino) == old(self).inode_paths().remove(ino)
                &&& final(self).dir_view() == link_entry(
                    unlink_entry(old(self).dir_view(), final(self).paths(), *old_path),
                    final(self).paths(),
                    *new_path,
                    ino,
                )
            },
    {
        if let Some(inode) = self.get_inode_for_path(&old_path.path) {
            proof {
                old(self).lemma_path_inode_bound(old_path.path@);
            }
            self.remove_path(&old_path.path);
            self.set_path(&new_path.path, inode);
            self.inode_to_path.insert(inode, new_path.path.clone());
            proof {
                assert(self.inode_to_path@.remove(inode) =~= old(self).inode_to_path@.remove(inode));
            }
            let ghost mid = self.dir_view();
            if let Some(parent) = &old_path.parent {
                let name = match &old_path.file_name {
                    Some(n) => n.clone(),
                    None => String::new(),
                };
                self.remove_directory_entry(parent, &name);
            }
            if let Some(parent) = &new_path.parent {
                let name = match &new_path.file_name {
                    Some(n) => n.clone(),
                    None => String::new(),
                };
                self.add_directory_entry(parent, name, inode);
            }
        }
    }
}

impl HighPerformanceVFS {
    /// Counts `n` more carried-out operations (wrapping at `u64::MAX`, as
    /// an atomic counter does).
    pub fn record_ops(&mut self, n: u64)
        ensures
            final(self).ops_view() == (old(self).ops_view() + n) % 0x1_0000_0000_0000_0000,
            final(self).inodes() == old(self).inodes(),
            final(self).dirs() == old(self).dirs(),
            final(self).dirty() == old(self).dirty(),
            final(self).paths() == old(self).paths(),
            final(self).inode_paths() == old(self).inode_paths(),
            final(self).bitmap() == old(self).bitmap(),
            final(self).metadata_view() == old(self).metadata_view(),
            old(self).wf() ==> final(self).wf(),
    {
        self.ops_count = self.ops_count.wrapping_add(n);
    }

    /// The operations counted since the last call (the count starts over),
    /// the used blocks, and the number of inodes in memory.
    pub fn get_performance_stats(&mut self) -> (r: (u64, u64, usize))
        ensures
            r.0 == old(self).ops_view(),
            r.1 == old(self).metadata_view().used_blocks,
            r.2 == old(self).inodes().len(),
            final(self).ops_view() == 0,
            final(self).inodes() == old(self).inodes(),
            final(self).dirs() == old(self).dirs(),
            final(self).dirty() == old(self).dirty(),
            final(self).paths() == old(self).paths(),
            final(self).inode_paths() == old(self).inode_paths(),
            final(self).bitmap() == old(self).bitmap(),
            final(self).metadata_view() == old(self).metadata_view(),
            old(self).wf() ==> final(self).wf(),
    {
        let ops = self.ops_count;
        self.ops_count = 0;
        (ops, self.allocator.used_blocks, self.cache.inodes.len())
    }
}

} // verus!
