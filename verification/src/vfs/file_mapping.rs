//! How a byte range of a file falls on the volume layer's 64 KiB blocks,
//! and the records that map files to blocks.
use vstd::prelude::*;
use super::{MAX_BLOCKS_PER_SHARD, VFS_BLOCK_SIZE};
use crate::external::random_u64;
use crate::text::{append_chars, uuid_chars, uuid_text};

verus! {

/// Kind of a mapped file.
#[derive(Clone, Copy, Debug, PartialEq, Eq, Structural)]
pub enum VfsFileType {
    RegularFile,
    Directory,
    SymbolicLink,
    BlockDevice,
    CharDevice,
    Fifo,
    Socket,
}

/// Owner and mode of a mapped file.
#[derive(Clone, Copy, Debug)]
pub struct FilePermissions {
    pub mode: u32,
    pub uid: u32,
    pub gid: u32,
}

/// How free blocks are chosen.
#[derive(Clone, Copy, Debug, PartialEq, Eq, Structural)]
pub enum AllocationStrategy {
    FirstFit,
    BestFit,
    WorstFit,
    Sequential,
    Random,
}

/// Options of a mounted volume.
#[derive(Clone, Copy, Debug)]
pub struct MountOptions {
    pub readonly: bool,
    pub enable_compression: bool,
    pub enable_atime: bool,
    pub enable_diratime: bool,
    pub sync_writes: bool,
}

/// Where part of a file lives: a block of a shard, the offset in the block
/// and the length there.
#[derive(Clone, Copy, Debug)]
pub struct BlockMapping {
    pub shard_id: u32,
    pub block_id: u64,
    pub block_offset: u64,
    pub length: u64,
    pub is_full_block: bool,
}

/// The part of a file range in one block: the file's block index, the
/// offset in that block, and the length there.
#[derive(Clone, Copy, Debug, PartialEq, Eq, Structural)]
pub struct BlockSpan {
    pub file_block_index: u64,
    pub offset_in_block: u64,
    pub length: u64,
}

/// The spans of `length` bytes at `offset`, from block `b` on up to the
/// range's last block.
pub open spec fn spans_from(offset: nat, length: nat, b: nat) -> Seq<BlockSpan>
    decreases (offset + length) / VFS_BLOCK_SIZE as nat + 1 - b,
{
    let end_block = ((offset + length - 1) as nat) / (VFS_BLOCK_SIZE as nat);
    if b > end_block || offset + length == 0 {
        Seq::empty()
    } else {
        seq![span_at(offset, length, b)] + spans_from(offset, length, b + 1)
    }
}

/// The part of `length` bytes at `offset` in block `b`: the offset in the
/// block where it starts (past the range's start in its first block, else
/// 0), and its length (to the block's end, or to the range's end in its
/// last block).
pub open spec fn span_at(offset: nat, length: nat, b: nat) -> BlockSpan {
    let start_block = offset / (VFS_BLOCK_SIZE as nat);
    let end_block = ((offset + length - 1) as nat) / (VFS_BLOCK_SIZE as nat);
    let in_block: nat = if b == start_block { offset % (VFS_BLOCK_SIZE as nat) } else { 0 };
    let len: nat = if b == end_block {
        (offset + length - b * (VFS_BLOCK_SIZE as nat) - in_block) as nat
    } else {
        (VFS_BLOCK_SIZE - in_block) as nat
    };
    BlockSpan { file_block_index: b as u64, offset_in_block: in_block as u64, length: len as u64 }
}

/// The spans a range of `length` bytes at `offset` covers, one per block
/// from its first to its last.
pub open spec fn block_spans_spec(offset: nat, length: nat) -> Seq<BlockSpan> {
    spans_from(offset, length, offset / (VFS_BLOCK_SIZE as nat))
}

/// The blocks a file range touches, as `FileMapper::map_file_to_blocks`
/// walks them: the offset within the first block, whole blocks between,
/// and what is left in the last.
pub fn map_range_to_blocks(offset: u64, length: u64) -> (spans: Vec<BlockSpan>)
    requires
        offset + length >= 1,
        offset + length <= u64::MAX,
    ensures
        spans@ == block_spans_spec(offset as nat, length as nat),
{
    let start_block = offset / VFS_BLOCK_SIZE;
    let end_block = (offset + length - 1) / VFS_BLOCK_SIZE;
    let mut spans: Vec<BlockSpan> = Vec::new();
    let mut b = start_block;
    assert(end_block * VFS_BLOCK_SIZE <= offset + length - 1) by (nonlinear_arith)
        requires
            end_block == (offset + length - 1) / 65536,
            offset + length >= 1;
    assert(start_block <= end_block + 1) by (nonlinear_arith)
        requires
            start_block == offset as int / 65536,
            end_block == (offset + length - 1) / 65536,
            offset + length >= 1;
    while b <= end_block
        invariant
            start_block <= b <= end_block + 1,
            start_block == offset as int / 65536,
            end_block == (offset + length - 1) / 65536,
            end_block * VFS_BLOCK_SIZE <= offset + length - 1,
            offset + length >= 1,
            offset + length <= u64::MAX,
            spans@ + spans_from(offset as nat, length as nat, b as nat) == block_spans_spec(offset as nat, length as nat),
        decreases end_block + 1 - b,
    {
        let in_block: u64 = if b == start_block { offset % VFS_BLOCK_SIZE } else { 0 };
        assert(b * VFS_BLOCK_SIZE <= end_block * VFS_BLOCK_SIZE) by (nonlinear_arith)
            requires
                b <= end_block;
        assert(b == start_block ==> b * VFS_BLOCK_SIZE + in_block == offset) by (nonlinear_arith)
            requires
                start_block == offset as int / 65536,
                b == start_block ==> in_block == offset as int % 65536;
        assert(b > start_block ==> b * VFS_BLOCK_SIZE > offset) by (nonlinear_arith)
            requires
                start_block == offset as int / 65536;
        let len: u64 = if b == end_block {
            (offset + length) - (b * VFS_BLOCK_SIZE) - in_block
        } else {
            VFS_BLOCK_SIZE - in_block
        };
        let ghost rest = spans_from(offset as nat, length as nat, b as nat);
        let span = BlockSpan { file_block_index: b, offset_in_block: in_block, length: len };
        assert(rest == seq![span] + spans_from(offset as nat, length as nat, b as nat + 1));
        spans.push(span);
        assert(spans@ + spans_from(offset as nat, length as nat, b as nat + 1) =~= block_spans_spec(offset as nat, length as nat));
        b = b + 1;
    }
    assert(spans_from(offset as nat, length as nat, b as nat) =~= Seq::<BlockSpan>::empty());
    assert(spans@ + Seq::<BlockSpan>::empty() =~= spans@);
    spans
}

/// Sum of the span lengths.
pub open spec fn spans_total(s: Seq<BlockSpan>) -> nat
    decreases s.len(),
{
    if s.len() == 0 { 0 } else { (s[0].length + spans_total(s.drop_first())) as nat }
}

/// The spans of a range cover it exactly: each span starts where the
/// previous one ended, the first at the range's offset, and together they
/// hold its length; no span leaves its block.
pub proof fn spans_cover_range(offset: nat, length: nat)
    requires
        length > 0,
        offset + length <= u64::MAX,
    ensures
        spans_total(block_spans_spec(offset, length)) == length,
        block_spans_spec(offset, length).len() > 0,
        block_spans_spec(offset, length)[0].file_block_index * VFS_BLOCK_SIZE
            + block_spans_spec(offset, length)[0].offset_in_block == offset,
        forall|i: int| 0 <= i < block_spans_spec(offset, length).len() ==>
            (#[trigger] block_spans_spec(offset, length)[i]).offset_in_block
                + block_spans_spec(offset, length)[i].length <= VFS_BLOCK_SIZE,
{
    let sb = offset / 65536;
    lemma_spans_from(offset, length, sb);
    assert(sb * 65536 + offset % 65536 == offset) by (nonlinear_arith)
        requires
            sb == offset / 65536;
}

proof fn lemma_spans_from(offset: nat, length: nat, b: nat)
    requires
        length > 0,
        offset + length <= u64::MAX,
        offset / 65536 <= b,
        b <= (offset + length - 1) as nat / 65536 + 1,
    ensures
        spans_total(spans_from(offset, length, b)) == if b <= (offset + length - 1) as nat / 65536 {
            (offset + length - if b == offset / 65536 { offset } else { b * 65536 }) as nat
        } else {
            0
        },
        b <= (offset + length - 1) as nat / 65536 ==> spans_from(offset, length, b).len() > 0
            && spans_from(offset, length, b)[0].file_block_index == b
            && spans_from(offset, length, b)[0].offset_in_block == if b == offset / 65536 { offset % 65536 } else { 0 },
        forall|i: int| 0 <= i < spans_from(offset, length, b).len() ==>
            (#[trigger] spans_from(offset, length, b)[i]).offset_in_block + spans_from(offset, length, b)[i].length <= 65536,
    decreases (offset + length - 1) as nat / 65536 + 1 - b,
{
    let sb = offset / 65536;
    let eb = (offset + length - 1) as nat / 65536;
    if b <= eb {
        lemma_spans_from(offset, length, b + 1);
        let in_block: nat = if b == sb { offset % 65536 } else { 0 };
        assert(b * 65536 <= eb * 65536) by (nonlinear_arith)
            requires
                b <= eb;
        assert(eb * 65536 <= offset + length - 1) by (nonlinear_arith)
            requires
                eb == (offset + length - 1) as nat / 65536,
                offset + length >= 1;
        assert(offset + length - 1 < eb * 65536 + 65536) by (nonlinear_arith)
            requires
                eb == (offset + length - 1) as nat / 65536,
                offset + length >= 1;
        assert(b == sb ==> b * 65536 + in_block == offset) by (nonlinear_arith)
            requires
                sb == offset / 65536,
                b == sb ==> in_block == offset % 65536;
        assert(b > sb ==> b * 65536 > offset) by (nonlinear_arith)
            requires
                sb == offset / 65536;
        assert(b < eb ==> (b + 1) * 65536 <= offset + length - 1) by (nonlinear_arith)
            requires
                eb == (offset + length - 1) as nat / 65536,
                offset + length >= 1;
        let s = spans_from(offset, length, b);
        assert(s.drop_first() =~= spans_from(offset, length, b + 1));
        assert forall|i: int| 0 <= i < s.len() implies (#[trigger] s[i]).offset_in_block + s[i].length <= 65536 by {
            if i > 0 {
                assert(s[i] == spans_from(offset, length, b + 1)[i - 1]);
            }
        }
    }
}

// ---------------------------------------------------------------------
// Tables kept as lists of pairs.

/// The map a list of key-value pairs stands for; a later pair overrides an
/// earlier one with the same key.
pub open spec fn table_map<K, V>(s: Seq<(K, V)>) -> Map<K, V>
    decreases s.len(),
{
    if s.len() == 0 {
        Map::empty()
    } else {
        table_map(s.drop_last()).insert(s.last().0, s.last().1)
    }
}

/// No two pairs of the list share a key.
pub open spec fn keys_distinct<K, V>(s: Seq<(K, V)>) -> bool {
    forall|i: int, j: int| 0 <= i < j < s.len() ==> s[i].0 != s[j].0
}

pub(crate) proof fn lemma_table_get<K, V>(s: Seq<(K, V)>, k: K)
    requires
        keys_distinct(s),
    ensures
        table_map(s).contains_key(k) <==> (exists|i: int| 0 <= i < s.len() && s[i].0 == k),
        forall|i: int| 0 <= i < s.len() && s[i].0 == k ==> table_map(s)[k] == s[i].1,
    decreases s.len(),
{
    if s.len() > 0 {
        let t = s.drop_last();
        assert(keys_distinct(t)) by {
            assert forall|i: int, j: int| 0 <= i < j < t.len() implies t[i].0 != t[j].0 by {
                assert(t[i] == s[i] && t[j] == s[j]);
            }
        }
        lemma_table_get(t, k);
        if exists|i: int| 0 <= i < t.len() && t[i].0 == k {
            let i = choose|i: int| 0 <= i < t.len() && t[i].0 == k;
            assert(s[i].0 == k);
        }
        if exists|i: int| 0 <= i < s.len() && s[i].0 == k {
            let i = choose|i: int| 0 <= i < s.len() && s[i].0 == k;
            if i < s.len() - 1 {
                assert(t[i].0 == k);
            }
        }
        assert forall|i: int| 0 <= i < s.len() && s[i].0 == k implies table_map(s)[k] == s[i].1 by {
            if i < s.len() - 1 {
                assert(t[i] == s[i]);
                assert(s[i].0 != s[s.len() - 1].0);
            }
        }
    }
}

pub(crate) proof fn lemma_table_push<K, V>(s: Seq<(K, V)>, k: K, v: V)
    requires
        keys_distinct(s),
        forall|i: int| 0 <= i < s.len() ==> s[i].0 != k,
    ensures
        keys_distinct(s.push((k, v))),
        table_map(s.push((k, v))) == table_map(s).insert(k, v),
{
    assert(s.push((k, v)).drop_last() =~= s);
}

pub(crate) proof fn lemma_table_update<K, V>(s: Seq<(K, V)>, i: int, v: V)
    requires
        keys_distinct(s),
        0 <= i < s.len(),
    ensures
        keys_distinct(s.update(i, (s[i].0, v))),
        table_map(s.update(i, (s[i].0, v))) == table_map(s).insert(s[i].0, v),
    decreases s.len(),
{
    let u = s.update(i, (s[i].0, v));
    let t = s.drop_last();
    assert(keys_distinct(u)) by {
        assert forall|a: int, b: int| 0 <= a < b < u.len() implies u[a].0 != u[b].0 by {
            assert(u[a].0 == s[a].0 && u[b].0 == s[b].0);
        }
    }
    assert(keys_distinct(t)) by {
        assert forall|a: int, b: int| 0 <= a < b < t.len() implies t[a].0 != t[b].0 by {
            assert(t[a] == s[a] && t[b] == s[b]);
        }
    }
    if i == s.len() - 1 {
        assert(u.drop_last() =~= t);
        assert(table_map(u) =~= table_map(s).insert(s[i].0, v));
    } else {
        lemma_table_update(t, i, v);
        assert(u.drop_last() =~= t.update(i, (t[i].0, v)));
        assert(u.last() == s.last());
        assert(s.last().0 != s[i].0);
        assert(table_map(u) =~= table_map(s).insert(s[i].0, v));
    }
}

pub(crate) proof fn lemma_table_remove<K, V>(s: Seq<(K, V)>, i: int)
    requires
        keys_distinct(s),
        0 <= i < s.len(),
    ensures
        keys_distinct(s.remove(i)),
        table_map(s.remove(i)) == table_map(s).remove(s[i].0),
    decreases s.len(),
{
    let r = s.remove(i);
    let t = s.drop_last();
    assert(keys_distinct(r)) by {
        assert forall|a: int, b: int| 0 <= a < b < r.len() implies r[a].0 != r[b].0 by {
            let a2 = if a < i { a } else { a + 1 };
            let b2 = if b < i { b } else { b + 1 };
            assert(r[a] == s[a2] && r[b] == s[b2]);
        }
    }
    assert(keys_distinct(t)) by {
        assert forall|a: int, b: int| 0 <= a < b < t.len() implies t[a].0 != t[b].0 by {
            assert(t[a] == s[a] && t[b] == s[b]);
        }
    }
    if i == s.len() - 1 {
        assert(r =~= t);
        lemma_table_get(t, s[i].0);
        assert(!table_map(t).contains_key(s[i].0)) by {
            if table_map(t).contains_key(s[i].0) {
                let j = choose|j: int| 0 <= j < t.len() && t[j].0 == s[i].0;
                assert(t[j] == s[j]);
            }
        }
        assert(table_map(r) =~= table_map(s).remove(s[i].0));
    } else {
        lemma_table_remove(t, i);
        assert(r.drop_last() =~= t.remove(i));
        assert(r.last() == s.last());
        assert(s.last().0 != s[i].0);
        assert(table_map(r) =~= table_map(s).remove(s[i].0));
    }
}

// ---------------------------------------------------------------------
// The file mapper.

/// A file's record: its inode, volume, path, kind, size, the blocks that
/// hold it (each under the file offset it starts at), its times, owner and
/// mode, and extended attributes.
#[derive(Debug)]
pub struct InodeMapping {
    pub inode: u64,
    pub volume_id: u128,
    pub path: String,
    pub file_type: VfsFileType,
    pub size: u64,
    pub block_mappings: Vec<(u64, BlockMapping)>,
    pub created_at: i64,
    pub modified_at: i64,
    pub accessed_at: i64,
    pub permissions: FilePermissions,
    pub extended_attributes: Vec<(String, Vec<u8>)>,
}

/// The free blocks of each shard of a volume, an allocation bitmap per
/// shard, and the strategy blocks are chosen by.
#[derive(Debug)]
pub struct VolumeBlockAllocation {
    pub volume_id: u128,
    pub free_blocks_per_shard: Vec<(u32, u64)>,
    pub allocation_bitmaps: Vec<(u32, Vec<u64>)>,
    pub allocation_strategy: AllocationStrategy,
}

/// Totals of the file system and its mount options.
#[derive(Clone, Copy, Debug)]
pub struct VfsMetadata {
    pub volume_id: u128,
    pub root_inode: u64,
    pub total_files: u64,
    pub total_directories: u64,
    pub total_file_size: u64,
    pub mount_options: MountOptions,
}

/// What a volume's files add up to.
#[derive(Clone, Copy, Debug, PartialEq, Eq, Structural)]
pub struct VolumeStats {
    pub volume_id: u128,
    pub total_files: u64,
    pub total_directories: u64,
    pub total_size: u64,
    pub total_blocks: u64,
}

/// The blocks of a file by the file offset each starts at.
pub open spec fn blocks_of(m: InodeMapping) -> Map<u64, BlockMapping> {
    table_map(m.block_mappings@)
}

pub open spec fn inode_pairs(s: Seq<InodeMapping>) -> Seq<(u64, InodeMapping)> {
    s.map_values(|m: InodeMapping| (m.inode, m))
}

pub open spec fn path_pairs(s: Seq<(String, u64)>) -> Seq<(Seq<char>, u64)> {
    s.map_values(|p: (String, u64)| (p.0@, p.1))
}

pub open spec fn allocation_pairs(s: Seq<VolumeBlockAllocation>) -> Seq<(u128, VolumeBlockAllocation)> {
    s.map_values(|a: VolumeBlockAllocation| (a.volume_id, a))
}

/// Every path names a recorded file, no two paths name the same one, and
/// only the root path names inode 1.
pub open spec fn paths_name_files(paths: Map<Seq<char>, u64>, inodes: Map<u64, InodeMapping>) -> bool {
    &&& forall|p: Seq<char>| paths.contains_key(p) ==> inodes.contains_key(#[trigger] paths[p])
    &&& forall|p: Seq<char>, q: Seq<char>|
        paths.contains_key(p) && paths.contains_key(q) && p != q ==> #[trigger] paths[p] != #[trigger] paths[q]
    &&& forall|p: Seq<char>| paths.contains_key(p) && #[trigger] paths[p] == 1 ==> p == "/"@
}

/// The record of a file created at `path`: a regular file of the volume,
/// empty, with no blocks, mode 644 for user and group 1000, all its times
/// `now`.
pub open spec fn new_file_entry(m: InodeMapping, inode: u64, volume_id: u128, path: Seq<char>, now: i64) -> bool {
    &&& m.inode == inode
    &&& m.volume_id == volume_id
    &&& m.path@ == path
    &&& m.file_type == VfsFileType::RegularFile
    &&& m.size == 0
    &&& m.block_mappings@.len() == 0
    &&& m.created_at == now
    &&& m.modified_at == now
    &&& m.accessed_at == now
    &&& m.permissions == (FilePermissions { mode: 0o644, uid: 1000, gid: 1000 })
    &&& m.extended_attributes@.len() == 0
}

/// The text of the error for a volume the mapper does not know.
pub open spec fn volume_not_found_text(volume_id: u128) -> Seq<char> {
    "Volume not found: "@ + uuid_text(volume_id)
}

/// The text of the error for a volume with no free block left.
pub open spec fn no_free_blocks_text(volume_id: u128) -> Seq<char> {
    "No free blocks available in volume: "@ + uuid_text(volume_id)
}

/// Maps files of the volumes to the blocks that hold them: the files by
/// inode, the inode of each path, the free blocks of each volume's shards,
/// and the next inode number to give out.
#[derive(Debug)]
pub struct FileMapper {
    inode_mappings: Vec<InodeMapping>,
    path_mappings: Vec<(String, u64)>,
    block_allocations: Vec<VolumeBlockAllocation>,
    fs_metadata: VfsMetadata,
    next_inode: u64,
}

impl FileMapper {
    pub closed spec fn inode_list(&self) -> Seq<InodeMapping> {
        self.inode_mappings@
    }

    pub closed spec fn path_list(&self) -> Seq<(String, u64)> {
        self.path_mappings@
    }

    pub closed spec fn allocation_list(&self) -> Seq<VolumeBlockAllocation> {
        self.block_allocations@
    }

    /// The files by inode.
    pub open spec fn inodes(&self) -> Map<u64, InodeMapping> {
        table_map(inode_pairs(self.inode_list()))
    }

    /// The inode of each path.
    pub open spec fn paths(&self) -> Map<Seq<char>, u64> {
        table_map(path_pairs(self.path_list()))
    }

    /// The block allocation of each volume.
    pub open spec fn allocations(&self) -> Map<u128, VolumeBlockAllocation> {
        table_map(allocation_pairs(self.allocation_list()))
    }

    /// The inode number the next new file gets.
    pub closed spec fn next_inode_view(&self) -> u64 {
        self.next_inode
    }

    /// The file system totals and mount options.
    pub closed spec fn metadata(&self) -> VfsMetadata {
        self.fs_metadata
    }

    pub closed spec fn wf(&self) -> bool {
        &&& keys_distinct(inode_pairs(self.inode_mappings@))
        &&& keys_distinct(path_pairs(self.path_mappings@))
        &&& keys_distinct(allocation_pairs(self.block_allocations@))
        &&& forall|i: int| 0 <= i < self.inode_mappings@.len() ==> (#[trigger] self.inode_mappings@[i]).inode < self.next_inode
        &&& self.next_inode >= 2
        &&& forall|i: int| 0 <= i < self.inode_mappings@.len() ==> keys_distinct((#[trigger] self.inode_mappings@[i]).block_mappings@)
        &&& paths_name_files(self.paths(), self.inodes())
    }

    proof fn lemma_wf_facts(&self)
        requires
            self.wf(),
        ensures
            forall|n: u64| self.inodes().contains_key(n) ==> n < self.next_inode,
            forall|n: u64| #[trigger] self.inodes().contains_key(n) ==> keys_distinct(self.inodes()[n].block_mappings@)
                && self.inodes()[n].inode == n,
    {
        let s = inode_pairs(self.inode_mappings@);
        assert forall|n: u64| #[trigger] self.inodes().contains_key(n) implies n < self.next_inode
            && keys_distinct(self.inodes()[n].block_mappings@) && self.inodes()[n].inode == n by {
            lemma_table_get(s, n);
            let i = choose|i: int| 0 <= i < s.len() && s[i].0 == n;
            assert(self.inode_mappings@[i].inode == n);
        }
    }

    /// The inode numbers the next new files get never name a recorded
    /// file, and every path names a recorded file of its own.
    pub proof fn paths_name_recorded_files(&self)
        requires
            self.wf(),
        ensures
            paths_name_files(self.paths(), self.inodes()),
            forall|n: u64| self.inodes().contains_key(n) ==> n < self.next_inode_view(),
    {
        self.lemma_wf_facts();
    }

    /// An empty mapper: no files, paths or volumes; the next inode is 2,
    /// inode 1 being kept for the root; the totals are zero and the mount
    /// options those of a writable volume with compression and access
    /// times.
    pub fn new() -> (m: Self)
        ensures
            m.wf(),
            m.inodes().dom().len() == 0,
            m.paths().dom().len() == 0,
            m.allocations().dom().len() == 0,
            m.next_inode_view() == 2,
            m.metadata().root_inode == 1,
            m.metadata().total_files == 0,
            m.metadata().total_directories == 0,
            m.metadata().total_file_size == 0,
            m.metadata().mount_options == (MountOptions {
                readonly: false,
                enable_compression: true,
                enable_atime: true,
                enable_diratime: false,
                sync_writes: false,
            }),
    {
        let m = FileMapper {
            inode_mappings: Vec::new(),
            path_mappings: Vec::new(),
            block_allocations: Vec::new(),
            fs_metadata: VfsMetadata {
                volume_id: crate::external::new_uuid(),
                root_inode: 1,
                total_files: 0,
                total_directories: 0,
                total_file_size: 0,
                mount_options: MountOptions {
                    readonly: false,
                    enable_compression: true,
                    enable_atime: true,
                    enable_diratime: false,
                    sync_writes: false,
                },
            },
            next_inode: 2,
        };
        assert(m.inodes() =~= Map::empty());
        assert(m.paths() =~= Map::empty());
        assert(m.allocations() =~= Map::empty());
        m
    }

    /// Where the list holds `path`, if it does.
    fn find_path(&self, path: &str) -> (r: Option<usize>)
        ensures
            match r {
                Some(i) => i < self.path_mappings@.len() && self.path_mappings@[i as int].0@ == path@,
                None => forall|i: int| 0 <= i < self.path_mappings@.len() ==> self.path_mappings@[i].0@ != path@,
            },
    {
        let mut i: usize = 0;
        while i < self.path_mappings.len()
            invariant
                i <= self.path_mappings@.len(),
                forall|j: int| 0 <= j < i ==> self.path_mappings@[j].0@ != path@,
            decreases self.path_mappings.len() - i,
        {
            if crate::text::str_eq(&self.path_mappings[i].0, path) {
                return Some(i);
            }
            i += 1;
        }
        None
    }

    /// Where the list holds inode `inode`, if it does.
    fn find_inode(&self, inode: u64) -> (r: Option<usize>)
        ensures
            match r {
                Some(i) => i < self.inode_mappings@.len() && self.inode_mappings@[i as int].inode == inode,
                None => forall|i: int| 0 <= i < self.inode_mappings@.len() ==> self.inode_mappings@[i].inode != inode,
            },
    {
        let mut i: usize = 0;
        while i < self.inode_mappings.len()
            invariant
                i <= self.inode_mappings@.len(),
                forall|j: int| 0 <= j < i ==> self.inode_mappings@[j].inode != inode,
            decreases self.inode_mappings.len() - i,
        {
            if self.inode_mappings[i].inode == inode {
                return Some(i);
            }
            i += 1;
        }
        None
    }

    /// Where the list holds the allocation of `volume_id`, if it does.
    fn find_allocation(&self, volume_id: u128) -> (r: Option<usize>)
        ensures
            match r {
                Some(i) => i < self.block_allocations@.len() && self.block_allocations@[i as int].volume_id == volume_id,
                None => forall|i: int| 0 <= i < self.block_allocations@.len() ==> self.block_allocations@[i].volume_id != volume_id,
            },
    {
        let mut i: usize = 0;
        while i < self.block_allocations.len()
            invariant
                i <= self.block_allocations@.len(),
                forall|j: int| 0 <= j < i ==> self.block_allocations@[j].volume_id != volume_id,
            decreases self.block_allocations.len() - i,
        {
            if self.block_allocations[i].volume_id == volume_id {
                return Some(i);
            }
            i += 1;
        }
        None
    }

    /// The inode of `file_path`, giving the path a new empty regular file
    /// of the volume, with the next inode number, where it has none.
    pub fn get_or_create_inode(&mut self, volume_id: u128, file_path: &str, now: i64) -> (r: Result<u64, String>)
        requires
            old(self).wf(),
            !old(self).paths().contains_key(file_path@) ==> old(self).next_inode_view() < u64::MAX,
        ensures
            final(self).wf(),
            final(self).allocations() == old(self).allocations(),
            final(self).metadata() == old(self).metadata(),
            old(self).paths().contains_key(file_path@) ==> {
                &&& r == Ok::<u64, String>(old(self).paths()[file_path@])
                &&& final(self).paths() == old(self).paths()
                &&& final(self).inodes() == old(self).inodes()
                &&& final(self).next_inode_view() == old(self).next_inode_view()
            },
            !old(self).paths().contains_key(file_path@) ==> {
                let n = old(self).next_inode_view();
                &&& r == Ok::<u64, String>(n)
                &&& final(self).next_inode_view() == n + 1
                &&& final(self).paths() == old(self).paths().insert(file_path@, n)
                &&& !old(self).inodes().contains_key(n)
                &&& final(self).inodes().contains_key(n)
                &&& new_file_entry(final(self).inodes()[n], n, volume_id, file_path@, now)
                &&& final(self).inodes().remove(n) == old(self).inodes()
            },
    {
        let ghost ps = path_pairs(self.path_mappings@);
        let ghost is = inode_pairs(self.inode_mappings@);
        proof {
            lemma_table_get(ps, file_path@);
            self.lemma_wf_facts();
        }
        match self.find_path(file_path) {
            Some(i) => {
                proof {
                    assert(ps[i as int].0 == file_path@);
                }
                return Ok(self.path_mappings[i].1);
            },
            None => {},
        }
        proof {
            assert forall|i: int| 0 <= i < ps.len() implies ps[i].0 != file_path@ by {
                assert(ps[i].0 == self.path_mappings@[i].0@);
            }
        }
        let inode = self.next_inode;
        self.next_inode = self.next_inode + 1;
        let entry = InodeMapping {
            inode,
            volume_id,
            path: file_path.to_owned(),
            file_type: VfsFileType::RegularFile,
            size: 0,
            block_mappings: Vec::new(),
            created_at: now,
            modified_at: now,
            accessed_at: now,
            permissions: FilePermissions { mode: 0o644, uid: 1000, gid: 1000 },
            extended_attributes: Vec::new(),
        };
        let ghost old_inodes = table_map(is);
        let ghost old_paths = table_map(ps);
        proof {
            assert forall|i: int| 0 <= i < is.len() implies is[i].0 != inode by {
                assert(is[i].0 == self.inode_mappings@[i].inode);
            }
            lemma_table_push(is, inode, entry);
            lemma_table_push(ps, file_path@, inode);
            assert(!old_inodes.contains_key(inode));
        }
        self.inode_mappings.push(entry);
        self.path_mappings.push((file_path.to_owned(), inode));
        proof {
            assert(inode_pairs(self.inode_mappings@) =~= is.push((inode, entry)));
            assert(path_pairs(self.path_mappings@) =~= ps.push((file_path@, inode)));
            assert(self.inodes() == old_inodes.insert(inode, entry));
            assert(self.paths() == old_paths.insert(file_path@, inode));
            assert(self.inodes().remove(inode) =~= old_inodes);
            assert forall|i: int| 0 <= i < self.inode_mappings@.len() implies
                (#[trigger] self.inode_mappings@[i]).inode < self.next_inode by {
                if i < is.len() {
                    assert(self.inode_mappings@[i] == old(self).inode_mappings@[i]);
                }
            }
            assert forall|i: int| 0 <= i < self.inode_mappings@.len() implies
                keys_distinct((#[trigger] self.inode_mappings@[i]).block_mappings@) by {
                if i < is.len() {
                    assert(self.inode_mappings@[i] == old(self).inode_mappings@[i]);
                } else {
                    assert(self.inode_mappings@[i] == entry);
                }
            }
            let np = self.paths();
            let ni = self.inodes();
            assert forall|p: Seq<char>| np.contains_key(p) implies ni.contains_key(#[trigger] np[p]) by {
                if p != file_path@ {
                    assert(old_paths.contains_key(p));
                }
            }
            assert forall|p: Seq<char>, q: Seq<char>|
                np.contains_key(p) && np.contains_key(q) && p != q implies #[trigger] np[p] != #[trigger] np[q] by {
                if p == file_path@ {
                    assert(old_inodes.contains_key(old_paths[q]));
                } else if q == file_path@ {
                    assert(old_inodes.contains_key(old_paths[p]));
                }
            }
            assert forall|p: Seq<char>| np.contains_key(p) && #[trigger] np[p] == 1 implies p == "/"@ by {
                if p != file_path@ {
                    assert(old_paths[p] == 1);
                }
            }
        }
        Ok(inode)
    }
}

/// The first shard from index `i` on with a free block.
pub open spec fn first_free_from(s: Seq<(u32, u64)>, i: int) -> Option<int>
    decreases s.len() - i,
{
    if i >= s.len() {
        None
    } else if s[i].1 > 0 {
        Some(i)
    } else {
        first_free_from(s, i + 1)
    }
}

proof fn lemma_first_free(s: Seq<(u32, u64)>, j: int)
    requires
        0 <= j,
    ensures
        match first_free_from(s, j) {
            Some(i) => j <= i < s.len() && s[i].1 > 0 && forall|k: int| j <= k < i ==> s[k].1 == 0,
            None => forall|k: int| j <= k < s.len() ==> s[k].1 == 0,
        },
    decreases s.len() - j,
{
    if j < s.len() && s[j].1 == 0 {
        lemma_first_free(s, j + 1);
    }
}

/// The first shard with a free block.
pub open spec fn first_free_shard(s: Seq<(u32, u64)>) -> Option<int> {
    first_free_from(s, 0)
}

/// What allocating a block of `volume_id` does: it fails for a volume the
/// mapper does not know and for one with no free block, changing nothing;
/// else it takes a block below the shard size from the first shard that
/// has one, whose free count goes down by one.
pub open spec fn allocated(
    a0: Map<u128, VolumeBlockAllocation>,
    a1: Map<u128, VolumeBlockAllocation>,
    volume_id: u128,
    r: Result<(u32, u64), String>,
) -> bool {
    if !a0.contains_key(volume_id) {
        &&& match r {
            Ok(_) => false,
            Err(e) => e@ == volume_not_found_text(volume_id),
        }
        &&& a1 == a0
    } else {
        let f = a0[volume_id].free_blocks_per_shard@;
        match first_free_shard(f) {
            None => {
                &&& match r {
                    Ok(_) => false,
                    Err(e) => e@ == no_free_blocks_text(volume_id),
                }
                &&& a1 == a0
            },
            Some(i) => {
                &&& match r {
                    Ok(sb) => sb.0 == f[i].0 && sb.1 < MAX_BLOCKS_PER_SHARD,
                    Err(_) => false,
                }
                &&& a1.contains_key(volume_id)
                &&& a1.remove(volume_id) == a0.remove(volume_id)
                &&& a1[volume_id].volume_id == volume_id
                &&& a1[volume_id].free_blocks_per_shard@ == f.update(i, (f[i].0, (f[i].1 - 1) as u64))
                &&& a1[volume_id].allocation_bitmaps@ == a0[volume_id].allocation_bitmaps@
                &&& a1[volume_id].allocation_strategy == a0[volume_id].allocation_strategy
            },
        }
    }
}

/// The root directory's record: inode 1 of the volume at `/`, one block
/// in size, that block mapped in full at offset 0, mode 755 for the root
/// user, all its times `now`.
pub open spec fn root_entry(m: InodeMapping, volume_id: u128, now: i64) -> bool {
    &&& m.inode == 1
    &&& m.volume_id == volume_id
    &&& m.path@ == "/"@
    &&& m.file_type == VfsFileType::Directory
    &&& m.size == VFS_BLOCK_SIZE
    &&& m.block_mappings@.len() == 1
    &&& m.block_mappings@[0].0 == 0
    &&& m.block_mappings@[0].1.block_offset == 0
    &&& m.block_mappings@[0].1.length == VFS_BLOCK_SIZE
    &&& m.block_mappings@[0].1.is_full_block
    &&& m.created_at == now
    &&& m.modified_at == now
    &&& m.accessed_at == now
    &&& m.permissions == (FilePermissions { mode: 0o755, uid: 0, gid: 0 })
    &&& m.extended_attributes@.len() == 0
}

/// The shard and block of the root directory's block.
pub open spec fn root_block(m: InodeMapping) -> (u32, u64) {
    (m.block_mappings@[0].1.shard_id, m.block_mappings@[0].1.block_id)
}

/// The allocation of a new volume with `n` shards: every shard wholly
/// free, its bitmap empty, best-fit allocation.
pub open spec fn fresh_allocation(a: VolumeBlockAllocation, volume_id: u128, n: nat) -> bool {
    &&& a.volume_id == volume_id
    &&& a.free_blocks_per_shard@ == Seq::new(n, |i: int| (i as u32, MAX_BLOCKS_PER_SHARD))
    &&& a.allocation_bitmaps@.len() == n
    &&& forall|i: int| 0 <= i < n ==> (#[trigger] a.allocation_bitmaps@[i]).0 == i as u32
        && a.allocation_bitmaps@[i].1@.len() == 0
    &&& a.allocation_strategy == AllocationStrategy::BestFit
}

/// The index of the first shard with a free block.
fn first_free_index(free: &Vec<(u32, u64)>) -> (r: Option<usize>)
    ensures
        match r {
            Some(i) => first_free_shard(free@) == Some(i as int) && i < free@.len(),
            None => first_free_shard(free@) is None,
        },
{
    let mut i: usize = 0;
    while i < free.len()
        invariant
            i <= free@.len(),
            first_free_shard(free@) == first_free_from(free@, i as int),
        decreases free.len() - i,
    {
        if free[i].1 > 0 {
            return Some(i);
        }
        i += 1;
    }
    None
}

/// The text of an error about a volume: `prefix` and the volume's id.
fn volume_error(prefix: &str, volume_id: u128) -> (s: String)
    ensures
        s@ == prefix@ + uuid_text(volume_id),
{
    let mut s = prefix.to_owned();
    append_chars(&mut s, uuid_chars(volume_id).as_slice());
    s
}

impl FileMapper {
    /// A block of a shard, first-fit: as yet any block of the shard,
    /// chosen at random.
    fn allocate_first_fit(&self, _shard_id: u32) -> (b: u64)
        ensures
            b < MAX_BLOCKS_PER_SHARD,
    {
        random_u64() % MAX_BLOCKS_PER_SHARD
    }

    /// A block of a shard, best-fit: as yet the first-fit choice.
    fn allocate_best_fit(&self, shard_id: u32) -> (b: u64)
        ensures
            b < MAX_BLOCKS_PER_SHARD,
    {
        self.allocate_first_fit(shard_id)
    }

    /// A block of a shard, sequential: as yet the first-fit choice.
    fn allocate_sequential(&self, shard_id: u32) -> (b: u64)
        ensures
            b < MAX_BLOCKS_PER_SHARD,
    {
        self.allocate_first_fit(shard_id)
    }

    /// Takes a free block of the volume: from the first shard that has
    /// one, by the volume's strategy.
    fn allocate_new_block(&mut self, volume_id: u128) -> (r: Result<(u32, u64), String>)
        requires
            old(self).wf(),
        ensures
            final(self).wf(),
            final(self).inode_list() == old(self).inode_list(),
            final(self).path_list() == old(self).path_list(),
            final(self).next_inode_view() == old(self).next_inode_view(),
            final(self).metadata() == old(self).metadata(),
            allocated(old(self).allocations(), final(self).allocations(), volume_id, r),
    {
        let ghost s = allocation_pairs(self.block_allocations@);
        proof {
            lemma_table_get(s, volume_id);
        }
        let k = match self.find_allocation(volume_id) {
            Some(k) => k,
            None => {
                proof {
                    assert forall|i: int| 0 <= i < s.len() implies s[i].0 != volume_id by {
                        assert(s[i].0 == self.block_allocations@[i].volume_id);
                    }
                }
                return Err(volume_error("Volume not found: ", volume_id));
            },
        };
        proof {
            assert(s[k as int].0 == volume_id);
        }
        let i = match first_free_index(&self.block_allocations[k].free_blocks_per_shard) {
            Some(i) => i,
            None => {
                return Err(volume_error("No free blocks available in volume: ", volume_id));
            },
        };
        proof {
            lemma_first_free(self.block_allocations@[k as int].free_blocks_per_shard@, 0);
        }
        let ghost old_list = self.block_allocations@;
        let mut a = self.block_allocations.remove(k);
        let (shard_id, count) = a.free_blocks_per_shard[i];
        let block_id = match a.allocation_strategy {
            AllocationStrategy::FirstFit => self.allocate_first_fit(shard_id),
            AllocationStrategy::BestFit => self.allocate_best_fit(shard_id),
            AllocationStrategy::Sequential => self.allocate_sequential(shard_id),
            _ => self.allocate_first_fit(shard_id),
        };
        a.free_blocks_per_shard.set(i, (shard_id, count - 1));
        let ghost a1 = a;
        self.block_allocations.insert(k, a);
        proof {
            assert(self.block_allocations@ =~= old_list.update(k as int, a1));
            assert(allocation_pairs(self.block_allocations@) =~= s.update(k as int, (s[k as int].0, a1)));
            lemma_table_update(s, k as int, a1);
            assert(self.allocations().remove(volume_id) =~= old(self).allocations().remove(volume_id));
        }
        Ok((shard_id, block_id))
    }

    /// Records the root directory of a volume, giving it a block: inode 1
    /// at `/` (both replace what they named before). Fails, changing
    /// nothing, where no block can be had.
    fn create_root_directory(&mut self, volume_id: u128, now: i64) -> (r: Result<(), String>)
        requires
            old(self).wf(),
        ensures
            final(self).wf(),
            final(self).next_inode_view() == old(self).next_inode_view(),
            final(self).metadata() == old(self).metadata(),
            allocated(old(self).allocations(), final(self).allocations(), volume_id, match r {
                Ok(_) => Ok::<(u32, u64), String>(root_block(final(self).inodes()[1])),
                Err(e) => Err(e),
            }),
            r is Ok ==> {
                &&& final(self).inodes().contains_key(1)
                &&& root_entry(final(self).inodes()[1], volume_id, now)
                &&& final(self).inodes().remove(1) == old(self).inodes().remove(1)
                &&& final(self).paths() == old(self).paths().insert("/"@, 1)
            },
            r is Err ==> final(self).inodes() == old(self).inodes() && final(self).paths() == old(self).paths(),
    {
        let (shard_id, block_id) = match self.allocate_new_block(volume_id) {
            Ok(sb) => sb,
            Err(e) => {
                return Err(e);
            },
        };
        let mut blocks: Vec<(u64, BlockMapping)> = Vec::new();
        blocks.push((0, BlockMapping {
            shard_id,
            block_id,
            block_offset: 0,
            length: VFS_BLOCK_SIZE,
            is_full_block: true,
        }));
        let root = InodeMapping {
            inode: 1,
            volume_id,
            path: "/".to_owned(),
            file_type: VfsFileType::Directory,
            size: VFS_BLOCK_SIZE,
            block_mappings: blocks,
            created_at: now,
            modified_at: now,
            accessed_at: now,
            permissions: FilePermissions { mode: 0o755, uid: 0, gid: 0 },
            extended_attributes: Vec::new(),
        };
        let ghost root_v = root;
        let ghost is = inode_pairs(self.inode_mappings@);
        let ghost ps = path_pairs(self.path_mappings@);
        let ghost old_inodes = self.inodes();
        let ghost old_paths = self.paths();
        let ghost old_list = self.inode_mappings@;
        proof {
            self.lemma_wf_facts();
            assert(keys_distinct(root_v.block_mappings@));
        }
        match self.find_inode(1) {
            Some(i) => {
                let _old = self.inode_mappings.remove(i);
                self.inode_mappings.insert(i, root);
                proof {
                    assert(self.inode_mappings@ =~= old_list.update(i as int, root_v));
                    assert(is[i as int].0 == 1);
                    assert(inode_pairs(self.inode_mappings@) =~= is.update(i as int, (is[i as int].0, root_v)));
                    lemma_table_update(is, i as int, root_v);
                }
            },
            None => {
                proof {
                    assert forall|j: int| 0 <= j < is.len() implies is[j].0 != 1 by {
                        assert(is[j].0 == old_list[j].inode);
                    }
                    lemma_table_push(is, 1, root_v);
                }
                self.inode_mappings.push(root);
                proof {
                    assert(inode_pairs(self.inode_mappings@) =~= is.push((1, root_v)));
                }
            },
        }
        let ghost plist = self.path_mappings@;
        match self.find_path("/") {
            Some(i) => {
                self.path_mappings.set(i, ("/".to_owned(), 1));
                proof {
                    assert(ps[i as int].0 == "/"@);
                    assert(path_pairs(self.path_mappings@) =~= ps.update(i as int, (ps[i as int].0, 1u64)));
                    lemma_table_update(ps, i as int, 1u64);
                }
            },
            None => {
                proof {
                    assert forall|j: int| 0 <= j < ps.len() implies ps[j].0 != "/"@ by {
                        assert(ps[j].0 == plist[j].0@);
                    }
                    lemma_table_push(ps, "/"@, 1u64);
                }
                self.path_mappings.push(("/".to_owned(), 1));
                proof {
                    assert(path_pairs(self.path_mappings@) =~= ps.push(("/"@, 1u64)));
                }
            },
        }
        proof {
            let ni = self.inodes();
            let np = self.paths();
            assert(ni == old_inodes.insert(1, root_v));
            assert(np == old_paths.insert("/"@, 1u64));
            assert(ni.remove(1) =~= old_inodes.remove(1));
            assert forall|j: int| 0 <= j < self.inode_mappings@.len() implies
                (#[trigger] self.inode_mappings@[j]).inode < self.next_inode && keys_distinct(self.inode_mappings@[j].block_mappings@) by {
                let pj = inode_pairs(self.inode_mappings@)[j];
                assert(pj.1 == self.inode_mappings@[j]);
                if self.inode_mappings@[j].inode == 1 {
                } else {
                    lemma_table_get(inode_pairs(self.inode_mappings@), pj.0);
                    assert(ni[pj.0] == pj.1);
                    assert(old_inodes.contains_key(pj.0));
                }
            }
            assert forall|p: Seq<char>| np.contains_key(p) implies ni.contains_key(#[trigger] np[p]) by {
                if p != "/"@ {
                    assert(old_paths.contains_key(p));
                }
            }
            assert forall|p: Seq<char>, q: Seq<char>|
                np.contains_key(p) && np.contains_key(q) && p != q implies #[trigger] np[p] != #[trigger] np[q] by {
                if p == "/"@ {
                    assert(old_paths[q] != 1);
                } else if q == "/"@ {
                    assert(old_paths[p] != 1);
                }
            }
        }
        Ok(())
    }
}

/// The names and values of extended attributes.
pub open spec fn attrs_view(s: Seq<(String, Vec<u8>)>) -> Seq<(Seq<char>, Seq<u8>)> {
    s.map_values(|x: (String, Vec<u8>)| (x.0@, x.1@))
}

/// Two file records alike in all but their access time.
pub open spec fn same_record(a: InodeMapping, b: InodeMapping) -> bool {
    &&& a.inode == b.inode
    &&& a.volume_id == b.volume_id
    &&& a.path@ == b.path@
    &&& a.file_type == b.file_type
    &&& a.size == b.size
    &&& a.block_mappings@ == b.block_mappings@
    &&& a.created_at == b.created_at
    &&& a.modified_at == b.modified_at
    &&& a.permissions == b.permissions
    &&& attrs_view(a.extended_attributes@) == attrs_view(b.extended_attributes@)
}

/// Two file records that hold the same values.
pub open spec fn same_inode_mapping(a: InodeMapping, b: InodeMapping) -> bool {
    same_record(a, b) && a.accessed_at == b.accessed_at
}

/// A copy of a file record.
pub fn copy_inode_mapping(m: &InodeMapping) -> (r: InodeMapping)
    ensures
        same_inode_mapping(r, *m),
{
    let mut blocks: Vec<(u64, BlockMapping)> = Vec::new();
    let mut i: usize = 0;
    while i < m.block_mappings.len()
        invariant
            i <= m.block_mappings@.len(),
            blocks@ == m.block_mappings@.subrange(0, i as int),
        decreases m.block_mappings.len() - i,
    {
        blocks.push(m.block_mappings[i]);
        i += 1;
        assert(blocks@ =~= m.block_mappings@.subrange(0, i as int));
    }
    assert(m.block_mappings@.subrange(0, m.block_mappings@.len() as int) =~= m.block_mappings@);
    let mut attrs: Vec<(String, Vec<u8>)> = Vec::new();
    let ghost xv = attrs_view(m.extended_attributes@);
    let mut j: usize = 0;
    assert(attrs_view(attrs@) =~= xv.subrange(0, 0));
    while j < m.extended_attributes.len()
        invariant
            j <= m.extended_attributes@.len(),
            xv == attrs_view(m.extended_attributes@),
            attrs_view(attrs@) == xv.subrange(0, j as int),
        decreases m.extended_attributes.len() - j,
    {
        let key = m.extended_attributes[j].0.clone();
        let value = copy_bytes(&m.extended_attributes[j].1);
        let ghost before = attrs@;
        let ghost kv = (key@, value@);
        assert(kv == xv[j as int]);
        attrs.push((key, value));
        j += 1;
        assert(attrs@ == before.push((key, value)));
        assert(attrs_view(attrs@) =~= attrs_view(before).push(kv));
        assert(xv.subrange(0, j as int) =~= xv.subrange(0, j - 1).push(kv));
        assert(attrs_view(attrs@) =~= xv.subrange(0, j as int));
    }
    assert(xv.subrange(0, xv.len() as int) =~= xv);
    InodeMapping {
        inode: m.inode,
        volume_id: m.volume_id,
        path: m.path.clone(),
        file_type: m.file_type,
        size: m.size,
        block_mappings: blocks,
        created_at: m.created_at,
        modified_at: m.modified_at,
        accessed_at: m.accessed_at,
        permissions: m.permissions,
        extended_attributes: attrs,
    }
}

/// A copy of a byte list.
fn copy_bytes(v: &Vec<u8>) -> (r: Vec<u8>)
    ensures
        r@ == v@,
{
    let mut r: Vec<u8> = Vec::new();
    let mut i: usize = 0;
    while i < v.len()
        invariant
            i <= v@.len(),
            r@ == v@.subrange(0, i as int),
        decreases v.len() - i,
    {
        r.push(v[i]);
        i += 1;
        assert(r@ =~= v@.subrange(0, i as int));
    }
    assert(v@.subrange(0, v@.len() as int) =~= v@);
    r
}

/// What the files of a volume add up to, over a list of records: regular
/// files, directories, bytes, and blocks.
pub open spec fn stats_of(s: Seq<InodeMapping>, volume_id: u128) -> (nat, nat, nat, nat)
    decreases s.len(),
{
    if s.len() == 0 {
        (0, 0, 0, 0)
    } else {
        let r = stats_of(s.drop_last(), volume_id);
        let m = s.last();
        if m.volume_id == volume_id {
            (
                r.0 + if m.file_type == VfsFileType::RegularFile { 1nat } else { 0nat },
                r.1 + if m.file_type == VfsFileType::Directory { 1nat } else { 0nat },
                r.2 + m.size as nat,
                r.3 + m.block_mappings@.len(),
            )
        } else {
            r
        }
    }
}

proof fn lemma_stats_bounded(s: Seq<InodeMapping>, volume_id: u128)
    ensures
        stats_of(s, volume_id).0 <= s.len(),
        stats_of(s, volume_id).1 <= s.len(),
    decreases s.len(),
{
    if s.len() > 0 {
        lemma_stats_bounded(s.drop_last(), volume_id);
    }
}

proof fn lemma_stats_prefix_bounded(s: Seq<InodeMapping>, volume_id: u128, i: int)
    requires
        0 <= i <= s.len(),
    ensures
        stats_of(s.subrange(0, i), volume_id).2 <= stats_of(s, volume_id).2,
        stats_of(s.subrange(0, i), volume_id).3 <= stats_of(s, volume_id).3,
    decreases s.len() - i,
{
    if i < s.len() {
        lemma_stats_prefix_bounded(s, volume_id, i + 1);
        assert(s.subrange(0, i + 1).drop_last() =~= s.subrange(0, i));
    } else {
        assert(s.subrange(0, i) =~= s);
    }
}

impl FileMapper {
    /// Sets the allocation of the volume the record is for, replacing what
    /// it had.
    fn set_allocation(&mut self, a: VolumeBlockAllocation)
        requires
            old(self).wf(),
        ensures
            final(self).wf(),
            final(self).allocations() == old(self).allocations().insert(a.volume_id, a),
            final(self).inodes() == old(self).inodes(),
            final(self).paths() == old(self).paths(),
            final(self).next_inode_view() == old(self).next_inode_view(),
            final(self).metadata() == old(self).metadata(),
    {
        let ghost s = allocation_pairs(self.block_allocations@);
        let ghost av = a;
        let ghost old_list = self.block_allocations@;
        match self.find_allocation(a.volume_id) {
            Some(k) => {
                let _old = self.block_allocations.remove(k);
                self.block_allocations.insert(k, a);
                proof {
                    assert(self.block_allocations@ =~= old_list.update(k as int, av));
                    assert(s[k as int].0 == av.volume_id);
                    assert(allocation_pairs(self.block_allocations@) =~= s.update(k as int, (s[k as int].0, av)));
                    lemma_table_update(s, k as int, av);
                }
            },
            None => {
                proof {
                    assert forall|j: int| 0 <= j < s.len() implies s[j].0 != av.volume_id by {
                        assert(s[j].0 == old_list[j].volume_id);
                    }
                    lemma_table_push(s, av.volume_id, av);
                }
                self.block_allocations.push(a);
                proof {
                    assert(allocation_pairs(self.block_allocations@) =~= s.push((av.volume_id, av)));
                }
            },
        }
    }

    /// Starts mapping a volume with `shard_count` shards: every shard
    /// wholly free, with best-fit allocation (replacing what the volume had),
    /// then its root directory, whose block comes from shard 0. With no
    /// shard there is no block for the root, and that error is returned.
    pub fn initialize_volume(&mut self, volume_id: u128, shard_count: u32, now: i64) -> (r: Result<(), String>)
        requires
            old(self).wf(),
        ensures
            final(self).wf(),
            final(self).next_inode_view() == old(self).next_inode_view(),
            final(self).metadata() == old(self).metadata(),
            final(self).allocations().contains_key(volume_id),
            final(self).allocations().remove(volume_id) == old(self).allocations().remove(volume_id),
            shard_count == 0 ==> {
                &&& match r {
                    Ok(_) => false,
                    Err(e) => e@ == no_free_blocks_text(volume_id),
                }
                &&& fresh_allocation(final(self).allocations()[volume_id], volume_id, 0)
                &&& final(self).inodes() == old(self).inodes()
                &&& final(self).paths() == old(self).paths()
            },
            shard_count > 0 ==> {
                let a = final(self).allocations()[volume_id];
                let n = shard_count as nat;
                &&& r is Ok
                &&& final(self).inodes().contains_key(1)
                &&& root_entry(final(self).inodes()[1], volume_id, now)
                &&& root_block(final(self).inodes()[1]).0 == 0
                &&& root_block(final(self).inodes()[1]).1 < MAX_BLOCKS_PER_SHARD
                &&& final(self).inodes().remove(1) == old(self).inodes().remove(1)
                &&& final(self).paths() == old(self).paths().insert("/"@, 1)
                &&& a.volume_id == volume_id
                &&& a.free_blocks_per_shard@ == Seq::new(n, |i: int| (i as u32, MAX_BLOCKS_PER_SHARD)).update(
                    0,
                    (0u32, (MAX_BLOCKS_PER_SHARD - 1) as u64),
                )
                &&& a.allocation_bitmaps@.len() == n
                &&& forall|i: int| 0 <= i < n ==> (#[trigger] a.allocation_bitmaps@[i]).0 == i as u32
                    && a.allocation_bitmaps@[i].1@.len() == 0
                &&& a.allocation_strategy == AllocationStrategy::BestFit
            },
    {
        let mut free: Vec<(u32, u64)> = Vec::new();
        let mut bitmaps: Vec<(u32, Vec<u64>)> = Vec::new();
        let mut s: u32 = 0;
        while s < shard_count
            invariant
                s <= shard_count,
                free@ == Seq::new(s as nat, |i: int| (i as u32, MAX_BLOCKS_PER_SHARD)),
                bitmaps@.len() == s,
                forall|i: int| 0 <= i < s ==> (#[trigger] bitmaps@[i]).0 == i as u32 && bitmaps@[i].1@.len() == 0,
            decreases shard_count - s,
        {
            free.push((s, MAX_BLOCKS_PER_SHARD));
            bitmaps.push((s, Vec::new()));
            s += 1;
            assert(free@ =~= Seq::new(s as nat, |i: int| (i as u32, MAX_BLOCKS_PER_SHARD)));
        }
        let a = VolumeBlockAllocation {
            volume_id,
            free_blocks_per_shard: free,
            allocation_bitmaps: bitmaps,
            allocation_strategy: AllocationStrategy::BestFit,
        };
        let ghost av = a;
        self.set_allocation(a);
        let ghost mid = self.allocations();
        proof {
            assert(first_free_from(av.free_blocks_per_shard@, 0) == if shard_count > 0 { Some(0int) } else { None::<int> });
        }
        let r = self.create_root_directory(volume_id, now);
        proof {
            assert(mid.remove(volume_id) =~= old(self).allocations().remove(volume_id));
            if shard_count > 0 {
                assert(self.allocations().remove(volume_id) =~= old(self).allocations().remove(volume_id));
            }
        }
        r
    }

    /// The record of the file at `file_path`, if the path names one.
    pub fn get_file_info(&self, file_path: &str) -> (r: Result<Option<InodeMapping>, String>)
        requires
            self.wf(),
        ensures
            match r {
                Ok(Some(m)) => self.paths().contains_key(file_path@)
                    && same_inode_mapping(m, self.inodes()[self.paths()[file_path@]]),
                Ok(None) => !self.paths().contains_key(file_path@),
                Err(_) => false,
            },
    {
        let ghost ps = path_pairs(self.path_mappings@);
        let ghost is = inode_pairs(self.inode_mappings@);
        proof {
            lemma_table_get(ps, file_path@);
        }
        match self.find_path(file_path) {
            Some(i) => {
                let inode = self.path_mappings[i].1;
                proof {
                    assert(ps[i as int].0 == file_path@);
                    lemma_table_get(is, inode);
                }
                match self.find_inode(inode) {
                    Some(j) => {
                        proof {
                            assert(is[j as int].0 == inode);
                        }
                        Ok(Some(copy_inode_mapping(&self.inode_mappings[j])))
                    },
                    None => {
                        proof {
                            assert(self.inodes().contains_key(inode));
                            let j = choose|j: int| 0 <= j < is.len() && is[j].0 == inode;
                            assert(self.inode_mappings@[j].inode == inode);
                        }
                        Ok(None)
                    },
                }
            },
            None => {
                proof {
                    if self.paths().contains_key(file_path@) {
                        let j = choose|j: int| 0 <= j < ps.len() && ps[j].0 == file_path@;
                        assert(self.path_mappings@[j].0@ == file_path@);
                    }
                }
                Ok(None)
            },
        }
    }

    /// Sets the access time of the file at `file_path` to `now`; a path
    /// that names no file changes nothing.
    pub fn update_access_time(&mut self, file_path: &str, now: i64) -> (r: Result<(), String>)
        requires
            old(self).wf(),
        ensures
            r is Ok,
            final(self).wf(),
            final(self).paths() == old(self).paths(),
            final(self).allocations() == old(self).allocations(),
            final(self).next_inode_view() == old(self).next_inode_view(),
            final(self).metadata() == old(self).metadata(),
            final(self).inodes().dom() == old(self).inodes().dom(),
            forall|n: u64| #[trigger] final(self).inodes().contains_key(n) ==> {
                let m0 = old(self).inodes()[n];
                let m1 = final(self).inodes()[n];
                &&& same_record(m1, m0)
                &&& m1.accessed_at == if old(self).paths().contains_key(file_path@)
                    && old(self).paths()[file_path@] == n { now } else { m0.accessed_at }
            },
    {
        let ghost ps = path_pairs(self.path_mappings@);
        let ghost is = inode_pairs(self.inode_mappings@);
        let ghost old_list = self.inode_mappings@;
        let ghost old_inodes = self.inodes();
        proof {
            lemma_table_get(ps, file_path@);
            self.lemma_wf_facts();
        }
        let inode = match self.find_path(file_path) {
            Some(i) => {
                proof {
                    assert(ps[i as int].0 == file_path@);
                }
                self.path_mappings[i].1
            },
            None => {
                proof {
                    if self.paths().contains_key(file_path@) {
                        let j = choose|j: int| 0 <= j < ps.len() && ps[j].0 == file_path@;
                        assert(self.path_mappings@[j].0@ == file_path@);
                    }
                    assert(self.inodes() =~= old_inodes);
                }
                return Ok(());
            },
        };
        proof {
            lemma_table_get(is, inode);
        }
        match self.find_inode(inode) {
            Some(j) => {
                proof {
                    assert(is[j as int].0 == inode);
                }
                let mut m = self.inode_mappings.remove(j);
                m.accessed_at = now;
                let ghost mv = m;
                self.inode_mappings.insert(j, m);
                proof {
                    assert(self.inode_mappings@ =~= old_list.update(j as int, mv));
                    assert(inode_pairs(self.inode_mappings@) =~= is.update(j as int, (is[j as int].0, mv)));
                    lemma_table_update(is, j as int, mv);
                    assert(self.inodes() == old_inodes.insert(inode, mv));
                    assert(self.inodes().dom() =~= old_inodes.dom());
                    assert forall|k: int| 0 <= k < self.inode_mappings@.len() implies
                        (#[trigger] self.inode_mappings@[k]).inode < self.next_inode
                        && keys_distinct(self.inode_mappings@[k].block_mappings@) by {
                        if k == j {
                            assert(old_list[k].inode == inode);
                        } else {
                            assert(self.inode_mappings@[k] == old_list[k]);
                        }
                    }
                    assert(paths_name_files(self.paths(), self.inodes()));
                }
            },
            None => {
                proof {
                    assert(!old_inodes.contains_key(inode)) by {
                        if old_inodes.contains_key(inode) {
                            let k = choose|k: int| 0 <= k < is.len() && is[k].0 == inode;
                            assert(old_list[k].inode == inode);
                        }
                    }
                }
            },
        }
        Ok(())
    }

    /// Frees a block of a shard. Blocks are not tracked one by one yet, so
    /// this changes nothing.
    fn deallocate_block(&self, _shard_id: u32, _block_id: u64) -> (r: Result<(), String>)
        ensures
            r is Ok,
    {
        Ok(())
    }

    /// Forgets the file at `file_path`: the path and the record it named,
    /// whose blocks are handed back. A path that names no file changes
    /// nothing.
    pub fn remove_file(&mut self, file_path: &str) -> (r: Result<(), String>)
        requires
            old(self).wf(),
        ensures
            r is Ok,
            final(self).wf(),
            final(self).paths() == old(self).paths().remove(file_path@),
            final(self).inodes() == if old(self).paths().contains_key(file_path@) {
                old(self).inodes().remove(old(self).paths()[file_path@])
            } else {
                old(self).inodes()
            },
            final(self).allocations() == old(self).allocations(),
            final(self).next_inode_view() == old(self).next_inode_view(),
            final(self).metadata() == old(self).metadata(),
    {
        let ghost ps = path_pairs(self.path_mappings@);
        let ghost is = inode_pairs(self.inode_mappings@);
        let ghost old_paths = self.paths();
        let ghost old_inodes = self.inodes();
        let ghost old_plist = self.path_mappings@;
        let ghost old_list = self.inode_mappings@;
        proof {
            lemma_table_get(ps, file_path@);
            self.lemma_wf_facts();
        }
        let i = match self.find_path(file_path) {
            Some(i) => i,
            None => {
                proof {
                    if old_paths.contains_key(file_path@) {
                        let j = choose|j: int| 0 <= j < ps.len() && ps[j].0 == file_path@;
                        assert(old_plist[j].0@ == file_path@);
                    }
                    assert(old_paths.remove(file_path@) =~= old_paths);
                }
                return Ok(());
            },
        };
        let (_p, inode) = self.path_mappings.remove(i);
        proof {
            assert(ps[i as int].0 == file_path@);
            assert(path_pairs(self.path_mappings@) =~= ps.remove(i as int));
            lemma_table_remove(ps, i as int);
            lemma_table_get(is, inode);
        }
        match self.find_inode(inode) {
            Some(j) => {
                let m = self.inode_mappings.remove(j);
                proof {
                    assert(is[j as int].0 == inode);
                    assert(inode_pairs(self.inode_mappings@) =~= is.remove(j as int));
                    lemma_table_remove(is, j as int);
                    assert forall|k: int| 0 <= k < self.inode_mappings@.len() implies
                        (#[trigger] self.inode_mappings@[k]).inode < self.next_inode
                        && keys_distinct(self.inode_mappings@[k].block_mappings@) by {
                        let k2 = if k < j { k } else { k + 1 };
                        assert(self.inode_mappings@[k] == old_list[k2]);
                    }
                }
                let mut b: usize = 0;
                while b < m.block_mappings.len()
                    invariant
                        b <= m.block_mappings@.len(),
                    decreases m.block_mappings.len() - b,
                {
                    let (_offset, mapping) = m.block_mappings[b];
                    let _ = self.deallocate_block(mapping.shard_id, mapping.block_id);
                    b += 1;
                }
            },
            None => {
                proof {
                    assert(!old_inodes.contains_key(inode)) by {
                        if old_inodes.contains_key(inode) {
                            let k = choose|k: int| 0 <= k < is.len() && is[k].0 == inode;
                            assert(old_list[k].inode == inode);
                        }
                    }
                }
            },
        }
        proof {
            let np = self.paths();
            let ni = self.inodes();
            assert(ni == old_inodes.remove(inode));
            assert forall|p: Seq<char>| np.contains_key(p) implies ni.contains_key(#[trigger] np[p]) by {
                assert(old_paths.contains_key(p) && p != file_path@);
                assert(old_paths[p] != old_paths[file_path@]);
            }
        }
        Ok(())
    }

    /// What the files of a volume add up to: regular files, directories,
    /// bytes and blocks.
    pub fn get_volume_stats(&self, volume_id: u128) -> (r: Result<VolumeStats, String>)
        requires
            stats_of(self.inode_list(), volume_id).2 <= u64::MAX,
            stats_of(self.inode_list(), volume_id).3 <= u64::MAX,
        ensures
            match r {
                Ok(st) => {
                    &&& st.volume_id == volume_id
                    &&& st.total_files == stats_of(self.inode_list(), volume_id).0
                    &&& st.total_directories == stats_of(self.inode_list(), volume_id).1
                    &&& st.total_size == stats_of(self.inode_list(), volume_id).2
                    &&& st.total_blocks == stats_of(self.inode_list(), volume_id).3
                },
                Err(_) => false,
            },
    {
        let ghost s = self.inode_mappings@;
        let mut files: u64 = 0;
        let mut dirs: u64 = 0;
        let mut size: u64 = 0;
        let mut blocks: u64 = 0;
        let mut i: usize = 0;
        while i < self.inode_mappings.len()
            invariant
                s == self.inode_mappings@,
                i <= s.len(),
                stats_of(s, volume_id).2 <= u64::MAX,
                stats_of(s, volume_id).3 <= u64::MAX,
                (files as nat, dirs as nat, size as nat, blocks as nat) == stats_of(s.subrange(0, i as int), volume_id),
            decreases s.len() - i,
        {
            proof {
                assert(s.subrange(0, i as int + 1).drop_last() =~= s.subrange(0, i as int));
                lemma_stats_prefix_bounded(s, volume_id, i as int + 1);
                lemma_stats_bounded(s.subrange(0, i as int + 1), volume_id);
            }
            let m = &self.inode_mappings[i];
            if m.volume_id == volume_id {
                match m.file_type {
                    VfsFileType::RegularFile => {
                        files += 1;
                    },
                    VfsFileType::Directory => {
                        dirs += 1;
                    },
                    _ => {},
                }
                size += m.size;
                blocks += m.block_mappings.len() as u64;
            }
            i += 1;
        }
        proof {
            assert(s.subrange(0, s.len() as int) =~= s);
        }
        Ok(VolumeStats { volume_id, total_files: files, total_directories: dirs, total_size: size, total_blocks: blocks })
    }
}

/// The file offset a block of a file starts at.
pub open spec fn span_offset(s: BlockSpan) -> nat {
    s.file_block_index as nat * VFS_BLOCK_SIZE as nat
}

proof fn lemma_spans_shape(offset: nat, length: nat, b: nat)
    requires
        offset + length >= 1,
        offset / 65536 <= b,
    ensures
        spans_from(offset, length, b).len() == if b <= (offset + length - 1) as nat / 65536 {
            ((offset + length - 1) as nat / 65536 + 1 - b) as nat
        } else {
            0
        },
        forall|i: int| 0 <= i < spans_from(offset, length, b).len() ==>
            #[trigger] spans_from(offset, length, b)[i] == span_at(offset, length, (b + i) as nat),
    decreases (offset + length - 1) as nat / 65536 + 1 - b,
{
    let eb = (offset + length - 1) as nat / 65536;
    if b <= eb {
        lemma_spans_shape(offset, length, b + 1);
        let s = spans_from(offset, length, b);
        assert forall|i: int| 0 <= i < s.len() implies #[trigger] s[i] == span_at(offset, length, (b + i) as nat) by {
            if i > 0 {
                assert(s[i] == spans_from(offset, length, b + 1)[i - 1]);
            }
        }
    }
}

/// The spans of a range: one for each block from its first to its last,
/// each starting inside the range and ending by its end.
proof fn lemma_range_spans(offset: nat, length: nat)
    requires
        offset + length >= 1,
        offset + length <= u64::MAX,
    ensures
        block_spans_spec(offset, length).len() == ((offset + length - 1) as nat / 65536 + 1 - offset / 65536),
        forall|i: int| 0 <= i < block_spans_spec(offset, length).len() ==> {
            let s = #[trigger] block_spans_spec(offset, length)[i];
            &&& s == span_at(offset, length, (offset / 65536 + i) as nat)
            &&& s.file_block_index == offset / 65536 + i
            &&& span_offset(s) + s.length <= offset + length
        },
{
    let sb = offset / 65536;
    let eb = (offset + length - 1) as nat / 65536;
    assert(sb <= eb + 1) by (nonlinear_arith)
        requires
            sb == offset / 65536,
            eb == (offset + length - 1) as nat / 65536,
            offset + length >= 1;
    lemma_spans_shape(offset, length, sb);
    assert(eb * 65536 <= offset + length - 1) by (nonlinear_arith)
        requires
            eb == (offset + length - 1) as nat / 65536,
            offset + length >= 1;
    assert(sb * 65536 + offset % 65536 == offset) by (nonlinear_arith)
        requires
            sb == offset / 65536;
    assert forall|i: int| 0 <= i < block_spans_spec(offset, length).len() implies {
        let s = #[trigger] block_spans_spec(offset, length)[i];
        &&& s == span_at(offset, length, (offset / 65536 + i) as nat)
        &&& s.file_block_index == offset / 65536 + i
        &&& span_offset(s) + s.length <= offset + length
    } by {
        let c: nat = (sb + i) as nat;
        assert(c <= eb);
        assert(c * 65536 <= eb * 65536) by (nonlinear_arith)
            requires
                c <= eb;
        assert(c > sb ==> c * 65536 >= offset + 1) by (nonlinear_arith)
            requires
                sb == offset / 65536;
        assert(c < eb ==> c * 65536 + 65536 <= eb * 65536) by (nonlinear_arith)
            requires
                c <= eb;
    }
}

/// How many of the spans, among the first `i`, fall on a block the file
/// has no mapping for yet.
pub open spec fn fresh_blocks(b: Map<u64, BlockMapping>, spans: Seq<BlockSpan>, i: int) -> nat
    decreases i,
{
    if i <= 0 {
        0
    } else {
        fresh_blocks(b, spans, i - 1) + if b.contains_key(span_offset(spans[i - 1]) as u64) { 0nat } else { 1nat }
    }
}

/// The free blocks of all shards.
pub open spec fn total_free(f: Seq<(u32, u64)>) -> nat
    decreases f.len(),
{
    if f.len() == 0 {
        0
    } else {
        total_free(f.drop_last()) + f.last().1 as nat
    }
}

/// The free counts after taking `k` blocks, each from the first shard that
/// has one.
pub open spec fn take_blocks(f: Seq<(u32, u64)>, k: nat) -> Seq<(u32, u64)>
    decreases k,
{
    if k == 0 {
        f
    } else {
        let g = take_blocks(f, (k - 1) as nat);
        match first_free_shard(g) {
            Some(i) => g.update(i, (g[i].0, (g[i].1 - 1) as u64)),
            None => g,
        }
    }
}

/// The shard the block taken after `k` others comes from.
pub open spec fn shard_taken(f: Seq<(u32, u64)>, k: nat) -> u32 {
    let g = take_blocks(f, k);
    g[first_free_shard(g).unwrap()].0
}

proof fn lemma_total_free_zero(f: Seq<(u32, u64)>)
    ensures
        total_free(f) == 0 <==> first_free_shard(f) is None,
    decreases f.len(),
{
    lemma_first_free(f, 0);
    lemma_total_free_all_zero(f);
}

proof fn lemma_total_free_all_zero(f: Seq<(u32, u64)>)
    ensures
        total_free(f) == 0 <==> forall|k: int| 0 <= k < f.len() ==> f[k].1 == 0,
    decreases f.len(),
{
    if f.len() > 0 {
        let g = f.drop_last();
        lemma_total_free_all_zero(g);
        if total_free(f) == 0 {
            assert forall|k: int| 0 <= k < f.len() implies f[k].1 == 0 by {
                if k < f.len() - 1 {
                    assert(g[k] == f[k]);
                }
            }
        }
        if forall|k: int| 0 <= k < f.len() ==> f[k].1 == 0 {
            assert forall|k: int| 0 <= k < g.len() implies g[k].1 == 0 by {
                assert(g[k] == f[k]);
            }
            assert(f[f.len() - 1].1 == 0);
        }
    }
}

proof fn lemma_total_free_dec(f: Seq<(u32, u64)>, i: int)
    requires
        0 <= i < f.len(),
        f[i].1 > 0,
    ensures
        total_free(f.update(i, (f[i].0, (f[i].1 - 1) as u64))) == total_free(f) - 1,
    decreases f.len(),
{
    let u = f.update(i, (f[i].0, (f[i].1 - 1) as u64));
    if i == f.len() - 1 {
        assert(u.drop_last() =~= f.drop_last());
    } else {
        lemma_total_free_dec(f.drop_last(), i);
        assert(u.drop_last() =~= f.drop_last().update(i, (f[i].0, (f[i].1 - 1) as u64)));
    }
}

proof fn lemma_take_blocks(f: Seq<(u32, u64)>, k: nat)
    requires
        k <= total_free(f),
    ensures
        total_free(take_blocks(f, k)) == total_free(f) - k,
        take_blocks(f, k).len() == f.len(),
    decreases k,
{
    if k > 0 {
        lemma_take_blocks(f, (k - 1) as nat);
        let g = take_blocks(f, (k - 1) as nat);
        lemma_total_free_zero(g);
        lemma_first_free(g, 0);
        let i = first_free_shard(g).unwrap();
        lemma_total_free_dec(g, i);
    }
}

/// A file record after a block was mapped at file offset `fo`: the block
/// is added, the file's size grows to the block's end where it ends past
/// it, and it was modified `now`.
pub open spec fn grown(m0: InodeMapping, m1: InodeMapping, fo: u64, bm: BlockMapping, now: i64) -> bool {
    &&& m1.inode == m0.inode
    &&& m1.volume_id == m0.volume_id
    &&& m1.path@ == m0.path@
    &&& m1.file_type == m0.file_type
    &&& m1.block_mappings@ == m0.block_mappings@.push((fo, bm))
    &&& m1.size == if fo + bm.length > m0.size { (fo + bm.length) as u64 } else { m0.size }
    &&& m1.created_at == m0.created_at
    &&& m1.modified_at == now
    &&& m1.accessed_at == m0.accessed_at
    &&& m1.permissions == m0.permissions
    &&& attrs_view(m1.extended_attributes@) == attrs_view(m0.extended_attributes@)
}

/// Where a file's blocks hold offset `file_offset`, if they do.
fn find_block(blocks: &Vec<(u64, BlockMapping)>, file_offset: u64) -> (r: Option<usize>)
    ensures
        match r {
            Some(k) => k < blocks@.len() && blocks@[k as int].0 == file_offset,
            None => forall|k: int| 0 <= k < blocks@.len() ==> blocks@[k].0 != file_offset,
        },
{
    let mut k: usize = 0;
    while k < blocks.len()
        invariant
            k <= blocks@.len(),
            forall|j: int| 0 <= j < k ==> blocks@[j].0 != file_offset,
        decreases blocks.len() - k,
    {
        if blocks[k].0 == file_offset {
            return Some(k);
        }
        k += 1;
    }
    None
}

impl FileMapper {
    /// The block that holds block `file_block_index` of a file: the one
    /// its record maps there, else a newly allocated block of the volume
    /// holding `length` bytes at `block_offset` (full where that is the
    /// whole block), which the record then maps there, its size growing to
    /// the block's end and its modification time set to `now`.
    fn get_or_allocate_block(
        &mut self,
        volume_id: u128,
        inode: u64,
        file_block_index: u64,
        block_offset: u64,
        length: u64,
        now: i64,
    ) -> (r: Result<BlockMapping, String>)
        requires
            old(self).wf(),
            file_block_index * VFS_BLOCK_SIZE + length <= u64::MAX,
        ensures
            final(self).wf(),
            final(self).paths() == old(self).paths(),
            final(self).next_inode_view() == old(self).next_inode_view(),
            final(self).metadata() == old(self).metadata(),
            ({
                let fo = (file_block_index * VFS_BLOCK_SIZE) as u64;
                let i0 = old(self).inodes();
                let present = i0.contains_key(inode) && blocks_of(i0[inode]).contains_key(fo);
                &&& present ==> {
                    &&& r == Ok::<BlockMapping, String>(blocks_of(i0[inode])[fo])
                    &&& final(self).inodes() == i0
                    &&& final(self).allocations() == old(self).allocations()
                }
                &&& !present ==> {
                    &&& allocated(old(self).allocations(), final(self).allocations(), volume_id, match r {
                        Ok(m) => Ok::<(u32, u64), String>((m.shard_id, m.block_id)),
                        Err(e) => Err(e),
                    })
                    &&& match r {
                        Ok(m) => {
                            &&& m.block_offset == block_offset
                            &&& m.length == length
                            &&& m.is_full_block == (block_offset == 0 && length == VFS_BLOCK_SIZE)
                            &&& final(self).inodes().dom() == i0.dom()
                            &&& final(self).inodes().remove(inode) == i0.remove(inode)
                            &&& i0.contains_key(inode) ==> grown(i0[inode], final(self).inodes()[inode], fo, m, now)
                        },
                        Err(_) => final(self).inodes() == i0,
                    }
                }
            }),
    {
        let file_offset = file_block_index * VFS_BLOCK_SIZE;
        let ghost is = inode_pairs(self.inode_mappings@);
        let ghost i0 = self.inodes();
        proof {
            lemma_table_get(is, inode);
            self.lemma_wf_facts();
        }
        let found = self.find_inode(inode);
        match found {
            Some(j) => {
                proof {
                    assert(is[j as int].0 == inode);
                    assert(i0[inode] == self.inode_mappings@[j as int]);
                    lemma_table_get(self.inode_mappings@[j as int].block_mappings@, file_offset);
                }
                match find_block(&self.inode_mappings[j].block_mappings, file_offset) {
                    Some(k) => {
                        return Ok(self.inode_mappings[j].block_mappings[k].1);
                    },
                    None => {},
                }
            },
            None => {
                proof {
                    if i0.contains_key(inode) {
                        let k = choose|k: int| 0 <= k < is.len() && is[k].0 == inode;
                        assert(self.inode_mappings@[k].inode == inode);
                    }
                }
            },
        }
        let ghost list0 = self.inode_mappings@;
        let (shard_id, block_id) = match self.allocate_new_block(volume_id) {
            Ok(sb) => sb,
            Err(e) => {
                return Err(e);
            },
        };
        let mapping = BlockMapping {
            shard_id,
            block_id,
            block_offset,
            length,
            is_full_block: block_offset == 0 && length == VFS_BLOCK_SIZE,
        };
        match found {
            Some(j) => {
                let mut m = self.inode_mappings.remove(j);
                let ghost m0 = m;
                proof {
                    assert(m0 == list0[j as int]);
                    assert forall|k: int| 0 <= k < m0.block_mappings@.len() implies m0.block_mappings@[k].0 != file_offset by {
                        if m0.block_mappings@[k].0 == file_offset {
                            lemma_table_get(m0.block_mappings@, file_offset);
                        }
                    }
                    lemma_table_push(m0.block_mappings@, file_offset, mapping);
                }
                m.block_mappings.push((file_offset, mapping));
                m.modified_at = now;
                let new_end = file_offset + length;
                if new_end > m.size {
                    m.size = new_end;
                }
                let ghost m1 = m;
                self.inode_mappings.insert(j, m);
                proof {
                    assert(self.inode_mappings@ =~= list0.update(j as int, m1));
                    assert(inode_pairs(self.inode_mappings@) =~= is.update(j as int, (is[j as int].0, m1)));
                    lemma_table_update(is, j as int, m1);
                    assert(self.inodes() == i0.insert(inode, m1));
                    assert(self.inodes().dom() =~= i0.dom());
                    assert(self.inodes().remove(inode) =~= i0.remove(inode));
                    assert forall|k: int| 0 <= k < self.inode_mappings@.len() implies
                        (#[trigger] self.inode_mappings@[k]).inode < self.next_inode
                        && keys_distinct(self.inode_mappings@[k].block_mappings@) by {
                        if k != j {
                            assert(self.inode_mappings@[k] == list0[k]);
                        }
                    }
                    assert(paths_name_files(self.paths(), self.inodes()));
                }
            },
            None => {},
        }
        Ok(mapping)
    }
}

/// The file offset span `i` of a range starts at, as a block key.
pub open spec fn span_key(spans: Seq<BlockSpan>, i: int) -> u64 {
    span_offset(spans[i]) as u64
}

/// The size of a file after the first `i` spans were mapped: each newly
/// mapped block that ends past the size extends it.
pub open spec fn size_after(size: nat, b: Map<u64, BlockMapping>, spans: Seq<BlockSpan>, i: int) -> nat
    decreases i,
{
    if i <= 0 {
        size
    } else {
        let s = size_after(size, b, spans, i - 1);
        let end: nat = span_offset(spans[i - 1]) + spans[i - 1].length as nat;
        if !b.contains_key(span_key(spans, i - 1)) && end > s {
            end
        } else {
            s
        }
    }
}

/// The inode a path gets: the one it names, else the next new one.
pub open spec fn target_inode(paths: Map<Seq<char>, u64>, next: u64, path: Seq<char>) -> u64 {
    if paths.contains_key(path) { paths[path] } else { next }
}

/// The blocks the file at `path` has: none for a path that names no file.
pub open spec fn blocks_at(paths: Map<Seq<char>, u64>, inodes: Map<u64, InodeMapping>, path: Seq<char>) -> Map<u64, BlockMapping> {
    if paths.contains_key(path) { blocks_of(inodes[paths[path]]) } else { Map::empty() }
}

/// Whether mapping a range can succeed: every block of it is mapped
/// already, or the volume has as many free blocks as it needs.
pub open spec fn range_mappable(a0: Map<u128, VolumeBlockAllocation>, volume_id: u128, need: nat) -> bool {
    need == 0 || (a0.contains_key(volume_id) && need <= total_free(a0[volume_id].free_blocks_per_shard@))
}

proof fn lemma_fresh_mono(b: Map<u64, BlockMapping>, spans: Seq<BlockSpan>, i: int, j: int)
    requires
        0 <= i <= j,
    ensures
        fresh_blocks(b, spans, i) <= fresh_blocks(b, spans, j),
    decreases j - i,
{
    if i < j {
        lemma_fresh_mono(b, spans, i, j - 1);
    }
}

impl FileMapper {
    /// Maps `length` bytes of the file at `file_path`, from `offset`, to
    /// the blocks that hold them, one per block of the range: the block the
    /// file maps there already, else a new one of the volume (see
    /// `get_or_allocate_block`). The path gets a new empty file where it
    /// names none. Fails where the volume is unknown or out of free blocks
    /// before every block is mapped; the blocks mapped up to then stay.
    #[verifier::spinoff_prover]
    #[verifier::rlimit(40)]
    pub fn map_file_to_blocks(
        &mut self,
        volume_id: u128,
        file_path: &str,
        offset: u64,
        length: u64,
        now: i64,
    ) -> (r: Result<Vec<BlockMapping>, String>)
        requires
            old(self).wf(),
            offset + length >= 1,
            offset + length <= u64::MAX,
            !old(self).paths().contains_key(file_path@) ==> old(self).next_inode_view() < u64::MAX,
        ensures
            final(self).wf(),
            final(self).metadata() == old(self).metadata(),
            ({
                let p0 = old(self).paths();
                let i0 = old(self).inodes();
                let a0 = old(self).allocations();
                let n = target_inode(p0, old(self).next_inode_view(), file_path@);
                let b0 = blocks_at(p0, i0, file_path@);
                let spans = block_spans_spec(offset as nat, length as nat);
                let need = fresh_blocks(b0, spans, spans.len() as int);
                &&& final(self).paths() == p0.insert(file_path@, n)
                &&& final(self).next_inode_view() == if p0.contains_key(file_path@) {
                    old(self).next_inode_view()
                } else {
                    (old(self).next_inode_view() + 1) as u64
                }
                &&& final(self).inodes().dom() == i0.dom().insert(n)
                &&& final(self).inodes().remove(n) == i0.remove(n)
                &&& (r is Ok <==> range_mappable(a0, volume_id, need))
                &&& match r {
                    Ok(ms) => {
                        let m1 = final(self).inodes()[n];
                        let b1 = blocks_of(m1);
                        let f0 = a0[volume_id].free_blocks_per_shard@;
                        &&& ms@.len() == spans.len()
                        &&& forall|i: int| 0 <= i < spans.len() ==> b1.contains_key(span_key(spans, i))
                            && b1[span_key(spans, i)] == #[trigger] ms@[i]
                        &&& forall|i: int| 0 <= i < spans.len() && b0.contains_key(span_key(spans, i))
                            ==> #[trigger] ms@[i] == b0[span_key(spans, i)]
                        &&& forall|i: int| 0 <= i < spans.len() && !b0.contains_key(span_key(spans, i)) ==> {
                            &&& (#[trigger] ms@[i]).block_offset == spans[i].offset_in_block
                            &&& ms@[i].length == spans[i].length
                            &&& ms@[i].is_full_block == (spans[i].offset_in_block == 0 && spans[i].length == VFS_BLOCK_SIZE)
                            &&& ms@[i].shard_id == shard_taken(f0, fresh_blocks(b0, spans, i))
                            &&& ms@[i].block_id < MAX_BLOCKS_PER_SHARD
                        }
                        &&& forall|k: u64| (forall|i: int| 0 <= i < spans.len() ==> k != span_key(spans, i))
                            ==> (#[trigger] b1.contains_key(k) == b0.contains_key(k))
                                && (b0.contains_key(k) ==> b1[k] == b0[k])
                        &&& m1.size == size_after(if p0.contains_key(file_path@) { i0[n].size as nat } else { 0 }, b0, spans, spans.len() as int)
                        &&& need == 0 ==> final(self).allocations() == a0
                        &&& need > 0 ==> {
                            &&& final(self).allocations().remove(volume_id) == a0.remove(volume_id)
                            &&& final(self).allocations().contains_key(volume_id)
                            &&& final(self).allocations()[volume_id].free_blocks_per_shard@ == take_blocks(f0, need)
                        }
                    },
                    Err(e) => {
                        &&& e@ == if a0.contains_key(volume_id) { no_free_blocks_text(volume_id) } else { volume_not_found_text(volume_id) }
                        &&& final(self).allocations().dom() == a0.dom()
                        &&& final(self).allocations().remove(volume_id) == a0.remove(volume_id)
                    },
                }
            }),
    {
        let ghost p0 = self.paths();
        let ghost i0 = self.inodes();
        let ghost a0 = self.allocations();
        let ghost existed = p0.contains_key(file_path@);
        proof {
            self.lemma_wf_facts();
        }
        let inode = match self.get_or_create_inode(volume_id, file_path, now) {
            Ok(n) => n,
            Err(e) => {
                return Err(e);
            },
        };
        let ghost i1 = self.inodes();
        let ghost rec1 = i1[inode];
        let ghost b0 = blocks_at(p0, i0, file_path@);
        let ghost spans = block_spans_spec(offset as nat, length as nat);
        let ghost f0 = a0[volume_id].free_blocks_per_shard@;
        proof {
            assert(i1.contains_key(inode));
            if !existed {
                assert(blocks_of(rec1) =~= Map::<u64, BlockMapping>::empty());
            }
            assert(b0 == blocks_of(rec1));
            lemma_range_spans(offset as nat, length as nat);
            assert(i1.dom() =~= i0.dom().insert(inode));
            assert(i1.remove(inode) =~= i0.remove(inode));
        }
        let spans_v = map_range_to_blocks(offset, length);
        let mut ms: Vec<BlockMapping> = Vec::new();
        let mut i: usize = 0;
        while i < spans_v.len()
            invariant
                self.wf(),
                spans_v@ == spans,
                spans == block_spans_spec(offset as nat, length as nat),
                offset + length >= 1,
                offset + length <= u64::MAX,
                forall|j: int| 0 <= j < spans.len() ==> {
                    let s = #[trigger] spans[j];
                    &&& s.file_block_index == offset / 65536 + j
                    &&& span_offset(s) + s.length <= offset + length
                },
                i <= spans.len(),
                ms@.len() == i,
                self.paths() == p0.insert(file_path@, inode),
                self.metadata() == old(self).metadata(),
                self.next_inode_view() == if existed { old(self).next_inode_view() } else { (old(self).next_inode_view() + 1) as u64 },
                self.inodes().dom() == i1.dom(),
                self.inodes().remove(inode) == i1.remove(inode),
                i1.contains_key(inode),
                inode == target_inode(p0, old(self).next_inode_view(), file_path@),
                existed == p0.contains_key(file_path@),
                p0 == old(self).paths(),
                i0 == old(self).inodes(),
                a0 == old(self).allocations(),
                b0 == blocks_at(p0, i0, file_path@),
                !existed ==> old(self).next_inode_view() < u64::MAX,
                i1.dom() == i0.dom().insert(inode),
                i1.remove(inode) == i0.remove(inode),
                rec1.size == if existed { i0[inode].size } else { 0 },
                b0 == blocks_of(rec1),
                rec1 == i1[inode],
                forall|j: int| 0 <= j < i ==> blocks_of(self.inodes()[inode]).contains_key(#[trigger] span_key(spans, j)),
                forall|j: int| 0 <= j < i ==> blocks_of(self.inodes()[inode])[span_key(spans, j)] == #[trigger] ms@[j],
                forall|j: int| 0 <= j < i && b0.contains_key(span_key(spans, j)) ==> #[trigger] ms@[j] == b0[span_key(spans, j)],
                forall|j: int| 0 <= j < i && !b0.contains_key(span_key(spans, j)) ==> {
                    &&& (#[trigger] ms@[j]).block_offset == spans[j].offset_in_block
                    &&& ms@[j].length == spans[j].length
                    &&& ms@[j].is_full_block == (spans[j].offset_in_block == 0 && spans[j].length == VFS_BLOCK_SIZE)
                    &&& ms@[j].shard_id == shard_taken(f0, fresh_blocks(b0, spans, j))
                    &&& ms@[j].block_id < MAX_BLOCKS_PER_SHARD
                },
                forall|k: u64| (forall|j: int| 0 <= j < i ==> k != span_key(spans, j))
                    ==> (#[trigger] blocks_of(self.inodes()[inode]).contains_key(k) == b0.contains_key(k))
                        && (b0.contains_key(k) ==> blocks_of(self.inodes()[inode])[k] == b0[k]),
                self.inodes()[inode].size == size_after(rec1.size as nat, b0, spans, i as int),
                f0 == a0[volume_id].free_blocks_per_shard@,
                fresh_blocks(b0, spans, i as int) == 0 ==> self.allocations() == a0,
                fresh_blocks(b0, spans, i as int) > 0 ==> {
                    &&& a0.contains_key(volume_id)
                    &&& self.allocations().remove(volume_id) == a0.remove(volume_id)
                    &&& self.allocations().contains_key(volume_id)
                    &&& self.allocations()[volume_id].free_blocks_per_shard@ == take_blocks(f0, fresh_blocks(b0, spans, i as int))
                    &&& fresh_blocks(b0, spans, i as int) <= total_free(f0)
                },
            decreases spans_v.len() - i,
        {
            let span = spans_v[i];
            let ghost ms0 = ms@;
            let ghost cur0 = self.inodes()[inode];
            let ghost alloc0 = self.allocations();
            let ghost fi = fresh_blocks(b0, spans, i as int);
            let ghost key = span_key(spans, i as int);
            proof {
                assert(spans[i as int] == span);
                assert(blocks_of(cur0).contains_key(key) == b0.contains_key(key)) by {
                    assert forall|j: int| 0 <= j < i implies key != span_key(spans, j) by {
                        assert(spans[j].file_block_index == offset / 65536 + j);
                    }
                }
                lemma_fresh_mono(b0, spans, i as int + 1, spans.len() as int);
            }
            let m = match self.get_or_allocate_block(volume_id, inode, span.file_block_index, span.offset_in_block, span.length, now) {
                Ok(m) => m,
                Err(e) => {
                    proof {
                        let g = take_blocks(f0, fi);
                        if fi > 0 {
                            lemma_take_blocks(f0, fi);
                            lemma_total_free_zero(g);
                        } else {
                            if a0.contains_key(volume_id) {
                                lemma_total_free_zero(f0);
                            }
                        }
                        assert(self.allocations().dom() =~= a0.dom());
                        assert(self.allocations().remove(volume_id) =~= a0.remove(volume_id));
                    }
                    return Err(e);
                },
            };
            proof {
                let cur1 = self.inodes()[inode];
                let fo = (span.file_block_index * VFS_BLOCK_SIZE) as u64;
                assert(fo == key);
                if b0.contains_key(key) {
                    assert(fresh_blocks(b0, spans, i as int + 1) == fi);
                    assert(blocks_of(cur0).contains_key(fo));
                    assert(cur1 == cur0);
                    assert(blocks_of(cur1).contains_key(key));
                } else {
                    assert(fresh_blocks(b0, spans, i as int + 1) == fi + 1);
                    assert(cur0.block_mappings@.push((key, m)).drop_last() =~= cur0.block_mappings@);
                    assert(blocks_of(cur1) == blocks_of(cur0).insert(key, m));
                    let g = take_blocks(f0, fi);
                    if fi > 0 {
                        lemma_take_blocks(f0, fi);
                    }
                    lemma_total_free_zero(g);
                    lemma_first_free(g, 0);
                    lemma_take_blocks(f0, fi);
                    assert(self.allocations().remove(volume_id) =~= a0.remove(volume_id));
                }
            }
            ms.push(m);
            i += 1;
            proof {
                let cur = self.inodes()[inode];
                let b1 = blocks_of(cur);
                assert forall|j: int| 0 <= j < i implies #[trigger] b1.contains_key(span_key(spans, j)) && b1[span_key(spans, j)] == ms@[j] by {
                    if j < i - 1 {
                        assert(spans[j].file_block_index == offset / 65536 + j);
                        assert(spans[i - 1].file_block_index == offset / 65536 + (i - 1));
                        assert(span_offset(spans[j]) + spans[j].length <= offset + length);
                        assert(span_offset(spans[i - 1]) + spans[i - 1].length <= offset + length);
                        assert(span_key(spans, j) != key);
                        assert(ms0[j] == ms@[j]);
                        assert(blocks_of(cur0).contains_key(span_key(spans, j)));
                        assert(blocks_of(cur0)[span_key(spans, j)] == ms0[j]);
                    }
                }
                assert forall|k: u64| (forall|j: int| 0 <= j < i ==> k != span_key(spans, j)) implies
                    (#[trigger] b1.contains_key(k) == b0.contains_key(k)) && (b0.contains_key(k) ==> b1[k] == b0[k]) by {
                    assert(k != span_key(spans, i - 1));
                    assert(forall|j: int| 0 <= j < i - 1 ==> k != span_key(spans, j));
                    assert(blocks_of(cur0).contains_key(k) == b0.contains_key(k));
                }
            }
        }
        proof {
            let need = fresh_blocks(b0, spans, spans.len() as int);
            let b1 = blocks_of(self.inodes()[inode]);
            assert(ms@.len() == spans.len());
            assert forall|j: int| 0 <= j < spans.len() implies b1.contains_key(span_key(spans, j))
                && b1[span_key(spans, j)] == #[trigger] ms@[j] by {
                assert(b1.contains_key(span_key(spans, j)));
            }
            assert(self.inodes().dom() =~= i0.dom().insert(inode));
            assert(self.inodes().remove(inode) =~= i0.remove(inode));
            if !existed {
                assert(rec1.size == 0);
            }
        }
        Ok(ms)
    }
}

/// A range whose every block the file maps already needs no new block:
/// mapping it again succeeds whatever the volume's free blocks, and
/// (by `map_file_to_blocks`) hands back the file's own mappings and
/// leaves the allocations as they were.
pub proof fn mapped_range_needs_no_block(b: Map<u64, BlockMapping>, offset: u64, length: u64)
    requires
        forall|i: int| 0 <= i < block_spans_spec(offset as nat, length as nat).len()
            ==> b.contains_key(#[trigger] span_key(block_spans_spec(offset as nat, length as nat), i)),
    ensures
        fresh_blocks(b, block_spans_spec(offset as nat, length as nat), block_spans_spec(offset as nat, length as nat).len() as int) == 0,
        forall|a: Map<u128, VolumeBlockAllocation>, v: u128|
            #[trigger] range_mappable(a, v, fresh_blocks(b, block_spans_spec(offset as nat, length as nat),
                block_spans_spec(offset as nat, length as nat).len() as int)),
{
    let spans = block_spans_spec(offset as nat, length as nat);
    lemma_fresh_zero(b, spans, spans.len() as int);
}

proof fn lemma_fresh_zero(b: Map<u64, BlockMapping>, spans: Seq<BlockSpan>, i: int)
    requires
        0 <= i <= spans.len(),
        forall|j: int| 0 <= j < spans.len() ==> b.contains_key(#[trigger] span_key(spans, j)),
    ensures
        fresh_blocks(b, spans, i) == 0,
    decreases i,
{
    if i > 0 {
        lemma_fresh_zero(b, spans, i - 1);
        assert(b.contains_key(span_key(spans, i - 1)));
    }
}

/// The lengths of the blocks a write gets, span by span: the length of
/// the mapping the file has there already, else the span's own.
pub open spec fn mapped_lengths(b: Map<u64, BlockMapping>, spans: Seq<BlockSpan>) -> Seq<u64> {
    Seq::new(spans.len(), |i: int| if b.contains_key(span_key(spans, i)) { b[span_key(spans, i)].length } else { spans[i].length })
}

impl FileMapper {
    /// The lengths of the blocks that mapping `length` bytes at `offset`
    /// of the file at `file_path` would hand out, span by span.
    pub fn planned_lengths(&self, file_path: &str, offset: u64, length: u64) -> (r: Vec<u64>)
        requires
            self.wf(),
            offset + length >= 1,
            offset + length <= u64::MAX,
        ensures
            r@ == mapped_lengths(blocks_at(self.paths(), self.inodes(), file_path@), block_spans_spec(offset as nat, length as nat)),
    {
        let ghost b0 = blocks_at(self.paths(), self.inodes(), file_path@);
        let ghost ps = path_pairs(self.path_mappings@);
        let ghost is = inode_pairs(self.inode_mappings@);
        proof {
            lemma_table_get(ps, file_path@);
            self.lemma_wf_facts();
        }
        let found: Option<usize> = match self.find_path(file_path) {
            Some(i) => {
                let n = self.path_mappings[i].1;
                proof {
                    assert(ps[i as int].0 == file_path@);
                    lemma_table_get(is, n);
                }
                match self.find_inode(n) {
                    Some(j) => {
                        proof {
                            assert(is[j as int].0 == n);
                        }
                        Some(j)
                    },
                    None => {
                        proof {
                            assert(self.inodes().contains_key(n));
                            let k = choose|k: int| 0 <= k < is.len() && is[k].0 == n;
                            assert(self.inode_mappings@[k].inode == n);
                        }
                        None
                    },
                }
            },
            None => {
                proof {
                    if self.paths().contains_key(file_path@) {
                        let k = choose|k: int| 0 <= k < ps.len() && ps[k].0 == file_path@;
                        assert(self.path_mappings@[k].0@ == file_path@);
                    }
                    assert(b0 =~= Map::<u64, BlockMapping>::empty());
                }
                None
            },
        };
        let spans = map_range_to_blocks(offset, length);
        let ghost sv = spans@;
        proof {
            lemma_range_spans(offset as nat, length as nat);
        }
        let mut r: Vec<u64> = Vec::new();
        let mut i: usize = 0;
        while i < spans.len()
            invariant
                i <= spans@.len(),
                sv == spans@,
                sv == block_spans_spec(offset as nat, length as nat),
                offset + length <= u64::MAX,
                forall|t: int| 0 <= t < sv.len() ==> span_offset(#[trigger] sv[t]) + sv[t].length <= offset + length,
                match found {
                    Some(j) => j < self.inode_mappings@.len() && b0 == blocks_of(self.inode_mappings@[j as int])
                        && keys_distinct(self.inode_mappings@[j as int].block_mappings@),
                    None => b0 == Map::<u64, BlockMapping>::empty(),
                },
                r@ == mapped_lengths(b0, sv).take(i as int),
            decreases spans.len() - i,
        {
            let s = spans[i];
            let key = s.file_block_index * VFS_BLOCK_SIZE;
            proof {
                assert(span_offset(sv[i as int]) + sv[i as int].length <= offset + length);
                assert(key == span_key(sv, i as int));
            }
            let len = match found {
                Some(j) => {
                    proof {
                        lemma_table_get(self.inode_mappings@[j as int].block_mappings@, key);
                    }
                    match find_block(&self.inode_mappings[j].block_mappings, key) {
                        Some(k) => self.inode_mappings[j].block_mappings[k].1.length,
                        None => s.length,
                    }
                },
                None => s.length,
            };
            r.push(len);
            i += 1;
            assert(r@ =~= mapped_lengths(b0, sv).take(i as int));
        }
        assert(mapped_lengths(b0, sv).take(sv.len() as int) =~= mapped_lengths(b0, sv));
        r
    }
}

} // verus!
