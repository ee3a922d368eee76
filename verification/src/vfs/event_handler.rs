//! File-system events of the volume layer and what processing one of them
//! reports: bytes and blocks touched and whether replication was started.
//! The handlers that touch storage run in the caller.
use vstd::prelude::*;
use super::VFS_BLOCK_SIZE;
use super::file_mapping::{
    block_spans_spec, blocks_at, blocks_of, mapped_lengths, span_key, target_inode, BlockMapping, FileMapper,
};
use super::replication::ReplicationManager;

verus! {

/// New times of a file, in milliseconds since the Unix epoch.
#[derive(Clone, Copy, Debug)]
pub struct FileTimes {
    pub access_time: Option<i64>,
    pub modify_time: Option<i64>,
    pub change_time: Option<i64>,
}

/// An event in a volume's file system.
#[derive(Debug)]
#[allow(inconsistent_fields)]
pub enum VfsEvent {
    FileCreated { volume_id: u128, path: String, initial_size: u64, permissions: u32 },
    FileWritten { volume_id: u128, path: String, offset: u64, data: Vec<u8>, sync_required: bool },
    FileRead { volume_id: u128, path: String, offset: u64, length: u64 },
    FileTruncated { volume_id: u128, path: String, new_size: u64 },
    FileDeleted { volume_id: u128, path: String },
    FileRenamed { volume_id: u128, old_path: String, new_path: String },
    DirectoryCreated { volume_id: u128, path: String, permissions: u32 },
    DirectoryDeleted { volume_id: u128, path: String },
    AttributesChanged {
        volume_id: u128,
        path: String,
        new_permissions: Option<u32>,
        new_owner: Option<(u32, u32)>,
        new_times: Option<FileTimes>,
    },
    ExtendedAttributesChanged { volume_id: u128, path: String, attribute_name: String, new_value: Option<Vec<u8>> },
    SyncRequested { volume_id: u128, path: Option<String> },
}

/// What processing an event reports.  `latency_us` is in microseconds.
#[derive(Debug)]
pub struct EventProcessingResult {
    pub success: bool,
    pub latency_us: u64,
    pub bytes_processed: u64,
    pub blocks_affected: u32,
    pub replication_triggered: bool,
    pub error_message: Option<String>,
}

/// The 64 KiB blocks that `len` bytes written at `offset` touch, from the
/// block of the first byte to the block of the last, as a 32-bit count.
pub open spec fn blocks_touched(offset: nat, len: nat) -> u32 {
    if len == 0 {
        0
    } else {
        ((offset + len - 1) as int / (VFS_BLOCK_SIZE as int) - (offset as int) / (VFS_BLOCK_SIZE as int) + 1) as u32
    }
}

/// Bytes an event reports as processed when its handler succeeds: the data
/// of a write, the length of a read, none otherwise.
pub open spec fn event_bytes(e: VfsEvent) -> u64 {
    match e {
        VfsEvent::FileWritten { data, .. } => data@.len() as u64,
        VfsEvent::FileRead { length, .. } => length,
        _ => 0,
    }
}

/// The report for an event whose handler ended with `outcome`: on success
/// the bytes processed, and for a write its blocks and the replication it
/// started; on failure nothing processed and the error text.
pub open spec fn event_report(e: VfsEvent, outcome: Result<(), String>, latency_us: u64, r: EventProcessingResult) -> bool {
    &&& r.latency_us == latency_us
    &&& match outcome {
        Ok(_) => {
            &&& r.success
            &&& r.bytes_processed == event_bytes(e)
            &&& r.blocks_affected == match e {
                VfsEvent::FileWritten { offset, data, .. } => blocks_touched(offset as nat, data@.len()),
                _ => 0u32,
            }
            &&& r.replication_triggered == e is FileWritten
            &&& r.error_message is None
        },
        Err(m) => {
            &&& !r.success
            &&& r.bytes_processed == 0
            &&& r.blocks_affected == 0
            &&& !r.replication_triggered
            &&& r.error_message == Some(m)
        },
    }
}

/// What processing `event` reports, given how its handler ended and how
/// long processing took.
pub fn process_event_result(event: &VfsEvent, outcome: Result<(), String>, latency_us: u64) -> (r: EventProcessingResult)
    requires
        event matches VfsEvent::FileWritten { offset, data, .. } ==> offset + data@.len() <= u64::MAX,
    ensures
        event_report(*event, outcome, latency_us, r),
{
    match outcome {
        Ok(()) => {
            let (bytes, blocks, replicated): (u64, u32, bool) = match event {
                VfsEvent::FileWritten { offset, data, .. } => {
                    let n = data.len() as u64;
                    let blocks: u32 = if n == 0 {
                        0
                    } else {
                        let first = *offset / VFS_BLOCK_SIZE;
                        let last = (*offset + n - 1) / VFS_BLOCK_SIZE;
                        assert(first <= last) by (nonlinear_arith)
                            requires first == *offset / 65536, last == (*offset + n - 1) / 65536, n >= 1;
                        (last - first + 1) as u32
                    };
                    (n, blocks, true)
                },
                VfsEvent::FileRead { length, .. } => (*length, 0, false),
                _ => (0, 0, false),
            };
            EventProcessingResult {
                success: true,
                latency_us,
                bytes_processed: bytes,
                blocks_affected: blocks,
                replication_triggered: replicated,
                error_message: None,
            }
        },
        Err(m) => EventProcessingResult {
            success: false,
            latency_us,
            bytes_processed: 0,
            blocks_affected: 0,
            replication_triggered: false,
            error_message: Some(m),
        },
    }
}

/// The slices of the written data that go to each mapped block, in order:
/// each starts where the previous mapping's length ended and stops at the
/// data's end.
pub open spec fn write_slices(lengths: Seq<u64>, data_len: nat) -> Seq<(nat, nat)>
    decreases lengths.len(),
{
    if lengths.len() == 0 {
        Seq::empty()
    } else {
        let prev = write_slices(lengths.drop_last(), data_len);
        let start = lengths_total(lengths.drop_last());
        let end = if start + lengths.last() <= data_len { start + lengths.last() } else { data_len as int };
        prev.push((start, end as nat))
    }
}

/// Sum of mapping lengths.
pub open spec fn lengths_total(lengths: Seq<u64>) -> nat
    decreases lengths.len(),
{
    if lengths.len() == 0 { 0 } else { (lengths_total(lengths.drop_last()) + lengths.last()) as nat }
}

/// Each mapping's slice starts within the data (as slicing requires).
pub open spec fn slices_in_range(lengths: Seq<u64>, data_len: nat) -> bool {
    forall|i: int| 0 <= i < lengths.len() ==> lengths_total(#[trigger] lengths.take(i)) <= data_len
}

proof fn lemma_slices_len(lens: Seq<u64>, dl: nat)
    ensures
        write_slices(lens, dl).len() == lens.len(),
    decreases lens.len(),
{
    if lens.len() > 0 {
        lemma_slices_len(lens.drop_last(), dl);
    }
}

proof fn lemma_total_prefix(lens: Seq<u64>, i: int)
    requires
        0 <= i <= lens.len(),
    ensures
        lengths_total(lens.take(i)) <= lengths_total(lens),
    decreases lens.len() - i,
{
    if i < lens.len() {
        lemma_total_prefix(lens, i + 1);
        assert(lens.take(i + 1).drop_last() =~= lens.take(i));
    } else {
        assert(lens.take(i) =~= lens);
    }
}

/// The byte ranges of `data_len` bytes of written data that go to each of
/// `mappings`, as a file write hands them to storage.
pub fn block_write_slices(mappings: &Vec<BlockMapping>, data_len: usize) -> (r: Vec<(usize, usize)>)
    requires
        slices_in_range(mappings@.map_values(|m: BlockMapping| m.length), data_len as nat),
        lengths_total(mappings@.map_values(|m: BlockMapping| m.length)) <= usize::MAX,
    ensures
        r@.len() == mappings@.len(),
        forall|i: int| 0 <= i < r@.len() ==> (#[trigger] r@[i]).0 as nat == write_slices(
            mappings@.map_values(|m: BlockMapping| m.length), data_len as nat)[i].0
            && r@[i].1 as nat == write_slices(mappings@.map_values(|m: BlockMapping| m.length), data_len as nat)[i].1,
{
    let ghost lens = mappings@.map_values(|m: BlockMapping| m.length);
    let mut r: Vec<(usize, usize)> = Vec::new();
    let mut current: usize = 0;
    let mut i: usize = 0;
    assert(lens.take(0) =~= Seq::<u64>::empty());
    while i < mappings.len()
        invariant
            i <= mappings@.len(),
            lens == mappings@.map_values(|m: BlockMapping| m.length),
            slices_in_range(lens, data_len as nat),
            lengths_total(lens) <= usize::MAX,
            current == lengths_total(lens.take(i as int)),
            r@.len() == i,
            forall|t: int| 0 <= t < i ==> (#[trigger] r@[t]).0 as nat == write_slices(lens.take(i as int), data_len as nat)[t].0
                && r@[t].1 as nat == write_slices(lens.take(i as int), data_len as nat)[t].1,
        decreases mappings.len() - i,
    {
        let ghost pre = lens.take(i as int);
        let ghost post = lens.take(i + 1);
        assert(post.drop_last() =~= pre);
        assert(post.last() == mappings@[i as int].length);
        assert(lengths_total(lens.take(i as int)) <= data_len);
        proof {
            lemma_total_prefix(lens, i as int + 1);
        }
        let len = mappings[i].length as usize;
        let next = current + len;
        let end: usize = if next <= data_len { next } else { data_len };
        let ghost r0 = r@;
        r.push((current, end));
        proof {
            lemma_slices_len(pre, data_len as nat);
            assert(write_slices(post, data_len as nat) == write_slices(pre, data_len as nat).push(
                (lengths_total(pre), (if lengths_total(pre) + post.last() <= data_len { lengths_total(pre) + post.last() } else { data_len as int }) as nat)));
            assert forall|t: int| 0 <= t < i + 1 implies (#[trigger] r@[t]).0 as nat == write_slices(post, data_len as nat)[t].0
                && r@[t].1 as nat == write_slices(post, data_len as nat)[t].1 by {
                if t < i {
                    assert(r@[t] == r0[t]);
                }
            }
        }
        current = next;
        i += 1;
    }
    assert(lens.take(mappings@.len() as int) =~= lens);
    r
}

/// A piece of written data bound for one block: the block, the offset in
/// it, and the bytes.
#[derive(Debug)]
pub struct BlockWrite {
    pub shard_id: u32,
    pub block_id: u64,
    pub block_offset: u64,
    pub data: Vec<u8>,
}

/// What is left for the caller to do for an event once the handler has
/// seen it.
#[derive(Debug)]
pub enum EventWork {
    /// The event is handled, with this outcome.
    Done(Result<(), String>),
    /// Write each piece to block storage, in order, handing each to
    /// `block_written` once it is stored; then call `write_finished`.
    WriteBlocks(Vec<BlockWrite>),
    /// Sync all of block storage.
    SyncAll,
}

/// Counts of the events processed: in all, by kind, still queued, failed,
/// and the bytes the successful ones processed.
#[derive(Debug)]
pub struct EventStats {
    pub total_events: u64,
    pub events_by_type: Vec<u64>,
    pub queue_depth: u64,
    pub error_count: u64,
    pub total_bytes_processed: u64,
}

/// The number of kinds of events.
pub const EVENT_KINDS: usize = 11;

/// The kind of an event, as its place in the list of kinds.
pub open spec fn event_kind_spec(e: VfsEvent) -> int {
    match e {
        VfsEvent::FileCreated { .. } => 0,
        VfsEvent::FileWritten { .. } => 1,
        VfsEvent::FileRead { .. } => 2,
        VfsEvent::FileTruncated { .. } => 3,
        VfsEvent::FileDeleted { .. } => 4,
        VfsEvent::FileRenamed { .. } => 5,
        VfsEvent::DirectoryCreated { .. } => 6,
        VfsEvent::DirectoryDeleted { .. } => 7,
        VfsEvent::AttributesChanged { .. } => 8,
        VfsEvent::ExtendedAttributesChanged { .. } => 9,
        VfsEvent::SyncRequested { .. } => 10,
    }
}

/// The kind of an event.
pub fn event_kind(e: &VfsEvent) -> (k: usize)
    ensures
        k == event_kind_spec(*e),
        k < EVENT_KINDS,
{
    match e {
        VfsEvent::FileCreated { .. } => 0,
        VfsEvent::FileWritten { .. } => 1,
        VfsEvent::FileRead { .. } => 2,
        VfsEvent::FileTruncated { .. } => 3,
        VfsEvent::FileDeleted { .. } => 4,
        VfsEvent::FileRenamed { .. } => 5,
        VfsEvent::DirectoryCreated { .. } => 6,
        VfsEvent::DirectoryDeleted { .. } => 7,
        VfsEvent::AttributesChanged { .. } => 8,
        VfsEvent::ExtendedAttributesChanged { .. } => 9,
        VfsEvent::SyncRequested { .. } => 10,
    }
}

/// Counts all zero.
fn zero_stats() -> (s: EventStats)
    ensures
        s.total_events == 0,
        s.events_by_type@ == Seq::new(EVENT_KINDS as nat, |i: int| 0u64),
        s.queue_depth == 0,
        s.error_count == 0,
        s.total_bytes_processed == 0,
{
    let mut by_type: Vec<u64> = Vec::new();
    let mut i: usize = 0;
    while i < EVENT_KINDS
        invariant
            i <= EVENT_KINDS,
            by_type@ == Seq::new(i as nat, |j: int| 0u64),
        decreases EVENT_KINDS - i,
    {
        by_type.push(0);
        i += 1;
        assert(by_type@ =~= Seq::new(i as nat, |j: int| 0u64));
    }
    EventStats { total_events: 0, events_by_type: by_type, queue_depth: 0, error_count: 0, total_bytes_processed: 0 }
}

/// The bytes `data[start..end]`.
fn slice_bytes(data: &Vec<u8>, start: usize, end: usize) -> (r: Vec<u8>)
    requires
        start <= end <= data@.len(),
    ensures
        r@ == data@.subrange(start as int, end as int),
{
    let mut r: Vec<u8> = Vec::new();
    let mut i = start;
    while i < end
        invariant
            start <= i <= end,
            end <= data@.len(),
            r@ == data@.subrange(start as int, i as int),
        decreases end - i,
    {
        r.push(data[i]);
        i += 1;
        assert(r@ =~= data@.subrange(start as int, i as int));
    }
    r
}

/// Whether a write of `data_len` bytes at `offset` to the file at `path`
/// can hand out its data: each block's piece starts within the data.
pub open spec fn write_fits(m: FileMapper, path: Seq<char>, offset: u64, data_len: nat) -> bool {
    let lens = mapped_lengths(blocks_at(m.paths(), m.inodes(), path), block_spans_spec(offset as nat, data_len));
    &&& offset + data_len >= 1
    &&& offset + data_len <= u64::MAX
    &&& slices_in_range(lens, data_len)
    &&& lengths_total(lens) <= usize::MAX
}

/// Handles the file-system events of the volumes: keeps the file mapper
/// and the replication queue, a queue of events waiting, and counts.
/// Block storage is the caller's: events that need it come back as work.
pub struct VfsEventHandler {
    file_mapper: FileMapper,
    replication_manager: ReplicationManager,
    queue: Vec<VfsEvent>,
    stats: EventStats,
}

impl VfsEventHandler {
    pub closed spec fn mapper(&self) -> FileMapper {
        self.file_mapper
    }

    pub closed spec fn replication(&self) -> ReplicationManager {
        self.replication_manager
    }

    pub closed spec fn queued(&self) -> Seq<VfsEvent> {
        self.queue@
    }

    pub closed spec fn stats_view(&self) -> EventStats {
        self.stats
    }

    pub closed spec fn wf(&self) -> bool {
        &&& self.file_mapper.wf()
        &&& self.stats.events_by_type@.len() == EVENT_KINDS
    }

    /// A handler over a file mapper and a replication manager, with no
    /// event queued and all counts zero.
    pub fn new(file_mapper: FileMapper, replication_manager: ReplicationManager) -> (h: Self)
        requires
            file_mapper.wf(),
        ensures
            h.wf(),
            h.mapper() == file_mapper,
            h.replication() == replication_manager,
            h.queued().len() == 0,
            h.stats_view().total_events == 0,
            h.stats_view().events_by_type@ == Seq::new(EVENT_KINDS as nat, |i: int| 0u64),
            h.stats_view().queue_depth == 0,
            h.stats_view().error_count == 0,
            h.stats_view().total_bytes_processed == 0,
    {
        VfsEventHandler { file_mapper, replication_manager, queue: Vec::new(), stats: zero_stats() }
    }

    /// Queues an event, counting it as waiting.
    pub fn submit_event(&mut self, event: VfsEvent) -> (r: Result<(), String>)
        requires
            old(self).stats_view().queue_depth < u64::MAX,
        ensures
            r is Ok,
            final(self).wf() == old(self).wf(),
            final(self).queued() == old(self).queued().push(event),
            final(self).stats_view().queue_depth == old(self).stats_view().queue_depth + 1,
            final(self).stats_view().total_events == old(self).stats_view().total_events,
            final(self).stats_view().events_by_type@ == old(self).stats_view().events_by_type@,
            final(self).stats_view().error_count == old(self).stats_view().error_count,
            final(self).stats_view().total_bytes_processed == old(self).stats_view().total_bytes_processed,
            final(self).mapper() == old(self).mapper(),
            final(self).replication() == old(self).replication(),
    {
        self.stats.queue_depth = self.stats.queue_depth + 1;
        self.queue.push(event);
        Ok(())
    }

    /// The oldest queued event, taken off the queue.
    pub fn next_event(&mut self) -> (e: Option<VfsEvent>)
        ensures
            final(self).wf() == old(self).wf(),
            old(self).queued().len() == 0 ==> e is None && final(self).queued() == old(self).queued(),
            old(self).queued().len() > 0 ==> e == Some(old(self).queued()[0])
                && final(self).queued() == old(self).queued().drop_first(),
            final(self).stats_view() == old(self).stats_view(),
            final(self).mapper() == old(self).mapper(),
            final(self).replication() == old(self).replication(),
    {
        if self.queue.len() == 0 {
            None
        } else {
            let e = self.queue.remove(0);
            assert(self.queue@ =~= old(self).queue@.drop_first());
            Some(e)
        }
    }

    /// Handles an event as far as the mapper and the replication queue go.
    /// A new file or directory gets its inode; a read sets the file's
    /// access time; a deletion forgets the path; truncation, renaming and
    /// attribute changes change nothing yet. A write is mapped to blocks
    /// and comes back as the pieces to store, each starting where the
    /// previous block's length ended, exactly when the volume is known and
    /// has free blocks for every block of the range the file does not map
    /// yet (or none is needed); otherwise the failed mapping is its outcome. A
    /// sync of the whole volume comes back as work; a sync of one path is
    /// done.
    pub fn process_event(&mut self, event: &VfsEvent, now: i64) -> (w: EventWork)
        requires
            old(self).wf(),
            match *event {
                VfsEvent::FileCreated { path, .. } | VfsEvent::DirectoryCreated { path, .. } =>
                    !old(self).mapper().paths().contains_key(path@) ==> old(self).mapper().next_inode_view() < u64::MAX,
                VfsEvent::FileWritten { path, offset, data, .. } => {
                    &&& write_fits(old(self).mapper(), path@, offset, data@.len())
                    &&& !old(self).mapper().paths().contains_key(path@) ==> old(self).mapper().next_inode_view() < u64::MAX
                },
                _ => true,
            },
        ensures
            final(self).wf(),
            final(self).queued() == old(self).queued(),
            final(self).stats_view() == old(self).stats_view(),
            final(self).replication() == old(self).replication(),
            match *event {
                VfsEvent::FileCreated { path, .. } | VfsEvent::DirectoryCreated { path, .. } => {
                    &&& w == EventWork::Done(Ok(()))
                    &&& final(self).mapper().paths() == old(self).mapper().paths().insert(path@,
                        target_inode(old(self).mapper().paths(), old(self).mapper().next_inode_view(), path@))
                },
                VfsEvent::FileWritten { volume_id, path, offset, data, .. } => {
                    let p0 = old(self).mapper().paths();
                    let b0 = blocks_at(p0, old(self).mapper().inodes(), path@);
                    let spans = block_spans_spec(offset as nat, data@.len());
                    let lens = mapped_lengths(b0, spans);
                    &&& final(self).mapper().paths() == p0.insert(path@,
                        target_inode(p0, old(self).mapper().next_inode_view(), path@))
                    &&& (w is WriteBlocks <==> super::file_mapping::range_mappable(old(self).mapper().allocations(), volume_id,
                        super::file_mapping::fresh_blocks(b0, spans, spans.len() as int)))
                    &&& match w {
                        EventWork::WriteBlocks(ws) => {
                            let n = final(self).mapper().paths()[path@];
                            let b1 = blocks_of(final(self).mapper().inodes()[n]);
                            &&& ws@.len() == spans.len()
                            &&& forall|i: int| 0 <= i < spans.len() ==> {
                                let m = b1[span_key(spans, i)];
                                let s = write_slices(lens, data@.len())[i];
                                &&& (#[trigger] ws@[i]).shard_id == m.shard_id
                                &&& ws@[i].block_id == m.block_id
                                &&& ws@[i].block_offset == m.block_offset
                                &&& ws@[i].data@ == data@.subrange(s.0 as int, s.1 as int)
                            }
                        },
                        EventWork::Done(Err(e)) => e@ == if old(self).mapper().allocations().contains_key(volume_id) {
                            super::file_mapping::no_free_blocks_text(volume_id)
                        } else {
                            super::file_mapping::volume_not_found_text(volume_id)
                        },
                        _ => false,
                    }
                },
                VfsEvent::FileRead { path, .. } => {
                    &&& w == EventWork::Done(Ok(()))
                    &&& final(self).mapper().paths() == old(self).mapper().paths()
                    &&& final(self).mapper().inodes().dom() == old(self).mapper().inodes().dom()
                    &&& forall|n: u64| #[trigger] final(self).mapper().inodes().contains_key(n) ==> {
                        let m0 = old(self).mapper().inodes()[n];
                        let m1 = final(self).mapper().inodes()[n];
                        &&& super::file_mapping::same_record(m1, m0)
                        &&& m1.accessed_at == if old(self).mapper().paths().contains_key(path@)
                            && old(self).mapper().paths()[path@] == n { now } else { m0.accessed_at }
                    }
                },
                VfsEvent::FileDeleted { path, .. } | VfsEvent::DirectoryDeleted { path, .. } => {
                    &&& w == EventWork::Done(Ok(()))
                    &&& final(self).mapper().paths() == old(self).mapper().paths().remove(path@)
                },
                VfsEvent::SyncRequested { path, .. } => {
                    &&& w == if path is None { EventWork::SyncAll } else { EventWork::Done(Ok(())) }
                    &&& final(self).mapper() == old(self).mapper()
                },
                _ => {
                    &&& w == EventWork::Done(Ok(()))
                    &&& final(self).mapper() == old(self).mapper()
                },
            },
    {
        match event {
            VfsEvent::FileCreated { volume_id, path, .. } | VfsEvent::DirectoryCreated { volume_id, path, .. } => {
                match self.file_mapper.get_or_create_inode(*volume_id, path.as_str(), now) {
                    Ok(_) => EventWork::Done(Ok(())),
                    Err(e) => EventWork::Done(Err(e)),
                }
            },
            VfsEvent::FileWritten { volume_id, path, offset, data, .. } => {
                self.plan_file_write(*volume_id, path.as_str(), *offset, data, now)
            },
            VfsEvent::FileRead { path, .. } => {
                match self.file_mapper.update_access_time(path.as_str(), now) {
                    Ok(()) => EventWork::Done(Ok(())),
                    Err(e) => EventWork::Done(Err(e)),
                }
            },
            VfsEvent::FileDeleted { path, .. } | VfsEvent::DirectoryDeleted { path, .. } => {
                match self.file_mapper.remove_file(path.as_str()) {
                    Ok(()) => EventWork::Done(Ok(())),
                    Err(e) => EventWork::Done(Err(e)),
                }
            },
            VfsEvent::SyncRequested { path, .. } => {
                match path {
                    Some(_) => EventWork::Done(Ok(())),
                    None => EventWork::SyncAll,
                }
            },
            _ => EventWork::Done(Ok(())),
        }
    }

    /// Maps a write to blocks and cuts its data into the pieces each block
    /// gets.
    fn plan_file_write(&mut self, volume_id: u128, path: &str, offset: u64, data: &Vec<u8>, now: i64) -> (w: EventWork)
        requires
            old(self).wf(),
            write_fits(old(self).mapper(), path@, offset, data@.len()),
            !old(self).mapper().paths().contains_key(path@) ==> old(self).mapper().next_inode_view() < u64::MAX,
        ensures
            final(self).wf(),
            final(self).queued() == old(self).queued(),
            final(self).stats_view() == old(self).stats_view(),
            final(self).replication() == old(self).replication(),
            ({
                let p0 = old(self).mapper().paths();
                let b0 = blocks_at(p0, old(self).mapper().inodes(), path@);
                let spans = block_spans_spec(offset as nat, data@.len());
                let lens = mapped_lengths(b0, spans);
                &&& final(self).mapper().paths() == p0.insert(path@, target_inode(p0, old(self).mapper().next_inode_view(), path@))
                &&& (w is WriteBlocks <==> super::file_mapping::range_mappable(old(self).mapper().allocations(), volume_id,
                    super::file_mapping::fresh_blocks(b0, spans, spans.len() as int)))
                &&& match w {
                    EventWork::WriteBlocks(ws) => {
                        let n = final(self).mapper().paths()[path@];
                        let b1 = blocks_of(final(self).mapper().inodes()[n]);
                        &&& ws@.len() == spans.len()
                        &&& forall|i: int| 0 <= i < spans.len() ==> {
                            let m = b1[span_key(spans, i)];
                            let s = write_slices(lens, data@.len())[i];
                            &&& (#[trigger] ws@[i]).shard_id == m.shard_id
                            &&& ws@[i].block_id == m.block_id
                            &&& ws@[i].block_offset == m.block_offset
                            &&& ws@[i].data@ == data@.subrange(s.0 as int, s.1 as int)
                        }
                    },
                    EventWork::Done(Err(e)) => e@ == if old(self).mapper().allocations().contains_key(volume_id) {
                        super::file_mapping::no_free_blocks_text(volume_id)
                    } else {
                        super::file_mapping::volume_not_found_text(volume_id)
                    },
                    _ => false,
                }
            }),
    {
        let ghost m0 = self.file_mapper;
        let ghost b0 = blocks_at(m0.paths(), m0.inodes(), path@);
        let ghost spans = block_spans_spec(offset as nat, data@.len());
        let ghost lens = mapped_lengths(b0, spans);
        let ms = match self.file_mapper.map_file_to_blocks(volume_id, path, offset, data.len() as u64, now) {
            Ok(ms) => ms,
            Err(e) => {
                return EventWork::Done(Err(e));
            },
        };
        proof {
            assert(ms@.map_values(|m: BlockMapping| m.length) =~= lens);
        }
        let slices = block_write_slices(&ms, data.len());
        proof {
            lemma_slices_bounded(lens, data@.len());
        }
        let mut ws: Vec<BlockWrite> = Vec::new();
        let mut i: usize = 0;
        while i < ms.len()
            invariant
                i <= ms@.len(),
                slices@.len() == ms@.len(),
                ms@.map_values(|m: BlockMapping| m.length) == lens,
                lens.len() == ms@.len(),
                forall|t: int| 0 <= t < slices@.len() ==> (#[trigger] slices@[t]).0 as nat == write_slices(lens, data@.len())[t].0
                    && slices@[t].1 as nat == write_slices(lens, data@.len())[t].1,
                forall|t: int| 0 <= t < lens.len() ==> (#[trigger] write_slices(lens, data@.len())[t]).0
                    <= write_slices(lens, data@.len())[t].1 <= data@.len(),
                ws@.len() == i,
                forall|t: int| 0 <= t < i ==> {
                    &&& (#[trigger] ws@[t]).shard_id == ms@[t].shard_id
                    &&& ws@[t].block_id == ms@[t].block_id
                    &&& ws@[t].block_offset == ms@[t].block_offset
                    &&& ws@[t].data@ == data@.subrange(slices@[t].0 as int, slices@[t].1 as int)
                },
            decreases ms.len() - i,
        {
            let (start, end) = slices[i];
            proof {
                assert(write_slices(lens, data@.len())[i as int].0 <= write_slices(lens, data@.len())[i as int].1);
            }
            let piece = slice_bytes(data, start, end);
            let m = ms[i];
            ws.push(BlockWrite { shard_id: m.shard_id, block_id: m.block_id, block_offset: m.block_offset, data: piece });
            i += 1;
        }
        EventWork::WriteBlocks(ws)
    }

    /// Whether a write of `data_len` bytes at `offset` to the file at `path`
    /// can be handled now (see `write_fits`): the range is not empty at
    /// offset 0, ends within 64 bits, and each block's piece of the data
    /// starts within it.
    pub fn write_fits_now(&self, path: &str, offset: u64, data_len: usize) -> (b: bool)
        requires
            self.wf(),
        ensures
            b == write_fits(self.mapper(), path@, offset, data_len as nat),
    {
        let end: u128 = offset as u128 + data_len as u128;
        if end == 0 || end > u64::MAX as u128 {
            return false;
        }
        let lens = self.file_mapper.planned_lengths(path, offset, data_len as u64);
        let ghost lv = lens@;
        let mut sum: u128 = 0;
        let mut i: usize = 0;
        assert(lv.take(0) =~= Seq::<u64>::empty());
        while i < lens.len()
            invariant
                lv == lens@,
                lv == mapped_lengths(blocks_at(self.mapper().paths(), self.mapper().inodes(), path@),
                    block_spans_spec(offset as nat, data_len as nat)),
                i <= lv.len(),
                sum == lengths_total(lv.take(i as int)),
                sum <= data_len as nat + u64::MAX,
                forall|t: int| 0 <= t < i ==> lengths_total(#[trigger] lv.take(t)) <= data_len,
            decreases lens.len() - i,
        {
            if sum > data_len as u128 {
                assert(!slices_in_range(lv, data_len as nat));
                return false;
            }
            assert(lv.take(i + 1).drop_last() =~= lv.take(i as int));
            sum = sum + lens[i] as u128;
            i += 1;
        }
        assert(lv.take(lv.len() as int) =~= lv);
        sum <= usize::MAX as u128
    }

    /// Queues the copy of a block piece once storage holds it.
    pub fn block_written(&mut self, volume_id: u128, piece: &BlockWrite) -> (r: Result<(), String>)
        ensures
            r is Ok,
            final(self).wf() == old(self).wf(),
            final(self).mapper() == old(self).mapper(),
            final(self).queued() == old(self).queued(),
            final(self).stats_view() == old(self).stats_view(),
            final(self).replication().strategies_view() == old(self).replication().strategies_view(),
            old(self).replication().strategies_view().contains_key(volume_id) ==> {
                let t = final(self).replication().tasks_view().last();
                &&& final(self).replication().tasks_view().drop_last() == old(self).replication().tasks_view()
                &&& t.volume_id == volume_id
                &&& t.shard_id == piece.shard_id
                &&& t.block_id == piece.block_id
                &&& t.data@ == piece.data@
            },
            !old(self).replication().strategies_view().contains_key(volume_id)
                ==> final(self).replication().tasks_view() == old(self).replication().tasks_view(),
    {
        let data = slice_bytes(&piece.data, 0, piece.data.len());
        proof {
            assert(piece.data@.subrange(0, piece.data@.len() as int) =~= piece.data@);
        }
        let _queued = self.replication_manager.replicate_block(volume_id, piece.shard_id, piece.block_id, data);
        Ok(())
    }

    /// Ends a write once its pieces are stored: sets the file's access time
    /// to `now`. The caller then syncs storage where the write asked for it.
    pub fn write_finished(&mut self, path: &str, now: i64) -> (r: Result<(), String>)
        requires
            old(self).wf(),
        ensures
            r is Ok,
            final(self).wf(),
            final(self).queued() == old(self).queued(),
            final(self).stats_view() == old(self).stats_view(),
            final(self).replication() == old(self).replication(),
            final(self).mapper().paths() == old(self).mapper().paths(),
            final(self).mapper().inodes().dom() == old(self).mapper().inodes().dom(),
    {
        self.file_mapper.update_access_time(path, now)
    }

    /// Counts a processed event: one more in all and of its kind, one less
    /// waiting (never below zero), and its bytes where it succeeded or an
    /// error where it failed.
    pub fn update_event_stats(&mut self, event: &VfsEvent, result: &EventProcessingResult)
        requires
            old(self).wf(),
            old(self).stats_view().total_events < u64::MAX,
            old(self).stats_view().events_by_type@[event_kind_spec(*event)] < u64::MAX,
            result.success ==> old(self).stats_view().total_bytes_processed + result.bytes_processed <= u64::MAX,
            !result.success ==> old(self).stats_view().error_count < u64::MAX,
        ensures
            final(self).wf(),
            final(self).mapper() == old(self).mapper(),
            final(self).replication() == old(self).replication(),
            final(self).queued() == old(self).queued(),
            ({
                let s0 = old(self).stats_view();
                let s1 = final(self).stats_view();
                let k = event_kind_spec(*event);
                &&& s1.total_events == s0.total_events + 1
                &&& s1.queue_depth == if s0.queue_depth > 0 { (s0.queue_depth - 1) as u64 } else { 0 }
                &&& s1.events_by_type@ == s0.events_by_type@.update(k, (s0.events_by_type@[k] + 1) as u64)
                &&& s1.total_bytes_processed == if result.success {
                    (s0.total_bytes_processed + result.bytes_processed) as u64
                } else {
                    s0.total_bytes_processed
                }
                &&& s1.error_count == if result.success { s0.error_count } else { (s0.error_count + 1) as u64 }
            }),
    {
        self.stats.total_events = self.stats.total_events + 1;
        self.stats.queue_depth = self.stats.queue_depth.saturating_sub(1);
        let k = event_kind(event);
        let c = self.stats.events_by_type[k];
        self.stats.events_by_type.set(k, c + 1);
        if result.success {
            self.stats.total_bytes_processed = self.stats.total_bytes_processed + result.bytes_processed;
        } else {
            self.stats.error_count = self.stats.error_count + 1;
        }
    }

    /// A copy of the counts.
    pub fn get_stats(&self) -> (s: EventStats)
        ensures
            s.total_events == self.stats_view().total_events,
            s.events_by_type@ == self.stats_view().events_by_type@,
            s.queue_depth == self.stats_view().queue_depth,
            s.error_count == self.stats_view().error_count,
            s.total_bytes_processed == self.stats_view().total_bytes_processed,
    {
        let mut by_type: Vec<u64> = Vec::new();
        let mut i: usize = 0;
        while i < self.stats.events_by_type.len()
            invariant
                i <= self.stats.events_by_type@.len(),
                by_type@ == self.stats.events_by_type@.subrange(0, i as int),
            decreases self.stats.events_by_type.len() - i,
        {
            by_type.push(self.stats.events_by_type[i]);
            i += 1;
            assert(by_type@ =~= self.stats.events_by_type@.subrange(0, i as int));
        }
        assert(self.stats.events_by_type@.subrange(0, self.stats.events_by_type@.len() as int) =~= self.stats.events_by_type@);
        EventStats {
            total_events: self.stats.total_events,
            events_by_type: by_type,
            queue_depth: self.stats.queue_depth,
            error_count: self.stats.error_count,
            total_bytes_processed: self.stats.total_bytes_processed,
        }
    }

    /// Sets every count back to zero.
    pub fn reset_stats(&mut self)
        ensures
            final(self).wf() == old(self).mapper().wf(),
            final(self).mapper() == old(self).mapper(),
            final(self).replication() == old(self).replication(),
            final(self).queued() == old(self).queued(),
            final(self).stats_view().total_events == 0,
            final(self).stats_view().events_by_type@ == Seq::new(EVENT_KINDS as nat, |i: int| 0u64),
            final(self).stats_view().queue_depth == 0,
            final(self).stats_view().error_count == 0,
            final(self).stats_view().total_bytes_processed == 0,
    {
        self.stats = zero_stats();
    }
}

proof fn lemma_slices_bounded(lens: Seq<u64>, dl: nat)
    requires
        slices_in_range(lens, dl),
    ensures
        forall|t: int| 0 <= t < lens.len() ==> (#[trigger] write_slices(lens, dl)[t]).0 <= write_slices(lens, dl)[t].1 <= dl,
    decreases lens.len(),
{
    lemma_slices_len(lens, dl);
    if lens.len() > 0 {
        let pre = lens.drop_last();
        assert(slices_in_range(pre, dl)) by {
            assert forall|i: int| 0 <= i < pre.len() implies lengths_total(#[trigger] pre.take(i)) <= dl by {
                assert(pre.take(i) =~= lens.take(i));
            }
        }
        lemma_slices_bounded(pre, dl);
        lemma_slices_len(pre, dl);
        assert(lens.take(lens.len() - 1) =~= pre);
        assert forall|t: int| 0 <= t < lens.len() implies (#[trigger] write_slices(lens, dl)[t]).0 <= write_slices(lens, dl)[t].1 <= dl by {
            if t < lens.len() - 1 {
                assert(write_slices(lens, dl)[t] == write_slices(pre, dl)[t]);
            }
        }
    }
}

} // verus!
