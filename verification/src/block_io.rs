//! Byte-range reads and writes over a volume made of fixed-size blocks.
//!
//! A write at `position` is split into block-sized chunks; each chunk either
//! replaces a whole block or patches part of one (read-modify-write).  A read
//! walks the blocks that cover the range and gathers the bytes, using zeros
//! for blocks that cannot be read.  The storage calls themselves are made by
//! the caller between the steps planned here.
use vstd::prelude::*;

verus! {

/// Size of one volume block in bytes.
pub const BLOCK_SIZE: u64 = 4096;

/// One block-sized piece of a write.
#[derive(Clone, Copy, Debug, PartialEq, Eq)]
pub struct ChunkWrite {
    /// Block that receives the chunk.
    pub block_id: u64,
    /// Offset inside the block where the chunk starts.
    pub block_offset: u64,
    /// First byte of the chunk in the written buffer.
    pub data_start: usize,
    /// One past the last byte of the chunk in the written buffer.
    pub data_end: usize,
    /// The chunk covers the whole block, so no read is needed.
    pub full_block: bool,
}

pub open spec fn min_int(a: int, b: int) -> int {
    if a <= b { a } else { b }
}

/// Number of chunks a write of `len` bytes at `position` is split into:
/// one per block it touches.
pub open spec fn num_chunks(position: int, len: int) -> int {
    if len <= 0 { 0 } else { (position + len + 4095) / 4096 - position / 4096 }
}

/// Where the first `i` chunks of a write of `len` bytes at `position` end
/// in the buffer.
pub open spec fn chunk_end(position: int, len: int, i: int) -> int {
    if i <= 0 { 0 } else { min_int((position / 4096 + i) * 4096 - position, len) }
}

/// The `i`-th chunk of a write of `len` bytes at `position`: the part of
/// the buffer that falls in the `i`-th block the write touches, from
/// `position` to the end of its block, then whole blocks, then what is left.
pub open spec fn chunk_write_spec(position: int, len: int, i: int) -> ChunkWrite {
    let off: int = if i == 0 { position % 4096 } else { 0 };
    let start: int = chunk_end(position, len, i);
    let end: int = chunk_end(position, len, i + 1);
    ChunkWrite {
        block_id: (position / 4096 + i) as u64,
        block_offset: off as u64,
        data_start: start as usize,
        data_end: end as usize,
        full_block: off == 0 && end - start == 4096,
    }
}

/// A block of zero bytes of length `n`.
pub open spec fn zeros(n: nat) -> Seq<u8> {
    Seq::new(n, |_i: int| 0u8)
}

/// The block a partial write starts from: the stored block, padded with
/// zeros to a full block, or a zero block when none could be read.
pub open spec fn base_block(existing: Option<Seq<u8>>) -> Seq<u8> {
    match existing {
        Some(b) => if b.len() < 4096 { b + zeros((4096 - b.len()) as nat) } else { b },
        None => zeros(4096),
    }
}

/// Where the copied part of a chunk ends inside the base block.
pub open spec fn patch_end(existing: Option<Seq<u8>>, off: int, chunk_len: int) -> int {
    min_int(off + chunk_len, base_block(existing).len() as int)
}

/// The base block with the chunk copied in at `off` (truncated at the end of the block).
pub open spec fn patched_block(existing: Option<Seq<u8>>, off: int, chunk: Seq<u8>) -> Seq<u8> {
    let base = base_block(existing);
    let end = patch_end(existing, off, chunk.len() as int);
    Seq::new(base.len(), |j: int| if off <= j < end { chunk[j - off] } else { base[j] })
}

/// The bytes of the buffer that a chunk carries.
pub open spec fn chunk_data(cw: ChunkWrite, data: Seq<u8>) -> Seq<u8> {
    data.subrange(cw.data_start as int, cw.data_end as int)
}

/// What a chunk leaves in its block.
pub open spec fn new_block_contents(existing: Option<Seq<u8>>, cw: ChunkWrite, data: Seq<u8>) -> Seq<u8> {
    if cw.full_block {
        chunk_data(cw, data)
    } else {
        patched_block(existing, cw.block_offset as int, chunk_data(cw, data))
    }
}

/// How many bytes of the buffer a chunk stores.
pub open spec fn chunk_bytes_written(existing: Option<Seq<u8>>, cw: ChunkWrite) -> int {
    if cw.full_block {
        4096
    } else {
        patch_end(existing, cw.block_offset as int, cw.data_end - cw.data_start) - cw.block_offset
    }
}

/// The block stored under `b`, if any.
pub open spec fn stored(store: Map<u64, Seq<u8>>, b: u64) -> Option<Seq<u8>> {
    if store.dom().contains(b) { Some(store[b]) } else { None }
}

/// The store after the first `k` chunks of a write of `data` at `position`.
pub open spec fn store_after_chunks(store: Map<u64, Seq<u8>>, position: int, data: Seq<u8>, k: int) -> Map<u64, Seq<u8>>
    decreases k,
{
    if k <= 0 {
        store
    } else {
        let s = store_after_chunks(store, position, data, k - 1);
        let cw = chunk_write_spec(position, data.len() as int, k - 1);
        s.insert(cw.block_id, new_block_contents(stored(s, cw.block_id), cw, data))
    }
}

/// The store after a whole write of `data` at `position`.
pub open spec fn store_after_write(store: Map<u64, Seq<u8>>, position: int, data: Seq<u8>) -> Map<u64, Seq<u8>> {
    store_after_chunks(store, position, data, num_chunks(position, data.len() as int))
}

/// Bytes stored by the first `k` chunks of a write.
pub open spec fn written_after_chunks(store: Map<u64, Seq<u8>>, position: int, data: Seq<u8>, k: int) -> int
    decreases k,
{
    if k <= 0 {
        0
    } else {
        let s = store_after_chunks(store, position, data, k - 1);
        let cw = chunk_write_spec(position, data.len() as int, k - 1);
        written_after_chunks(store, position, data, k - 1) + chunk_bytes_written(stored(s, cw.block_id), cw)
    }
}

/// Splits a write of `len` bytes at `position` into one chunk per block
/// it touches.
pub fn plan_write(position: u64, len: usize) -> (plan: Vec<ChunkWrite>)
    requires
        position as int + len as int + 4096 <= u64::MAX,
    ensures
        plan@.len() == num_chunks(position as int, len as int),
        forall|i: int| 0 <= i < plan@.len() ==> plan@[i] == chunk_write_spec(position as int, len as int, i),
{
    let mut plan: Vec<ChunkWrite> = Vec::new();
    if len == 0 {
        return plan;
    }
    let first = position / BLOCK_SIZE;
    let need = (position + len as u64 + 4095) / BLOCK_SIZE;
    assert(first < need) by (nonlinear_arith)
        requires first == position / 4096, need == (position + len + 4095) / 4096, len > 0;
    assert(need * 4096 <= position + len + 4095) by (nonlinear_arith)
        requires need == (position + len + 4095) / 4096;
    assert(first * 4096 <= position && position < first * 4096 + 4096) by (nonlinear_arith)
        requires first == position / 4096;
    let n = need - first;
    let mut i: u64 = 0;
    while i < n
        invariant
            i <= n,
            n == need - first,
            n == num_chunks(position as int, len as int),
            first == position / 4096,
            need * 4096 <= position + len + 4095,
            first * 4096 <= position < first * 4096 + 4096,
            position + len + 4096 <= u64::MAX,
            plan@.len() == i,
            forall|j: int| 0 <= j < i ==> #[trigger] plan@[j] == chunk_write_spec(position as int, len as int, j),
        decreases n - i,
    {
        assert((first + i + 1) * 4096 <= need * 4096) by (nonlinear_arith)
            requires first + i + 1 <= need;
        assert((first + i) * 4096 + 4096 == (first + i + 1) * 4096) by (nonlinear_arith);
        let block_end: u64 = (first + i + 1) * 4096 - position;
        let start: u64 = if i == 0 { 0 } else {
            let s0: u64 = (first + i) * 4096 - position;
            if s0 < len as u64 { s0 } else { len as u64 }
        };
        let end: u64 = if block_end < len as u64 { block_end } else { len as u64 };
        let off: u64 = if i == 0 { position % 4096 } else { 0 };
        let cw = ChunkWrite {
            block_id: first + i,
            block_offset: off,
            data_start: start as usize,
            data_end: end as usize,
            full_block: off == 0 && end - start == 4096,
        };
        proof {
            let sc = chunk_write_spec(position as int, len as int, i as int);
            assert(cw.block_id == sc.block_id);
            assert(cw.block_offset == sc.block_offset);
            assert(cw.data_start == sc.data_start);
            assert(cw.data_end == sc.data_end);
        }
        plan.push(cw);
        i += 1;
    }
    plan
}

/// Builds the new contents of a block that a chunk only partly covers:
/// the block read back (or zeros when it could not be read), padded to a
/// full block, with the chunk copied in at `block_offset`.  Also returns the
/// number of chunk bytes that fit in the block.
pub fn patch_block(existing: Option<Vec<u8>>, block_offset: u64, chunk: &[u8]) -> (r: (Vec<u8>, usize))
    requires
        block_offset < 4096,
    ensures
        r.0@ == patched_block(opt_view(existing), block_offset as int, chunk@),
        r.1 == patch_end(opt_view(existing), block_offset as int, chunk@.len() as int) - block_offset,
{
    let ghost ex = opt_view(existing);
    let mut block: Vec<u8> = match existing {
        Some(v) => v,
        None => Vec::new(),
    };
    let ghost had = block@;
    // pad with zeros to a full block
    while block.len() < 4096
        invariant
            block@.len() <= 4096 ==> block@ == had + zeros((block@.len() - had.len()) as nat),
            had.len() <= block@.len(),
            had.len() < 4096 ==> block@.len() <= 4096,
            had.len() >= 4096 ==> block@ == had,
            ex is None ==> had.len() == 0,
            ex is Some ==> had == ex->0,
        decreases 4096 - block.len(),
    {
        block.push(0u8);
        assert(block@ =~= had + zeros((block@.len() - had.len()) as nat));
    }
    proof {
        if ex is None {
            assert(block@ =~= zeros(4096));
        } else if had.len() >= 4096 {
            assert(block@ == had);
        } else {
            assert(block@ =~= had + zeros((4096 - had.len()) as nat));
        }
        assert(block@ == base_block(ex));
    }
    let ghost base = block@;
    let blen = block.len();
    let start = block_offset as usize;
    let end: usize = if chunk.len() < blen - start { start + chunk.len() } else { blen };
    let mut j: usize = start;
    while j < end
        invariant
            start <= j <= end <= blen,
            blen == base.len(),
            block@.len() == blen,
            end == patch_end(ex, start as int, chunk@.len() as int),
            base == base_block(ex),
            start == block_offset,
            forall|t: int| 0 <= t < blen ==> block@[t] == (if start <= t < j { chunk@[t - start] } else { base[t] }),
        decreases end - j,
    {
        block.set(j, chunk[j - start]);
        j += 1;
    }
    assert(block@ =~= patched_block(ex, block_offset as int, chunk@));
    (block, end - start)
}

/// The contents of an optional block, as a sequence.
pub open spec fn opt_view(b: Option<Vec<u8>>) -> Option<Seq<u8>> {
    match b {
        Some(v) => Some(v@),
        None => None,
    }
}

/// Block one past the last block a read of `len` bytes at `position` touches.
pub open spec fn read_end_block(position: int, len: int) -> int {
    (position + len + 4095) / 4096
}

/// The bytes a read takes from one block, given the offset into the block
/// and how many bytes are still wanted.
pub open spec fn read_piece(block: Option<Seq<u8>>, block_start: int, remaining: int) -> Seq<u8> {
    match block {
        Some(bd) => {
            let end = min_int(bd.len() as int, block_start + remaining);
            if block_start < bd.len() { bd.subrange(block_start, end) } else { Seq::empty() }
        },
        None => zeros(min_int(4096, remaining) as nat),
    }
}

/// The bytes gathered from the first `k` blocks of a read.
pub open spec fn read_acc(store: Map<u64, Seq<u8>>, position: int, len: int, k: int) -> Seq<u8>
    decreases k,
{
    if k <= 0 {
        Seq::empty()
    } else {
        let prev = read_acc(store, position, len, k - 1);
        let b = (position / 4096 + (k - 1)) as u64;
        let block_start = if k - 1 == 0 { position % 4096 } else { 0 };
        prev + read_piece(stored(store, b), block_start, len - prev.len())
    }
}

/// The bytes a read of `len` bytes at `position` returns.
pub open spec fn read_range(store: Map<u64, Seq<u8>>, position: int, len: int) -> Seq<u8> {
    let acc = read_acc(store, position, len, read_end_block(position, len) - position / 4096);
    acc.subrange(0, min_int(len, acc.len() as int))
}

/// First block and one past the last block of a read of `len` bytes at `position`.
pub fn read_block_range(position: u64, len: u64) -> (r: (u64, u64))
    requires
        position as int + len as int + 4096 <= u64::MAX,
    ensures
        r.0 == position / 4096,
        r.1 == read_end_block(position as int, len as int),
{
    (position / BLOCK_SIZE, (position + len + BLOCK_SIZE - 1) / BLOCK_SIZE)
}

/// Appends to `acc` the bytes a read takes from one block: from
/// `block_start` up to what is still wanted, or zeros when the block could
/// not be read.
pub fn read_block_piece(acc: &mut Vec<u8>, block: Option<&Vec<u8>>, block_start: usize, wanted: usize)
    requires
        old(acc)@.len() <= wanted,
    ensures
        final(acc)@ == old(acc)@ + read_piece(
            match block { Some(v) => Some(v@), None => None },
            block_start as int,
            wanted - old(acc)@.len(),
        ),
{
    let ghost a0 = acc@;
    let remaining = wanted - acc.len();
    match block {
        Some(bd) => {
            if block_start < bd.len() {
                let end: usize = if remaining < bd.len() - block_start { block_start + remaining } else { bd.len() };
                let mut j = block_start;
                while j < end
                    invariant
                        block_start <= j <= end <= bd@.len(),
                        acc@ == a0 + bd@.subrange(block_start as int, j as int),
                    decreases end - j,
                {
                    acc.push(bd[j]);
                    j += 1;
                    assert(acc@ =~= a0 + bd@.subrange(block_start as int, j as int));
                }
            } else {
                assert(acc@ =~= a0 + Seq::<u8>::empty());
            }
        },
        None => {
            let n: usize = if remaining < 4096 { remaining } else { 4096 };
            let mut j: usize = 0;
            while j < n
                invariant
                    j <= n,
                    acc@ == a0 + zeros(j as nat),
                decreases n - j,
            {
                acc.push(0u8);
                j += 1;
                assert(acc@ =~= a0 + zeros(j as nat));
            }
        },
    }
}

/// Number of bytes a read hands back once all pieces are gathered.
pub fn read_result_len(gathered: usize, wanted: usize) -> (r: usize)
    ensures
        r == min_int(gathered as int, wanted as int),
{
    if gathered < wanted { gathered } else { wanted }
}


/// Facts on the chunks of a write: each lies inside its block, and
/// chunk `j` covers the bytes from `chunk_end(j)` to `chunk_end(j + 1)`.
proof fn lemma_chunk_shape(position: int, len: int, j: int)
    requires
        0 <= position,
        0 <= len <= usize::MAX,
        position + len <= u64::MAX,
        0 <= j < num_chunks(position, len),
    ensures
        ({
            let cw = chunk_write_spec(position, len, j);
            &&& 0 <= cw.data_start <= cw.data_end <= len
            &&& cw.data_start == chunk_end(position, len, j)
            &&& cw.data_end == chunk_end(position, len, j + 1)
            &&& cw.block_offset < 4096
            &&& cw.block_offset + (cw.data_end - cw.data_start) <= 4096
            &&& (cw.data_end - cw.data_start == 4096 - cw.block_offset || cw.data_end == len)
            &&& cw.block_id == position / 4096 + j
            &&& position / 4096 + j <= u64::MAX
        }),
{
    let first = position / 4096;
    let need = (position + len + 4095) / 4096;
    assert(first * 4096 <= position && position < first * 4096 + 4096) by (nonlinear_arith)
        requires first == position / 4096, position >= 0;
    assert(need * 4096 <= position + len + 4095 && position + len <= need * 4096) by (nonlinear_arith)
        requires need == (position + len + 4095) / 4096, position + len >= 0;
    assert((first + j) * 4096 + 4096 == (first + j + 1) * 4096) by (nonlinear_arith);
    assert((first + j + 1) * 4096 <= need * 4096) by (nonlinear_arith)
        requires first + j + 1 <= need;
    assert(first * 4096 + j * 4096 == (first + j) * 4096) by (nonlinear_arith);
    assert(j >= 1 ==> (first + j) * 4096 - position < len) by (nonlinear_arith)
        requires (first + j + 1) * 4096 <= need * 4096, need * 4096 <= position + len + 4095, first * 4096 <= position;
    assert(first + j < need);
    assert(need <= u64::MAX) by (nonlinear_arith)
        requires need == (position + len + 4095) / 4096, position + len <= u64::MAX;
    assert(position % 4096 == position - first * 4096);
}

/// Every block a write leaves is a full block, and blocks it does not
/// touch keep their length; so a store of blocks of at most a block's
/// length stays so.
proof fn lemma_blocks_stay_small(store: Map<u64, Seq<u8>>, position: int, data: Seq<u8>, k: int)
    requires
        0 <= position,
        position + data.len() <= u64::MAX,
        data.len() <= usize::MAX,
        0 <= k <= num_chunks(position, data.len() as int),
        forall|b: u64| #[trigger] store.dom().contains(b) ==> store[b].len() <= 4096,
    ensures
        forall|b: u64| #[trigger] store_after_chunks(store, position, data, k).dom().contains(b)
            ==> store_after_chunks(store, position, data, k)[b].len() <= 4096,
    decreases k,
{
    if k > 0 {
        let len = data.len() as int;
        lemma_blocks_stay_small(store, position, data, k - 1);
        lemma_chunk_shape(position, len, k - 1);
        let s = store_after_chunks(store, position, data, k - 1);
        let cw = chunk_write_spec(position, len, k - 1);
        let ex = stored(s, cw.block_id);
        assert(base_block(ex).len() == 4096);
        assert(new_block_contents(ex, cw, data).len() == 4096);
    }
}

/// After the first `k` chunks, each block `j < k` of the range holds what chunk `j` left there.
proof fn lemma_chunks_frame(store: Map<u64, Seq<u8>>, position: int, data: Seq<u8>, k: int, j: int)
    requires
        0 <= position,
        position + data.len() <= u64::MAX,
        data.len() <= usize::MAX,
        0 <= j < k <= num_chunks(position, data.len() as int),
    ensures
        ({
            let cw = chunk_write_spec(position, data.len() as int, j);
            let s = store_after_chunks(store, position, data, k);
            &&& s.dom().contains(cw.block_id)
            &&& s[cw.block_id] == new_block_contents(
                stored(store_after_chunks(store, position, data, j), cw.block_id), cw, data)
        }),
    decreases k,
{
    let len = data.len() as int;
    lemma_chunk_shape(position, len, k - 1);
    lemma_chunk_shape(position, len, j);
    if j < k - 1 {
        lemma_chunks_frame(store, position, data, k - 1, j);
        assert(chunk_write_spec(position, len, j).block_id != chunk_write_spec(position, len, k - 1).block_id);
    }
}

/// A chunk's block, once written, reads back as the chunk.
proof fn lemma_piece(existing: Option<Seq<u8>>, position: int, data: Seq<u8>, j: int)
    requires
        0 <= position,
        position + data.len() <= u64::MAX,
        data.len() <= usize::MAX,
        0 <= j < num_chunks(position, data.len() as int),
        existing matches Some(b) ==> b.len() <= 4096,
    ensures
        ({
            let cw = chunk_write_spec(position, data.len() as int, j);
            read_piece(Some(new_block_contents(existing, cw, data)), cw.block_offset as int, data.len() - cw.data_start)
                == chunk_data(cw, data)
        }),
{
    let len = data.len() as int;
    lemma_chunk_shape(position, len, j);
    let cw = chunk_write_spec(position, len, j);
    let c = chunk_data(cw, data);
    let nb = new_block_contents(existing, cw, data);
    assert(base_block(existing).len() == 4096);
    assert(nb.len() == 4096);
    assert(read_piece(Some(nb), cw.block_offset as int, len - cw.data_start) =~= c);
}

/// Reading back the first `k` blocks of a write gives the bytes of its
/// first `k` chunks.
proof fn lemma_read_acc(store: Map<u64, Seq<u8>>, position: int, data: Seq<u8>, k: int)
    requires
        0 <= position,
        position + data.len() <= u64::MAX,
        data.len() <= usize::MAX,
        0 <= k <= num_chunks(position, data.len() as int),
        forall|b: u64| #[trigger] store.dom().contains(b) ==> store[b].len() <= 4096,
    ensures
        read_acc(store_after_write(store, position, data), position, data.len() as int, k)
            == data.subrange(0, chunk_end(position, data.len() as int, k)),
    decreases k,
{
    let len = data.len() as int;
    if k > 0 {
        let n = num_chunks(position, len);
        lemma_read_acc(store, position, data, k - 1);
        lemma_chunk_shape(position, len, k - 1);
        let cw = chunk_write_spec(position, len, k - 1);
        lemma_chunks_frame(store, position, data, n, k - 1);
        lemma_blocks_stay_small(store, position, data, k - 1);
        let ex = stored(store_after_chunks(store, position, data, k - 1), cw.block_id);
        lemma_piece(ex, position, data, k - 1);
        assert(read_acc(store_after_write(store, position, data), position, len, k)
            =~= data.subrange(0, chunk_end(position, len, k)));
    } else {
        assert(data.subrange(0, 0) =~= Seq::<u8>::empty());
    }
}

/// A read of the range just written returns the written bytes, wherever
/// the write starts, when the blocks held are no longer than a block.
pub proof fn read_after_write_returns_data(store: Map<u64, Seq<u8>>, position: u64, data: Seq<u8>)
    requires
        position + data.len() <= u64::MAX,
        data.len() <= usize::MAX,
        forall|b: u64| #[trigger] store.dom().contains(b) ==> store[b].len() <= 4096,
    ensures
        read_range(store_after_write(store, position as int, data), position as int, data.len() as int) == data,
{
    let len = data.len() as int;
    if len == 0 {
        assert(data =~= Seq::<u8>::empty());
    } else {
        let n = num_chunks(position as int, len);
        assert(read_end_block(position as int, len) - position / 4096 == n);
        lemma_read_acc(store, position as int, data, n);
        let first = position / 4096;
        let need = (position + len + 4095) / 4096;
        assert(position + len <= need * 4096) by (nonlinear_arith)
            requires need == (position + len + 4095) / 4096, position + len >= 0;
        assert(chunk_end(position as int, len, n) == len);
        assert(data.subrange(0, len) =~= data);
    }
}

/// Bytes counted as stored by the first `k` chunks of a write.
proof fn lemma_written(store: Map<u64, Seq<u8>>, position: int, data: Seq<u8>, k: int)
    requires
        0 <= position,
        position + data.len() <= u64::MAX,
        data.len() <= usize::MAX,
        0 <= k <= num_chunks(position, data.len() as int),
    ensures
        written_after_chunks(store, position, data, k) == chunk_end(position, data.len() as int, k),
    decreases k,
{
    let len = data.len() as int;
    if k > 0 {
        lemma_written(store, position, data, k - 1);
        lemma_chunk_shape(position, len, k - 1);
        let s = store_after_chunks(store, position, data, k - 1);
        let cw = chunk_write_spec(position, len, k - 1);
        assert(base_block(stored(s, cw.block_id)).len() >= 4096);
    }
}

/// A write reports every byte of the buffer as written.
pub proof fn write_stores_every_byte(store: Map<u64, Seq<u8>>, position: u64, data: Seq<u8>)
    requires
        position + data.len() <= u64::MAX,
        data.len() <= usize::MAX,
    ensures
        written_after_chunks(store, position as int, data, num_chunks(position as int, data.len() as int)) == data.len(),
{
    let len = data.len() as int;
    let n = num_chunks(position as int, len);
    lemma_written(store, position as int, data, n);
    if len > 0 {
        let need = (position + len + 4095) / 4096;
        assert(position + len <= need * 4096) by (nonlinear_arith)
            requires need == (position + len + 4095) / 4096, position + len >= 0;
    }
}

/// Blocks outside the range a write covers keep their contents.
pub proof fn write_leaves_other_blocks(store: Map<u64, Seq<u8>>, position: u64, data: Seq<u8>, b: u64)
    requires
        position + data.len() <= u64::MAX,
        data.len() <= usize::MAX,
        !(position / 4096 <= b < position / 4096 + num_chunks(position as int, data.len() as int)),
    ensures
        stored(store_after_write(store, position as int, data), b) == stored(store, b),
{
    lemma_other_blocks(store, position as int, data, num_chunks(position as int, data.len() as int), b);
}

proof fn lemma_other_blocks(store: Map<u64, Seq<u8>>, position: int, data: Seq<u8>, k: int, b: u64)
    requires
        0 <= position,
        position + data.len() <= u64::MAX,
        data.len() <= usize::MAX,
        0 <= k <= num_chunks(position, data.len() as int),
        !(position / 4096 <= b < position / 4096 + num_chunks(position, data.len() as int)),
    ensures
        stored(store_after_chunks(store, position, data, k), b) == stored(store, b),
    decreases k,
{
    if k > 0 {
        lemma_other_blocks(store, position, data, k - 1, b);
        lemma_chunk_shape(position, data.len() as int, k - 1);
    }
}

} // verus!
