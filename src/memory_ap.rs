use vstd::prelude::*;

verus! {

/// Size in bytes of the window in which the access port increments its transfer
/// address by itself.
pub const AUTO_INCREMENT_WINDOW: u32 = 1024;

/// Failures of a memory access through an access port.
#[derive(Debug, Clone, Copy, PartialEq, Eq, Structural)]
pub enum AccessPortError {
    /// The access port is not there.
    NotPresent,
    /// The transfer faulted on the bus.
    Fault,
    /// A word transfer was asked for at an address that is not a multiple of four.
    AlignmentError,
}

/// One transfer of `count` words of a block, `offset` words into the block, that the
/// access port can make in one run of its address auto-increment.
#[derive(Debug, Clone, Copy, PartialEq, Eq, Structural)]
pub struct BlockChunk {
    pub address: u32,
    pub offset: usize,
    pub count: usize,
}

/// The address after the last word of the chunk.
pub open spec fn chunk_end(c: BlockChunk) -> int {
    c.address + 4 * c.count
}

/// `chunks` cut the block of `count` words at `address` in order, without gaps, each
/// within one auto-increment window, and each one but the last up to the end of its
/// window.
pub open spec fn is_split(address: int, count: int, chunks: Seq<BlockChunk>) -> bool {
    &&& (count == 0) == (chunks.len() == 0)
    &&& chunks.len() > 0 ==> chunks[0].offset == 0
    &&& chunks.len() > 0 ==> chunks.last().offset + chunks.last().count == count
    &&& forall|i: int|
        0 <= i < chunks.len() - 1 ==> #[trigger] chunks[i + 1].offset == chunks[i].offset
            + chunks[i].count
    &&& forall|i: int|
        0 <= i < chunks.len() ==> {
            &&& (#[trigger] chunks[i]).count > 0
            &&& chunks[i].address == address + 4 * chunks[i].offset
            &&& chunks[i].address / 1024 == (chunk_end(chunks[i]) - 1) / 1024
            &&& i < chunks.len() - 1 ==> chunk_end(chunks[i]) % 1024 == 0
        }
}

/// Cuts a block transfer of `count` words at `address` where it would cross an
/// auto-increment window.
pub fn split_block32(address: u32, count: usize) -> (r: Result<Vec<BlockChunk>, AccessPortError>)
    requires
        address + 4 * count <= 0x1_0000_0000,
    ensures
        address % 4 != 0 ==> r == Err::<Vec<BlockChunk>, AccessPortError>(
            AccessPortError::AlignmentError,
        ),
        address % 4 == 0 ==> (r matches Ok(chunks) && is_split(address as int, count as int, chunks@)),
{
    if address % 4 != 0 {
        return Err(AccessPortError::AlignmentError);
    }
    let mut chunks: Vec<BlockChunk> = Vec::new();
    let mut pos: usize = 0;
    while pos < count
        invariant
            address % 4 == 0,
            address + 4 * count <= 0x1_0000_0000,
            pos <= count,
            (pos == 0) == (chunks@.len() == 0),
            chunks@.len() > 0 ==> chunks@[0].offset == 0,
            chunks@.len() > 0 ==> chunks@.last().offset + chunks@.last().count == pos,
            chunks@.len() > 0 && pos < count ==> chunk_end(chunks@.last()) % 1024 == 0,
            forall|i: int|
                0 <= i < chunks@.len() - 1 ==> #[trigger] chunks@[i + 1].offset == chunks@[i].offset
                    + chunks@[i].count,
            forall|i: int|
                0 <= i < chunks@.len() ==> {
                    &&& (#[trigger] chunks@[i]).count > 0
                    &&& chunks@[i].address == address + 4 * chunks@[i].offset
                    &&& chunks@[i].address / 1024 == (chunk_end(chunks@[i]) - 1) / 1024
                    &&& i < chunks@.len() - 1 ==> chunk_end(chunks@[i]) % 1024 == 0
                },
        decreases count - pos,
    {
        let addr: u64 = address as u64 + 4 * pos as u64;
        let room: u64 = (1024 - addr % 1024) / 4;
        let left: u64 = (count - pos) as u64;
        let take: u64 = if room < left {
            room
        } else {
            left
        };
        assert(addr % 4 == 0);
        assert(room >= 1);
        let chunk = BlockChunk { address: addr as u32, offset: pos, count: take as usize };
        assert(addr / 1024 == (addr + 4 * take - 1) / 1024);
        assert(take < left ==> (addr + 4 * take) % 1024 == 0);
        let ghost before = chunks@;
        chunks.push(chunk);
        assert(chunks@.len() > 1 ==> chunks@[chunks@.len() - 2] == before.last());
        pos = pos + take as usize;
    }
    Ok(chunks)
}

/// The chunk's transfer touches the word at address `a`.
pub open spec fn chunk_holds(c: BlockChunk, a: int) -> bool {
    c.address <= a < chunk_end(c) && (a - c.address) % 4 == 0
}

/// Memory, as words by address, after the chunk's transfer wrote its part of `xs`.
pub open spec fn write_chunk(mem: Map<int, u32>, c: BlockChunk, xs: Seq<u32>) -> Map<int, u32> {
    Map::new(
        |a: int| mem.dom().contains(a) || chunk_holds(c, a),
        |a: int|
            if chunk_holds(c, a) {
                xs[c.offset + (a - c.address) / 4]
            } else {
                mem[a]
            },
    )
}

/// Memory after the chunks' transfers wrote `xs`, one chunk after the other.
pub open spec fn write_chunks(mem: Map<int, u32>, chunks: Seq<BlockChunk>, xs: Seq<u32>) -> Map<
    int,
    u32,
>
    decreases chunks.len(),
{
    if chunks.len() == 0 {
        mem
    } else {
        write_chunk(write_chunks(mem, chunks.drop_last(), xs), chunks.last(), xs)
    }
}

/// The words that the chunk's transfer reads.
pub open spec fn read_chunk(mem: Map<int, u32>, c: BlockChunk) -> Seq<u32> {
    Seq::new(c.count as nat, |j: int| mem[c.address + 4 * j])
}

/// The words that the chunks' transfers read, in order.
pub open spec fn read_chunks(mem: Map<int, u32>, chunks: Seq<BlockChunk>) -> Seq<u32>
    decreases chunks.len(),
{
    if chunks.len() == 0 {
        Seq::empty()
    } else {
        read_chunks(mem, chunks.drop_last()) + read_chunk(mem, chunks.last())
    }
}

/// The number of words that the first `m` chunks carry.
pub open spec fn prefix_end(chunks: Seq<BlockChunk>, m: int) -> int {
    if m == 0 {
        0
    } else {
        chunks[m - 1].offset + chunks[m - 1].count
    }
}

/// Memory holds word `k` of `xs` at `address + 4k`, for each `k` below `end`.
pub open spec fn holds_words(mem: Map<int, u32>, address: int, xs: Seq<u32>, end: int) -> bool {
    forall|k: int| 0 <= k < end ==> #[trigger] holds_word(mem, address, xs, k)
}

/// Memory holds word `k` of `xs` at `address + 4k`.
pub open spec fn holds_word(mem: Map<int, u32>, address: int, xs: Seq<u32>, k: int) -> bool {
    mem.dom().contains(address + 4 * k) && mem[address + 4 * k] == xs[k]
}

proof fn lemma_holds_word(mem: Map<int, u32>, address: int, xs: Seq<u32>, end: int, k: int)
    requires
        holds_words(mem, address, xs, end),
        0 <= k < end,
    ensures
        mem.dom().contains(address + 4 * k),
        mem[address + 4 * k] == xs[k],
{
    assert(holds_word(mem, address, xs, k));
}

proof fn lemma_prefix_offset(address: int, count: int, chunks: Seq<BlockChunk>, m: int)
    requires
        is_split(address, count, chunks),
        0 < m <= chunks.len(),
    ensures
        chunks[m - 1].offset == prefix_end(chunks, m - 1),
{
    if m >= 2 {
        assert(chunks[(m - 2) + 1].offset == chunks[m - 2].offset + chunks[m - 2].count);
    }
}

proof fn lemma_write_prefix(
    mem: Map<int, u32>,
    address: int,
    xs: Seq<u32>,
    chunks: Seq<BlockChunk>,
    m: int,
)
    requires
        is_split(address, xs.len() as int, chunks),
        0 <= m <= chunks.len(),
    ensures
        holds_words(write_chunks(mem, chunks.subrange(0, m), xs), address, xs, prefix_end(chunks, m)),
    decreases m,
{
    if m > 0 {
        lemma_write_prefix(mem, address, xs, chunks, m - 1);
        lemma_prefix_offset(address, xs.len() as int, chunks, m);
        lemma_prefix_le_count(address, xs.len() as int, chunks, m);
        let pre = chunks.subrange(0, m);
        assert(pre.drop_last() =~= chunks.subrange(0, m - 1));
        let c = chunks[m - 1];
        assert(pre.last() == c);
        let w0 = write_chunks(mem, chunks.subrange(0, m - 1), xs);
        assert(write_chunks(mem, pre, xs) == write_chunk(w0, c, xs));
        lemma_write_step(w0, c, address, xs, prefix_end(chunks, m - 1));
    }
}

proof fn lemma_write_step(w0: Map<int, u32>, c: BlockChunk, address: int, xs: Seq<u32>, end0: int)
    requires
        holds_words(w0, address, xs, end0),
        c.offset == end0,
        c.address == address + 4 * c.offset,
        end0 + c.count <= xs.len(),
    ensures
        holds_words(write_chunk(w0, c, xs), address, xs, end0 + c.count),
{
    let w = write_chunk(w0, c, xs);
    let end = end0 + c.count;
    assert forall|k: int| 0 <= k < end implies #[trigger] holds_word(w, address, xs, k) by {
        let a = address + 4 * k;
        if k >= c.offset {
            assert(a - c.address == 4 * (k - c.offset));
            assert(chunk_holds(c, a));
            assert((a - c.address) / 4 == k - c.offset);
        } else {
            assert(!chunk_holds(c, a));
            lemma_holds_word(w0, address, xs, end0, k);
        }
    }
}

proof fn lemma_read_prefix(
    mem: Map<int, u32>,
    address: int,
    xs: Seq<u32>,
    chunks: Seq<BlockChunk>,
    m: int,
)
    requires
        is_split(address, xs.len() as int, chunks),
        0 <= m <= chunks.len(),
        holds_words(mem, address, xs, xs.len() as int),
    ensures
        read_chunks(mem, chunks.subrange(0, m)) == xs.subrange(0, prefix_end(chunks, m)),
    decreases m,
{
    if m == 0 {
        assert(xs.subrange(0, 0) =~= Seq::<u32>::empty());
    } else {
        lemma_read_prefix(mem, address, xs, chunks, m - 1);
        lemma_prefix_offset(address, xs.len() as int, chunks, m);
        lemma_prefix_le_count(address, xs.len() as int, chunks, m);
        let pre = chunks.subrange(0, m);
        assert(pre.drop_last() =~= chunks.subrange(0, m - 1));
        let c = chunks[m - 1];
        assert(pre.last() == c);
        assert forall|j: int| 0 <= j < c.count implies #[trigger] read_chunk(mem, c)[j] == xs[c.offset
            + j] by {
            assert(c.address + 4 * j == address + 4 * (c.offset + j));
            lemma_holds_word(mem, address, xs, xs.len() as int, c.offset + j);
        }
        assert(read_chunks(mem, pre) =~= xs.subrange(0, prefix_end(chunks, m)));
    }
}

proof fn lemma_prefix_le_count(address: int, count: int, chunks: Seq<BlockChunk>, m: int)
    requires
        is_split(address, count, chunks),
        0 <= m <= chunks.len(),
    ensures
        prefix_end(chunks, m) <= count,
    decreases chunks.len() - m,
{
    if m > 0 && m < chunks.len() {
        lemma_prefix_le_count(address, count, chunks, m + 1);
        assert(chunks[(m - 1) + 1].offset == chunks[m - 1].offset + chunks[m - 1].count);
    }
}

/// Writing a block of words by its chunks and reading it back by the same chunks
/// gives the words written, whatever memory held before.
pub proof fn lemma_block_write_read(
    mem: Map<int, u32>,
    address: int,
    xs: Seq<u32>,
    chunks: Seq<BlockChunk>,
)
    requires
        is_split(address, xs.len() as int, chunks),
    ensures
        read_chunks(write_chunks(mem, chunks, xs), chunks) == xs,
{
    let n = chunks.len() as int;
    assert(chunks.subrange(0, n) =~= chunks);
    lemma_write_prefix(mem, address, xs, chunks, n);
    assert(prefix_end(chunks, n) == xs.len());
    let w = write_chunks(mem, chunks, xs);
    lemma_read_prefix(w, address, xs, chunks, n);
    assert(xs.subrange(0, xs.len() as int) =~= xs);
}

} // verus!
