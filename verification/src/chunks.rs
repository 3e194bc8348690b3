//! How a device is cut into chunks.

use vstd::prelude::*;

verus! {

/// The size of a device and the size of the chunks that it is scanned in, both in bytes.
#[derive(Debug, Clone, Copy)]
pub struct Geometry {
    pub size: u64,
    pub chunk_size: usize,
}

impl Geometry {
    /// Whether the chunks of the device can be counted: they are not empty, and the size rounded
    /// up to whole chunks is within the range of offsets.
    pub open spec fn valid(self) -> bool {
        &&& self.chunk_size > 0
        &&& self.size + self.chunk_size - 1 <= u64::MAX
    }

    /// The number of chunks. A device of size zero has one chunk, which is empty.
    pub open spec fn chunks(self) -> int {
        let whole = (self.size + self.chunk_size - 1) / (self.chunk_size as int);
        if whole < 1 {
            1
        } else {
            whole
        }
    }

    /// The offset on the device of chunk `idx`.
    pub open spec fn offset(self, idx: int) -> int {
        idx * self.chunk_size
    }

    /// The length of chunk `idx`: the chunk size, or what is left of the device.
    pub open spec fn len(self, idx: int) -> int {
        let left = self.size - self.offset(idx);
        if left < 0 {
            0
        } else if left < self.chunk_size {
            left
        } else {
            self.chunk_size as int
        }
    }

    /// The sum of the lengths of the first `n` chunks.
    pub open spec fn bytes_before(self, n: int) -> int
        decreases n,
    {
        if n <= 0 {
            0
        } else {
            self.bytes_before(n - 1) + self.len(n - 1)
        }
    }

    /// Whether the chunks of the device can be counted.
    pub fn is_valid(&self) -> (ok: bool)
        ensures
            ok == self.valid(),
    {
        self.chunk_size > 0 && self.size <= u64::MAX - (self.chunk_size as u64 - 1)
    }

    /// The number of chunks.
    pub fn total_chunks(&self) -> (total: u64)
        requires
            self.valid(),
        ensures
            total == self.chunks(),
    {
        let chunk_size: u64 = self.chunk_size as u64;
        let whole: u64 = (self.size + (chunk_size - 1)) / chunk_size;
        if whole < 1 {
            1
        } else {
            whole
        }
    }

    /// The offset of chunk `idx`.
    pub fn chunk_offset(&self, idx: u64) -> (offset: u64)
        requires
            self.valid(),
            idx < self.chunks(),
        ensures
            offset == self.offset(idx as int),
    {
        proof {
            lemma_offset_within(*self, idx as int);
        }
        idx * self.chunk_size as u64
    }

    /// The length of chunk `idx`.
    pub fn chunk_len(&self, idx: u64) -> (len: usize)
        requires
            self.valid(),
            idx < self.chunks(),
        ensures
            len == self.len(idx as int),
    {
        let offset: u64 = self.chunk_offset(idx);
        let left: u64 = self.size.saturating_sub(offset);
        if left < self.chunk_size as u64 {
            left as usize
        } else {
            self.chunk_size
        }
    }
}

/// No chunk starts behind the end of the device, and none but that of an empty device at it.
pub proof fn lemma_offset_within(g: Geometry, idx: int)
    requires
        g.valid(),
        0 <= idx < g.chunks(),
    ensures
        0 <= g.offset(idx) <= g.size,
        g.size > 0 ==> g.offset(idx) < g.size,
{
    let cs = g.chunk_size as int;
    let whole = (g.size + cs - 1) / cs;
    assert(whole * cs <= g.size + cs - 1) by (nonlinear_arith)
        requires
            cs > 0,
            whole == (g.size + cs - 1) / cs,
    ;
    if g.size == 0 {
        assert(whole < 1) by (nonlinear_arith)
            requires
                cs > 0,
                whole == (0 + cs - 1) / cs,
        ;
        assert(idx == 0);
        assert(0 * cs == 0);
    } else {
        assert(whole >= 1) by (nonlinear_arith)
            requires
                cs > 0,
                g.size >= 1,
                whole == (g.size + cs - 1) / cs,
        ;
        assert(idx * cs <= (whole - 1) * cs) by (nonlinear_arith)
            requires
                cs > 0,
                idx <= whole - 1,
        ;
        assert((whole - 1) * cs == whole * cs - cs) by (nonlinear_arith);
        assert(0 <= idx * cs) by (nonlinear_arith)
            requires
                cs > 0,
                idx >= 0,
        ;
    }
}

/// Every chunk but the last has the full chunk size, and the last ends with the device.
pub proof fn lemma_chunk_end(g: Geometry, idx: int)
    requires
        g.valid(),
        0 <= idx < g.chunks(),
    ensures
        idx + 1 < g.chunks() ==> g.len(idx) == g.chunk_size,
        idx + 1 < g.chunks() ==> g.offset(idx) + g.len(idx) == g.offset(idx + 1),
        idx + 1 == g.chunks() ==> g.offset(idx) + g.len(idx) == g.size,
{
    let cs = g.chunk_size as int;
    lemma_offset_within(g, idx);
    assert((idx + 1) * cs == idx * cs + cs) by (nonlinear_arith);
    if idx + 1 < g.chunks() {
        lemma_offset_within(g, idx + 1);
    } else {
        let whole = (g.size + cs - 1) / cs;
        assert(g.size + cs - 1 < (whole + 1) * cs) by (nonlinear_arith)
            requires
                cs > 0,
                whole == (g.size + cs - 1) / cs,
        ;
        assert((whole + 1) * cs == whole * cs + cs) by (nonlinear_arith);
        if whole < 1 {
            assert(whole * cs <= 0) by (nonlinear_arith)
                requires
                    cs > 0,
                    whole <= 0,
            ;
        }
    }
}

/// The chunks tile the device: every byte of it lies in one chunk and in no other.
pub proof fn law_chunks_tile_the_device(g: Geometry, position: int)
    requires
        g.valid(),
        0 <= position < g.size,
    ensures
        ({
            let idx = position / (g.chunk_size as int);
            &&& 0 <= idx < g.chunks()
            &&& g.offset(idx) <= position < g.offset(idx) + g.len(idx)
        }),
        forall|idx: int|
            0 <= idx < g.chunks() && g.offset(idx) <= position < #[trigger] g.offset(idx) + g.len(
                idx,
            ) ==> idx == position / (g.chunk_size as int),
{
    let cs = g.chunk_size as int;
    let idx = position / cs;
    let whole = (g.size + cs - 1) / cs;
    assert(idx * cs <= position < (idx + 1) * cs && 0 <= idx) by (nonlinear_arith)
        requires
            cs > 0,
            position >= 0,
            idx == position / cs,
    ;
    assert((idx + 1) * cs == idx * cs + cs) by (nonlinear_arith);
    assert(g.size + cs - 1 < (whole + 1) * cs) by (nonlinear_arith)
        requires
            cs > 0,
            whole == (g.size + cs - 1) / cs,
    ;
    assert((whole + 1) * cs == whole * cs + cs) by (nonlinear_arith);
    if idx >= g.chunks() {
        assert(idx * cs >= whole * cs) by (nonlinear_arith)
            requires
                cs > 0,
                idx >= whole,
        ;
    }
    assert forall|other: int|
        0 <= other < g.chunks() && g.offset(other) <= position < #[trigger] g.offset(other) + g.len(
            other,
        ) implies other == idx by {
        assert(other * cs <= position < other * cs + cs);
        assert((other + 1) * cs == other * cs + cs) by (nonlinear_arith);
        assert(other == idx) by (nonlinear_arith)
            requires
                cs > 0,
                other * cs <= position < (other + 1) * cs,
                idx * cs <= position < (idx + 1) * cs,
        ;
    }
}

/// The chunks follow each other without gaps: before chunk `n` lie exactly the bytes of the
/// chunks in front of it, and all chunks together have the size of the device.
pub proof fn law_chunk_lengths_add_up(g: Geometry, n: int)
    requires
        g.valid(),
        0 <= n <= g.chunks(),
    ensures
        n < g.chunks() ==> g.bytes_before(n) == g.offset(n),
        n == g.chunks() ==> g.bytes_before(n) == g.size,
    decreases n,
{
    if n > 0 {
        law_chunk_lengths_add_up(g, n - 1);
        lemma_chunk_end(g, n - 1);
    }
}

/// A device can be scanned unless its chunks are empty or the end of the last whole chunk has no
/// offset.
pub proof fn law_countable_devices(g: Geometry, ok: bool)
    requires
        call_ensures(Geometry::is_valid, (&g,), ok),
    ensures
        ok == g.valid(),
        !ok <==> g.chunk_size == 0 || g.size + g.chunk_size > u64::MAX + 1,
{
}

/// There are as many chunks as it takes: those of a device reach its end, and one less would not.
/// An empty device has one.
pub proof fn law_as_many_chunks_as_it_takes(g: Geometry, total: u64)
    requires
        g.valid(),
        call_ensures(Geometry::total_chunks, (&g,), total),
    ensures
        total >= 1,
        total * g.chunk_size >= g.size,
        g.size > 0 ==> (total - 1) * g.chunk_size < g.size,
        g.size == 0 ==> total == 1,
        total == g.chunks(),
{
    let n = total as int;
    lemma_offset_within(g, n - 1);
    lemma_chunk_end(g, n - 1);
    assert(n * g.chunk_size == (n - 1) * g.chunk_size + g.chunk_size) by (nonlinear_arith);
    if g.size == 0 {
        let cs = g.chunk_size as int;
        assert((0 + cs - 1) / cs < 1) by (nonlinear_arith)
            requires
                cs > 0,
        ;
    }
}

/// Each chunk lies behind so many whole chunks and is whole itself, but for the last one, which
/// ends with the device.
pub proof fn law_chunks_are_whole_but_for_the_last(
    g: Geometry,
    idx: u64,
    total: u64,
    offset: u64,
    len: usize,
)
    requires
        g.valid(),
        call_ensures(Geometry::total_chunks, (&g,), total),
        idx < total,
        call_ensures(Geometry::chunk_offset, (&g, idx), offset),
        call_ensures(Geometry::chunk_len, (&g, idx), len),
    ensures
        offset == idx * g.chunk_size,
        idx + 1 < total ==> len == g.chunk_size,
        idx + 1 == total ==> offset + len == g.size,
        offset == g.offset(idx as int),
        len == g.len(idx as int),
{
    lemma_chunk_end(g, idx as int);
}

} // verus!
