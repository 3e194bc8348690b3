//! What the two passes of a scan find out about a device.
//!
//! A device is modelled as the sequence of its bytes.

use crate::chunks::Geometry;
use crate::event::{ErrorKind, ErrorView};
use crate::pattern::PATTERN_SEED;
use crate::scan::{ReadJob, WriteJob};
use vstd::prelude::*;

verus! {

/// The bytes of a device after `data` was written at `offset`.
pub open spec fn stored(device: Seq<u8>, offset: int, data: Seq<u8>) -> Seq<u8> {
    Seq::new(
        device.len(),
        |i: int|
            if offset <= i < offset + data.len() {
                data[i - offset]
            } else {
                device[i]
            },
    )
}

/// The bytes of a device after its first `n` chunks were written.
pub open spec fn after_writes(device: Seq<u8>, g: Geometry, n: int) -> Seq<u8>
    decreases n,
{
    if n <= 0 {
        device
    } else {
        stored(
            after_writes(device, g, n - 1),
            g.offset(n - 1),
            crate::scan::chunk_bytes(g, n - 1),
        )
    }
}

/// The bytes of chunk `idx` on a device.
pub open spec fn chunk_of(device: Seq<u8>, g: Geometry, idx: int) -> Seq<u8> {
    device.subrange(g.offset(idx), g.offset(idx) + g.len(idx))
}

/// What is read back of a chunk has to be what was written to it, at the same place: the pattern
/// is the same in both passes, whatever happened to other chunks.
pub proof fn law_read_expects_what_was_written(g: Geometry, write: WriteJob, read: ReadJob)
    requires
        g.valid(),
        write.is_for(g),
        read.is_for(g),
        write.chunk_idx == read.chunk_idx,
    ensures
        read.offset == write.offset,
        read.expected@ == write.data@,
{
}

/// A chunk that was read is without error if and only if it came back byte for byte as it was
/// written. Any difference is an error of its value, with the number and the offset of the chunk.
pub proof fn law_verdict_is_exact(g: Geometry, write: WriteJob, read: ReadJob, data: Vec<u8>)
    requires
        g.valid(),
        write.is_for(g),
        read.is_for(g),
        write.chunk_idx == read.chunk_idx,
    ensures
        crate::scan::read_verdict(read, Ok(data)) is None <==> data@ == write.data@,
        data@ != write.data@ ==> crate::scan::read_verdict(read, Ok(data)) == Some(
            ErrorView {
                chunk_idx: write.chunk_idx,
                offset: write.offset,
                kind: ErrorKind::Value,
                message: "mismatched bytes"@,
            },
        ),
{
}

proof fn lemma_after_writes(device: Seq<u8>, g: Geometry, n: int, idx: int)
    requires
        g.valid(),
        device.len() == g.size,
        0 <= n <= g.chunks(),
        0 <= idx < n,
    ensures
        after_writes(device, g, n).len() == g.size,
        0 <= g.offset(idx),
        g.offset(idx) + g.len(idx) <= g.size,
        chunk_of(after_writes(device, g, n), g, idx) == crate::scan::chunk_bytes(g, idx),
    decreases n,
{
    crate::chunks::lemma_offset_within(g, idx);
    crate::chunks::lemma_offset_within(g, n - 1);
    lemma_after_writes_len(device, g, n);
    lemma_after_writes_len(device, g, n - 1);
    let before = after_writes(device, g, n - 1);
    let after = after_writes(device, g, n);
    if idx == n - 1 {
        assert(chunk_of(after, g, idx) =~= crate::scan::chunk_bytes(g, idx));
    } else {
        lemma_after_writes(device, g, n - 1, idx);
        assert(g.offset(idx) + g.len(idx) <= g.offset(n - 1)) by {
            crate::chunks::lemma_chunk_end(g, idx);
            assert((idx + 1) * g.chunk_size <= (n - 1) * g.chunk_size) by (nonlinear_arith)
                requires
                    idx + 1 <= n - 1,
                    g.chunk_size > 0,
            ;
        }
        assert(chunk_of(after, g, idx) =~= chunk_of(before, g, idx));
    }
}

proof fn lemma_after_writes_len(device: Seq<u8>, g: Geometry, n: int)
    ensures
        after_writes(device, g, n).len() == device.len(),
    decreases n,
{
    if n > 0 {
        lemma_after_writes_len(device, g, n - 1);
    }
}

/// A device that keeps what is written to it passes: once all its chunks were written, each of
/// them reads back as expected.
pub proof fn law_sound_device_passes(device: Seq<u8>, g: Geometry, read: ReadJob, data: Vec<u8>)
    requires
        g.valid(),
        device.len() == g.size,
        read.is_for(g),
        data@ == chunk_of(after_writes(device, g, g.chunks()), g, read.chunk_idx as int),
    ensures
        crate::scan::read_verdict(read, Ok(data)) is None,
{
    lemma_after_writes(device, g, g.chunks(), read.chunk_idx as int);
}

/// Every byte is verified: if every chunk of what is found on a device reads back as expected,
/// then all of it is what the write pass left there.
pub proof fn law_every_byte_is_verified(device: Seq<u8>, found: Seq<u8>, g: Geometry)
    requires
        g.valid(),
        device.len() == g.size,
        found.len() == g.size,
    ensures
        found == after_writes(device, g, g.chunks()) <==> (forall|idx: int|
            0 <= idx < g.chunks() ==> #[trigger] chunk_of(found, g, idx)
                == crate::scan::chunk_bytes(g, idx)),
{
    let full = after_writes(device, g, g.chunks());
    lemma_after_writes_len(device, g, g.chunks());
    assert forall|idx: int| 0 <= idx < g.chunks() implies #[trigger] chunk_of(full, g, idx)
        == crate::scan::chunk_bytes(g, idx) by {
        lemma_after_writes(device, g, g.chunks(), idx);
    }
    if forall|idx: int|
        0 <= idx < g.chunks() ==> #[trigger] chunk_of(found, g, idx) == crate::scan::chunk_bytes(
            g,
            idx,
        ) {
        assert forall|i: int| 0 <= i < g.size implies #[trigger] found[i] == full[i] by {
            crate::chunks::law_chunks_tile_the_device(g, i);
            let idx = i / (g.chunk_size as int);
            crate::chunks::lemma_chunk_end(g, idx);
            lemma_after_writes(device, g, g.chunks(), idx);
            assert(chunk_of(found, g, idx) == chunk_of(full, g, idx));
            assert(found[i] == chunk_of(found, g, idx)[i - g.offset(idx)]);
            assert(full[i] == chunk_of(full, g, idx)[i - g.offset(idx)]);
        }
        assert(found =~= full);
    }
}

/// An altered byte is found: if the device gives back another byte at `position` than the write
/// pass left there, the chunk that holds the position has an error of its value.
pub proof fn law_altered_byte_is_reported(
    device: Seq<u8>,
    found: Seq<u8>,
    g: Geometry,
    position: int,
    read: ReadJob,
    data: Vec<u8>,
)
    requires
        g.valid(),
        device.len() == g.size,
        found.len() == g.size,
        0 <= position < g.size,
        found[position] != after_writes(device, g, g.chunks())[position],
        read.is_for(g),
        read.offset <= position < read.offset + g.len(read.chunk_idx as int),
        data@ == chunk_of(found, g, read.chunk_idx as int),
    ensures
        crate::scan::read_verdict(read, Ok(data)) == Some(
            ErrorView {
                chunk_idx: read.chunk_idx,
                offset: read.offset,
                kind: ErrorKind::Value,
                message: "mismatched bytes"@,
            },
        ),
{
    let idx = read.chunk_idx as int;
    let full = after_writes(device, g, g.chunks());
    lemma_after_writes(device, g, g.chunks(), idx);
    assert(found[position] == chunk_of(found, g, idx)[position - g.offset(idx)]);
    assert(full[position] == chunk_of(full, g, idx)[position - g.offset(idx)]);
}

/// The byte of the pattern at `position`.
pub open spec fn pattern_byte(g: Geometry, position: int) -> u8 {
    let idx = position / (g.chunk_size as int);
    crate::scan::chunk_bytes(g, idx)[position - g.offset(idx)]
}

/// Chunks that could not be written hide nothing of the others: whatever these chunks hold, the
/// other ones read back as expected if and only if each of their bytes is that of the pattern.
pub proof fn law_failed_chunks_hide_no_other(found: Seq<u8>, g: Geometry, failed: Set<u64>)
    requires
        g.valid(),
        found.len() == g.size,
    ensures
        (forall|idx: int|
            0 <= idx < g.chunks() && !failed.contains(idx as u64) ==> #[trigger] chunk_of(
                found,
                g,
                idx,
            ) == crate::scan::chunk_bytes(g, idx)) <==> (forall|position: int|
            0 <= position < g.size && !failed.contains(
                (position / (g.chunk_size as int)) as u64,
            ) ==> #[trigger] found[position] == pattern_byte(g, position)),
{
    let bytes_match = forall|position: int|
        0 <= position < g.size && !failed.contains((position / (g.chunk_size as int)) as u64)
            ==> #[trigger] found[position] == pattern_byte(g, position);
    let chunks_match = forall|idx: int|
        0 <= idx < g.chunks() && !failed.contains(idx as u64) ==> #[trigger] chunk_of(found, g, idx)
            == crate::scan::chunk_bytes(g, idx);
    if chunks_match {
        assert forall|position: int|
            0 <= position < g.size && !failed.contains(
                (position / (g.chunk_size as int)) as u64,
            ) implies #[trigger] found[position] == pattern_byte(g, position) by {
            let idx = position / (g.chunk_size as int);
            crate::chunks::law_chunks_tile_the_device(g, position);
            crate::chunks::lemma_offset_within(g, idx);
            assert(found[position] == chunk_of(found, g, idx)[position - g.offset(idx)]);
        }
    }
    if bytes_match {
        assert forall|idx: int| 0 <= idx < g.chunks() && !failed.contains(idx as u64) implies (
        #[trigger] chunk_of(found, g, idx)) == crate::scan::chunk_bytes(g, idx) by {
            crate::chunks::lemma_offset_within(g, idx);
            let chunk = chunk_of(found, g, idx);
            assert forall|i: int| 0 <= i < g.len(idx) implies #[trigger] chunk[i]
                == crate::scan::chunk_bytes(g, idx)[i] by {
                let position = g.offset(idx) + i;
                crate::chunks::law_chunks_tile_the_device(g, position);
                assert(g.offset(idx) <= position < g.offset(idx) + g.len(idx));
                assert(chunk[i] == found[position]);
            }
            assert(chunk =~= crate::scan::chunk_bytes(g, idx));
        }
    }
}

/// With a chunk size of whole words the pattern is one stream over the whole device: its byte at
/// `position` is byte `position` of the generator's output, wherever the chunks begin.
pub proof fn law_pattern_is_one_stream(g: Geometry, idx: int, i: int)
    requires
        g.valid(),
        g.chunk_size % 8 == 0,
        0 <= idx < g.chunks(),
        0 <= i < g.len(idx),
    ensures
        ({
            let position = g.offset(idx) + i;
            crate::scan::chunk_bytes(g, idx)[i] == crate::pattern::byte_of(
                crate::pattern::seeded_word(PATTERN_SEED, (position / 8) as nat) as nat,
                (position % 8) as nat,
            )
        }),
{
    let words = crate::pattern::words_for(g.chunk_size as nat);
    assert(words == g.chunk_size as int / 8 && g.chunk_size == 8 * words);
    assert(idx * words >= 0) by (nonlinear_arith)
        requires
            idx >= 0,
            words >= 0,
    ;
    assert(g.offset(idx) == 8 * (idx * words)) by (nonlinear_arith)
        requires
            g.chunk_size == 8 * words,
            g.offset(idx) == idx * g.chunk_size,
    ;
    let position = g.offset(idx) + i;
    assert(position / 8 == idx * words + i / 8);
    assert(position % 8 == i % 8);
}

/// Whether the size of the chunks is chosen one way or the other makes no difference to what is
/// written, as long as chunks are whole words.
pub proof fn law_pattern_does_not_depend_on_chunk_size(
    a: Geometry,
    b: Geometry,
    device: Seq<u8>,
)
    requires
        a.valid(),
        b.valid(),
        a.size == b.size,
        a.chunk_size % 8 == 0,
        b.chunk_size % 8 == 0,
        device.len() == a.size,
    ensures
        after_writes(device, a, a.chunks()) == after_writes(device, b, b.chunks()),
{
    lemma_after_writes_len(device, a, a.chunks());
    lemma_after_writes_len(device, b, b.chunks());
    assert forall|p: int| 0 <= p < a.size implies #[trigger] after_writes(device, a, a.chunks())[p]
        == after_writes(device, b, b.chunks())[p] by {
        lemma_byte_after_writes(device, a, p);
        lemma_byte_after_writes(device, b, p);
    }
    assert(after_writes(device, a, a.chunks()) =~= after_writes(device, b, b.chunks()));
}

proof fn lemma_byte_after_writes(device: Seq<u8>, g: Geometry, position: int)
    requires
        g.valid(),
        g.chunk_size % 8 == 0,
        device.len() == g.size,
        0 <= position < g.size,
    ensures
        after_writes(device, g, g.chunks())[position] == crate::pattern::byte_of(
            crate::pattern::seeded_word(PATTERN_SEED, (position / 8) as nat) as nat,
            (position % 8) as nat,
        ),
{
    crate::chunks::law_chunks_tile_the_device(g, position);
    let idx = position / (g.chunk_size as int);
    lemma_after_writes(device, g, g.chunks(), idx);
    law_pattern_is_one_stream(g, idx, position - g.offset(idx));
    let full = after_writes(device, g, g.chunks());
    assert(full[position] == chunk_of(full, g, idx)[position - g.offset(idx)]);
}

} // verus!
