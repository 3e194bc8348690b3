//! The two passes of a scan over a device.
//!
//! A [`WritePass`] says what is to be written where and takes note of the chunks that could not
//! be written. It turns into a [`ReadPass`], which says what is to be read back and what has to
//! be found there. The passes do no input or output: each hands out jobs, and is told how they
//! went.

use crate::chunks::Geometry;
use crate::event::{ErrorKind, ErrorRecord, FinishEvent, InitEvent, ProgressEvent, Stage};
use crate::event::{ErrorView, ProgressView};
use crate::pattern::{fill_buffer, seeded_generator, PATTERN_SEED};
use rand_xoshiro::Xoroshiro128PlusPlus;
use std::collections::HashSet;
use vstd::prelude::*;

verus! {

broadcast use vstd::std_specs::hash::group_hash_axioms;

/// The number of words that the generator yields before the first byte of chunk `idx`. Every
/// chunk starts with a fresh word.
pub open spec fn words_before(g: Geometry, idx: int) -> nat {
    (idx * crate::pattern::words_for(g.chunk_size as nat)) as nat
}

/// The bytes that chunk `idx` of a device is filled with.
pub open spec fn chunk_bytes(g: Geometry, idx: int) -> Seq<u8> {
    Seq::new(
        g.len(idx) as nat,
        |i: int|
            crate::pattern::byte_of(
                crate::pattern::seeded_word(
                    PATTERN_SEED,
                    words_before(g, idx) + (i / 8) as nat,
                ) as nat,
                (i % 8) as nat,
            ),
    )
}

/// Whether a generator stands in front of chunk `idx`.
pub closed spec fn in_front_of(rng: Xoroshiro128PlusPlus, g: Geometry, idx: int) -> bool {
    forall|index: nat| #[trigger]
        crate::pattern::upcoming_word(rng, index) == crate::pattern::seeded_word(
            PATTERN_SEED,
            words_before(g, idx) + index,
        )
}

/// Bytes to write to a device.
#[derive(Debug)]
pub struct WriteJob {
    pub chunk_idx: u64,
    pub offset: u64,
    pub data: Vec<u8>,
}

impl WriteJob {
    /// Whether the job is to write chunk `chunk_idx` of a device: its pattern at its place.
    pub open spec fn is_for(self, g: Geometry) -> bool {
        &&& self.chunk_idx < g.chunks()
        &&& self.offset == g.offset(self.chunk_idx as int)
        &&& self.data@ == chunk_bytes(g, self.chunk_idx as int)
    }
}

/// A place on a device to read, as many bytes as are expected there.
#[derive(Debug)]
pub struct ReadJob {
    pub chunk_idx: u64,
    pub offset: u64,
    pub expected: Vec<u8>,
}

impl ReadJob {
    /// Whether the job is to read chunk `chunk_idx` of a device and to find its pattern there.
    pub open spec fn is_for(self, g: Geometry) -> bool {
        &&& self.chunk_idx < g.chunks()
        &&& self.offset == g.offset(self.chunk_idx as int)
        &&& self.expected@ == chunk_bytes(g, self.chunk_idx as int)
    }
}

/// What a [`ReadPass`] wants next.
#[derive(Debug)]
pub enum ReadStep {
    /// The chunk could not be written, so there is nothing to read: send the event.
    Skip(ProgressEvent),
    /// Read the chunk.
    Verify(ReadJob),
}

/// The mathematical value of a [`WritePass`] or a [`ReadPass`].
#[verifier::ext_equal]
pub struct PassView {
    /// The name of the device.
    pub device: Seq<char>,
    pub geometry: Geometry,
    /// The chunk that is next.
    pub next: int,
    /// The chunks that could not be written.
    pub failed: Set<u64>,
}

/// The pass that writes the pattern.
pub struct WritePass {
    device: String,
    geometry: Geometry,
    total_chunks: u64,
    rng: Xoroshiro128PlusPlus,
    next: u64,
    failed: HashSet<u64>,
}

/// The pass that reads the pattern back.
pub struct ReadPass {
    device: String,
    geometry: Geometry,
    total_chunks: u64,
    rng: Xoroshiro128PlusPlus,
    next: u64,
    failed: HashSet<u64>,
}

impl View for WritePass {
    type V = PassView;

    closed spec fn view(&self) -> PassView {
        PassView {
            device: self.device@,
            geometry: self.geometry,
            next: self.next as int,
            failed: self.failed@,
        }
    }
}

impl View for ReadPass {
    type V = PassView;

    closed spec fn view(&self) -> PassView {
        PassView {
            device: self.device@,
            geometry: self.geometry,
            next: self.next as int,
            failed: self.failed@,
        }
    }
}

/// The error of a chunk that was to be written.
pub open spec fn write_verdict(
    chunk_idx: u64,
    offset: u64,
    outcome: Result<(), String>,
) -> Option<ErrorView> {
    match outcome {
        Ok(_) => None,
        Err(message) => Some(
            ErrorView { chunk_idx, offset, kind: ErrorKind::Write, message: message@ },
        ),
    }
}

/// The error of a chunk that was read back.
pub open spec fn read_verdict(job: ReadJob, outcome: Result<Vec<u8>, String>) -> Option<ErrorView> {
    match outcome {
        Ok(data) => if data@ == job.expected@ {
            None
        } else {
            Some(
                ErrorView {
                    chunk_idx: job.chunk_idx,
                    offset: job.offset,
                    kind: ErrorKind::Value,
                    message: "mismatched bytes"@,
                },
            )
        },
        Err(message) => Some(
            ErrorView {
                chunk_idx: job.chunk_idx,
                offset: job.offset,
                kind: ErrorKind::Read,
                message: message@,
            },
        ),
    }
}

/// Takes the bytes of chunk `idx` from a generator that stands in front of it, and leaves it
/// in front of the next chunk, if there is one.
fn take_chunk(rng: &mut Xoroshiro128PlusPlus, geometry: Geometry, idx: u64) -> (data: Vec<u8>)
    requires
        geometry.valid(),
        idx < geometry.chunks(),
        in_front_of(*old(rng), geometry, idx as int),
    ensures
        data@ == chunk_bytes(geometry, idx as int),
        idx + 1 < geometry.chunks() ==> in_front_of(*final(rng), geometry, idx + 1),
{
    let len: usize = geometry.chunk_len(idx);
    let mut data: Vec<u8> = vec![0u8; len];
    let ghost before = *rng;
    fill_buffer(rng, data.as_mut_slice());
    proof {
        assert(data@ =~= chunk_bytes(geometry, idx as int));
        crate::chunks::lemma_chunk_end(geometry, idx as int);
        let words = crate::pattern::words_for(geometry.chunk_size as nat);
        assert(idx * words >= 0) by (nonlinear_arith);
        assert((idx + 1) * words == idx * words + words) by (nonlinear_arith);
        if idx + 1 < geometry.chunks() {
            assert forall|index: nat| #[trigger]
                crate::pattern::upcoming_word(*rng, index) == crate::pattern::seeded_word(
                    PATTERN_SEED,
                    words_before(geometry, idx + 1) + index,
                ) by {
                assert(crate::pattern::upcoming_word(before, index + words)
                    == crate::pattern::seeded_word(
                    PATTERN_SEED,
                    words_before(geometry, idx as int) + (index + words),
                ));
            }
        }
    }
    data
}

impl WritePass {
    /// The pass hands out the chunks of a device whose chunks can be counted, each with its
    /// pattern.
    pub closed spec fn wf(self) -> bool {
        &&& self.geometry.valid()
        &&& self.total_chunks == self.geometry.chunks()
        &&& self.next <= self.total_chunks
        &&& self.next < self.total_chunks ==> in_front_of(
            self.rng,
            self.geometry,
            self.next as int,
        )
    }

    /// Starts a scan of the device of the given name.
    pub fn new(device: String, geometry: Geometry) -> (pass: WritePass)
        requires
            geometry.valid(),
        ensures
            pass.wf(),
            pass@ == (PassView { device: device@, geometry, next: 0, failed: Set::empty() }),
    {
        let rng: Xoroshiro128PlusPlus = seeded_generator(PATTERN_SEED);
        proof {
            assert(0 * crate::pattern::words_for(geometry.chunk_size as nat) == 0);
        }
        let total_chunks: u64 = geometry.total_chunks();
        WritePass { device, geometry, total_chunks, rng, next: 0, failed: HashSet::new() }
    }

    /// What the worker reports before it opens the device.
    pub fn init_event(&self) -> (event: InitEvent)
        requires
            self.wf(),
        ensures
            event.device@ == self@.device,
            event.total_bytes == self@.geometry.size,
            event.total_chunks == self@.geometry.chunks(),
    {
        InitEvent {
            device: self.device.clone(),
            total_bytes: self.geometry.size,
            total_chunks: self.total_chunks,
        }
    }

    /// The next chunk to write. There is none once all were handed out, or when the scan has
    /// been cancelled.
    pub fn next_write(&mut self, cancelled: bool) -> (job: Option<WriteJob>)
        requires
            old(self).wf(),
        ensures
            final(self).wf(),
            match job {
                Some(job) => {
                    &&& !cancelled
                    &&& old(self)@.next < old(self)@.geometry.chunks()
                    &&& job.chunk_idx == old(self)@.next
                    &&& job.is_for(old(self)@.geometry)
                    &&& final(self)@ == (PassView { next: old(self)@.next + 1, ..old(self)@ })
                },
                None => {
                    &&& cancelled || old(self)@.next == old(self)@.geometry.chunks()
                    &&& final(self)@ == old(self)@
                },
            },
    {
        if cancelled || self.next == self.total_chunks {
            return None;
        }
        let chunk_idx: u64 = self.next;
        let offset: u64 = self.geometry.chunk_offset(chunk_idx);
        let data: Vec<u8> = take_chunk(&mut self.rng, self.geometry, chunk_idx);
        self.next = chunk_idx + 1;
        Some(WriteJob { chunk_idx, offset, data })
    }

    /// Takes note of how the write of a chunk went, and gives the report on it.
    pub fn finish_write(&mut self, chunk_idx: u64, outcome: Result<(), String>) -> (event:
        ProgressEvent)
        requires
            old(self).wf(),
            chunk_idx < old(self)@.geometry.chunks(),
        ensures
            final(self).wf(),
            final(self)@ == (PassView {
                failed: if outcome is Err {
                    old(self)@.failed.insert(chunk_idx)
                } else {
                    old(self)@.failed
                },
                ..old(self)@
            }),
            event@ == (ProgressView {
                device: old(self)@.device,
                stage: Stage::Writing,
                chunk_idx,
                bytes: old(self)@.geometry.len(chunk_idx as int) as u64,
                error: write_verdict(
                    chunk_idx,
                    old(self)@.geometry.offset(chunk_idx as int) as u64,
                    outcome,
                ),
            }),
    {
        let offset: u64 = self.geometry.chunk_offset(chunk_idx);
        let bytes: u64 = self.geometry.chunk_len(chunk_idx) as u64;
        let error: Option<ErrorRecord> = match outcome {
            Ok(_) => None,
            Err(message) => {
                self.failed.insert(chunk_idx);
                Some(ErrorRecord { chunk_idx, offset, kind: ErrorKind::Write, message })
            },
        };
        ProgressEvent {
            device: self.device.clone(),
            stage: Stage::Writing,
            chunk_idx,
            bytes,
            error,
        }
    }

    /// Goes over to reading back, from the first chunk on.
    pub fn into_read_pass(self) -> (pass: ReadPass)
        requires
            self.wf(),
        ensures
            pass.wf(),
            pass@ == (PassView { next: 0, ..self@ }),
    {
        let rng: Xoroshiro128PlusPlus = seeded_generator(PATTERN_SEED);
        proof {
            assert(0 * crate::pattern::words_for(self.geometry.chunk_size as nat) == 0);
        }
        ReadPass {
            device: self.device,
            geometry: self.geometry,
            total_chunks: self.total_chunks,
            rng,
            next: 0,
            failed: self.failed,
        }
    }
}

impl ReadPass {
    /// The pass hands out the chunks of a device whose chunks can be counted, each with its
    /// pattern.
    pub closed spec fn wf(self) -> bool {
        &&& self.geometry.valid()
        &&& self.total_chunks == self.geometry.chunks()
        &&& self.next <= self.total_chunks
        &&& self.next < self.total_chunks ==> in_front_of(
            self.rng,
            self.geometry,
            self.next as int,
        )
    }

    /// The next chunk to read. There is none once all were handed out, or when the scan has
    /// been cancelled. A chunk that could not be written is skipped.
    pub fn next_read(&mut self, cancelled: bool) -> (step: Option<ReadStep>)
        requires
            old(self).wf(),
        ensures
            final(self).wf(),
            match step {
                Some(step) => {
                    &&& !cancelled
                    &&& old(self)@.next < old(self)@.geometry.chunks()
                    &&& final(self)@ == (PassView { next: old(self)@.next + 1, ..old(self)@ })
                    &&& match step {
                        ReadStep::Skip(event) => {
                            &&& old(self)@.failed.contains(old(self)@.next as u64)
                            &&& event@ == (ProgressView {
                                device: old(self)@.device,
                                stage: Stage::Reading,
                                chunk_idx: old(self)@.next as u64,
                                bytes: old(self)@.geometry.len(old(self)@.next) as u64,
                                error: None,
                            })
                        },
                        ReadStep::Verify(job) => {
                            &&& !old(self)@.failed.contains(old(self)@.next as u64)
                            &&& job.chunk_idx == old(self)@.next
                            &&& job.is_for(old(self)@.geometry)
                        },
                    }
                },
                None => {
                    &&& cancelled || old(self)@.next == old(self)@.geometry.chunks()
                    &&& final(self)@ == old(self)@
                },
            },
    {
        if cancelled || self.next == self.total_chunks {
            return None;
        }
        let chunk_idx: u64 = self.next;
        let offset: u64 = self.geometry.chunk_offset(chunk_idx);
        // The generator has to pass a skipped chunk too, to stay in step with what was written.
        let expected: Vec<u8> = take_chunk(&mut self.rng, self.geometry, chunk_idx);
        self.next = chunk_idx + 1;
        if self.failed.contains(&chunk_idx) {
            Some(
                ReadStep::Skip(
                    ProgressEvent {
                        device: self.device.clone(),
                        stage: Stage::Reading,
                        chunk_idx,
                        bytes: expected.len() as u64,
                        error: None,
                    },
                ),
            )
        } else {
            Some(ReadStep::Verify(ReadJob { chunk_idx, offset, expected }))
        }
    }

    /// Holds what was read against what was expected, and gives the report on the chunk.
    pub fn finish_read(&self, job: &ReadJob, outcome: Result<Vec<u8>, String>) -> (event:
        ProgressEvent)
        ensures
            event@ == (ProgressView {
                device: self@.device,
                stage: Stage::Reading,
                chunk_idx: job.chunk_idx,
                bytes: job.expected@.len() as u64,
                error: read_verdict(*job, outcome),
            }),
    {
        let error: Option<ErrorRecord> = match outcome {
            Err(message) => Some(
                ErrorRecord {
                    chunk_idx: job.chunk_idx,
                    offset: job.offset,
                    kind: ErrorKind::Read,
                    message,
                },
            ),
            Ok(data) => {
                if data == job.expected {
                    assert(data@ =~= job.expected@);
                    None
                } else {
                    Some(
                        ErrorRecord {
                            chunk_idx: job.chunk_idx,
                            offset: job.offset,
                            kind: ErrorKind::Value,
                            message: "mismatched bytes".to_owned(),
                        },
                    )
                }
            },
        };
        ProgressEvent {
            device: self.device.clone(),
            stage: Stage::Reading,
            chunk_idx: job.chunk_idx,
            bytes: job.expected.len() as u64,
            error,
        }
    }

    /// What the worker reports when it has come to its end, cancelled or not.
    pub fn finish_event(&self) -> (event: FinishEvent)
        ensures
            event.device@ == self@.device,
    {
        FinishEvent { device: self.device.clone() }
    }
}

proof fn lemma_chunk_data(g: Geometry, idx: int, i: int)
    requires
        g.valid(),
        0 <= idx < g.chunks(),
        0 <= i < chunk_bytes(g, idx).len(),
    ensures
        chunk_bytes(g, idx)[i] == (crate::pattern::seeded_word(
            42,
            (idx * ((g.chunk_size + 7) / 8) + i / 8) as nat,
        ) as int / vstd::arithmetic::power::pow(256, (i % 8) as nat)) % 256,
{
    let words = crate::pattern::words_for(g.chunk_size as nat);
    assert(idx * words >= 0) by (nonlinear_arith)
        requires
            idx >= 0,
            words >= 0,
    ;
    let word = crate::pattern::seeded_word(PATTERN_SEED, words_before(g, idx) + (i / 8) as nat);
    crate::pattern::lemma_byte_of(word as nat, (i % 8) as nat);
}

/// A scan starts with the first chunk, with nothing failed yet, and says how large the device is
/// and how many chunks it has.
pub proof fn law_scan_starts_with_the_first_chunk(
    device: String,
    g: Geometry,
    pass: WritePass,
    event: InitEvent,
)
    requires
        g.valid(),
        call_ensures(WritePass::new, (device, g), pass),
        call_ensures(WritePass::init_event, (&pass,), event),
    ensures
        pass.wf(),
        pass@.device == device@,
        event.device@ == device@,
        pass@.geometry == g,
        pass@.next == 0,
        forall|idx: u64| !pass@.failed.contains(idx),
        event.total_bytes == g.size,
        event.total_chunks == g.chunks(),
{
}

/// Chunks are handed out to be written as long as there are some and the scan is not cancelled,
/// one after the other, none of them twice.
pub proof fn law_chunks_are_written_in_turn(
    pass: &mut WritePass,
    cancelled: bool,
    job: Option<WriteJob>,
)
    requires
        old(pass).wf(),
        call_ensures(WritePass::next_write, (pass, cancelled), job),
    ensures
        final(pass).wf(),
        final(pass)@.device == old(pass)@.device,
        final(pass)@.geometry == old(pass)@.geometry,
        final(pass)@.failed == old(pass)@.failed,
        job is Some <==> !cancelled && old(pass)@.next < old(pass)@.geometry.chunks(),
        job is Some ==> job->0.chunk_idx == old(pass)@.next,
        final(pass)@.next == old(pass)@.next + if job is Some {
            1int
        } else {
            0
        },
{
}

/// A chunk is written at its place and as a whole: up to where the next one begins, or to the end
/// of the device.
pub proof fn law_written_chunk_is_whole(pass: &mut WritePass, job: Option<WriteJob>)
    requires
        old(pass).wf(),
        call_ensures(WritePass::next_write, (pass, false), job),
        job is Some,
    ensures
        ({
            let g = old(pass)@.geometry;
            let idx = job->0.chunk_idx as int;
            &&& job->0.offset == idx * g.chunk_size
            &&& job->0.offset + job->0.data@.len() == if idx + 1 < g.chunks() {
                (idx + 1) * g.chunk_size
            } else {
                g.size as int
            }
        }),
{
    let g = old(pass)@.geometry;
    let idx = job->0.chunk_idx as int;
    crate::chunks::lemma_chunk_end(g, idx);
    assert((idx + 1) * g.chunk_size == idx * g.chunk_size + g.chunk_size) by (nonlinear_arith);
}

/// What is written are the words of the generator with seed 42 in their order, each with its least
/// significant byte first. Every chunk begins with a fresh word.
pub proof fn law_written_bytes_are_those_of_the_generator(
    pass: &mut WritePass,
    job: Option<WriteJob>,
    i: int,
)
    requires
        old(pass).wf(),
        call_ensures(WritePass::next_write, (pass, false), job),
        job is Some,
        0 <= i < job->0.data@.len(),
    ensures
        ({
            let g = old(pass)@.geometry;
            let idx = job->0.chunk_idx as int;
            job->0.data@[i] == (crate::pattern::seeded_word(
                42,
                (idx * ((g.chunk_size + 7) / 8) + i / 8) as nat,
            ) as int / vstd::arithmetic::power::pow(256, (i % 8) as nat)) % 256
        }),
{
    lemma_chunk_data(old(pass)@.geometry, job->0.chunk_idx as int, i);
}

/// A chunk that could not be written is reported with its number, its offset and the message,
/// whatever its length, and is remembered. Nothing else changes.
pub proof fn law_unwritable_chunk_is_reported(
    pass: &mut WritePass,
    chunk_idx: u64,
    message: String,
    event: ProgressEvent,
)
    requires
        old(pass).wf(),
        chunk_idx < old(pass)@.geometry.chunks(),
        call_ensures(
            WritePass::finish_write,
            (pass, chunk_idx, Err::<(), String>(message)),
            event,
        ),
    ensures
        event.error is Some,
        event.error->0.kind is Write,
        event.error->0.chunk_idx == chunk_idx,
        event.error->0.offset == chunk_idx * old(pass)@.geometry.chunk_size,
        event.error->0.message@ == message@,
        final(pass).wf(),
        final(pass)@.device == old(pass)@.device,
        final(pass)@.geometry == old(pass)@.geometry,
        final(pass)@.next == old(pass)@.next,
        forall|idx: u64| #[trigger]
            final(pass)@.failed.contains(idx) <==> idx == chunk_idx || old(pass)@.failed.contains(
                idx,
            ),
{
    crate::chunks::lemma_offset_within(old(pass)@.geometry, chunk_idx as int);
}

/// A chunk that was written is reported without an error, and nothing changes.
pub proof fn law_written_chunk_is_without_error(
    pass: &mut WritePass,
    chunk_idx: u64,
    event: ProgressEvent,
)
    requires
        old(pass).wf(),
        chunk_idx < old(pass)@.geometry.chunks(),
        call_ensures(WritePass::finish_write, (pass, chunk_idx, Ok::<(), String>(())), event),
    ensures
        event.error is None,
        final(pass).wf(),
        final(pass)@ == old(pass)@,
{
}

/// Every report of the write pass is on its chunk and counts all bytes of it, whether they could
/// be written or not.
pub proof fn law_write_report_counts_the_chunk(
    pass: &mut WritePass,
    chunk_idx: u64,
    outcome: Result<(), String>,
    event: ProgressEvent,
)
    requires
        old(pass).wf(),
        chunk_idx < old(pass)@.geometry.chunks(),
        call_ensures(WritePass::finish_write, (pass, chunk_idx, outcome), event),
    ensures
        event.device@ == old(pass)@.device,
        event.stage is Writing,
        event.chunk_idx == chunk_idx,
        event.bytes == if chunk_idx + 1 < old(pass)@.geometry.chunks() {
            old(pass)@.geometry.chunk_size as int
        } else {
            old(pass)@.geometry.size - chunk_idx * old(pass)@.geometry.chunk_size
        },
        event.error is Some <==> outcome is Err,
{
    crate::chunks::lemma_chunk_end(old(pass)@.geometry, chunk_idx as int);
    crate::chunks::lemma_offset_within(old(pass)@.geometry, chunk_idx as int);
}

/// Reading back goes over the same device from its first chunk on, and knows what failed.
pub proof fn law_reading_back_starts_over(pass: WritePass, read: ReadPass, event: FinishEvent)
    requires
        pass.wf(),
        call_ensures(WritePass::into_read_pass, (pass,), read),
        call_ensures(ReadPass::finish_event, (&read,), event),
    ensures
        read.wf(),
        read@.device == pass@.device,
        event.device@ == pass@.device,
        read@.geometry == pass@.geometry,
        read@.failed == pass@.failed,
        read@.next == 0,
{
}

/// Chunks are handed out to be read as long as there are some and the scan is not cancelled, one
/// after the other. A chunk is skipped if and only if it could not be written; it is then
/// reported without an error, with all its bytes.
pub proof fn law_only_failed_chunks_are_skipped(
    pass: &mut ReadPass,
    cancelled: bool,
    step: Option<ReadStep>,
)
    requires
        old(pass).wf(),
        call_ensures(ReadPass::next_read, (pass, cancelled), step),
    ensures
        final(pass).wf(),
        final(pass)@.device == old(pass)@.device,
        final(pass)@.geometry == old(pass)@.geometry,
        final(pass)@.failed == old(pass)@.failed,
        step is Some <==> !cancelled && old(pass)@.next < old(pass)@.geometry.chunks(),
        final(pass)@.next == old(pass)@.next + if step is Some {
            1int
        } else {
            0
        },
        step is Some ==> (step->0 is Skip <==> old(pass)@.failed.contains(
            old(pass)@.next as u64,
        )),
        step is Some && step->0 is Verify ==> step->0->Verify_0.chunk_idx == old(pass)@.next,
        step is Some && step->0 is Skip ==> {
            let event = step->0->Skip_0;
            &&& event.device@ == old(pass)@.device
            &&& event.stage is Reading
            &&& event.chunk_idx == old(pass)@.next
            &&& event.error is None
            &&& event.bytes == if old(pass)@.next + 1 < old(pass)@.geometry.chunks() {
                old(pass)@.geometry.chunk_size as int
            } else {
                old(pass)@.geometry.size - old(pass)@.next * old(pass)@.geometry.chunk_size
            }
        },
{
    if step is Some {
        crate::chunks::lemma_chunk_end(old(pass)@.geometry, old(pass)@.next);
        crate::chunks::lemma_offset_within(old(pass)@.geometry, old(pass)@.next);
    }
}

/// What is expected of a chunk is what was to be written to it, at the same place, however many
/// chunks failed or were skipped before it.
pub proof fn law_passes_stay_in_step(
    write: &mut WritePass,
    written: Option<WriteJob>,
    read: &mut ReadPass,
    step: Option<ReadStep>,
)
    requires
        old(write).wf(),
        old(read).wf(),
        old(read)@.geometry == old(write)@.geometry,
        call_ensures(WritePass::next_write, (write, false), written),
        call_ensures(ReadPass::next_read, (read, false), step),
        written is Some,
        step is Some && step->0 is Verify,
        step->0->Verify_0.chunk_idx == written->0.chunk_idx,
    ensures
        step->0->Verify_0.offset == written->0.offset,
        step->0->Verify_0.expected@ == written->0.data@,
{
}

/// A chunk that could not be read is reported with its number, its offset and the message,
/// whatever its length.
pub proof fn law_unreadable_chunk_is_reported(
    pass: ReadPass,
    job: ReadJob,
    message: String,
    event: ProgressEvent,
)
    requires
        call_ensures(
            ReadPass::finish_read,
            (&pass, &job, Err::<Vec<u8>, String>(message)),
            event,
        ),
    ensures
        event.error is Some,
        event.error->0.kind is Read,
        event.error->0.chunk_idx == job.chunk_idx,
        event.error->0.offset == job.offset,
        event.error->0.message@ == message@,
{
}

/// A chunk that was read is without an error if and only if it holds as many bytes as expected
/// and each of them is the one expected. Any difference is reported, with the number and the
/// offset of the chunk.
pub proof fn law_any_difference_is_reported(
    pass: ReadPass,
    job: ReadJob,
    data: Vec<u8>,
    event: ProgressEvent,
)
    requires
        call_ensures(ReadPass::finish_read, (&pass, &job, Ok::<Vec<u8>, String>(data)), event),
    ensures
        event.error is None <==> data@.len() == job.expected@.len() && forall|i: int|
            0 <= i < data@.len() ==> #[trigger] data@[i] == job.expected@[i],
        event.error is Some ==> {
            &&& event.error->0.kind is Value
            &&& event.error->0.chunk_idx == job.chunk_idx
            &&& event.error->0.offset == job.offset
            &&& event.error->0.message@ == "mismatched bytes"@
        },
{
    if data@.len() == job.expected@.len() && forall|i: int|
        0 <= i < data@.len() ==> #[trigger] data@[i] == job.expected@[i] {
        assert(data@ =~= job.expected@);
    }
}

/// Every report of the read pass is on its chunk and counts all bytes of it, whatever came of
/// reading them.
pub proof fn law_read_report_counts_the_chunk(
    pass: ReadPass,
    job: ReadJob,
    outcome: Result<Vec<u8>, String>,
    event: ProgressEvent,
)
    requires
        call_ensures(ReadPass::finish_read, (&pass, &job, outcome), event),
    ensures
        event.device@ == pass@.device,
        event.stage is Reading,
        event.chunk_idx == job.chunk_idx,
        event.bytes == job.expected@.len() as u64,
{
}

} // verus!
