use disk_scan::board::Board;
use disk_scan::chunks::Geometry;
use disk_scan::event::{ErrorKind, ProgressEvent, Stage, WorkerEvent};
use disk_scan::scan::{ReadJob, ReadStep, WritePass};
use disk_scan::timeout::{outcome_of, Reply};

/// A device in memory, with chunks that cannot be written and chunks that cannot be read.
struct FakeDevice {
    bytes: Vec<u8>,
    unwritable: Vec<u64>,
    unreadable: Vec<u64>,
}

impl FakeDevice {
    fn new(size: usize) -> FakeDevice {
        FakeDevice { bytes: vec![0xee; size], unwritable: Vec::new(), unreadable: Vec::new() }
    }
}

fn geometry(size: u64, chunk_size: usize) -> Geometry {
    let g = Geometry { size, chunk_size };
    assert!(g.is_valid());
    g
}

fn write_all(device: &mut FakeDevice, pass: &mut WritePass) -> Vec<ProgressEvent> {
    let mut events = Vec::new();
    while let Some(job) = pass.next_write(false) {
        let outcome = if device.unwritable.contains(&job.chunk_idx) {
            Err("no space".to_string())
        } else {
            let at = job.offset as usize;
            device.bytes[at..at + job.data.len()].copy_from_slice(&job.data);
            Ok(())
        };
        events.push(pass.finish_write(job.chunk_idx, outcome));
    }
    events
}

fn read_all(device: &FakeDevice, pass: WritePass) -> Vec<ProgressEvent> {
    let mut pass = pass.into_read_pass();
    let mut events = Vec::new();
    while let Some(step) = pass.next_read(false) {
        match step {
            ReadStep::Skip(event) => events.push(event),
            ReadStep::Verify(job) => {
                let outcome = if device.unreadable.contains(&job.chunk_idx) {
                    Err("bad sector".to_string())
                } else {
                    let at = job.offset as usize;
                    Ok(device.bytes[at..at + job.expected.len()].to_vec())
                };
                events.push(pass.finish_read(&job, outcome));
            }
        }
    }
    assert_eq!(pass.finish_event().device, "/dev/fake");
    events
}

fn scan(device: &mut FakeDevice, chunk_size: usize) -> (Vec<ProgressEvent>, Vec<ProgressEvent>) {
    let g = geometry(device.bytes.len() as u64, chunk_size);
    let mut pass = WritePass::new("/dev/fake".to_string(), g);
    let written = write_all(device, &mut pass);
    let read = read_all(device, pass);
    (written, read)
}

#[test]
fn chunks_of_a_device() {
    let g = geometry(10, 4);
    assert_eq!(g.total_chunks(), 3);
    assert_eq!((g.chunk_offset(0), g.chunk_len(0)), (0, 4));
    assert_eq!((g.chunk_offset(1), g.chunk_len(1)), (4, 4));
    assert_eq!((g.chunk_offset(2), g.chunk_len(2)), (8, 2));
}

#[test]
fn chunks_add_up_to_the_device() {
    for size in [1u64, 7, 8, 9, 63, 64, 65] {
        for chunk_size in [1usize, 3, 8, 64, 100] {
            let g = geometry(size, chunk_size);
            let mut sum = 0;
            for idx in 0..g.total_chunks() {
                assert_eq!(g.chunk_offset(idx), sum);
                assert!(g.chunk_len(idx) > 0);
                sum += g.chunk_len(idx) as u64;
            }
            assert_eq!(sum, size);
        }
    }
}

#[test]
fn empty_device_has_one_empty_chunk() {
    let g = geometry(0, 4);
    assert_eq!(g.total_chunks(), 1);
    assert_eq!((g.chunk_offset(0), g.chunk_len(0)), (0, 0));
}

#[test]
fn geometry_that_cannot_be_counted() {
    assert!(!Geometry { size: 10, chunk_size: 0 }.is_valid());
    assert!(!Geometry { size: u64::MAX, chunk_size: 2 }.is_valid());
    assert!(Geometry { size: u64::MAX, chunk_size: 1 }.is_valid());
}

#[test]
fn first_report_of_a_worker() {
    let pass = WritePass::new("/dev/fake".to_string(), geometry(10, 4));
    let init = pass.init_event();
    assert_eq!(init.device, "/dev/fake");
    assert_eq!(init.total_bytes, 10);
    assert_eq!(init.total_chunks, 3);
}

#[test]
fn write_jobs_carry_the_pattern() {
    let mut pass = WritePass::new("/dev/fake".to_string(), geometry(20, 16));
    let job = pass.next_write(false).unwrap();
    assert_eq!((job.chunk_idx, job.offset), (0, 0));
    assert_eq!(
        job.data,
        vec![35, 60, 29, 239, 202, 246, 138, 232, 49, 73, 165, 165, 178, 3, 163, 84]
    );
    let job = pass.next_write(false).unwrap();
    assert_eq!((job.chunk_idx, job.offset), (1, 16));
    assert_eq!(job.data, vec![69, 99, 100, 205]);
    assert!(pass.next_write(false).is_none());
}

#[test]
fn every_chunk_starts_with_a_fresh_word() {
    let mut device = FakeDevice::new(4);
    let (_, read) = scan(&mut device, 1);
    assert_eq!(device.bytes, vec![35, 49, 69, 53]);
    assert!(read.iter().all(|e| e.error.is_none()));
}

#[test]
fn pattern_does_not_depend_on_chunks_of_whole_words() {
    let mut a = FakeDevice::new(100);
    let mut b = FakeDevice::new(100);
    scan(&mut a, 8);
    scan(&mut b, 40);
    assert_eq!(a.bytes, b.bytes);
}

#[test]
fn sound_device_passes() {
    let mut device = FakeDevice::new(1000);
    let (written, read) = scan(&mut device, 64);
    assert_eq!(written.len(), 16);
    assert_eq!(read.len(), 16);
    assert!(written.iter().all(|e| e.stage == Stage::Writing && e.error.is_none()));
    assert!(read.iter().all(|e| e.stage == Stage::Reading && e.error.is_none()));
    assert_eq!(written.iter().map(|e| e.bytes).sum::<u64>(), 1000);
    assert_eq!(read.iter().map(|e| e.bytes).sum::<u64>(), 1000);
    assert!(read.iter().enumerate().all(|(i, e)| e.chunk_idx == i as u64));
    assert!(read.iter().all(|e| e.device == "/dev/fake"));
}

#[test]
fn altered_byte_is_reported() {
    let mut device = FakeDevice::new(1000);
    let mut pass = WritePass::new("/dev/fake".to_string(), geometry(1000, 64));
    write_all(&mut device, &mut pass);
    device.bytes[130] ^= 1;
    let read = read_all(&device, pass);
    for event in &read {
        if event.chunk_idx == 2 {
            let error = event.error.as_ref().unwrap();
            assert_eq!(error.chunk_idx, 2);
            assert_eq!(error.offset, 128);
            assert_eq!(error.kind, ErrorKind::Value);
            assert_eq!(error.message, "mismatched bytes");
        } else {
            assert!(event.error.is_none());
        }
    }
}

#[test]
fn every_byte_is_verified() {
    for position in 0..50 {
        let mut device = FakeDevice::new(50);
        let mut pass = WritePass::new("/dev/fake".to_string(), geometry(50, 12));
        write_all(&mut device, &mut pass);
        device.bytes[position] = !device.bytes[position];
        let wrong: Vec<u64> = read_all(&device, pass)
            .iter()
            .filter(|e| e.error.is_some())
            .map(|e| e.chunk_idx)
            .collect();
        assert_eq!(wrong, vec![position as u64 / 12]);
    }
}

#[test]
fn reports_of_a_scan_fill_the_bar() {
    let mut device = FakeDevice::new(1000);
    let g = geometry(1000, 64);
    let mut board = Board::new(0);
    let mut pass = WritePass::new("/dev/fake".to_string(), g);
    board.observe(WorkerEvent::Init(pass.init_event()), 1);
    device.unwritable = vec![3];
    for event in write_all(&mut device, &mut pass) {
        board.observe(WorkerEvent::Progress(event), 2);
    }
    assert_eq!(board.rows[0].state.written_bytes, 1000);
    device.bytes[999] ^= 0x80;
    for event in read_all(&device, pass) {
        board.observe(WorkerEvent::Progress(event), 3);
    }
    let state = &board.rows[0].state;
    assert_eq!((state.total_bytes, state.total_chunks), (1000, 16));
    assert_eq!(state.read_bytes, 1000);
    assert_eq!((state.write_errors, state.read_errors, state.value_errors), (1, 0, 1));
}

#[test]
fn chunk_that_cannot_be_written_is_not_read() {
    let mut device = FakeDevice::new(100);
    device.unwritable = vec![1];
    let (written, read) = scan(&mut device, 10);
    let error = written[1].error.as_ref().unwrap();
    assert_eq!((error.chunk_idx, error.offset, error.kind), (1, 10, ErrorKind::Write));
    assert_eq!(error.message, "no space");
    assert_eq!(written.iter().filter(|e| e.error.is_some()).count(), 1);
    // The other chunks are still held against what was written to them.
    assert!(read.iter().all(|e| e.error.is_none()));
    assert_eq!((read[1].chunk_idx, read[1].bytes, read[1].stage), (1, 10, Stage::Reading));
}

#[test]
fn chunk_that_cannot_be_read_is_reported() {
    let mut device = FakeDevice::new(100);
    device.unreadable = vec![9];
    let (_, read) = scan(&mut device, 11);
    let error = read[9].error.as_ref().unwrap();
    assert_eq!((error.chunk_idx, error.offset, error.kind), (9, 99, ErrorKind::Read));
    assert_eq!(error.message, "bad sector");
    assert_eq!(read[9].bytes, 1);
}

#[test]
fn short_read_is_a_mismatch() {
    let mut pass = WritePass::new("/dev/fake".to_string(), geometry(16, 16));
    let data = pass.next_write(false).unwrap().data;
    let mut pass = pass.into_read_pass();
    let job: ReadJob = match pass.next_read(false).unwrap() {
        ReadStep::Verify(job) => job,
        ReadStep::Skip(_) => panic!("nothing has failed"),
    };
    assert_eq!(job.expected, data);
    let event = pass.finish_read(&job, Ok(data[..15].to_vec()));
    assert_eq!(event.error.unwrap().kind, ErrorKind::Value);
    assert!(pass.finish_read(&job, Ok(data)).error.is_none());
}

#[test]
fn cancelled_scan_hands_out_nothing() {
    let mut pass = WritePass::new("/dev/fake".to_string(), geometry(100, 10));
    assert!(pass.next_write(false).is_some());
    assert!(pass.next_write(true).is_none());
    let mut pass = pass.into_read_pass();
    assert!(pass.next_read(true).is_none());
    assert_eq!(pass.finish_event().device, "/dev/fake");
}

#[test]
fn empty_device_is_scanned() {
    let mut device = FakeDevice::new(0);
    let (written, read) = scan(&mut device, 10);
    assert_eq!((written.len(), read.len()), (1, 1));
    assert_eq!((written[0].bytes, read[0].bytes), (0, 0));
    assert!(read[0].error.is_none());
}

#[test]
fn outcomes_of_operations() {
    assert_eq!(outcome_of(Reply::Ended(Ok(7u8))), Ok(7));
    assert_eq!(outcome_of(Reply::<u8>::Ended(Err("broken".to_string()))), Err("broken".to_string()));
    assert_eq!(outcome_of(Reply::<u8>::TimedOut), Err("operation timed out".to_string()));
    assert_eq!(
        outcome_of(Reply::<u8>::Died),
        Err("io worker thread died unexpectedly".to_string())
    );
}
