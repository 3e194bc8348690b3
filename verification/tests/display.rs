use disk_scan::bar::{build_progress_bar, BarFigures, UiMode};
use disk_scan::board::{Board, LoopInput};
use disk_scan::eta::{average_speed, compute_eta, format_eta, EtaPlan};
use disk_scan::event::{
    ErrorKind, ErrorRecord, FinishEvent, InitEvent, ProgressEvent, Stage, WorkerEvent,
};
use disk_scan::order::comes_before;
use disk_scan::report::ReportSpeeds;
use disk_scan::state::{SpeedSample, UiDeviceState, ERROR_MARKS_LIMIT};
use disk_scan::table::RowFigures;
use disk_scan::text::{chars_of, format_duration, to_decimal};

const SECOND: u64 = 1_000_000_000;

fn init(device: &str, total_bytes: u64, total_chunks: u64) -> WorkerEvent {
    WorkerEvent::Init(InitEvent { device: device.to_string(), total_bytes, total_chunks })
}

fn error(chunk_idx: u64, kind: ErrorKind) -> ErrorRecord {
    ErrorRecord { chunk_idx, offset: chunk_idx * 1000, kind, message: "oops".to_string() }
}

fn update(device: &str, stage: Stage, bytes: u64, error: Option<ErrorRecord>) -> ProgressEvent {
    ProgressEvent { device: device.to_string(), stage, chunk_idx: 0, bytes, error }
}

fn progress(device: &str, stage: Stage, bytes: u64, error: Option<ErrorRecord>) -> WorkerEvent {
    WorkerEvent::Progress(update(device, stage, bytes, error))
}

fn finish(device: &str) -> WorkerEvent {
    WorkerEvent::Finish(FinishEvent { device: device.to_string() })
}

fn figures(write_fill: usize, read_fill: usize, tail: Option<usize>, cells: &[usize]) -> BarFigures {
    BarFigures { write_fill, read_fill, tail, mark_cells: cells.to_vec() }
}

fn state_with(errors: Vec<ErrorRecord>) -> UiDeviceState {
    let mut state = UiDeviceState::new(1000, 10, 0);
    for record in errors {
        state.apply_progress(update("d", Stage::Writing, 0, Some(record)), 0);
    }
    state
}

#[test]
fn numbers_as_text() {
    assert_eq!(to_decimal(0), "0");
    assert_eq!(to_decimal(10), "10");
    assert_eq!(to_decimal(9876543210), "9876543210");
    assert_eq!(to_decimal(u64::MAX), u64::MAX.to_string());
    assert_eq!(chars_of("aé█"), vec!['a', 'é', '█']);
}

#[test]
fn durations_as_text() {
    assert_eq!(format_duration(0), "0:00:00");
    assert_eq!(format_duration(59), "0:00:59");
    assert_eq!(format_duration(3661), "1:01:01");
    assert_eq!(format_duration(36000), "10:00:00");
    assert_eq!(format_duration(u64::MAX), "5124095576030431:00:15");
}

#[test]
fn names_are_ordered_by_bytes() {
    let names = ["", "/dev/sda", "/dev/sda1", "/dev/sdb", "Z", "a", "é", "█"];
    for a in names {
        for b in names {
            assert_eq!(comes_before(a, b), a < b);
        }
    }
}

#[test]
fn bytes_and_stages_progress() {
    let mut state = UiDeviceState::new(100, 10, 5);
    assert_eq!((state.total_bytes, state.total_chunks, state.write_start), (100, 10, 5));
    state.apply_progress(update("d", Stage::Writing, 60, None), 6);
    state.apply_progress(update("d", Stage::Writing, 40, None), 7);
    assert_eq!((state.written_bytes, state.read_bytes), (100, 0));
    assert_eq!((state.read_start, state.write_end), (None, None));
    state.apply_progress(update("d", Stage::Reading, 30, None), 8);
    assert_eq!((state.written_bytes, state.read_bytes), (100, 30));
    assert_eq!((state.read_start, state.write_end), (Some(8), Some(8)));
    assert_eq!(state.stage, Stage::Reading);
    state.apply_progress(update("d", Stage::Reading, 1, None), 9);
    assert_eq!((state.read_start, state.write_end), (Some(8), Some(8)));
    state.apply_progress(update("d", Stage::Done, 50, None), 9);
    assert_eq!((state.written_bytes, state.read_bytes), (100, 31));
    assert_eq!(state.stage, Stage::Reading);
    state.apply_progress(update("d", Stage::Reading, u64::MAX, None), 9);
    assert_eq!(state.read_bytes, u64::MAX);
    state.finish(11);
    assert_eq!((state.stage, state.read_end), (Stage::Done, Some(11)));
}

#[test]
fn speed_is_measured_now_and_then() {
    let mut state = UiDeviceState::new(1000, 10, 0);
    state.apply_progress(update("d", Stage::Writing, 10, None), SECOND / 5 - 1);
    assert_eq!(state.speed, None);
    state.apply_progress(update("d", Stage::Writing, 10, None), SECOND / 5);
    assert_eq!(state.speed, Some(SpeedSample { bytes: 20, nanos: SECOND / 5 }));
    state.apply_progress(update("d", Stage::Writing, 5, None), SECOND);
    assert_eq!(state.speed, Some(SpeedSample { bytes: 5, nanos: SECOND * 4 / 5 }));
    // Reading starts to count anew.
    state.apply_progress(update("d", Stage::Reading, 3, None), 2 * SECOND);
    assert_eq!(state.speed, Some(SpeedSample { bytes: 5, nanos: SECOND * 4 / 5 }));
    state.apply_progress(update("d", Stage::Reading, 4, None), 3 * SECOND);
    assert_eq!(state.speed, Some(SpeedSample { bytes: 7, nanos: SECOND }));
}

#[test]
fn errors_are_counted_by_kind() {
    let state = state_with(vec![
        error(1, ErrorKind::Write),
        error(2, ErrorKind::Value),
        error(3, ErrorKind::Read),
        error(4, ErrorKind::Value),
    ]);
    assert_eq!((state.write_errors, state.read_errors, state.value_errors), (1, 1, 2));
    assert_eq!(state.total_errors(), 4);
    assert_eq!(state.errors.len(), 4);
    assert_eq!(state.error_marks.len(), 4);
}

#[test]
fn only_the_last_errors_are_marked() {
    let extra = 5;
    let total = ERROR_MARKS_LIMIT as u64 + extra;
    let state = state_with((0..total).map(|i| error(i, ErrorKind::Read)).collect());
    assert_eq!(state.errors.len() as u64, total);
    assert_eq!(state.error_marks.len(), ERROR_MARKS_LIMIT);
    assert_eq!(state.error_marks[0].chunk_idx, extra);
    assert_eq!(state.error_marks[ERROR_MARKS_LIMIT - 1].chunk_idx, total - 1);
}

#[test]
fn board_follows_the_devices() {
    let mut board = Board::new(0);
    assert_eq!(board.observe(init("b", 10, 1), 1), None);
    assert_eq!(board.observe(init("a", 20, 2), 2), None);
    assert_eq!(board.observe(progress("b", Stage::Writing, 7, None), 3), None);
    assert_eq!(board.observe(progress("unknown", Stage::Writing, 7, None), 3), None);
    assert_eq!(board.observe(finish("a"), 4), None);
    assert_eq!(board.observe(finish("unknown"), 4), None);
    assert_eq!(board.rows.len(), 2);
    assert_eq!(board.rows[0].name, "a");
    assert_eq!((board.rows[0].state.stage, board.rows[0].state.read_end), (Stage::Done, Some(4)));
    assert_eq!(board.rows[1].name, "b");
    assert_eq!(board.rows[1].state.written_bytes, 7);
    assert_eq!(board.rows[1].state.write_start, 1);
}

#[test]
fn device_that_starts_again_starts_afresh() {
    let mut board = Board::new(0);
    board.observe(init("a", 10, 1), 1);
    board.observe(progress("a", Stage::Writing, 7, Some(error(0, ErrorKind::Write))), 2);
    board.observe(init("a", 30, 3), 5);
    assert_eq!(board.rows.len(), 1);
    let state = &board.rows[0].state;
    assert_eq!((state.total_bytes, state.written_bytes, state.write_start), (30, 0, 5));
    assert_eq!(state.total_errors(), 0);
}

#[test]
fn fatal_error_is_announced() {
    let mut board = Board::new(0);
    let event = WorkerEvent::Fatal { device: "a".to_string(), message: "gone".to_string() };
    let outcome = board.step(LoopInput::Event(event), 1);
    assert_eq!(outcome.notice, Some("fatal error for a: gone".to_string()));
    assert!(!outcome.stop && !outcome.redraw);
    assert!(board.rows.is_empty());
}

#[test]
fn loop_draws_and_stops() {
    let mut board = Board::new(SECOND);
    let outcome = board.step(LoopInput::Idle, SECOND + SECOND / 10 - 1);
    assert!(!outcome.redraw && !outcome.stop && outcome.notice.is_none());
    let outcome = board.step(LoopInput::Idle, SECOND + SECOND / 10);
    assert!(outcome.redraw && !outcome.stop);
    board.rendered(2 * SECOND);
    let outcome = board.step(LoopInput::Event(init("a", 1, 1)), 2 * SECOND + 1);
    assert!(!outcome.redraw && !outcome.stop);
    assert_eq!(board.rows.len(), 1);
    let outcome = board.step(LoopInput::Closed, 9 * SECOND);
    assert!(!outcome.redraw && outcome.stop);
    let outcome = board.step(LoopInput::Cancelled, 9 * SECOND);
    assert!(!outcome.redraw && outcome.stop);
}

#[test]
fn basic_bar() {
    let state = state_with(vec![error(0, ErrorKind::Write), error(1, ErrorKind::Read), error(2, ErrorKind::Value)]);
    let bar = build_progress_bar(&state, &figures(6, 3, Some(3), &[1, 4, 9]), 10, UiMode::Basic);
    assert_eq!(bar, "=X=#E#   V");
    assert!(bar.is_ascii());
}

#[test]
fn rich_bar_has_a_tail() {
    let state = state_with(Vec::new());
    let bar = build_progress_bar(&state, &figures(2, 1, Some(3), &[]), 5, UiMode::Rich);
    assert_eq!(bar, "░█▌  ");
    let bar = build_progress_bar(&state, &figures(2, 1, None, &[]), 5, UiMode::Rich);
    assert_eq!(bar, "░█   ");
    let bar = build_progress_bar(&state, &figures(5, 0, Some(0), &[]), 5, UiMode::Rich);
    assert_eq!(bar, "████▏");
    let bar = build_progress_bar(&state, &figures(2, 0, Some(7), &[]), 5, UiMode::Rich);
    assert_eq!(bar, "██   ");
    let bar = build_progress_bar(&state, &figures(9, 9, Some(6), &[]), 5, UiMode::Rich);
    assert_eq!(bar, "░░░░░");
}

#[test]
fn marks_stay_visible() {
    let state = state_with(vec![error(0, ErrorKind::Write), error(1, ErrorKind::Value)]);
    let bar = build_progress_bar(&state, &figures(2, 0, Some(3), &[2, 2]), 5, UiMode::Rich);
    assert_eq!(bar, "██V  ");
}

#[test]
fn eta_of_a_stage() {
    let mut state = UiDeviceState::new(1000, 10, SECOND);
    assert_eq!(compute_eta(&state, 2 * SECOND), EtaPlan::Unknown);
    state.apply_progress(update("d", Stage::Writing, 250, None), 2 * SECOND);
    assert_eq!(
        compute_eta(&state, 3 * SECOND),
        EtaPlan::Average { remaining: 750, done: 250, nanos: 2 * SECOND }
    );
    assert_eq!(
        compute_eta(&state, SECOND),
        EtaPlan::Recent { remaining: 750, sample: SpeedSample { bytes: 250, nanos: SECOND } }
    );
    state.apply_progress(update("d", Stage::Reading, 100, None), 5 * SECOND);
    assert_eq!(
        compute_eta(&state, 6 * SECOND),
        EtaPlan::Average { remaining: 900, done: 100, nanos: SECOND }
    );
    state.finish(7 * SECOND);
    assert_eq!(compute_eta(&state, 8 * SECOND), EtaPlan::Finished);
}

#[test]
fn eta_as_text() {
    assert_eq!(format_eta(EtaPlan::Finished, 77), "0:00:00");
    assert_eq!(format_eta(EtaPlan::Unknown, 77), "--:--:--");
    assert_eq!(format_eta(EtaPlan::Average { remaining: 1, done: 1, nanos: 1 }, 77), "0:01:17");
    let sample = SpeedSample { bytes: 1, nanos: 1 };
    assert_eq!(format_eta(EtaPlan::Recent { remaining: 1, sample }, 77), "0:01:17");
}

#[test]
fn speed_of_a_stage() {
    assert_eq!(average_speed(5, 10, Some(30)), Some(SpeedSample { bytes: 5, nanos: 20 }));
    assert_eq!(average_speed(5, 10, Some(10)), None);
    assert_eq!(average_speed(5, 10, Some(9)), None);
    assert_eq!(average_speed(5, 10, None), None);
    let mut state = UiDeviceState::new(1000, 10, 10);
    state.apply_progress(update("d", Stage::Writing, 1, None), 20);
    state.apply_progress(update("d", Stage::Reading, 400, None), 30);
    state.finish(50);
    assert_eq!(state.write_speed(), Some(SpeedSample { bytes: 1000, nanos: 20 }));
    assert_eq!(state.read_speed(), Some(SpeedSample { bytes: 400, nanos: 20 }));
}

#[test]
fn table_of_devices() {
    let mut board = Board::new(0);
    board.observe(init("/dev/sdb", 100, 10), 0);
    board.observe(init("/dev/sda", 100, 10), 0);
    board.observe(progress("/dev/sdb", Stage::Writing, 50, Some(error(9, ErrorKind::Write))), 1);
    assert_eq!(board.bar_width(60), 17);
    assert_eq!(board.bar_width(0), 10);
    let rows = vec![
        RowFigures { bar: figures(0, 0, None, &[]), speed: "0".to_string(), eta_seconds: 0 },
        RowFigures { bar: figures(5, 0, None, &[9]), speed: "123".to_string(), eta_seconds: 61 },
    ];
    let lines = board.draw_ui(&rows, 40, UiMode::Basic, 2);
    assert_eq!(
        lines,
        vec![
            "Disk     | Progress   | Mbps |        Eta | Errs ",
            "---------+------------+------+------------+------",
            "/dev/sda |            |    0 |   --:--:-- |     0",
            "/dev/sdb | #####    X |  123 |    0:01:01 |     1",
        ]
    );
    assert!(lines.iter().all(|line| line.chars().count() == lines[0].len()));
    assert_eq!(board.prompt_row(), 5);
}

#[test]
fn table_without_devices() {
    let board = Board::new(0);
    let lines = board.draw_ui(&Vec::new(), 80, UiMode::Rich, 0);
    assert_eq!(lines.len(), 2);
    assert_eq!(board.bar_width(80), 41);
    assert_eq!(lines[0].len(), 76);
    assert_eq!(lines[1].len(), 76);
    assert_eq!(board.prompt_row(), 3);
}

#[test]
fn names_get_no_more_than_thirty_columns() {
    let mut board = Board::new(0);
    board.observe(init("/dev/disk/by-id/a-name-that-takes-up-a-lot-of-room", 1, 1), 0);
    assert_eq!(board.bar_width(100), 35);
}

#[test]
fn report_on_devices() {
    let mut board = Board::new(0);
    board.observe(init("b", 2000, 2), 0);
    board.observe(init("a", 3000, 3), 0);
    board.observe(progress("b", Stage::Writing, 1, Some(error(1, ErrorKind::Write))), 1);
    board.observe(progress("b", Stage::Reading, 1, Some(error(2, ErrorKind::Read))), 1);
    board.observe(progress("b", Stage::Reading, 1, Some(error(3, ErrorKind::Value))), 1);
    board.observe(progress("b", Stage::Reading, 1, Some(error(4, ErrorKind::Value))), 1);
    let speeds = vec![
        ReportSpeeds { write: "1.5".to_string(), read: "2.5".to_string() },
        ReportSpeeds { write: "0.0".to_string(), read: "9.9".to_string() },
    ];
    assert_eq!(
        board.report(&speeds),
        vec![
            "\nScan complete.",
            "a: 3000 bytes, write 1.5 Mbps, read 2.5 Mbps, 0 total errors (write 0, read 0, value 0)",
            "b: 2000 bytes, write 0.0 Mbps, read 9.9 Mbps, 4 total errors (write 1, read 1, value 2)",
            "  - chunk 1 @ 1000 (sector 1): Write (oops)",
            "  - chunk 2 @ 2000 (sector 3): Read (oops)",
            "  - chunk 3 @ 3000 (sector 5): Value (oops)",
            "  - chunk 4 @ 4000 (sector 7): Value (oops)",
        ]
    );
}
