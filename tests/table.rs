use can_io::frame::{Frame, FrameError};
use can_io::table::{FrameTable, Frequency};

fn frame(id: u32, data: Vec<u8>) -> Frame {
    Frame::new(id, false, data).unwrap()
}

fn hz(f: Frequency) -> f64 {
    f.numerator as f64 / f.denominator as f64
}

#[test]
fn first_arrival_has_no_frequency() {
    let mut t = FrameTable::new();
    t.upsert(frame(0x100, vec![1]), 0);
    assert_eq!(t.len(), 1);
    let e = &t.entries[0];
    assert_eq!(hz(e.frequency), 0.0);
    assert_eq!(e.history, vec![0]);
    assert_eq!(e.last_arrival_us, 0);
}

#[test]
fn close_arrivals_use_window_count() {
    let mut t = FrameTable::new();
    t.upsert(frame(0x100, vec![1]), 0);
    t.upsert(frame(0x100, vec![2]), 1_000);
    let e = &t.entries[0];
    assert_eq!(e.history, vec![0, 1_000]);
    assert_eq!(hz(e.frequency), 20.0);
    assert_eq!(e.frame.data, vec![2]);
    assert_eq!(e.last_arrival_us, 1_000);
}

#[test]
fn sparse_arrivals_use_gap() {
    let mut t = FrameTable::new();
    t.upsert(frame(0x100, vec![]), 0);
    t.upsert(frame(0x100, vec![]), 1_000_000);
    assert_eq!(hz(t.entries[0].frequency), 1.0);
    t.upsert(frame(0x100, vec![]), 2_000_000);
    assert_eq!(hz(t.entries[0].frequency), 1.0);
}

#[test]
fn gap_of_exactly_fifty_ms_uses_window() {
    let mut t = FrameTable::new();
    t.upsert(frame(0x100, vec![]), 0);
    t.upsert(frame(0x100, vec![]), 50_000);
    assert_eq!(hz(t.entries[0].frequency), 20.0);
    t.upsert(frame(0x100, vec![]), 100_001);
    assert_eq!(t.entries[0].frequency, Frequency { numerator: 1_000_000, denominator: 50_001 });
}

#[test]
fn old_arrivals_leave_history() {
    let mut t = FrameTable::new();
    t.upsert(frame(0x100, vec![]), 0);
    t.upsert(frame(0x100, vec![]), 50_000);
    t.upsert(frame(0x100, vec![]), 150_000);
    let e = &t.entries[0];
    assert_eq!(e.history, vec![50_000, 150_000]);
    assert!(!e.history.contains(&0));
}

#[test]
fn identifiers_get_their_own_entries() {
    let mut t = FrameTable::new();
    t.upsert(frame(0x100, vec![1]), 0);
    t.upsert(frame(0x200, vec![2]), 10);
    t.upsert(frame(0x100, vec![3]), 20);
    assert_eq!(t.len(), 2);
    assert_eq!(t.entries[0].frame.id, 0x100);
    assert_eq!(t.entries[0].frame.data, vec![3]);
    assert_eq!(t.entries[1].frame.id, 0x200);
    assert_eq!(t.position(0x200), Some(1));
    assert_eq!(t.position(0x300), None);
}

#[test]
fn clear_one_removes_only_that_identifier() {
    let mut t = FrameTable::new();
    t.upsert(frame(0x100, vec![]), 0);
    t.upsert(frame(0x200, vec![]), 0);
    t.clear_one(0x100);
    assert_eq!(t.len(), 1);
    assert_eq!(t.entries[0].frame.id, 0x200);
    t.clear_one(0x999);
    assert_eq!(t.len(), 1);
}

#[test]
fn clear_all_empties_table() {
    let mut t = FrameTable::new();
    t.upsert(frame(0x100, vec![]), 0);
    t.upsert(frame(0x200, vec![]), 0);
    t.clear_all();
    assert_eq!(t.len(), 0);
    t.upsert(frame(0x100, vec![]), 5);
    assert_eq!(hz(t.entries[0].frequency), 0.0);
}

#[test]
fn arrivals_must_not_go_back_in_time() {
    let mut t = FrameTable::new();
    assert!(t.accepts_arrival(0x100, 0));
    t.upsert(frame(0x100, vec![]), 500);
    assert!(t.accepts_arrival(0x100, 500));
    assert!(!t.accepts_arrival(0x100, 499));
    assert!(t.accepts_arrival(0x200, 0));
}

#[test]
fn frame_identifier_ranges() {
    assert_eq!(Frame::new(0x800, false, vec![]).unwrap_err(), FrameError::IdOutOfRange);
    assert!(Frame::new(0x7FF, false, vec![]).is_ok());
    assert!(Frame::new(0x1FFF_FFFF, true, vec![]).is_ok());
    assert_eq!(Frame::new(0x2000_0000, true, vec![]).unwrap_err(), FrameError::IdOutOfRange);
    assert_eq!(Frame::new(1, false, vec![0; 9]).unwrap_err(), FrameError::PayloadTooLong);
    let f = Frame::new(5, true, vec![1, 2]).unwrap();
    let g = f.duplicate();
    assert_eq!((g.id, g.extended, g.data), (5, true, vec![1, 2]));
}
