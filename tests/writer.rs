use attpc_merger::ring_item::{SIS3300Item, SIS3316Item};
use attpc_merger::progress::ProgressTracker;
use attpc_merger::writer::{sis3300_matrix, sis3316_matrix, RunSummary};

#[test]
fn sis3300_matrix_is_samples_by_channels() {
    let mut item = SIS3300Item::new();
    item.samples = 2;
    item.traces[0] = vec![1, 2];
    item.traces[7] = vec![8];
    let m = sis3300_matrix(&item);
    assert_eq!(m.len(), 2);
    assert_eq!(m[0], vec![1, 0, 0, 0, 0, 0, 0, 8]);
    assert_eq!(m[1], vec![2, 0, 0, 0, 0, 0, 0, 0]);
}

#[test]
fn sis3316_matrix_uses_valid_channels() {
    let mut item = SIS3316Item::new();
    item.samples = 2;
    item.channels = 3;
    item.valid[4] = true;
    item.traces[4] = vec![4, 40, 41];
    item.valid[9] = true;
    item.traces[9] = vec![9, 90, 91];
    let m = sis3316_matrix(&item);
    assert_eq!(m, vec![vec![4, 9, 0], vec![40, 90, 0], vec![41, 91, 0]]);
}

#[test]
fn run_summary_bookkeeping() {
    let mut s = RunSummary::new();
    s.record_get_event(0, 500_000_000);
    s.record_get_event(1, 700_000_000);
    s.record_get_event(1, 1);
    s.record_frib_event(0);
    s.record_frib_event(1);
    s.record_scaler_event(3);
    assert_eq!(s.first_timestamp, 500_000_000);
    assert_eq!(s.last_timestamp, 700_000_000);
    assert_eq!(s.last_get_event, 1);
    assert_eq!(s.last_scaler_event, 3);
    assert!(s.counts_agree());
    assert_eq!(s.run_seconds(), 2);
    s.record_frib_event(5);
    assert!(!s.counts_agree());
}

#[test]
fn run_summary_single_event() {
    let mut s = RunSummary::new();
    s.record_get_event(0, 5);
    assert_eq!(s.first_timestamp, 5);
    assert_eq!(s.last_timestamp, 5);
    assert_eq!(s.last_get_event, 0);
    assert!(s.has_get_event);
}

#[test]
fn progress_steps_of_one_percent() {
    let mut p = ProgressTracker::new(1000);
    assert_eq!(p.flush_val, 10);
    assert!(!p.add(6));
    assert!(!p.add(4));
    assert!(p.add(1));
    assert_eq!((p.count, p.steps), (0, 1));
    assert!(p.add(50));
    assert_eq!(p.steps, 2);
}
