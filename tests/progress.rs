use memchurn::progress::{ProgressBar, ProgressMode, ProgressStep};

#[test]
fn iteration_bar_counts_to_total() {
    let mut it = ProgressBar::from_iterations(3).iter();
    let mut seen = vec![];
    loop {
        match it.next(0) {
            ProgressStep::Tick { index, draw } => {
                assert!(!draw);
                seen.push(index);
            }
            ProgressStep::Done { draw } => {
                assert!(!draw);
                break;
            }
        }
    }
    assert_eq!(seen, vec![1, 2, 3]);
    assert_eq!(it.next(0), ProgressStep::Done { draw: false });
}

#[test]
fn displayed_bar_draws_on_interval_and_at_end() {
    let mut bar = ProgressBar::from_iterations(3).with_width(20);
    bar.display(true);
    assert_eq!(bar.width, 20);
    assert_eq!(bar.next(10), Some((1, false)));
    assert_eq!(bar.next(150), Some((2, true)));
    assert_eq!(bar.next(160), Some((3, true)));
    assert_eq!(bar.next(170), None);
    let mut it = bar.iter();
    assert_eq!(it.next(170), ProgressStep::Done { draw: true });
    assert_eq!(it.next(180), ProgressStep::Done { draw: false });
}

#[test]
fn duration_bar_ends_with_time() {
    let mut bar = ProgressBar::from_duration(1_000);
    assert_eq!(bar.mode, ProgressMode::Duration(1_000));
    assert!(!bar.is_finished(999));
    assert_eq!(bar.next(500), Some((1, false)));
    assert!(bar.is_finished(1_000));
    assert_eq!(bar.next(1_000), None);
    assert_eq!(bar.current, 1);
}

#[test]
fn zero_iterations_finish_at_once() {
    let bar = ProgressBar::from_iterations(0);
    assert!(bar.is_finished(0));
    assert!(!bar.finish());
}
