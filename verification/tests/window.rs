//! The moving-average window: mean of the retained samples, eviction of the
//! oldest sample once the twenty-first arrives.

use loadem::window::MovingAverageWindow;

#[test]
fn average_is_the_mean_of_the_samples() {
    let mut w = MovingAverageWindow::new();
    assert_eq!(w.average(), 0);
    for sample in [1u64, 2, 3, 4, 5] {
        w.push(sample);
    }
    assert_eq!(w.len(), 5);
    assert_eq!(w.average(), 3);
}

#[test]
fn average_rounds_down() {
    let mut w = MovingAverageWindow::new();
    w.push(1);
    w.push(2);
    assert_eq!(w.average(), 1);
}

#[test]
fn twenty_first_sample_evicts_the_oldest() {
    let mut w = MovingAverageWindow::new();
    for sample in 1u64..=20 {
        w.push(sample);
    }
    assert_eq!(w.len(), 20);
    // mean of 1..=20 is 10.5, reported to the floor
    assert_eq!(w.average(), 10);

    w.push(21);
    // the window still holds twenty samples: 2..=21, whose mean is 11.5
    assert_eq!(w.len(), 20);
    assert_eq!(w.average(), 11);

    w.push(22);
    // now 3..=22, mean 12.5
    assert_eq!(w.len(), 20);
    assert_eq!(w.average(), 12);
}
