use monero_vanity::threads::{ThreadChoice, ThreadNotice, Threads};

#[test]
fn zero_threads_on_eight_is_four() {
    let limits = Threads::new(8);
    assert_eq!(
        limits.clamp(0),
        ThreadChoice { threads: 4, notice: ThreadNotice::DefaultedToHalf }
    );
}

#[test]
fn hundred_threads_on_eight_is_eight() {
    let limits = Threads::new(8);
    assert_eq!(limits.clamp(100), ThreadChoice { threads: 8, notice: ThreadNotice::ClampedToMax });
}

#[test]
fn threads_in_range_stand() {
    let limits = Threads::new(8);
    for n in 1..=8 {
        assert_eq!(limits.clamp(n), ThreadChoice { threads: n, notice: ThreadNotice::Accepted });
    }
    assert_eq!(limits.clamp(9).threads, 8);
}

#[test]
fn limits_of_small_machines() {
    assert_eq!(Threads::new(1), Threads { max: 1, half: 0 });
    assert_eq!(Threads::new(7), Threads { max: 7, half: 3 });
    assert_eq!(Threads::new(1).clamp(0).threads, 0);
    assert_eq!(Threads::new(0).clamp(3).threads, 0);
}
