use sonora_ns::config::{FFT_SIZE_BY_2_PLUS_1, LONG_STARTUP_PHASE_BLOCKS};
use sonora_ns::quantile_noise_estimator::{QuantileSchedule, SIMULT};

fn counters(q: &QuantileSchedule) -> [i32; SIMULT] {
    [q.counter(0), q.counter(1), q.counter(2)]
}

#[test]
fn initial_state() {
    let qne = QuantileSchedule::new();
    assert_eq!(qne.num_updates(), 1);
    // Counters should be staggered fractions of LONG_STARTUP_PHASE_BLOCKS
    assert_eq!(qne.counter(0), 66); // floor(200 * 1/3)
    assert_eq!(qne.counter(1), 133); // floor(200 * 2/3)
    assert_eq!(qne.counter(2), 200); // floor(200 * 3/3)
}

#[test]
fn first_frame_publishes_last_block() {
    let mut q = QuantileSchedule::new();
    assert_eq!(q.advance(), Some(FFT_SIZE_BY_2_PLUS_1 * (SIMULT - 1)));
    assert_eq!(q.advance(), Some(258));
    // The last tracker restarted on the first frame, the others counted on.
    assert_eq!(counters(&q), [68, 135, 2]);
    assert_eq!(q.num_updates(), 3);
}

#[test]
fn startup_lasts_until_long_startup_phase_blocks() {
    let mut q = QuantileSchedule::new();
    for _ in 0..(LONG_STARTUP_PHASE_BLOCKS - 1) {
        assert!(q.num_updates() < LONG_STARTUP_PHASE_BLOCKS);
        assert_eq!(q.advance(), Some(258));
    }
    assert!(q.num_updates() >= LONG_STARTUP_PHASE_BLOCKS);
    assert_eq!(q.num_updates(), LONG_STARTUP_PHASE_BLOCKS);
    for _ in 0..1000 {
        q.advance();
        assert_eq!(q.num_updates(), LONG_STARTUP_PHASE_BLOCKS);
    }
}

#[test]
fn counters_stay_in_range_and_distinct() {
    let mut q = QuantileSchedule::new();
    for _ in 0..1000 {
        let c = counters(&q);
        for s in 0..SIMULT {
            assert!(1 <= c[s] && c[s] <= LONG_STARTUP_PHASE_BLOCKS);
            for t in (s + 1)..SIMULT {
                assert_ne!(c[s], c[t]);
            }
        }
        q.advance();
    }
}

#[test]
fn counters_are_periodic() {
    let mut q = QuantileSchedule::new();
    for _ in 0..37 {
        q.advance();
    }
    let before = counters(&q);
    for _ in 0..LONG_STARTUP_PHASE_BLOCKS {
        q.advance();
    }
    assert_eq!(counters(&q), before);
}

#[test]
fn each_block_published_once_per_period_after_startup() {
    let mut q = QuantileSchedule::new();
    while q.num_updates() < LONG_STARTUP_PHASE_BLOCKS {
        q.advance();
    }
    for _ in 0..5 {
        let start = counters(&q);
        let mut seen = [0usize; SIMULT];
        for n in 0..LONG_STARTUP_PHASE_BLOCKS {
            let c = counters(&q);
            match q.advance() {
                Some(k) => {
                    assert_eq!(k % FFT_SIZE_BY_2_PLUS_1, 0);
                    let s = k / FFT_SIZE_BY_2_PLUS_1;
                    assert_eq!(c[s], LONG_STARTUP_PHASE_BLOCKS);
                    assert_eq!(n, LONG_STARTUP_PHASE_BLOCKS - start[s]);
                    seen[s] += 1;
                }
                None => assert!(c.iter().all(|&x| x < LONG_STARTUP_PHASE_BLOCKS)),
            }
        }
        assert_eq!(seen, [1, 1, 1]);
    }
}

#[test]
fn first_publication_after_startup() {
    let mut q = QuantileSchedule::new();
    for _ in 0..(LONG_STARTUP_PHASE_BLOCKS - 1) {
        q.advance();
    }
    // Frame 199: counters are (66+199-1)%200+1 = 65, 132, 199.
    assert_eq!(counters(&q), [65, 132, 199]);
    assert_eq!(q.advance(), None);
    // Frame 200: the last tracker's counter has reached 200.
    assert_eq!(q.advance(), Some(258));
    assert_eq!(counters(&q), [67, 134, 1]);
}
