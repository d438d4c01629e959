use necoboard::switches::kalman_filter::{KalmanFilter, FRAC_ONE};

const STATE_SIGMA: u64 = 2 * FRAC_ONE;
const NOISE_SIGMA: u64 = 10 * FRAC_ONE;

#[test]
fn first_prediction_returns_observation_exactly() {
    let mut f = KalmanFilter::new(STATE_SIGMA, NOISE_SIGMA);
    assert_eq!(f.predict(50), 50 * FRAC_ONE);

    let mut g = KalmanFilter::new(STATE_SIGMA, NOISE_SIGMA);
    assert_eq!(g.predict(0), 0);

    let mut h = KalmanFilter::new(STATE_SIGMA, NOISE_SIGMA);
    assert_eq!(h.predict(4095), 4095 * FRAC_ONE);
}

#[test]
fn constant_input_converges_monotonically() {
    let mut f = KalmanFilter::new(STATE_SIGMA, NOISE_SIGMA);
    f.predict(0);
    let target: u64 = 3000 * FRAC_ONE;
    let mut prev_dist: u64 = target;
    for _ in 0..200 {
        let out = f.predict(3000);
        let dist = if out > target { out - target } else { target - out };
        assert!(dist <= prev_dist, "estimate moved away from the observation");
        prev_dist = dist;
    }
    // After many identical observations the estimate is within one raw unit.
    assert!(prev_dist < FRAC_ONE);
}

#[test]
fn single_update_never_overshoots() {
    // Rising: the estimate stays between the prior mean and the observation.
    let mut f = KalmanFilter::new(STATE_SIGMA, NOISE_SIGMA);
    f.predict(100);
    let out = f.predict(200);
    assert!(out >= 100 * FRAC_ONE);
    assert!(out <= 200 * FRAC_ONE);

    // Falling: same, from the other side.
    let mut g = KalmanFilter::new(STATE_SIGMA, NOISE_SIGMA);
    g.predict(200);
    let out2 = g.predict(100);
    assert!(out2 >= 100 * FRAC_ONE);
    assert!(out2 <= 200 * FRAC_ONE);
}

#[test]
fn update_follows_the_kalman_rule_exactly() {
    // One cell fed [0, 0, 0, 50, 50, 50]: the exact Q16.16 estimates of the
    // fixed-point update rule, rising smoothly toward 50.
    let mut f = KalmanFilter::new(STATE_SIGMA, NOISE_SIGMA);
    let outs: Vec<u64> = [0, 0, 0, 50, 50, 50].iter().map(|&x| f.predict(x)).collect();
    assert_eq!(outs, vec![0, 0, 0, 2798700, 3207043, 3266622]);
}
