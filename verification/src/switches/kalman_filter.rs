use vstd::arithmetic::div_mod::{
    lemma_div_is_ordered, lemma_div_multiples_vanish, lemma_div_pos_is_pos,
};
use vstd::arithmetic::mul::{lemma_mul_inequality, lemma_mul_nonnegative, lemma_mul_upper_bound};
use vstd::math::abs;
use vstd::prelude::*;

verus! {

// Per-switch 1-D Kalman filter smoothing raw ADC noise into a stable analog
// reading.  All quantities are held in Q16.16 fixed point (a value v stands
// for the real number v / 65536): the verifier works on integers, and the
// 12-bit ADC range loses nothing by the scaling.
//
// The update rule, for prior belief (mu, sigma) and observation z:
//     prior_sigma = sigma + noise_sigma
//     gain        = prior_sigma / (prior_sigma + state_sigma)
//     mu'         = mu + gain * (z - mu)
//     sigma'      = (1 - gain) * prior_sigma
// In fixed point the variance update is computed in its algebraically equal
// form sigma' = prior_sigma * state_sigma / (prior_sigma + state_sigma),
// which rounds once instead of twice and keeps sigma' below state_sigma.

/// 1.0 in Q16.16 fixed point.
pub const FRAC_ONE: u64 = 65536;

/// Largest mean the filter can hold: the largest 16-bit observation, scaled.
pub const MU_MAX: u64 = 0xFFFF0000;

/// Largest accepted noise parameter (2^30), far above any physical setting;
/// keeps every intermediate product inside u64.
pub const SIGMA_PARAM_MAX: u64 = 0x40000000;

/// The filter's belief about one cell: mean and variance, in Q16.16.
#[derive(Clone, Copy, Debug)]
pub struct Gaussian {
    pub mu: u64,
    pub sigma: u64,
}

impl Gaussian {
    pub fn new(mu: u64, sigma: u64) -> (r: Gaussian)
        ensures
            r.mu == mu,
            r.sigma == sigma,
    {
        Gaussian { mu, sigma }
    }
}

/// Kalman gain for a prior variance and the measurement variance, in Q16.16.
pub open spec fn spec_gain(prior_sigma: int, state_sigma: int) -> int {
    (prior_sigma * (FRAC_ONE as int)) / (prior_sigma + state_sigma)
}

/// The posterior mean: the prior mean moved toward the observation by the
/// gain (both in Q16.16, the gain a fraction of FRAC_ONE).
pub open spec fn spec_next_mu(mu: int, obs_q: int, gain: int) -> int {
    if obs_q >= mu {
        mu + (gain * (obs_q - mu)) / (FRAC_ONE as int)
    } else {
        mu - (gain * (mu - obs_q)) / (FRAC_ONE as int)
    }
}

/// The posterior variance (1 - gain) * prior_sigma, in the algebraically
/// equal form prior_sigma * state_sigma / (prior_sigma + state_sigma).
pub open spec fn spec_next_sigma(prior_sigma: int, state_sigma: int) -> int {
    (prior_sigma * state_sigma) / (prior_sigma + state_sigma)
}

/// Per-cell denoiser: belief is seeded by the first observation and then
/// updated by the Kalman rule on every further one.
#[derive(Clone, Copy, Debug)]
pub struct KalmanFilter {
    /// Current belief; None until the first observation arrives.
    pub state: Option<Gaussian>,
    /// Measurement-noise variance (Q16.16), fixed at construction.
    pub state_sigma: u64,
    /// Process-noise variance (Q16.16), fixed at construction.
    pub noise_sigma: u64,
}

impl KalmanFilter {
    pub open spec fn wf(self) -> bool {
        &&& self.state_sigma <= SIGMA_PARAM_MAX
        &&& self.noise_sigma <= SIGMA_PARAM_MAX
        &&& self.state_sigma + self.noise_sigma >= 1
        &&& match self.state {
            Some(g) => g.mu <= MU_MAX && g.sigma <= self.state_sigma,
            None => true,
        }
    }

    pub fn new(state_sigma: u64, noise_sigma: u64) -> (r: KalmanFilter)
        requires
            state_sigma <= SIGMA_PARAM_MAX,
            noise_sigma <= SIGMA_PARAM_MAX,
            state_sigma + noise_sigma >= 1,
        ensures
            r.wf(),
            r.state is None,
            r.state_sigma == state_sigma,
            r.noise_sigma == noise_sigma,
    {
        KalmanFilter { state: None, state_sigma, noise_sigma }
    }

    /// Feed one observation; the result is the new estimate of the cell's
    /// analog level, in Q16.16.  The first observation is returned unchanged
    /// (scaled); every further one moves the estimate by the Kalman rule.
    pub fn predict(&mut self, observation: u16) -> (r: u64)
        requires
            old(self).wf(),
        ensures
            final(self).wf(),
            final(self).state_sigma == old(self).state_sigma,
            final(self).noise_sigma == old(self).noise_sigma,
            final(self).state is Some,
            r == final(self).state->Some_0.mu,
            old(self).state is None ==> r == observation * FRAC_ONE,
            old(self).state is None ==> final(self).state->Some_0.sigma == old(self).state_sigma,
            old(self).state is Some ==> r == spec_next_mu(
                old(self).state->Some_0.mu as int,
                observation * FRAC_ONE,
                spec_gain(
                    old(self).state->Some_0.sigma + old(self).noise_sigma,
                    old(self).state_sigma as int,
                ),
            ),
            old(self).state is Some ==> final(self).state->Some_0.sigma == spec_next_sigma(
                old(self).state->Some_0.sigma + old(self).noise_sigma,
                old(self).state_sigma as int,
            ),
    {
        let obs_q: u64 = (observation as u64) * FRAC_ONE;
        match self.state {
            None => {
                self.state = Some(Gaussian::new(obs_q, self.state_sigma));
                obs_q
            }
            Some(g) => {
                let prior_sigma: u64 = g.sigma + self.noise_sigma;
                let denom: u64 = prior_sigma + self.state_sigma;
                let gain: u64 = (prior_sigma * FRAC_ONE) / denom;
                proof {
                    lemma_gain_le_one(prior_sigma as int, self.state_sigma as int);
                }
                let new_mu: u64 = if obs_q >= g.mu {
                    let diff: u64 = obs_q - g.mu;
                    proof {
                        lemma_mul_upper_bound(gain as int, FRAC_ONE as int, diff as int, MU_MAX as int);
                        lemma_scaled_step_le(gain as int, diff as int);
                    }
                    let step: u64 = (gain * diff) / FRAC_ONE;
                    g.mu + step
                } else {
                    let diff: u64 = g.mu - obs_q;
                    proof {
                        lemma_mul_upper_bound(gain as int, FRAC_ONE as int, diff as int, MU_MAX as int);
                        lemma_scaled_step_le(gain as int, diff as int);
                    }
                    let step: u64 = (gain * diff) / FRAC_ONE;
                    g.mu - step
                };
                proof {
                    lemma_mul_upper_bound(
                        prior_sigma as int,
                        SIGMA_PARAM_MAX + SIGMA_PARAM_MAX,
                        self.state_sigma as int,
                        SIGMA_PARAM_MAX as int,
                    );
                    lemma_posterior_sigma_le(prior_sigma as int, self.state_sigma as int);
                }
                let new_sigma: u64 = (prior_sigma * self.state_sigma) / denom;
                self.state = Some(Gaussian::new(new_mu, new_sigma));
                new_mu
            }
        }
    }
}

/// The gain is a fraction: between 0 and 1 in Q16.16.
pub proof fn lemma_gain_le_one(p: int, s: int)
    requires
        p >= 0,
        s >= 0,
        p + s >= 1,
    ensures
        0 <= spec_gain(p, s) <= FRAC_ONE,
{
    lemma_mul_nonnegative(p, FRAC_ONE as int);
    lemma_div_pos_is_pos(p * (FRAC_ONE as int), p + s);
    lemma_mul_inequality(p, p + s, FRAC_ONE as int);
    lemma_div_is_ordered(p * (FRAC_ONE as int), (p + s) * (FRAC_ONE as int), p + s);
    lemma_div_multiples_vanish(FRAC_ONE as int, p + s);
}

/// Scaling a distance by a Q16.16 fraction never exceeds the distance.
pub proof fn lemma_scaled_step_le(gain: int, diff: int)
    requires
        0 <= gain <= FRAC_ONE,
        0 <= diff,
    ensures
        0 <= (gain * diff) / (FRAC_ONE as int) <= diff,
{
    lemma_mul_nonnegative(gain, diff);
    lemma_div_pos_is_pos(gain * diff, FRAC_ONE as int);
    lemma_mul_inequality(gain, FRAC_ONE as int, diff);
    lemma_div_is_ordered(gain * diff, (FRAC_ONE as int) * diff, FRAC_ONE as int);
    lemma_div_multiples_vanish(diff, FRAC_ONE as int);
}

/// The posterior variance never exceeds the measurement variance.
pub proof fn lemma_posterior_sigma_le(p: int, s: int)
    requires
        p >= 0,
        s >= 0,
        p + s >= 1,
    ensures
        0 <= spec_next_sigma(p, s) <= s,
{
    lemma_mul_nonnegative(p, s);
    lemma_div_pos_is_pos(p * s, p + s);
    lemma_mul_inequality(p, p + s, s);
    lemma_div_is_ordered(p * s, (p + s) * s, p + s);
    lemma_div_multiples_vanish(s, p + s);
}

/// Law: a single update never overshoots.  The new mean lies between the
/// prior mean and the observation.
pub proof fn lemma_no_overshoot(mu: int, obs_q: int, gain: int)
    requires
        0 <= mu,
        0 <= obs_q,
        0 <= gain <= FRAC_ONE,
    ensures
        mu <= obs_q ==> mu <= spec_next_mu(mu, obs_q, gain) <= obs_q,
        obs_q <= mu ==> obs_q <= spec_next_mu(mu, obs_q, gain) <= mu,
{
    if obs_q >= mu {
        lemma_scaled_step_le(gain, obs_q - mu);
    } else {
        lemma_scaled_step_le(gain, mu - obs_q);
    }
}

/// Law: fed a constant observation, the estimate converges monotonically:
/// each update moves the mean no farther from the observation.
pub proof fn lemma_converges_monotonically(mu: int, obs_q: int, gain: int)
    requires
        0 <= mu,
        0 <= obs_q,
        0 <= gain <= FRAC_ONE,
    ensures
        abs(spec_next_mu(mu, obs_q, gain) - obs_q) <= abs(mu - obs_q),
{
    lemma_no_overshoot(mu, obs_q, gain);
}

} // verus!
