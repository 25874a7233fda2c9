//! Paths driven by fractional Gaussian noise.
//!
//! A fractional process is advanced by the Euler-Maruyama recursion, whatever
//! scheme the configuration names, with the fractional increment in the
//! place of the Brownian one: the draws of a path are fractional Gaussian
//! noise of unit variance, correlated along the path as the Hurst exponent
//! `H` prescribes, and the engine scales each draw by `dt^H` where a Brownian
//! path scales by the square root of `dt`.

use vstd::prelude::*;
use crate::process::{
    SimulationError, StochasticProcess, StochasticProcessConfig, StochasticScheme, Trajectories, rows,
};
use crate::fractional_noise::{check_hurst, hurst_in_range};
use crate::scalar::{Scalar, HALF, lemma_pow_half};
use crate::simulation::{outcome, simulate_scaled, simulate_scaled_spec, simulate_spec};

verus! {

/// Method by which the fractional Gaussian noise of a path is generated.
#[derive(Clone, Copy, Debug, PartialEq, Eq, Structural)]
pub enum FractionalProcessGeneratorMethod {
    /// Exact sampling from the Cholesky factor of the covariance matrix.
    CHOLESKY,
    /// Circulant embedding of the covariance, diagonalised by a fast Fourier
    /// transform.
    FFT,
}

/// The factor that turns a unit-variance draw into an increment of
/// fractional noise over one step: the step length to the power `hurst`.
pub open spec fn fractional_scale_spec(config: &StochasticProcessConfig, hurst: Scalar) -> Option<Scalar> {
    match config.dt_spec() {
        Some(dt) => dt.pow_spec(hurst),
        None => None,
    }
}

/// The result of simulating `process` under `config` from the fractional
/// draws `noise`: a Hurst exponent outside `[0, 1]` is refused first of all;
/// the rest is the engine's Euler-Maruyama run with the fractional scale.
/// The scheme that the configuration names plays no part.
pub open spec fn simulate_fractional_spec<P: StochasticProcess>(
    process: &P,
    config: &StochasticProcessConfig,
    hurst: Scalar,
    noise: Seq<Seq<Scalar>>,
) -> Result<(Seq<Scalar>, Seq<Seq<Scalar>>), SimulationError> {
    if !hurst_in_range(hurst) {
        Err(SimulationError::HurstOutOfRange)
    } else {
        simulate_scaled_spec(
            process,
            config,
            StochasticScheme::EulerMaruyama,
            fractional_scale_spec(config, hurst),
            noise,
        )
    }
}

/// Simulates `config.m_paths` paths of `process` driven by fractional noise
/// with Hurst exponent `hurst`, by the Euler-Maruyama scheme.
///
/// `noise` holds one row per path and in each row one draw of unit-variance
/// fractional Gaussian noise per step.
pub fn simulate_fractional_stochastic_process<P: StochasticProcess>(
    process: &P,
    config: &StochasticProcessConfig,
    hurst: Scalar,
    noise: &Vec<Vec<Scalar>>,
) -> (r: Result<Trajectories, SimulationError>)
    ensures
        outcome(r) == simulate_fractional_spec(process, config, hurst, rows(noise@)),
        r is Ok ==> r->Ok_0.fits(config),
{
    if !check_hurst(hurst) {
        return Err(SimulationError::HurstOutOfRange);
    }
    let scale = match config.dt() {
        Some(dt) => dt.checked_pow(hurst),
        None => None,
    };
    simulate_scaled(process, config, StochasticScheme::EulerMaruyama, scale, noise)
}

/// With a Hurst exponent of one half the fractional generator is the
/// Brownian one under the Euler-Maruyama scheme: from the same draws, both
/// give the same result.
pub proof fn lemma_hurst_half_is_brownian<P: StochasticProcess>(
    process: &P,
    config: &StochasticProcessConfig,
    brownian: &StochasticProcessConfig,
    noise: Seq<Seq<Scalar>>,
)
    requires
        brownian.x_0 == config.x_0,
        brownian.t_0 == config.t_0,
        brownian.t_n == config.t_n,
        brownian.n_steps == config.n_steps,
        brownian.m_paths == config.m_paths,
        brownian.scheme == StochasticScheme::EulerMaruyama,
    ensures
        simulate_fractional_spec(process, config, Scalar { raw: HALF }, noise) == simulate_spec(
            process,
            brownian,
            noise,
        ),
{
    if config.dt_spec() is Some {
        lemma_pow_half(config.dt_spec()->0);
    }
}

} // verus!
