//! Standard Brownian motion: `dX = dW`.

use vstd::prelude::*;
use crate::process::{StochasticProcess, StochasticScheme};
use crate::scalar::{Scalar, SCALE, lemma_one_times, trunc_div};
use crate::simulation::path_prefix_spec;

verus! {

/// Standard Brownian motion. It has no parameters.
#[derive(Debug)]
pub struct BrownianMotion {}

impl Default for BrownianMotion {
    fn default() -> (r: Self)
        ensures
            r == (BrownianMotion {}),
    {
        Self::new()
    }
}

impl BrownianMotion {
    /// Create a new Brownian motion process.
    #[must_use]
    pub fn new() -> (r: Self)
        ensures
            r == (BrownianMotion {}),
    {
        Self {}
    }

    /// The model has no parameters.
    pub open spec fn parameters_spec(&self) -> Seq<Scalar> {
        Seq::empty()
    }
}

impl StochasticProcess for BrownianMotion {
    /// The process is driven by Brownian motion.
    open spec fn hurst_spec(&self) -> Option<Scalar> {
        None
    }

    /// The drift is zero everywhere.
    open spec fn drift_spec(&self, x: Scalar, t: Scalar) -> Option<Scalar> {
        Some(Scalar { raw: 0 })
    }

    /// The diffusion is one everywhere.
    open spec fn diffusion_spec(&self, x: Scalar, t: Scalar) -> Option<Scalar> {
        Some(Scalar { raw: SCALE })
    }

    /// There is no jump term.
    open spec fn jump_spec(&self, x: Scalar, t: Scalar) -> Option<Scalar> {
        None
    }

    fn drift(&self, _x: Scalar, _t: Scalar) -> (r: Option<Scalar>) {
        Some(Scalar::zero())
    }

    fn diffusion(&self, _x: Scalar, _t: Scalar) -> (r: Option<Scalar>) {
        Some(Scalar::one())
    }

    fn jump(&self, _x: Scalar, _t: Scalar) -> (r: Option<Scalar>) {
        None
    }

    fn hurst_exponent(&self) -> (r: Option<Scalar>) {
        None
    }

    fn parameters(&self) -> (r: Vec<Scalar>)
        ensures
            r@ == self.parameters_spec(),
    {
        Vec::new()
    }
}

/// The sum of the first `k` noise increments of a path, in raw units: draw
/// `j` contributes `draws[j] * scale`, rounded toward zero.
pub open spec fn increment_sum(draws: Seq<Scalar>, scale: Scalar, k: nat) -> int
    decreases k,
{
    if k == 0 {
        0
    } else {
        increment_sum(draws, scale, (k - 1) as nat) + trunc_div(draws[k - 1]@ * scale@, SCALE as int)
    }
}

/// An Euler-Maruyama path of Brownian motion is the running sum of its noise
/// increments: after `k` steps it stands at the initial value plus the first
/// `k` increments.
pub proof fn lemma_brownian_path_is_running_sum(
    x_0: Scalar,
    times: Seq<Scalar>,
    dt: Scalar,
    scale: Scalar,
    draws: Seq<Scalar>,
    k: nat,
)
    requires
        path_prefix_spec(&BrownianMotion {}, StochasticScheme::EulerMaruyama, x_0, times, dt, scale, draws, k)
            is Some,
    ensures
        path_prefix_spec(
            &BrownianMotion {},
            StochasticScheme::EulerMaruyama,
            x_0,
            times,
            dt,
            scale,
            draws,
            k,
        )->0.last()@ == x_0@ + increment_sum(draws, scale, k),
    decreases k,
{
    if k > 0 {
        let motion = BrownianMotion {};
        lemma_brownian_path_is_running_sum(x_0, times, dt, scale, draws, (k - 1) as nat);
        let dw = draws[k - 1].mul_spec(scale)->0;
        lemma_one_times(dw);
        assert(0 * dt@ == 0) by (nonlinear_arith);
        assert((Scalar { raw: 0 }).mul_spec(dt) == Some(Scalar { raw: 0 }));
    }
}

} // verus!
