//! The fractional Ornstein-Uhlenbeck process:
//! `dX = theta (mu - X) dt + sigma dB_H`.

use vstd::prelude::*;
use vstd::std_specs::convert::IntoSpec;
use crate::fractional_noise::{check_hurst, hurst_in_range};
use crate::fractional_process::{
    FractionalProcessGeneratorMethod, simulate_fractional_spec, simulate_fractional_stochastic_process,
};
use crate::model_parameter::ModelParameter;
use crate::process::{SimulationError, StochasticProcess, StochasticProcessConfig, Trajectories, rows};
use crate::scalar::{Scalar, opt_mul};
use crate::simulation::outcome;

verus! {

/// Struct containing the fractional Ornstein-Uhlenbeck process parameters.
pub struct FractionalOrnsteinUhlenbeck {
    /// The long-run mean.
    pub mu: ModelParameter,
    /// The diffusion, or instantaneous volatility.
    pub sigma: ModelParameter,
    /// Mean reversion parameter: the speed at which the process reverts to
    /// the long-run mean.
    pub theta: ModelParameter,
    /// Hurst parameter of the process, a measure of its long-term memory.
    pub hurst: Scalar,
    /// Method to generate fractional Gaussian noise.
    pub method: FractionalProcessGeneratorMethod,
}

impl FractionalOrnsteinUhlenbeck {
    /// Create a new fractional Ornstein-Uhlenbeck process.
    ///
    /// Fails exactly when `hurst` lies outside `[0, 1]`.
    pub fn new<A: Into<ModelParameter>, B: Into<ModelParameter>, C: Into<ModelParameter>>(
        mu: A,
        sigma: B,
        theta: C,
        hurst: Scalar,
        method: FractionalProcessGeneratorMethod,
    ) -> (r: Result<Self, SimulationError>)
        ensures
            hurst_in_range(hurst) <==> r is Ok,
            r is Err ==> r->Err_0 == SimulationError::HurstOutOfRange,
            r is Ok ==> r->Ok_0.hurst == hurst && r->Ok_0.method == method,
            r is Ok && A::obeys_into_spec() ==> r->Ok_0.mu == mu.into_spec(),
            r is Ok && B::obeys_into_spec() ==> r->Ok_0.sigma == sigma.into_spec(),
            r is Ok && C::obeys_into_spec() ==> r->Ok_0.theta == theta.into_spec(),
    {
        if !check_hurst(hurst) {
            return Err(SimulationError::HurstOutOfRange);
        }
        Ok(Self { mu: mu.into(), sigma: sigma.into(), theta: theta.into(), hurst, method })
    }

    /// Simulate the process from draws of fractional Gaussian noise, by the
    /// Euler-Maruyama recursion with the fractional increment in the place of
    /// the Brownian one.
    pub fn generate(&self, config: &StochasticProcessConfig, noise: &Vec<Vec<Scalar>>) -> (r: Result<
        Trajectories,
        SimulationError,
    >)
        ensures
            outcome(r) == simulate_fractional_spec(self, config, self.hurst, rows(noise@)),
            r is Ok ==> r->Ok_0.fits(config),
    {
        simulate_fractional_stochastic_process(self, config, self.hurst, noise)
    }

    /// `mu`, `sigma` and `theta` at time zero, then the Hurst exponent.
    pub open spec fn parameters_spec(&self) -> Seq<Scalar> {
        seq![
            self.mu.at(Scalar { raw: 0 }),
            self.sigma.at(Scalar { raw: 0 }),
            self.theta.at(Scalar { raw: 0 }),
            self.hurst,
        ]
    }
}

impl StochasticProcess for FractionalOrnsteinUhlenbeck {
    /// The process is driven by fractional noise with its Hurst exponent.
    open spec fn hurst_spec(&self) -> Option<Scalar> {
        Some(self.hurst)
    }

    /// The model reports its coefficients.
    open spec fn has_parameters(&self) -> bool {
        true
    }

    /// `theta(t) * (mu(t) - x)`.
    open spec fn drift_spec(&self, x: Scalar, t: Scalar) -> Option<Scalar> {
        opt_mul(Some(self.theta.at(t)), self.mu.at(t).sub_spec(x))
    }

    /// `sigma(t)`, defined where it is not negative.
    open spec fn diffusion_spec(&self, x: Scalar, t: Scalar) -> Option<Scalar> {
        if self.sigma.at(t)@ < 0 {
            None
        } else {
            Some(self.sigma.at(t))
        }
    }

    /// There is no jump term.
    open spec fn jump_spec(&self, x: Scalar, t: Scalar) -> Option<Scalar> {
        None
    }

    fn drift(&self, x: Scalar, t: Scalar) -> (r: Option<Scalar>) {
        match self.mu.call(t).checked_sub(x) {
            Some(gap) => self.theta.call(t).checked_mul(gap),
            None => None,
        }
    }

    fn diffusion(&self, _x: Scalar, t: Scalar) -> (r: Option<Scalar>) {
        let sigma = self.sigma.call(t);
        if sigma.is_negative() {
            None
        } else {
            Some(sigma)
        }
    }

    fn jump(&self, _x: Scalar, _t: Scalar) -> (r: Option<Scalar>) {
        None
    }

    fn hurst_exponent(&self) -> (r: Option<Scalar>) {
        Some(self.hurst)
    }

    fn parameters(&self) -> (r: Vec<Scalar>)
        ensures
            r@ == self.parameters_spec(),
    {
        let origin = Scalar::zero();
        let mut out: Vec<Scalar> = Vec::new();
        out.push(self.mu.call(origin));
        out.push(self.sigma.call(origin));
        out.push(self.theta.call(origin));
        out.push(self.hurst);
        assert(out@ =~= self.parameters_spec());
        out
    }
}

} // verus!
