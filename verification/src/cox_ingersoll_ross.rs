//! The Cox-Ingersoll-Ross process:
//! `dX = theta (mu - X) dt + sigma sqrt(X) dW`.

use vstd::prelude::*;
use vstd::std_specs::convert::IntoSpec;
use crate::model_parameter::ModelParameter;
use crate::process::StochasticProcess;
use crate::scalar::{Scalar, opt_mul};

verus! {

/// Struct containing the Cox-Ingersoll-Ross process parameters.
pub struct CoxIngersollRoss {
    /// The long-run mean.
    pub mu: ModelParameter,
    /// The diffusion, or instantaneous volatility.
    pub sigma: ModelParameter,
    /// Mean reversion parameter: the speed at which the process reverts to
    /// the long-run mean.
    pub theta: ModelParameter,
}

impl CoxIngersollRoss {
    /// Create a new Cox-Ingersoll-Ross process.
    pub fn new<A: Into<ModelParameter>, B: Into<ModelParameter>, C: Into<ModelParameter>>(
        mu: A,
        sigma: B,
        theta: C,
    ) -> (r: Self)
        ensures
            A::obeys_into_spec() ==> r.mu == mu.into_spec(),
            B::obeys_into_spec() ==> r.sigma == sigma.into_spec(),
            C::obeys_into_spec() ==> r.theta == theta.into_spec(),
    {
        Self { mu: mu.into(), sigma: sigma.into(), theta: theta.into() }
    }

    /// `mu`, `sigma` and `theta` at time zero.
    pub open spec fn parameters_spec(&self) -> Seq<Scalar> {
        seq![
            self.mu.at(Scalar { raw: 0 }),
            self.sigma.at(Scalar { raw: 0 }),
            self.theta.at(Scalar { raw: 0 }),
        ]
    }
}

impl StochasticProcess for CoxIngersollRoss {
    /// The process is driven by Brownian motion.
    open spec fn hurst_spec(&self) -> Option<Scalar> {
        None
    }

    /// The model reports its coefficients.
    open spec fn has_parameters(&self) -> bool {
        true
    }

    /// `theta(t) * (mu(t) - x)`.
    open spec fn drift_spec(&self, x: Scalar, t: Scalar) -> Option<Scalar> {
        opt_mul(Some(self.theta.at(t)), self.mu.at(t).sub_spec(x))
    }

    /// `sigma(t) * sqrt(x)`, defined for a non-negative volatility and a
    /// non-negative state.
    open spec fn diffusion_spec(&self, x: Scalar, t: Scalar) -> Option<Scalar> {
        if self.sigma.at(t)@ < 0 {
            None
        } else {
            opt_mul(Some(self.sigma.at(t)), x.sqrt_spec())
        }
    }

    /// There is no jump term.
    open spec fn jump_spec(&self, x: Scalar, t: Scalar) -> Option<Scalar> {
        None
    }

    fn drift(&self, x: Scalar, t: Scalar) -> (r: Option<Scalar>) {
        match self.mu.call(t).checked_sub(x) {
            Some(gap) => self.theta.call(t).checked_mul(gap),
            None => None,
        }
    }

    fn diffusion(&self, x: Scalar, t: Scalar) -> (r: Option<Scalar>) {
        let sigma = self.sigma.call(t);
        if sigma.is_negative() {
            None
        } else {
            match x.checked_sqrt() {
                Some(root) => sigma.checked_mul(root),
                None => None,
            }
        }
    }

    fn jump(&self, _x: Scalar, _t: Scalar) -> (r: Option<Scalar>) {
        None
    }

    fn hurst_exponent(&self) -> (r: Option<Scalar>) {
        None
    }

    fn parameters(&self) -> (r: Vec<Scalar>)
        ensures
            r@ == self.parameters_spec(),
    {
        let origin = Scalar::zero();
        let mut out: Vec<Scalar> = Vec::new();
        out.push(self.mu.call(origin));
        out.push(self.sigma.call(origin));
        out.push(self.theta.call(origin));
        assert(out@ =~= self.parameters_spec());
        out
    }
}

} // verus!
