//! The extended Vasicek process:
//! `dX = (theta(t) - alpha(t) X) dt + sigma(t) dW`.

use vstd::prelude::*;
use vstd::std_specs::convert::IntoSpec;
use crate::model_parameter::ModelParameter;
use crate::process::StochasticProcess;
use crate::scalar::{Scalar, opt_sub};

verus! {

/// Struct containing the extended Vasicek process parameters.
pub struct ExtendedVasicek {
    /// Mean function.
    pub alpha: ModelParameter,
    /// Diffusion, or instantaneous time-varying volatility.
    pub sigma: ModelParameter,
    /// Mean reversion function.
    pub theta: ModelParameter,
}

impl ExtendedVasicek {
    /// Create a new extended Vasicek process.
    pub fn new<A: Into<ModelParameter>, B: Into<ModelParameter>, C: Into<ModelParameter>>(
        alpha: A,
        sigma: B,
        theta: C,
    ) -> (r: Self)
        ensures
            A::obeys_into_spec() ==> r.alpha == alpha.into_spec(),
            B::obeys_into_spec() ==> r.sigma == sigma.into_spec(),
            C::obeys_into_spec() ==> r.theta == theta.into_spec(),
    {
        Self { alpha: alpha.into(), sigma: sigma.into(), theta: theta.into() }
    }

    /// `alpha`, `sigma` and `theta` at time zero.
    pub open spec fn parameters_spec(&self) -> Seq<Scalar> {
        seq![
            self.alpha.at(Scalar { raw: 0 }),
            self.sigma.at(Scalar { raw: 0 }),
            self.theta.at(Scalar { raw: 0 }),
        ]
    }
}

impl StochasticProcess for ExtendedVasicek {
    /// The process is driven by Brownian motion.
    open spec fn hurst_spec(&self) -> Option<Scalar> {
        None
    }

    /// The model reports its coefficients.
    open spec fn has_parameters(&self) -> bool {
        true
    }

    /// `theta(t) - alpha(t) * x`.
    open spec fn drift_spec(&self, x: Scalar, t: Scalar) -> Option<Scalar> {
        opt_sub(Some(self.theta.at(t)), self.alpha.at(t).mul_spec(x))
    }

    /// `sigma(t)`.
    open spec fn diffusion_spec(&self, x: Scalar, t: Scalar) -> Option<Scalar> {
        Some(self.sigma.at(t))
    }

    /// There is no jump term.
    open spec fn jump_spec(&self, x: Scalar, t: Scalar) -> Option<Scalar> {
        None
    }

    fn drift(&self, x: Scalar, t: Scalar) -> (r: Option<Scalar>) {
        match self.alpha.call(t).checked_mul(x) {
            Some(pull) => self.theta.call(t).checked_sub(pull),
            None => None,
        }
    }

    fn diffusion(&self, _x: Scalar, t: Scalar) -> (r: Option<Scalar>) {
        Some(self.sigma.call(t))
    }

    fn jump(&self, _x: Scalar, _t: Scalar) -> (r: Option<Scalar>) {
        None
    }

    fn hurst_exponent(&self) -> (r: Option<Scalar>) {
        None
    }

    fn parameters(&self) -> (r: Vec<Scalar>)
        ensures
            r@ == self.parameters_spec(),
    {
        let origin = Scalar::zero();
        let mut out: Vec<Scalar> = Vec::new();
        out.push(self.alpha.call(origin));
        out.push(self.sigma.call(origin));
        out.push(self.theta.call(origin));
        assert(out@ =~= self.parameters_spec());
        out
    }
}

} // verus!
