//! Geometric Brownian motion: `dX = mu X dt + sigma X dW`.

use vstd::prelude::*;
use vstd::std_specs::convert::IntoSpec;
use crate::model_parameter::ModelParameter;
use crate::process::StochasticProcess;
use crate::scalar::Scalar;

verus! {

/// Struct containing the geometric Brownian motion parameters.
pub struct GeometricBrownianMotion {
    /// The drift, as a rate of growth.
    pub mu: ModelParameter,
    /// The volatility, as a fraction of the state.
    pub sigma: ModelParameter,
}

impl GeometricBrownianMotion {
    /// Create a new geometric Brownian motion process.
    pub fn new<A: Into<ModelParameter>, B: Into<ModelParameter>>(mu: A, sigma: B) -> (r: Self)
        ensures
            A::obeys_into_spec() ==> r.mu == mu.into_spec(),
            B::obeys_into_spec() ==> r.sigma == sigma.into_spec(),
    {
        Self { mu: mu.into(), sigma: sigma.into() }
    }

    /// `mu` and `sigma` at time zero.
    pub open spec fn parameters_spec(&self) -> Seq<Scalar> {
        seq![self.mu.at(Scalar { raw: 0 }), self.sigma.at(Scalar { raw: 0 })]
    }
}

impl StochasticProcess for GeometricBrownianMotion {
    /// The process is driven by Brownian motion.
    open spec fn hurst_spec(&self) -> Option<Scalar> {
        None
    }

    /// The model reports its coefficients.
    open spec fn has_parameters(&self) -> bool {
        true
    }

    /// `mu(t) * x`.
    open spec fn drift_spec(&self, x: Scalar, t: Scalar) -> Option<Scalar> {
        self.mu.at(t).mul_spec(x)
    }

    /// `sigma(t) * x`.
    open spec fn diffusion_spec(&self, x: Scalar, t: Scalar) -> Option<Scalar> {
        self.sigma.at(t).mul_spec(x)
    }

    /// There is no jump term.
    open spec fn jump_spec(&self, x: Scalar, t: Scalar) -> Option<Scalar> {
        None
    }

    fn drift(&self, x: Scalar, t: Scalar) -> (r: Option<Scalar>) {
        self.mu.call(t).checked_mul(x)
    }

    fn diffusion(&self, x: Scalar, t: Scalar) -> (r: Option<Scalar>) {
        self.sigma.call(t).checked_mul(x)
    }

    fn jump(&self, _x: Scalar, _t: Scalar) -> (r: Option<Scalar>) {
        None
    }

    fn hurst_exponent(&self) -> (r: Option<Scalar>) {
        None
    }

    fn parameters(&self) -> (r: Vec<Scalar>)
        ensures
            r@ == self.parameters_spec(),
    {
        let origin = Scalar::zero();
        let mut out: Vec<Scalar> = Vec::new();
        out.push(self.mu.call(origin));
        out.push(self.sigma.call(origin));
        assert(out@ =~= self.parameters_spec());
        out
    }
}

} // verus!
