//! The Ho-Lee process: `dX = theta(t) dt + sigma(t) dW`.

use vstd::prelude::*;
use vstd::std_specs::convert::IntoSpec;
use crate::model_parameter::ModelParameter;
use crate::process::{StochasticProcess, StochasticScheme};
use crate::scalar::{Scalar, SCALE, trunc_div};
use crate::simulation::path_prefix_spec;

verus! {

/// Struct containing the Ho-Lee process parameters.
pub struct HoLee {
    /// The diffusion, or instantaneous volatility.
    pub sigma: ModelParameter,
    /// Non-negative time-varying mean reversion function.
    pub theta: ModelParameter,
}

impl HoLee {
    /// Create a new Ho-Lee process.
    pub fn new<A: Into<ModelParameter>, B: Into<ModelParameter>>(sigma: A, theta: B) -> (r: Self)
        ensures
            A::obeys_into_spec() ==> r.sigma == sigma.into_spec(),
            B::obeys_into_spec() ==> r.theta == theta.into_spec(),
    {
        Self { sigma: sigma.into(), theta: theta.into() }
    }

    /// `sigma` and `theta` at time zero.
    pub open spec fn parameters_spec(&self) -> Seq<Scalar> {
        seq![self.sigma.at(Scalar { raw: 0 }), self.theta.at(Scalar { raw: 0 })]
    }
}

impl StochasticProcess for HoLee {
    /// The process is driven by Brownian motion.
    open spec fn hurst_spec(&self) -> Option<Scalar> {
        None
    }

    /// The model reports its coefficients.
    open spec fn has_parameters(&self) -> bool {
        true
    }

    /// `theta(t)`, defined where it is not negative.
    open spec fn drift_spec(&self, x: Scalar, t: Scalar) -> Option<Scalar> {
        if self.theta.at(t)@ < 0 {
            None
        } else {
            Some(self.theta.at(t))
        }
    }

    /// `sigma(t)`, defined where it is not negative.
    open spec fn diffusion_spec(&self, x: Scalar, t: Scalar) -> Option<Scalar> {
        if self.sigma.at(t)@ < 0 {
            None
        } else {
            Some(self.sigma.at(t))
        }
    }

    /// There is no jump term.
    open spec fn jump_spec(&self, x: Scalar, t: Scalar) -> Option<Scalar> {
        None
    }

    fn drift(&self, _x: Scalar, t: Scalar) -> (r: Option<Scalar>) {
        let theta = self.theta.call(t);
        if theta.is_negative() {
            None
        } else {
            Some(theta)
        }
    }

    fn diffusion(&self, _x: Scalar, t: Scalar) -> (r: Option<Scalar>) {
        let sigma = self.sigma.call(t);
        if sigma.is_negative() {
            None
        } else {
            Some(sigma)
        }
    }

    fn jump(&self, _x: Scalar, _t: Scalar) -> (r: Option<Scalar>) {
        None
    }

    fn hurst_exponent(&self) -> (r: Option<Scalar>) {
        None
    }

    fn parameters(&self) -> (r: Vec<Scalar>)
        ensures
            r@ == self.parameters_spec(),
    {
        let origin = Scalar::zero();
        let mut out: Vec<Scalar> = Vec::new();
        out.push(self.sigma.call(origin));
        out.push(self.theta.call(origin));
        assert(out@ =~= self.parameters_spec());
        out
    }
}

/// The sum of the first `k` diffusion terms of a path with the constant
/// volatility `sigma`, in raw units: draw `j` is scaled to the noise increment
/// `draws[j] * scale` and contributes `sigma` times that increment, each
/// product rounded toward zero.
pub open spec fn diffusion_sum(sigma: Scalar, draws: Seq<Scalar>, scale: Scalar, k: nat) -> int
    decreases k,
{
    if k == 0 {
        0
    } else {
        diffusion_sum(sigma, draws, scale, (k - 1) as nat) + trunc_div(
            sigma@ * trunc_div(draws[k - 1]@ * scale@, SCALE as int),
            SCALE as int,
        )
    }
}

/// An Euler-Maruyama path of a Ho-Lee process with constant coefficients is
/// an arithmetic Brownian motion: after `k` steps it stands at the initial
/// value plus `k` times the drift over one step plus the first `k` diffusion
/// terms.
pub proof fn lemma_ho_lee_path_is_arithmetic(
    model: &HoLee,
    x_0: Scalar,
    times: Seq<Scalar>,
    dt: Scalar,
    scale: Scalar,
    draws: Seq<Scalar>,
    k: nat,
)
    requires
        model.sigma is Constant,
        model.theta is Constant,
        path_prefix_spec(model, StochasticScheme::EulerMaruyama, x_0, times, dt, scale, draws, k) is Some,
    ensures
        path_prefix_spec(model, StochasticScheme::EulerMaruyama, x_0, times, dt, scale, draws, k)->0.last()@
            == x_0@ + k * trunc_div(model.theta->Constant_0@ * dt@, SCALE as int) + diffusion_sum(
            model.sigma->Constant_0,
            draws,
            scale,
            k,
        ),
    decreases k,
{
    let drift = trunc_div(model.theta->Constant_0@ * dt@, SCALE as int);
    if k > 0 {
        lemma_ho_lee_path_is_arithmetic(model, x_0, times, dt, scale, draws, (k - 1) as nat);
        assert(k * drift == (k - 1) * drift + drift) by (nonlinear_arith);
    } else {
        assert(0 * drift == 0) by (nonlinear_arith);
    }
}

} // verus!
