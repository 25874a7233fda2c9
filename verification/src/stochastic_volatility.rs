//! Euler-Maruyama simulation of two-factor stochastic-volatility models.
//!
//! Both factors of a path are driven by the same noise increments. Each
//! factor's coefficients read that factor's own state, so a factor taken by
//! itself is a one-dimensional process and is simulated as one.

use vstd::prelude::*;
use crate::process::{
    SimulationError, StochasticProcess, StochasticProcessConfig, StochasticScheme, StochasticVolatilityProcess, rows,
};
use crate::scalar::Scalar;
use crate::simulation::{simulate_spec, simulate_stochastic_process};

verus! {

/// The asset factor of a two-factor model, seen as a process of its own.
pub struct AssetFactor<'a, P: StochasticVolatilityProcess> {
    /// The two-factor model.
    pub model: &'a P,
}

/// The volatility factor of a two-factor model, seen as a process of its
/// own.
pub struct VolatilityFactor<'a, P: StochasticVolatilityProcess> {
    /// The two-factor model.
    pub model: &'a P,
}

impl<'a, P: StochasticVolatilityProcess> StochasticProcess for AssetFactor<'a, P> {
    open spec fn drift_spec(&self, x: Scalar, t: Scalar) -> Option<Scalar> {
        self.model.drift_1_spec(x, t)
    }

    open spec fn diffusion_spec(&self, x: Scalar, t: Scalar) -> Option<Scalar> {
        self.model.diffusion_1_spec(x, t)
    }

    open spec fn jump_spec(&self, x: Scalar, t: Scalar) -> Option<Scalar> {
        None
    }

    open spec fn hurst_spec(&self) -> Option<Scalar> {
        None
    }

    fn drift(&self, x: Scalar, t: Scalar) -> (r: Option<Scalar>) {
        self.model.drift_1(x, t)
    }

    fn diffusion(&self, x: Scalar, t: Scalar) -> (r: Option<Scalar>) {
        self.model.diffusion_1(x, t)
    }

    fn jump(&self, _x: Scalar, _t: Scalar) -> (r: Option<Scalar>) {
        None
    }

    fn hurst_exponent(&self) -> (r: Option<Scalar>) {
        None
    }
}

impl<'a, P: StochasticVolatilityProcess> StochasticProcess for VolatilityFactor<'a, P> {
    open spec fn drift_spec(&self, x: Scalar, t: Scalar) -> Option<Scalar> {
        self.model.drift_2_spec(x, t)
    }

    open spec fn diffusion_spec(&self, x: Scalar, t: Scalar) -> Option<Scalar> {
        self.model.diffusion_2_spec(x, t)
    }

    open spec fn jump_spec(&self, x: Scalar, t: Scalar) -> Option<Scalar> {
        None
    }

    open spec fn hurst_spec(&self) -> Option<Scalar> {
        None
    }

    fn drift(&self, x: Scalar, t: Scalar) -> (r: Option<Scalar>) {
        self.model.drift_2(x, t)
    }

    fn diffusion(&self, x: Scalar, t: Scalar) -> (r: Option<Scalar>) {
        self.model.diffusion_2(x, t)
    }

    fn jump(&self, _x: Scalar, _t: Scalar) -> (r: Option<Scalar>) {
        None
    }

    fn hurst_exponent(&self) -> (r: Option<Scalar>) {
        None
    }
}

/// The time points and the paths of both factors of a two-factor model.
pub struct VolatilityTrajectories {
    /// Time points, shared by all paths.
    pub times: Vec<Scalar>,
    /// The asset factor: one sequence of values per path.
    pub paths: Vec<Vec<Scalar>>,
    /// The volatility factor: one sequence of values per path, in the order
    /// of `paths`.
    pub volatility_paths: Vec<Vec<Scalar>>,
}

impl VolatilityTrajectories {
    /// The shape of a run of `m_paths` paths over `n_steps` steps from `t_0`
    /// to `t_n`: `n_steps + 1` time points from `t_0` to `t_n`, and for each
    /// factor `m_paths` paths of
    /// `n_steps + 1` values, which start at `x_0` for the asset and at `y_0`
    /// for the volatility.
    pub open spec fn fits(
        &self,
        x_0: Scalar,
        y_0: Scalar,
        t_0: Scalar,
        t_n: Scalar,
        n_steps: usize,
        m_paths: usize,
    ) -> bool {
        &&& self.times@.len() == n_steps + 1
        &&& self.times@[0] == t_0
        &&& self.times@[n_steps as int] == t_n
        &&& self.paths@.len() == m_paths
        &&& self.volatility_paths@.len() == m_paths
        &&& forall|i: int| 0 <= i < m_paths ==> (#[trigger] self.paths@[i])@.len() == n_steps + 1
        &&& forall|i: int| 0 <= i < m_paths ==> (#[trigger] self.paths@[i])@[0] == x_0
        &&& forall|i: int| 0 <= i < m_paths ==> (#[trigger] self.volatility_paths@[i])@.len() == n_steps + 1
        &&& forall|i: int| 0 <= i < m_paths ==> (#[trigger] self.volatility_paths@[i])@[0] == y_0
    }
}

/// The configuration under which one factor is simulated.
pub open spec fn factor_config(
    start: Scalar,
    t_0: Scalar,
    t_n: Scalar,
    n_steps: usize,
    m_paths: usize,
    parallel: bool,
) -> StochasticProcessConfig {
    StochasticProcessConfig {
        x_0: start,
        t_0,
        t_n,
        n_steps,
        scheme: StochasticScheme::EulerMaruyama,
        m_paths,
        parallel,
        seed: None,
    }
}

/// The time grid, the asset paths and the volatility paths of a two-factor
/// run, or the reason why it fails: each factor is an Euler-Maruyama run of
/// its own from the shared draws, and the run fails as the first of the two
/// that fails.
pub open spec fn volatility_spec<P: StochasticVolatilityProcess>(
    model: &P,
    x_0: Scalar,
    y_0: Scalar,
    t_0: Scalar,
    t_n: Scalar,
    n_steps: usize,
    m_paths: usize,
    noise: Seq<Seq<Scalar>>,
) -> Result<(Seq<Scalar>, Seq<Seq<Scalar>>, Seq<Seq<Scalar>>), SimulationError> {
    match simulate_spec(&AssetFactor { model }, &factor_config(x_0, t_0, t_n, n_steps, m_paths, false), noise) {
        Ok((times, asset)) => match simulate_spec(
            &VolatilityFactor { model },
            &factor_config(y_0, t_0, t_n, n_steps, m_paths, false),
            noise,
        ) {
            Ok((_, volatility)) => Ok((times, asset, volatility)),
            Err(e) => Err(e),
        },
        Err(e) => Err(e),
    }
}

/// What a two-factor run returned, by the views of its grid and paths.
pub open spec fn volatility_outcome(r: Result<VolatilityTrajectories, SimulationError>) -> Result<
    (Seq<Scalar>, Seq<Seq<Scalar>>, Seq<Seq<Scalar>>),
    SimulationError,
> {
    match r {
        Ok(t) => Ok((t.times@, rows(t.paths@), rows(t.volatility_paths@))),
        Err(e) => Err(e),
    }
}

/// Euler-Maruyama simulation as a method of every two-factor model.
pub trait EulerMaruyama {
    /// What `euler_maruyama` returns.
    spec fn euler_maruyama_spec(
        &self,
        x_0: Scalar,
        y_0: Scalar,
        t_0: Scalar,
        t_n: Scalar,
        n_steps: usize,
        m_paths: usize,
        noise: Seq<Seq<Scalar>>,
    ) -> Result<(Seq<Scalar>, Seq<Seq<Scalar>>, Seq<Seq<Scalar>>), SimulationError>;

    /// Simulate via Euler-Maruyama discretisation scheme.
    ///
    /// The asset starts at `x_0`, the volatility factor at `y_0`. `noise`
    /// holds one row per path and in each row one unit-variance draw per
    /// step; the same draw drives both factors of a path.
    fn euler_maruyama(
        &self,
        x_0: Scalar,
        y_0: Scalar,
        t_0: Scalar,
        t_n: Scalar,
        n_steps: usize,
        m_paths: usize,
        parallel: bool,
        noise: &Vec<Vec<Scalar>>,
    ) -> (r: Result<VolatilityTrajectories, SimulationError>)
        ensures
            volatility_outcome(r) == self.euler_maruyama_spec(x_0, y_0, t_0, t_n, n_steps, m_paths, rows(noise@)),
            r is Ok ==> r->Ok_0.fits(x_0, y_0, t_0, t_n, n_steps, m_paths),
    ;
}

impl<P: StochasticVolatilityProcess> EulerMaruyama for P {
    open spec fn euler_maruyama_spec(
        &self,
        x_0: Scalar,
        y_0: Scalar,
        t_0: Scalar,
        t_n: Scalar,
        n_steps: usize,
        m_paths: usize,
        noise: Seq<Seq<Scalar>>,
    ) -> Result<(Seq<Scalar>, Seq<Seq<Scalar>>, Seq<Seq<Scalar>>), SimulationError> {
        volatility_spec(self, x_0, y_0, t_0, t_n, n_steps, m_paths, noise)
    }

    fn euler_maruyama(
        &self,
        x_0: Scalar,
        y_0: Scalar,
        t_0: Scalar,
        t_n: Scalar,
        n_steps: usize,
        m_paths: usize,
        parallel: bool,
        noise: &Vec<Vec<Scalar>>,
    ) -> (r: Result<VolatilityTrajectories, SimulationError>) {
        let asset_config = StochasticProcessConfig {
            x_0,
            t_0,
            t_n,
            n_steps,
            scheme: StochasticScheme::EulerMaruyama,
            m_paths,
            parallel,
            seed: None,
        };
        let volatility_config = StochasticProcessConfig {
            x_0: y_0,
            t_0,
            t_n,
            n_steps,
            scheme: StochasticScheme::EulerMaruyama,
            m_paths,
            parallel,
            seed: None,
        };
        let asset = match simulate_stochastic_process(&AssetFactor { model: self }, &asset_config, noise) {
            Ok(asset) => asset,
            Err(e) => {
                return Err(e);
            },
        };
        let volatility = match simulate_stochastic_process(
            &VolatilityFactor { model: self },
            &volatility_config,
            noise,
        ) {
            Ok(volatility) => volatility,
            Err(e) => {
                return Err(e);
            },
        };
        Ok(VolatilityTrajectories { times: asset.times, paths: asset.paths, volatility_paths: volatility.paths })
    }
}

} // verus!
