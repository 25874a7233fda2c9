//! The process abstraction, the simulation configuration and its result.
//!
//! Only autonomous-style interfaces are assumed of a process: its drift,
//! diffusion and jump are pure functions of the current state and time.

use vstd::prelude::*;
use crate::scalar::{Scalar, trunc_div};

verus! {

/// Why a configuration, a model or a simulation run was refused.
#[derive(Clone, Copy, Debug, PartialEq, Eq, Structural)]
pub enum SimulationError {
    /// The initial time is not strictly before the terminal time.
    InvalidTimeInterval,
    /// The number of time steps is zero.
    ZeroSteps,
    /// The number of paths is zero.
    ZeroPaths,
    /// The Hurst exponent lies outside `[0, 1]`.
    HurstOutOfRange,
    /// The noise supplied does not hold one draw per path and step.
    NoiseShape,
    /// A coefficient was evaluated outside its domain, or a quantity left the
    /// range that scalars can represent.
    NumericalDomain,
}

impl SimulationError {
    /// The text that `message` returns.
    pub open spec fn message_spec(self) -> Seq<char> {
        match self {
            SimulationError::InvalidTimeInterval => "the initial time must lie before the terminal time"@,
            SimulationError::ZeroSteps => "the number of time steps must not be zero"@,
            SimulationError::ZeroPaths => "the number of paths must not be zero"@,
            SimulationError::HurstOutOfRange => "the Hurst exponent must lie in [0, 1]"@,
            SimulationError::NoiseShape => "the noise must hold one draw per path and step"@,
            SimulationError::NumericalDomain => "a value left the numerical domain of the simulation"@,
        }
    }

    /// A sentence that says what was refused.
    pub fn message(self) -> (r: &'static str)
        ensures
            r@ == self.message_spec(),
    {
        match self {
            SimulationError::InvalidTimeInterval => "the initial time must lie before the terminal time",
            SimulationError::ZeroSteps => "the number of time steps must not be zero",
            SimulationError::ZeroPaths => "the number of paths must not be zero",
            SimulationError::HurstOutOfRange => "the Hurst exponent must lie in [0, 1]",
            SimulationError::NoiseShape => "the noise must hold one draw per path and step",
            SimulationError::NumericalDomain => "a value left the numerical domain of the simulation",
        }
    }
}

/// The discretisation scheme that advances a path by one step.
#[derive(Clone, Copy, Debug, PartialEq, Eq, Structural)]
pub enum StochasticScheme {
    /// Euler-Maruyama
    EulerMaruyama,
    /// Milstein's method
    Milstein,
    /// Strang splitting
    StrangSplitting,
}

/// The time points and path values of a simulated process.
pub struct Trajectories {
    /// Time points, shared by all paths.
    pub times: Vec<Scalar>,
    /// One sequence of values per path, each as long as `times`.
    pub paths: Vec<Vec<Scalar>>,
}

/// The rows of a vector of vectors, as sequences.
pub open spec fn rows(v: Seq<Vec<Scalar>>) -> Seq<Seq<Scalar>> {
    Seq::new(v.len(), |i: int| v[i]@)
}

impl Trajectories {
    /// The time grid as a sequence.
    pub open spec fn times_view(&self) -> Seq<Scalar> {
        self.times@
    }

    /// The paths as a sequence of sequences.
    pub open spec fn paths_view(&self) -> Seq<Seq<Scalar>> {
        rows(self.paths@)
    }

    /// The shape that `config` prescribes: `n_steps + 1` time points from `t_0`
    /// to `t_n`, and `m_paths` paths of `n_steps + 1` values each that all
    /// start at `x_0`.
    pub open spec fn fits(&self, config: &StochasticProcessConfig) -> bool {
        &&& self.times@.len() == config.n_steps + 1
        &&& self.times@[0] == config.t_0
        &&& self.times@[config.n_steps as int] == config.t_n
        &&& self.paths@.len() == config.m_paths
        &&& forall|i: int| 0 <= i < self.paths@.len() ==> (#[trigger] self.paths@[i])@.len() == config.n_steps + 1
        &&& forall|i: int| 0 <= i < self.paths@.len() ==> (#[trigger] self.paths@[i])@[0] == config.x_0
    }
}

/// A model of a one-dimensional stochastic differential equation
/// `dX = drift(X, t) dt + diffusion(X, t) dW (+ jump)`.
///
/// Each coefficient is a pure function of state and time; the `*_spec`
/// functions name what the executable methods return. A coefficient is `None`
/// where the model is not defined (a square root of a negative state) or
/// where its value cannot be represented.
///
/// The process also says what noise drives it: Brownian motion, or
/// fractional noise with the Hurst exponent it names. The engine simulates it
/// accordingly.
pub trait StochasticProcess: Sync {
    /// The drift at state `x` and time `t`.
    spec fn drift_spec(&self, x: Scalar, t: Scalar) -> Option<Scalar>;

    /// The diffusion at state `x` and time `t`.
    spec fn diffusion_spec(&self, x: Scalar, t: Scalar) -> Option<Scalar>;

    /// The jump added at state `x` and time `t`; `None` when the model has no
    /// jump term.
    spec fn jump_spec(&self, x: Scalar, t: Scalar) -> Option<Scalar>;

    /// The Hurst exponent of the fractional noise that drives the process;
    /// `None` for a process driven by Brownian motion.
    spec fn hurst_spec(&self) -> Option<Scalar>;

    /// Whether the model reports parameters of its own. A model that leaves
    /// this and `parameters` as they are reports none.
    open spec fn has_parameters(&self) -> bool {
        false
    }

    /// Base method for the process' drift.
    fn drift(&self, x: Scalar, t: Scalar) -> (r: Option<Scalar>)
        ensures
            r == self.drift_spec(x, t),
    ;

    /// Base method for the process' diffusion.
    fn diffusion(&self, x: Scalar, t: Scalar) -> (r: Option<Scalar>)
        ensures
            r == self.diffusion_spec(x, t),
    ;

    /// Base method for the process' jump term (if applicable).
    fn jump(&self, x: Scalar, t: Scalar) -> (r: Option<Scalar>)
        ensures
            r == self.jump_spec(x, t),
    ;

    /// The Hurst exponent of the fractional noise that drives the process;
    /// `None` for a process driven by Brownian motion.
    fn hurst_exponent(&self) -> (r: Option<Scalar>)
        ensures
            r == self.hurst_spec(),
    ;

    /// Return the model's parameters: none, unless the model reports
    /// parameters of its own, in which case it states which they are.
    fn parameters(&self) -> (r: Vec<Scalar>)
        ensures
            !self.has_parameters() ==> r@.len() == 0,
    {
        Vec::new()
    }
}

/// A model of two coupled factors, an asset and the volatility that drives
/// it, which share one noise source:
/// `dX = drift_1(X, t) dt + diffusion_1(X, t) dW` and
/// `dY = drift_2(Y, t) dt + diffusion_2(Y, t) dW`.
///
/// As for [`StochasticProcess`], each coefficient is a pure function of state
/// and time, `None` where it is not defined or cannot be represented.
pub trait StochasticVolatilityProcess: Sync {
    /// The asset's drift at state `x` and time `t`.
    spec fn drift_1_spec(&self, x: Scalar, t: Scalar) -> Option<Scalar>;

    /// The volatility factor's drift at state `x` and time `t`.
    spec fn drift_2_spec(&self, x: Scalar, t: Scalar) -> Option<Scalar>;

    /// The asset's diffusion at state `x` and time `t`.
    spec fn diffusion_1_spec(&self, x: Scalar, t: Scalar) -> Option<Scalar>;

    /// The volatility factor's diffusion at state `x` and time `t`.
    spec fn diffusion_2_spec(&self, x: Scalar, t: Scalar) -> Option<Scalar>;

    /// Base method for the asset's drift.
    fn drift_1(&self, x: Scalar, t: Scalar) -> (r: Option<Scalar>)
        ensures
            r == self.drift_1_spec(x, t),
    ;

    /// Base method for the volatility process' drift.
    fn drift_2(&self, x: Scalar, t: Scalar) -> (r: Option<Scalar>)
        ensures
            r == self.drift_2_spec(x, t),
    ;

    /// Base method for the asset's diffusion.
    fn diffusion_1(&self, x: Scalar, t: Scalar) -> (r: Option<Scalar>)
        ensures
            r == self.diffusion_1_spec(x, t),
    ;

    /// Base method for the volatility process' diffusion.
    fn diffusion_2(&self, x: Scalar, t: Scalar) -> (r: Option<Scalar>)
        ensures
            r == self.diffusion_2_spec(x, t),
    ;
}

/// Configuration parameters for simulating a stochastic process.
pub struct StochasticProcessConfig {
    /// Initial value of the process.
    pub x_0: Scalar,
    /// Initial time point.
    pub t_0: Scalar,
    /// Terminal time point.
    pub t_n: Scalar,
    /// Number of time steps between `t_0` and `t_n`.
    pub n_steps: usize,
    /// Numerical method.
    pub scheme: StochasticScheme,
    /// How many process trajectories to simulate.
    pub m_paths: usize,
    /// Run in parallel or not (recommended for more than 1000 paths).
    pub parallel: bool,
    /// Optional seed from which the random stream of each path is derived.
    pub seed: Option<u64>,
}

/// The first reason, if any, to refuse a time interval and its step and path
/// counts.
pub open spec fn config_fault(t_0: Scalar, t_n: Scalar, n_steps: usize, m_paths: usize) -> Option<SimulationError> {
    if t_0@ >= t_n@ {
        Some(SimulationError::InvalidTimeInterval)
    } else if n_steps == 0 {
        Some(SimulationError::ZeroSteps)
    } else if m_paths == 0 {
        Some(SimulationError::ZeroPaths)
    } else {
        None
    }
}

/// The step length by which a scheme advances a path over a grid of
/// `n_steps` steps from `t_0` to `t_n`: the horizon `t_n - t_0` divided by the
/// step count, rounded toward zero. There is none when the horizon cannot be
/// represented or the step count is zero. Two neighbouring points of the grid
/// lie this far apart, or one raw unit more.
pub open spec fn step_length(t_0: Scalar, t_n: Scalar, n_steps: usize) -> Option<Scalar> {
    match t_n.sub_spec(t_0) {
        Some(horizon) => horizon.div_count_spec(n_steps),
        None => None,
    }
}

/// Raw value of point `k` of the grid of `n_steps` steps from `t_0` to `t_n`:
/// `t_0 + k * (t_n - t_0) / n_steps`, the quotient rounded toward zero.
pub open spec fn grid_time(t_0: Scalar, t_n: Scalar, n_steps: usize, k: int) -> int {
    t_0@ + trunc_div(k * (t_n@ - t_0@), n_steps as int)
}

/// The grid of `n_steps + 1` time points that divides the interval from `t_0`
/// to `t_n` into `n_steps` steps; `None` when there is no step or a vector
/// cannot hold that many points.
pub open spec fn time_grid_spec(t_0: Scalar, t_n: Scalar, n_steps: usize) -> Option<Seq<Scalar>> {
    if 0 < n_steps < usize::MAX {
        Some(Seq::new((n_steps + 1) as nat, |k: int| Scalar { raw: grid_time(t_0, t_n, n_steps, k) as i64 }))
    } else {
        None
    }
}

/// The quotient of a sum lies at most one above the sum of the quotients.
pub proof fn lemma_div_of_sum(a: int, b: int, n: int)
    requires
        n > 0,
    ensures
        a / n + b / n <= (a + b) / n <= a / n + b / n + 1,
{
    vstd::arithmetic::div_mod::lemma_fundamental_div_mod(a, n);
    vstd::arithmetic::div_mod::lemma_fundamental_div_mod(b, n);
    vstd::arithmetic::div_mod::lemma_mod_bound(a, n);
    vstd::arithmetic::div_mod::lemma_mod_bound(b, n);
    let q = a / n + b / n;
    let r = a % n + b % n;
    assert(a + b == q * n + r) by (nonlinear_arith)
        requires
            a == n * (a / n) + a % n,
            b == n * (b / n) + b % n,
            q == a / n + b / n,
            r == a % n + b % n,
    ;
    if r < n {
        vstd::arithmetic::div_mod::lemma_fundamental_div_mod_converse(a + b, n, q, r);
    } else {
        assert(a + b == (q + 1) * n + (r - n)) by (nonlinear_arith)
            requires
                a + b == q * n + r,
        ;
        vstd::arithmetic::div_mod::lemma_fundamental_div_mod_converse(a + b, n, q + 1, r - n);
    }
}

/// Every point of a grid lies between its two ends: its offset from `t_0`
/// lies between zero and the horizon `t_n - t_0`. The first point is `t_0`
/// and the last is `t_n`.
pub proof fn lemma_grid_points_between_ends(t_0: Scalar, t_n: Scalar, n_steps: usize, k: int)
    requires
        0 < n_steps,
        0 <= k <= n_steps,
    ensures
        t_0@ <= t_n@ ==> t_0@ <= grid_time(t_0, t_n, n_steps, k) <= t_n@,
        t_0@ >= t_n@ ==> t_0@ >= grid_time(t_0, t_n, n_steps, k) >= t_n@,
        grid_time(t_0, t_n, n_steps, 0) == t_0@,
        grid_time(t_0, t_n, n_steps, n_steps as int) == t_n@,
{
    let n = n_steps as int;
    let h = t_n@ - t_0@;
    let m = if h >= 0 {
        h
    } else {
        -h
    };
    assert(0 <= k * m <= n * m) by (nonlinear_arith)
        requires
            0 <= k <= n,
            m >= 0,
    ;
    vstd::arithmetic::div_mod::lemma_div_is_ordered(0, k * m, n);
    vstd::arithmetic::div_mod::lemma_div_is_ordered(k * m, n * m, n);
    vstd::arithmetic::div_mod::lemma_div_multiples_vanish(m, n);
    assert(0int / n == 0);
    assert(0 <= (k * m) / n <= m);
    assert(k * h == if h >= 0 {
        k * m
    } else {
        -(k * m)
    }) by (nonlinear_arith)
        requires
            m == if h >= 0 {
                h
            } else {
                -h
            },
    ;
    assert(0 * h == 0) by (nonlinear_arith);
    assert(n * h == if h >= 0 {
        n * m
    } else {
        -(n * m)
    }) by (nonlinear_arith)
        requires
            m == if h >= 0 {
                h
            } else {
                -h
            },
    ;
    assert(0 <= n * m) by (nonlinear_arith)
        requires
            n > 0,
            m >= 0,
    ;
}

/// The time grid of a valid configuration with no more steps than a vector
/// can hold time points for: it holds `n_steps + 1` points, starts at `t_0`
/// and ends at `t_n`. From each point to the next it advances by the horizon
/// `t_n - t_0` divided by the step count, rounded down, or by one raw unit
/// more. Where the horizon is at least `n_steps` raw units long, the grid is
/// strictly increasing.
pub proof fn lemma_time_grid(config: &StochasticProcessConfig)
    requires
        config.valid(),
        config.n_steps < usize::MAX,
    ensures
        time_grid_spec(config.t_0, config.t_n, config.n_steps) is Some,
        ({
            let times = time_grid_spec(config.t_0, config.t_n, config.n_steps)->0;
            let step = (config.t_n@ - config.t_0@) / (config.n_steps as int);
            &&& times.len() == config.n_steps + 1
            &&& times[0] == config.t_0
            &&& times[config.n_steps as int] == config.t_n
            &&& forall|k: int|
                0 <= k < config.n_steps ==> times[k]@ + step <= (#[trigger] times[k + 1])@ <= times[k]@ + step + 1
            &&& config.t_n@ - config.t_0@ >= config.n_steps ==> forall|i: int, j: int|
                0 <= i < j <= config.n_steps ==> (#[trigger] times[i])@ < (#[trigger] times[j])@
        }),
{
    let t_0 = config.t_0;
    let t_n = config.t_n;
    let n = config.n_steps as int;
    let h = t_n@ - t_0@;
    let step = h / n;
    let times = time_grid_spec(t_0, t_n, config.n_steps)->0;
    lemma_grid_points_between_ends(t_0, t_n, config.n_steps, 0);
    lemma_grid_points_between_ends(t_0, t_n, config.n_steps, n);
    assert forall|k: int| 0 <= k <= n implies (#[trigger] times[k])@ == t_0@ + (k * h) / n by {
        lemma_grid_points_between_ends(t_0, t_n, config.n_steps, k);
        assert(k * h >= 0) by (nonlinear_arith)
            requires
                k >= 0,
                h > 0,
        ;
    }
    assert forall|k: int| 0 <= k < n implies times[k]@ + step <= (#[trigger] times[k + 1])@ <= times[k]@ + step
        + 1 by {
        assert(times[k]@ == t_0@ + (k * h) / n);
        assert((k + 1) * h == k * h + h) by (nonlinear_arith);
        lemma_div_of_sum(k * h, h, n);
    }
    if h >= n {
        vstd::arithmetic::div_mod::lemma_div_is_ordered(n, h, n);
        vstd::arithmetic::div_mod::lemma_div_multiples_vanish(1, n);
        assert(n * 1 == n);
        assert(step >= 1);
        assert forall|i: int, j: int| 0 <= i < j <= n implies (#[trigger] times[i])@ < (#[trigger] times[j])@ by {
            assert(times[i]@ == t_0@ + (i * h) / n);
            assert(times[j]@ == t_0@ + (j * h) / n);
            assert(j * h == i * h + (j - i) * h) by (nonlinear_arith);
            assert((j - i) * h >= h) by (nonlinear_arith)
                requires
                    j - i >= 1,
                    h > 0,
            ;
            lemma_div_of_sum(i * h, (j - i) * h, n);
            vstd::arithmetic::div_mod::lemma_div_is_ordered(h, (j - i) * h, n);
        }
    }
}

/// Point `k` of the grid.
fn grid_point(t_0: Scalar, t_n: Scalar, n_steps: usize, k: usize) -> (r: Scalar)
    requires
        0 < n_steps,
        k <= n_steps,
    ensures
        r@ == grid_time(t_0, t_n, n_steps, k as int),
{
    let horizon: i128 = t_n.raw as i128 - t_0.raw as i128;
    let length: u128 = if horizon < 0 {
        (0 - horizon) as u128
    } else {
        horizon as u128
    };
    assert(0 <= k * length <= 0xffff_ffff_ffff_ffff * 0xffff_ffff_ffff_ffff) by (nonlinear_arith)
        requires
            0 <= k <= 0xffff_ffff_ffff_ffff,
            0 <= length <= 0xffff_ffff_ffff_ffff,
    ;
    let offset: u128 = ((k as u128) * length) / (n_steps as u128);
    proof {
        lemma_grid_points_between_ends(t_0, t_n, n_steps, k as int);
        let h: int = t_n@ - t_0@;
        let m: int = length as int;
        assert(k * h == if h >= 0 {
            k * m
        } else {
            -(k * m)
        }) by (nonlinear_arith)
            requires
                m == if h < 0 {
                    -h
                } else {
                    h
                },
        ;
        assert(0 <= k * length) by (nonlinear_arith)
            requires
                k >= 0,
                length >= 0,
        ;
        if k * length == 0 {
            assert(0int / (n_steps as int) == 0);
        }
    }
    let point: i128 = if horizon < 0 {
        t_0.raw as i128 - offset as i128
    } else {
        t_0.raw as i128 + offset as i128
    };
    Scalar { raw: point as i64 }
}

/// Builds the time grid.
pub fn time_grid(t_0: Scalar, t_n: Scalar, n_steps: usize) -> (r: Option<Vec<Scalar>>)
    ensures
        match r {
            Some(times) => time_grid_spec(t_0, t_n, n_steps) == Some(times@),
            None => time_grid_spec(t_0, t_n, n_steps) is None,
        },
{
    if n_steps == 0 || n_steps == usize::MAX {
        return None;
    }
    let mut times: Vec<Scalar> = Vec::new();
    let mut k: usize = 0;
    while k <= n_steps
        invariant
            0 <= k <= n_steps + 1,
            0 < n_steps < usize::MAX,
            times@.len() == k,
            forall|j: int| 0 <= j < k ==> (#[trigger] times@[j])@ == grid_time(t_0, t_n, n_steps, j),
        decreases n_steps + 1 - k,
    {
        times.push(grid_point(t_0, t_n, n_steps, k));
        k += 1;
    }
    proof {
        assert forall|j: int| 0 <= j <= n_steps implies times@[j] == (Scalar {
            raw: grid_time(t_0, t_n, n_steps, j) as i64,
        }) by {
            lemma_grid_points_between_ends(t_0, t_n, n_steps, j);
        }
        assert(times@ =~= time_grid_spec(t_0, t_n, n_steps)->0);
    }
    Some(times)
}

/// The seed of the random stream of path `path` under base seed `seed`.
pub open spec fn stream_seed(seed: u64, path: usize) -> u64 {
    ((seed + path) % 0x1_0000_0000_0000_0000) as u64
}

/// Different paths of a run read from different random streams: under one
/// base seed, two different path indices give two different stream seeds.
pub proof fn lemma_stream_seeds_differ(seed: u64, first: usize, second: usize)
    requires
        first != second,
    ensures
        stream_seed(seed, first) != stream_seed(seed, second),
{
}

/// Checks a time interval and its step and path counts.
pub fn check_config(t_0: Scalar, t_n: Scalar, n_steps: usize, m_paths: usize) -> (r: Option<SimulationError>)
    ensures
        r == config_fault(t_0, t_n, n_steps, m_paths),
{
    if !t_0.lt(t_n) {
        Some(SimulationError::InvalidTimeInterval)
    } else if n_steps == 0 {
        Some(SimulationError::ZeroSteps)
    } else if m_paths == 0 {
        Some(SimulationError::ZeroPaths)
    } else {
        None
    }
}

impl StochasticProcessConfig {
    /// The invariant of a configuration: a non-empty time interval, at least
    /// one step and at least one path.
    pub open spec fn valid(&self) -> bool {
        config_fault(self.t_0, self.t_n, self.n_steps, self.m_paths) is None
    }

    /// The step length `dt` by which a scheme advances a path.
    pub open spec fn dt_spec(&self) -> Option<Scalar> {
        step_length(self.t_0, self.t_n, self.n_steps)
    }

    /// Create a new configuration for a stochastic process.
    ///
    /// Fails when `t_0 >= t_n`, when `n_steps` is zero or when `m_paths` is
    /// zero, in that order of precedence.
    pub fn new(
        x_0: Scalar,
        t_0: Scalar,
        t_n: Scalar,
        n_steps: usize,
        scheme: StochasticScheme,
        m_paths: usize,
        parallel: bool,
        seed: Option<u64>,
    ) -> (r: Result<Self, SimulationError>)
        ensures
            match config_fault(t_0, t_n, n_steps, m_paths) {
                Some(e) => r == Err::<Self, SimulationError>(e),
                None => r == Ok::<Self, SimulationError>(
                    (StochasticProcessConfig { x_0, t_0, t_n, n_steps, scheme, m_paths, parallel, seed }),
                ),
            },
            r is Ok ==> r->Ok_0.valid(),
    {
        match check_config(t_0, t_n, n_steps, m_paths) {
            Some(e) => Err(e),
            None => Ok(StochasticProcessConfig { x_0, t_0, t_n, n_steps, scheme, m_paths, parallel, seed }),
        }
    }

    /// The step length `dt = (t_n - t_0) / n_steps`.
    pub fn dt(&self) -> (r: Option<Scalar>)
        ensures
            r == self.dt_spec(),
    {
        match self.t_n.checked_sub(self.t_0) {
            Some(horizon) => horizon.checked_div_count(self.n_steps),
            None => None,
        }
    }

    /// The initial value, the step count and the time grid from `t_0` to
    /// `t_n`; `None` when there is no grid.
    pub fn unpack_for_scheme(&self) -> (r: Option<(Scalar, usize, Vec<Scalar>)>)
        ensures
            match r {
                Some((x_0, n_steps, times)) => {
                    &&& x_0 == self.x_0
                    &&& n_steps == self.n_steps
                    &&& time_grid_spec(self.t_0, self.t_n, self.n_steps) == Some(times@)
                },
                None => time_grid_spec(self.t_0, self.t_n, self.n_steps) is None,
            },
    {
        match time_grid(self.t_0, self.t_n, self.n_steps) {
            Some(times) => Some((self.x_0, self.n_steps, times)),
            None => None,
        }
    }

    /// All fields at once, in declaration order.
    pub fn unpack(&self) -> (r: (Scalar, Scalar, Scalar, usize, StochasticScheme, usize, bool, Option<u64>))
        ensures
            r == (
                self.x_0,
                self.t_0,
                self.t_n,
                self.n_steps,
                self.scheme,
                self.m_paths,
                self.parallel,
                self.seed,
            ),
    {
        (
            self.x_0,
            self.t_0,
            self.t_n,
            self.n_steps,
            self.scheme,
            self.m_paths,
            self.parallel,
            self.seed,
        )
    }

    /// The seed of the random stream of path `path`: the base seed advanced by
    /// the path index, wrapping around. `None` when no base seed is
    /// configured.
    pub fn path_seed(&self, path: usize) -> (r: Option<u64>)
        ensures
            r == match self.seed {
                Some(seed) => Some(stream_seed(seed, path)),
                None => None,
            },
    {
        match self.seed {
            Some(seed) => {
                let index: u64 = path as u64;
                Some(seed.wrapping_add(index))
            },
            None => None,
        }
    }
}

} // verus!
