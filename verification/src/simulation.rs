//! The simulation engine: one-step schemes, whole paths and whole runs.
//!
//! A path starts at the initial value and is advanced once per time step by
//! the configured scheme. The random input of a path is a sequence of
//! unit-variance draws, one per step, handed in by the caller; the engine
//! scales each draw to the step length before it enters the scheme. A step
//! whose exact value cannot be represented, or that evaluates a coefficient
//! outside its domain, fails the whole path.
//!
//! Coefficients are evaluated at the grid point at which a step starts. The
//! grid runs from the initial to the terminal time exactly; every step
//! advances the path by the same step length, the horizon over the step
//! count rounded down, from which the distance of two grid points differs by
//! at most one raw unit.

use vstd::prelude::*;
use crate::fractional_process::{simulate_fractional_spec, simulate_fractional_stochastic_process};
use crate::parallel::par_map;
use crate::process::{
    SimulationError, StochasticProcess, StochasticProcessConfig, StochasticScheme, Trajectories, check_config,
    config_fault, lemma_time_grid, rows, time_grid_spec,
};
use crate::scalar::{Scalar, add_opt, div_opt, mul_opt, opt_add, opt_div, opt_mul, opt_sub, sub_opt};

verus! {

/// Raw units of the state offset over which the Milstein scheme estimates the
/// slope of the diffusion: a forward difference over `0.00001`.
pub const DERIVATIVE_STEP: i64 = 10_000;

/// The jump a step adds: the model's jump where it has one, else zero.
pub open spec fn jump_or_zero(jump: Option<Scalar>) -> Scalar {
    match jump {
        Some(size) => size,
        None => Scalar { raw: 0 },
    }
}

/// The part of a step that the Euler-Maruyama and Milstein schemes share:
/// `x + drift(x, t) * dt + diffusion(x, t) * dw`.
pub open spec fn euler_increment_spec<P: StochasticProcess>(
    process: &P,
    x: Scalar,
    t: Scalar,
    dt: Scalar,
    dw: Scalar,
) -> Option<Scalar> {
    opt_add(
        opt_add(Some(x), opt_mul(process.drift_spec(x, t), Some(dt))),
        opt_mul(process.diffusion_spec(x, t), Some(dw)),
    )
}

/// One Euler-Maruyama step:
/// `x + drift(x, t) * dt + diffusion(x, t) * dw + jump(x, t)`.
pub open spec fn euler_maruyama_step_spec<P: StochasticProcess>(
    process: &P,
    x: Scalar,
    t: Scalar,
    dt: Scalar,
    dw: Scalar,
) -> Option<Scalar> {
    opt_add(euler_increment_spec(process, x, t, dt, dw), Some(jump_or_zero(process.jump_spec(x, t))))
}

/// The slope of the diffusion in the state, estimated by a forward
/// difference: `(diffusion(x + h, t) - diffusion(x, t)) / h`.
pub open spec fn diffusion_slope_spec<P: StochasticProcess>(process: &P, x: Scalar, t: Scalar) -> Option<Scalar> {
    let h = Scalar { raw: DERIVATIVE_STEP };
    match x.add_spec(h) {
        Some(shifted) => opt_div(
            opt_sub(process.diffusion_spec(shifted, t), process.diffusion_spec(x, t)),
            Some(h),
        ),
        None => None,
    }
}

/// The second-order term of the Milstein scheme:
/// `half(diffusion(x, t) * slope(x, t)) * (dw * dw - dt)`.
pub open spec fn milstein_correction_spec<P: StochasticProcess>(
    process: &P,
    x: Scalar,
    t: Scalar,
    dt: Scalar,
    dw: Scalar,
) -> Option<Scalar> {
    match opt_mul(process.diffusion_spec(x, t), diffusion_slope_spec(process, x, t)) {
        Some(product) => opt_mul(Some(product.half_spec()), opt_sub(dw.mul_spec(dw), Some(dt))),
        None => None,
    }
}

/// One Milstein step: the Euler-Maruyama increment, then the second-order
/// correction, then the jump.
pub open spec fn milstein_step_spec<P: StochasticProcess>(
    process: &P,
    x: Scalar,
    t: Scalar,
    dt: Scalar,
    dw: Scalar,
) -> Option<Scalar> {
    opt_add(
        opt_add(euler_increment_spec(process, x, t, dt, dw), milstein_correction_spec(process, x, t, dt, dw)),
        Some(jump_or_zero(process.jump_spec(x, t))),
    )
}

/// The state after the drift alone has acted for half a step:
/// `x + drift(x, t) * half(dt)`.
pub open spec fn drift_half_step_spec<P: StochasticProcess>(process: &P, x: Scalar, t: Scalar, dt: Scalar) -> Option<
    Scalar,
> {
    opt_add(Some(x), opt_mul(process.drift_spec(x, t), Some(dt.half_spec())))
}

/// The state after the diffusion alone has acted for a whole step:
/// `x + diffusion(x, t) * dw`.
pub open spec fn diffusion_full_step_spec<P: StochasticProcess>(process: &P, x: Scalar, t: Scalar, dw: Scalar) -> Option<
    Scalar,
> {
    opt_add(Some(x), opt_mul(process.diffusion_spec(x, t), Some(dw)))
}

/// One Strang-splitting step: half a step of drift, a whole step of
/// diffusion, half a step of drift, then the jump at the state the step
/// started from.
pub open spec fn strang_splitting_step_spec<P: StochasticProcess>(
    process: &P,
    x: Scalar,
    t: Scalar,
    dt: Scalar,
    dw: Scalar,
) -> Option<Scalar> {
    match drift_half_step_spec(process, x, t, dt) {
        Some(a) => match diffusion_full_step_spec(process, a, t, dw) {
            Some(b) => opt_add(drift_half_step_spec(process, b, t, dt), Some(jump_or_zero(process.jump_spec(x, t)))),
            None => None,
        },
        None => None,
    }
}

/// One step of the chosen scheme.
pub open spec fn step_spec<P: StochasticProcess>(
    process: &P,
    scheme: StochasticScheme,
    x: Scalar,
    t: Scalar,
    dt: Scalar,
    dw: Scalar,
) -> Option<Scalar> {
    match scheme {
        StochasticScheme::EulerMaruyama => euler_maruyama_step_spec(process, x, t, dt, dw),
        StochasticScheme::Milstein => milstein_step_spec(process, x, t, dt, dw),
        StochasticScheme::StrangSplitting => strang_splitting_step_spec(process, x, t, dt, dw),
    }
}

/// The jump a step adds.
fn jump_term<P: StochasticProcess>(process: &P, x: Scalar, t: Scalar) -> (r: Scalar)
    ensures
        r == jump_or_zero(process.jump_spec(x, t)),
{
    match process.jump(x, t) {
        Some(size) => size,
        None => Scalar::zero(),
    }
}

/// `x + drift(x, t) * dt + diffusion(x, t) * dw`.
fn euler_increment<P: StochasticProcess>(process: &P, x: Scalar, t: Scalar, dt: Scalar, dw: Scalar) -> (r: Option<
    Scalar,
>)
    ensures
        r == euler_increment_spec(process, x, t, dt, dw),
{
    let drifted = add_opt(Some(x), mul_opt(process.drift(x, t), Some(dt)));
    add_opt(drifted, mul_opt(process.diffusion(x, t), Some(dw)))
}

/// Advances `x` at time `t` by one Euler-Maruyama step of length `dt` with
/// noise increment `dw`.
pub fn euler_maruyama_step<P: StochasticProcess>(process: &P, x: Scalar, t: Scalar, dt: Scalar, dw: Scalar) -> (r:
    Option<Scalar>)
    ensures
        r == euler_maruyama_step_spec(process, x, t, dt, dw),
{
    add_opt(euler_increment(process, x, t, dt, dw), Some(jump_term(process, x, t)))
}

/// Forward-difference estimate of the slope of the diffusion in the state.
pub fn diffusion_slope<P: StochasticProcess>(process: &P, x: Scalar, t: Scalar) -> (r: Option<Scalar>)
    ensures
        r == diffusion_slope_spec(process, x, t),
{
    let h = Scalar::from_raw(DERIVATIVE_STEP);
    match x.checked_add(h) {
        Some(shifted) => {
            let rise = sub_opt(process.diffusion(shifted, t), process.diffusion(x, t));
            div_opt(rise, Some(h))
        },
        None => None,
    }
}

/// Advances `x` at time `t` by one Milstein step of length `dt` with noise
/// increment `dw`.
pub fn milstein_step<P: StochasticProcess>(process: &P, x: Scalar, t: Scalar, dt: Scalar, dw: Scalar) -> (r: Option<
    Scalar,
>)
    ensures
        r == milstein_step_spec(process, x, t, dt, dw),
{
    let correction = match mul_opt(process.diffusion(x, t), diffusion_slope(process, x, t)) {
        Some(product) => mul_opt(Some(product.half()), sub_opt(dw.checked_mul(dw), Some(dt))),
        None => None,
    };
    let moved = add_opt(euler_increment(process, x, t, dt, dw), correction);
    add_opt(moved, Some(jump_term(process, x, t)))
}

/// Half a step of drift.
fn drift_half_step<P: StochasticProcess>(process: &P, x: Scalar, t: Scalar, dt: Scalar) -> (r: Option<Scalar>)
    ensures
        r == drift_half_step_spec(process, x, t, dt),
{
    add_opt(Some(x), mul_opt(process.drift(x, t), Some(dt.half())))
}

/// Advances `x` at time `t` by one Strang-splitting step of length `dt` with
/// noise increment `dw`.
pub fn strang_splitting_step<P: StochasticProcess>(process: &P, x: Scalar, t: Scalar, dt: Scalar, dw: Scalar) -> (r:
    Option<Scalar>)
    ensures
        r == strang_splitting_step_spec(process, x, t, dt, dw),
{
    match drift_half_step(process, x, t, dt) {
        Some(a) => match add_opt(Some(a), mul_opt(process.diffusion(a, t), Some(dw))) {
            Some(b) => add_opt(drift_half_step(process, b, t, dt), Some(jump_term(process, x, t))),
            None => None,
        },
        None => None,
    }
}

/// Advances `x` at time `t` by one step of `scheme`.
pub fn step<P: StochasticProcess>(
    process: &P,
    scheme: StochasticScheme,
    x: Scalar,
    t: Scalar,
    dt: Scalar,
    dw: Scalar,
) -> (r: Option<Scalar>)
    ensures
        r == step_spec(process, scheme, x, t, dt, dw),
{
    match scheme {
        StochasticScheme::EulerMaruyama => euler_maruyama_step(process, x, t, dt, dw),
        StochasticScheme::Milstein => milstein_step(process, x, t, dt, dw),
        StochasticScheme::StrangSplitting => strang_splitting_step(process, x, t, dt, dw),
    }
}

/// One step driven by the unit-variance draw `draw`: the draw is scaled by
/// `scale` to the noise increment of the step, which then enters the scheme.
pub open spec fn advance_spec<P: StochasticProcess>(
    process: &P,
    scheme: StochasticScheme,
    x: Scalar,
    t: Scalar,
    dt: Scalar,
    scale: Scalar,
    draw: Scalar,
) -> Option<Scalar> {
    match draw.mul_spec(scale) {
        Some(dw) => step_spec(process, scheme, x, t, dt, dw),
        None => None,
    }
}

/// The first `k + 1` values of a path: the initial value followed by `k`
/// steps, step `j` starting at time `times[j]` and driven by `draws[j]`.
/// `None` as soon as one step fails.
pub open spec fn path_prefix_spec<P: StochasticProcess>(
    process: &P,
    scheme: StochasticScheme,
    x_0: Scalar,
    times: Seq<Scalar>,
    dt: Scalar,
    scale: Scalar,
    draws: Seq<Scalar>,
    k: nat,
) -> Option<Seq<Scalar>>
    decreases k,
{
    if k == 0 {
        Some(seq![x_0])
    } else {
        match path_prefix_spec(process, scheme, x_0, times, dt, scale, draws, (k - 1) as nat) {
            Some(prefix) => match advance_spec(
                process,
                scheme,
                prefix.last(),
                times[k - 1],
                dt,
                scale,
                draws[k - 1],
            ) {
                Some(next) => Some(prefix.push(next)),
                None => None,
            },
            None => None,
        }
    }
}

/// A whole path over the grid `times`, one step per draw. There is none when
/// the grid does not hold exactly one more point than there are draws.
pub open spec fn path_spec<P: StochasticProcess>(
    process: &P,
    scheme: StochasticScheme,
    x_0: Scalar,
    times: Seq<Scalar>,
    dt: Scalar,
    scale: Scalar,
    draws: Seq<Scalar>,
) -> Option<Seq<Scalar>> {
    if times.len() == draws.len() + 1 {
        path_prefix_spec(process, scheme, x_0, times, dt, scale, draws, draws.len())
    } else {
        None
    }
}

/// A path prefix of `k` steps holds `k + 1` values, the first of which is the
/// initial value, and each later value is one step on from the one before.
pub proof fn lemma_path_prefix_shape<P: StochasticProcess>(
    process: &P,
    scheme: StochasticScheme,
    x_0: Scalar,
    times: Seq<Scalar>,
    dt: Scalar,
    scale: Scalar,
    draws: Seq<Scalar>,
    k: nat,
)
    requires
        path_prefix_spec(process, scheme, x_0, times, dt, scale, draws, k) is Some,
    ensures
        path_prefix_spec(process, scheme, x_0, times, dt, scale, draws, k)->0.len() == k + 1,
        path_prefix_spec(process, scheme, x_0, times, dt, scale, draws, k)->0[0] == x_0,
        forall|j: int|
            0 <= j < k ==> Some(
                #[trigger] path_prefix_spec(process, scheme, x_0, times, dt, scale, draws, k)->0[j + 1],
            ) == advance_spec(
                process,
                scheme,
                path_prefix_spec(process, scheme, x_0, times, dt, scale, draws, k)->0[j],
                times[j],
                dt,
                scale,
                draws[j],
            ),
    decreases k,
{
    if k > 0 {
        lemma_path_prefix_shape(process, scheme, x_0, times, dt, scale, draws, (k - 1) as nat);
    }
}

/// Once a prefix of a path has failed, every longer prefix has failed too.
pub proof fn lemma_path_failure_persists<P: StochasticProcess>(
    process: &P,
    scheme: StochasticScheme,
    x_0: Scalar,
    times: Seq<Scalar>,
    dt: Scalar,
    scale: Scalar,
    draws: Seq<Scalar>,
    j: nat,
    k: nat,
)
    requires
        j <= k,
        path_prefix_spec(process, scheme, x_0, times, dt, scale, draws, j) is None,
    ensures
        path_prefix_spec(process, scheme, x_0, times, dt, scale, draws, k) is None,
    decreases k,
{
    if j < k {
        lemma_path_failure_persists(process, scheme, x_0, times, dt, scale, draws, j, (k - 1) as nat);
    }
}

/// Simulates one path over the grid `times` from the unit-variance draws
/// `draws`.
pub fn simulate_path<P: StochasticProcess>(
    process: &P,
    scheme: StochasticScheme,
    x_0: Scalar,
    times: &Vec<Scalar>,
    dt: Scalar,
    scale: Scalar,
    draws: &Vec<Scalar>,
) -> (r: Option<Vec<Scalar>>)
    ensures
        match r {
            Some(path) => path_spec(process, scheme, x_0, times@, dt, scale, draws@) == Some(path@),
            None => path_spec(process, scheme, x_0, times@, dt, scale, draws@) is None,
        },
{
    let n: usize = draws.len();
    if times.len() == 0 || times.len() - 1 != n {
        return None;
    }
    let mut path: Vec<Scalar> = Vec::new();
    path.push(x_0);
    assert(path@ =~= seq![x_0]);
    let mut x: Scalar = x_0;
    let mut k: usize = 0;
    while k < n
        invariant
            0 <= k <= n,
            n == draws@.len(),
            times@.len() == n + 1,
            path_prefix_spec(process, scheme, x_0, times@, dt, scale, draws@, k as nat) == Some(path@),
            path@.len() == k + 1,
            x == path@.last(),
        decreases n - k,
    {
        let next = match draws[k].checked_mul(scale) {
            Some(dw) => step(process, scheme, x, times[k], dt, dw),
            None => None,
        };
        match next {
            Some(value) => {
                path.push(value);
                x = value;
            },
            None => {
                proof {
                    lemma_path_failure_persists(
                        process,
                        scheme,
                        x_0,
                        times@,
                        dt,
                        scale,
                        draws@,
                        (k + 1) as nat,
                        n as nat,
                    );
                }
                return None;
            },
        }
        k += 1;
    }
    Some(path)
}

/// Whether `noise` holds one row per path and, in each row, one draw per
/// step.
pub open spec fn noise_fits(noise: Seq<Seq<Scalar>>, m_paths: usize, n_steps: usize) -> bool {
    &&& noise.len() == m_paths
    &&& forall|i: int| 0 <= i < noise.len() ==> (#[trigger] noise[i]).len() == n_steps
}

/// The time grid and the paths of a run that advances its paths by `scheme`
/// and scales its draws by `scale`, or the reason why the run fails.
///
/// The configuration is checked first, then the shape of the noise. After
/// that the run fails with `NumericalDomain` when there is no step length or
/// no scale, when the grid cannot be represented, or when a path fails.
/// Whether the run is parallel plays no part.
pub open spec fn simulate_scaled_spec<P: StochasticProcess>(
    process: &P,
    config: &StochasticProcessConfig,
    scheme: StochasticScheme,
    scale: Option<Scalar>,
    noise: Seq<Seq<Scalar>>,
) -> Result<(Seq<Scalar>, Seq<Seq<Scalar>>), SimulationError> {
    match config_fault(config.t_0, config.t_n, config.n_steps, config.m_paths) {
        Some(fault) => Err(fault),
        None => if !noise_fits(noise, config.m_paths, config.n_steps) {
            Err(SimulationError::NoiseShape)
        } else {
            match (config.dt_spec(), scale) {
                (Some(dt), Some(factor)) => match time_grid_spec(config.t_0, config.t_n, config.n_steps) {
                    Some(times) => if forall|i: int|
                        0 <= i < noise.len() ==> path_spec(
                            process,
                            scheme,
                            config.x_0,
                            times,
                            dt,
                            factor,
                            #[trigger] noise[i],
                        ) is Some {
                        Ok(
                            (
                                times,
                                Seq::new(
                                    noise.len(),
                                    |i: int|
                                        path_spec(process, scheme, config.x_0, times, dt, factor, noise[i])->0,
                                ),
                            ),
                        )
                    } else {
                        Err(SimulationError::NumericalDomain)
                    },
                    None => Err(SimulationError::NumericalDomain),
                },
                _ => Err(SimulationError::NumericalDomain),
            }
        },
    }
}

/// The factor that turns a unit-variance draw into a Brownian increment over
/// one step: the square root of the step length.
pub open spec fn brownian_scale_spec(config: &StochasticProcessConfig) -> Option<Scalar> {
    match config.dt_spec() {
        Some(dt) => dt.sqrt_spec(),
        None => None,
    }
}

/// The result of simulating `process` under `config` from the draws `noise`.
pub open spec fn simulate_spec<P: StochasticProcess>(
    process: &P,
    config: &StochasticProcessConfig,
    noise: Seq<Seq<Scalar>>,
) -> Result<(Seq<Scalar>, Seq<Seq<Scalar>>), SimulationError> {
    simulate_scaled_spec(process, config, config.scheme, brownian_scale_spec(config), noise)
}

/// What a run returned, by the views of its time grid and paths.
pub open spec fn outcome(r: Result<Trajectories, SimulationError>) -> Result<
    (Seq<Scalar>, Seq<Seq<Scalar>>),
    SimulationError,
> {
    match r {
        Ok(trajectories) => Ok((trajectories.times_view(), trajectories.paths_view())),
        Err(e) => Err(e),
    }
}

/// Checks the shape of the noise.
fn check_noise(noise: &Vec<Vec<Scalar>>, m_paths: usize, n_steps: usize) -> (ok: bool)
    ensures
        ok == noise_fits(rows(noise@), m_paths, n_steps),
{
    if noise.len() != m_paths {
        return false;
    }
    let mut i: usize = 0;
    while i < noise.len()
        invariant
            0 <= i <= noise@.len(),
            forall|j: int| 0 <= j < i ==> (#[trigger] rows(noise@)[j]).len() == n_steps,
        decreases noise@.len() - i,
    {
        if noise[i].len() != n_steps {
            assert(rows(noise@)[i as int].len() != n_steps);
            return false;
        }
        i += 1;
    }
    true
}

/// Simulates the paths one after the other, up to the first that fails.
fn serial_paths<P: StochasticProcess>(
    process: &P,
    scheme: StochasticScheme,
    x_0: Scalar,
    times: &Vec<Scalar>,
    dt: Scalar,
    scale: Scalar,
    noise: &Vec<Vec<Scalar>>,
) -> (r: Option<Vec<Vec<Scalar>>>)
    ensures
        paths_match(r, process, scheme, x_0, times@, dt, scale, noise@),
{
    let mut paths: Vec<Vec<Scalar>> = Vec::new();
    let mut i: usize = 0;
    while i < noise.len()
        invariant
            0 <= i <= noise@.len(),
            paths@.len() == i,
            forall|j: int|
                0 <= j < i ==> path_spec(process, scheme, x_0, times@, dt, scale, noise@[j]@) == Some(
                    #[trigger] paths@[j]@,
                ),
        decreases noise@.len() - i,
    {
        match simulate_path(process, scheme, x_0, times, dt, scale, &noise[i]) {
            Some(path) => {
                paths.push(path);
            },
            None => {
                return None;
            },
        }
        i += 1;
    }
    Some(paths)
}

/// Whether `r` holds the paths that the rows of `noise` drive, in the order
/// of the rows, or is `None` because one of them fails.
pub open spec fn paths_match<P: StochasticProcess>(
    r: Option<Vec<Vec<Scalar>>>,
    process: &P,
    scheme: StochasticScheme,
    x_0: Scalar,
    times: Seq<Scalar>,
    dt: Scalar,
    scale: Scalar,
    noise: Seq<Vec<Scalar>>,
) -> bool {
    match r {
        Some(paths) => {
            &&& paths@.len() == noise.len()
            &&& forall|i: int|
                0 <= i < noise.len() ==> path_spec(process, scheme, x_0, times, dt, scale, noise[i]@) == Some(
                    #[trigger] paths@[i]@,
                )
        },
        None => exists|i: int|
            0 <= i < noise.len() && (#[trigger] path_spec(process, scheme, x_0, times, dt, scale, noise[i]@))
                is None,
    }
}

/// Simulates the paths on the thread pool.
fn parallel_paths<P: StochasticProcess>(
    process: &P,
    scheme: StochasticScheme,
    x_0: Scalar,
    times: &Vec<Scalar>,
    dt: Scalar,
    scale: Scalar,
    noise: &Vec<Vec<Scalar>>,
) -> (r: Option<Vec<Vec<Scalar>>>)
    ensures
        paths_match(r, process, scheme, x_0, times@, dt, scale, noise@),
{
    let one_path = |draws: &Vec<Scalar>| -> (r: Option<Vec<Scalar>>)
        ensures
            path_result(r) == path_spec(process, scheme, x_0, times@, dt, scale, draws@),
        { simulate_path(process, scheme, x_0, times, dt, scale, draws) };
    let results = par_map(noise, one_path);
    let ghost outcomes = results@;
    let gathered = gather_paths(results);
    proof {
        if gathered is Some {
            let paths = gathered->0;
            assert forall|i: int| 0 <= i < noise@.len() implies path_spec(
                process,
                scheme,
                x_0,
                times@,
                dt,
                scale,
                noise@[i]@,
            ) == Some(#[trigger] paths@[i]@) by {
                assert(path_result(outcomes[i]) == Some(paths@[i]@));
            }
        } else {
            let i = choose|i: int| 0 <= i < outcomes.len() && outcomes[i] is None;
            assert(path_result(outcomes[i]) is None);
            assert(path_spec(process, scheme, x_0, times@, dt, scale, noise@[i]@) is None);
        }
    }
    gathered
}

/// What the simulation of one path returned, by the view of the path.
pub open spec fn path_result(r: Option<Vec<Scalar>>) -> Option<Seq<Scalar>> {
    match r {
        Some(path) => Some(path@),
        None => None,
    }
}

/// Unwraps the paths in order, or reports that one of them failed.
fn gather_paths(results: Vec<Option<Vec<Scalar>>>) -> (r: Option<Vec<Vec<Scalar>>>)
    ensures
        match r {
            Some(paths) => {
                &&& paths@.len() == results@.len()
                &&& forall|i: int| 0 <= i < results@.len() ==> path_result(results@[i]) == Some(#[trigger] paths@[i]@)
            },
            None => exists|i: int| 0 <= i < results@.len() && results@[i] is None,
        },
{
    let ghost all = results@;
    let mut stack = results;
    let mut reversed: Vec<Vec<Scalar>> = Vec::new();
    while stack.len() > 0
        invariant
            all == results@,
            stack@.len() + reversed@.len() == all.len(),
            stack@ == all.subrange(0, stack@.len() as int),
            forall|j: int|
                0 <= j < reversed@.len() ==> path_result(all[all.len() - 1 - j]) == Some(#[trigger] reversed@[j]@),
        decreases stack@.len(),
    {
        let ghost top = stack@.len() - 1;
        assert(stack@.last() == all[top]);
        match stack.pop() {
            Some(Some(path)) => {
                reversed.push(path);
            },
            _ => {
                assert(all[top] is None);
                return None;
            },
        }
    }
    let mut paths: Vec<Vec<Scalar>> = Vec::new();
    while reversed.len() > 0
        invariant
            paths@.len() + reversed@.len() == all.len(),
            forall|j: int|
                0 <= j < reversed@.len() ==> path_result(all[all.len() - 1 - j]) == Some(#[trigger] reversed@[j]@),
            forall|j: int| 0 <= j < paths@.len() ==> path_result(all[j]) == Some(#[trigger] paths@[j]@),
        decreases reversed@.len(),
    {
        match reversed.pop() {
            Some(path) => {
                paths.push(path);
            },
            None => {},
        }
    }
    Some(paths)
}

/// Runs a simulation that advances its paths by `scheme` and scales its
/// draws by `scale`.
pub(crate) fn simulate_scaled<P: StochasticProcess>(
    process: &P,
    config: &StochasticProcessConfig,
    scheme: StochasticScheme,
    scale: Option<Scalar>,
    noise: &Vec<Vec<Scalar>>,
) -> (r: Result<Trajectories, SimulationError>)
    ensures
        outcome(r) == simulate_scaled_spec(process, config, scheme, scale, rows(noise@)),
        r is Ok ==> r->Ok_0.fits(config),
{
    proof {
        if simulate_scaled_spec(process, config, scheme, scale, rows(noise@)) is Ok {
            lemma_time_grid(config);
            lemma_paths_of_run(process, config, scheme, scale, rows(noise@));
        }
    }
    match check_config(config.t_0, config.t_n, config.n_steps, config.m_paths) {
        Some(fault) => {
            return Err(fault);
        },
        None => {},
    }
    if !check_noise(noise, config.m_paths, config.n_steps) {
        return Err(SimulationError::NoiseShape);
    }
    let (dt, factor) = match (config.dt(), scale) {
        (Some(dt), Some(factor)) => (dt, factor),
        _ => {
            return Err(SimulationError::NumericalDomain);
        },
    };
    let (x_0, _, times) = match config.unpack_for_scheme() {
        Some(unpacked) => unpacked,
        None => {
            return Err(SimulationError::NumericalDomain);
        },
    };
    let gathered = if config.parallel {
        parallel_paths(process, scheme, x_0, &times, dt, factor, noise)
    } else {
        serial_paths(process, scheme, x_0, &times, dt, factor, noise)
    };
    let ghost draws = rows(noise@);
    match gathered {
        Some(paths) => {
            let trajectories = Trajectories { times, paths };
            proof {
                assert forall|i: int| 0 <= i < draws.len() implies path_spec(
                    process,
                    scheme,
                    config.x_0,
                    times@,
                    dt,
                    factor,
                    #[trigger] draws[i],
                ) is Some by {
                    assert(path_spec(process, scheme, x_0, times@, dt, factor, noise@[i]@) == Some(
                        paths@[i]@,
                    ));
                }
                assert(trajectories.paths_view() =~= Seq::new(
                    draws.len(),
                    |i: int| path_spec(process, scheme, config.x_0, times@, dt, factor, draws[i])->0,
                )) by {
                    assert forall|i: int| 0 <= i < draws.len() implies trajectories.paths_view()[i]
                        == path_spec(process, scheme, config.x_0, times@, dt, factor, draws[i])->0 by {
                        assert(path_spec(process, scheme, x_0, times@, dt, factor, noise@[i]@) == Some(
                            paths@[i]@,
                        ));
                    }
                }
                assert forall|i: int| 0 <= i < trajectories.paths@.len() implies (
                #[trigger] trajectories.paths@[i])@.len() == config.n_steps + 1 && trajectories.paths@[i]@[0]
                    == config.x_0 by {
                    assert(trajectories.paths_view()[i] == trajectories.paths@[i]@);
                }
            }
            Ok(trajectories)
        },
        None => {
            proof {
                let i = choose|i: int|
                    0 <= i < noise@.len() && (#[trigger] path_spec(
                        process,
                        scheme,
                        x_0,
                        times@,
                        dt,
                        factor,
                        noise@[i]@,
                    )) is None;
                assert(path_spec(process, scheme, config.x_0, times@, dt, factor, draws[i]) is None);
            }
            Err(SimulationError::NumericalDomain)
        },
    }
}

/// Simulates `config.m_paths` paths of `process` over the configured grid
/// with the configured scheme.
///
/// `noise` holds the random input: one row per path and in each row one
/// unit-variance draw per step. Each draw is scaled by the square root of the
/// step length. The paths come out in the order of the rows, whether or not
/// the run is parallel. Running in parallel pays off from about a thousand
/// paths.
pub fn simulate_stochastic_process<P: StochasticProcess>(
    process: &P,
    config: &StochasticProcessConfig,
    noise: &Vec<Vec<Scalar>>,
) -> (r: Result<Trajectories, SimulationError>)
    ensures
        outcome(r) == simulate_spec(process, config, rows(noise@)),
        r is Ok ==> r->Ok_0.fits(config),
{
    let scale = match config.dt() {
        Some(dt) => dt.checked_sqrt(),
        None => None,
    };
    simulate_scaled(process, config, config.scheme, scale, noise)
}

/// The time grid of a run that succeeds is the grid of its configuration, of
/// which [`lemma_time_grid`] tells the shape.
pub proof fn lemma_times_of_run<P: StochasticProcess>(
    process: &P,
    config: &StochasticProcessConfig,
    scheme: StochasticScheme,
    scale: Option<Scalar>,
    noise: Seq<Seq<Scalar>>,
)
    requires
        simulate_scaled_spec(process, config, scheme, scale, noise) is Ok,
    ensures
        config.valid(),
        config.dt_spec() is Some,
        config.n_steps < usize::MAX,
        Some(simulate_scaled_spec(process, config, scheme, scale, noise)->Ok_0.0) == time_grid_spec(
            config.t_0,
            config.t_n,
            config.n_steps,
        ),
{
}

/// The paths of a run that succeeds: there are `m_paths` of them, each holds
/// `n_steps + 1` values, the first of which is `x_0`, and each later value is
/// one step of the scheme on from the value before it.
pub proof fn lemma_paths_of_run<P: StochasticProcess>(
    process: &P,
    config: &StochasticProcessConfig,
    scheme: StochasticScheme,
    scale: Option<Scalar>,
    noise: Seq<Seq<Scalar>>,
)
    requires
        simulate_scaled_spec(process, config, scheme, scale, noise) is Ok,
    ensures
        ({
            let times = simulate_scaled_spec(process, config, scheme, scale, noise)->Ok_0.0;
            let paths = simulate_scaled_spec(process, config, scheme, scale, noise)->Ok_0.1;
            &&& scale is Some
            &&& paths.len() == config.m_paths
            &&& forall|i: int| 0 <= i < paths.len() ==> (#[trigger] paths[i]).len() == config.n_steps + 1
            &&& forall|i: int| 0 <= i < paths.len() ==> (#[trigger] paths[i])[0] == config.x_0
            &&& forall|i: int, k: int|
                0 <= i < paths.len() && 0 <= k < config.n_steps ==> Some(#[trigger] paths[i][k + 1])
                    == advance_spec(
                    process,
                    scheme,
                    paths[i][k],
                    times[k],
                    config.dt_spec()->0,
                    scale->0,
                    noise[i][k],
                )
        }),
{
    let times = simulate_scaled_spec(process, config, scheme, scale, noise)->Ok_0.0;
    let paths = simulate_scaled_spec(process, config, scheme, scale, noise)->Ok_0.1;
    let dt = config.dt_spec()->0;
    assert(time_grid_spec(config.t_0, config.t_n, config.n_steps) == Some(times));
    assert forall|i: int| 0 <= i < paths.len() implies (#[trigger] paths[i]).len() == config.n_steps + 1
        && paths[i][0] == config.x_0 && (forall|k: int|
        0 <= k < config.n_steps ==> Some(#[trigger] paths[i][k + 1]) == advance_spec(
            process,
            scheme,
            paths[i][k],
            times[k],
            dt,
            scale->0,
            noise[i][k],
        )) by {
        assert(path_spec(process, scheme, config.x_0, times, dt, scale->0, noise[i]) is Some);
        lemma_path_prefix_shape(
            process,
            scheme,
            config.x_0,
            times,
            dt,
            scale->0,
            noise[i],
            noise[i].len(),
        );
    }
}

/// Whether a run is parallel, and which seed its configuration carries, have
/// no bearing on its result: two configurations that agree in everything
/// else give the same result from the same draws.
pub proof fn lemma_parallel_is_serial<P: StochasticProcess>(
    process: &P,
    serial: &StochasticProcessConfig,
    parallel: &StochasticProcessConfig,
    noise: Seq<Seq<Scalar>>,
)
    requires
        serial.x_0 == parallel.x_0,
        serial.t_0 == parallel.t_0,
        serial.t_n == parallel.t_n,
        serial.n_steps == parallel.n_steps,
        serial.scheme == parallel.scheme,
        serial.m_paths == parallel.m_paths,
    ensures
        simulate_spec(process, serial, noise) == simulate_spec(process, parallel, noise),
{
}

/// The scheme of a run decides the values of its paths and nothing else: two
/// runs that succeed under configurations that differ in the scheme alone
/// have the same time grid, the same number of paths, and paths of the same
/// length.
pub proof fn lemma_schemes_share_shape<P: StochasticProcess>(
    process: &P,
    first: &StochasticProcessConfig,
    second: &StochasticProcessConfig,
    noise: Seq<Seq<Scalar>>,
)
    requires
        first.x_0 == second.x_0,
        first.t_0 == second.t_0,
        first.t_n == second.t_n,
        first.n_steps == second.n_steps,
        first.m_paths == second.m_paths,
        simulate_spec(process, first, noise) is Ok,
        simulate_spec(process, second, noise) is Ok,
    ensures
        simulate_spec(process, first, noise)->Ok_0.0 == simulate_spec(process, second, noise)->Ok_0.0,
        simulate_spec(process, first, noise)->Ok_0.1.len() == simulate_spec(process, second, noise)->Ok_0.1.len(),
        forall|i: int|
            0 <= i < first.m_paths ==> (#[trigger] simulate_spec(process, first, noise)->Ok_0.1[i]).len()
                == simulate_spec(process, second, noise)->Ok_0.1[i].len(),
{
    lemma_paths_of_run(process, first, first.scheme, brownian_scale_spec(first), noise);
    lemma_paths_of_run(process, second, second.scheme, brownian_scale_spec(second), noise);
}

/// Where the estimated slope of the diffusion is zero, as it is for a
/// diffusion that does not depend on the state, a Milstein step is an
/// Euler-Maruyama step, provided the square of the noise increment less the
/// step length can be represented.
pub proof fn lemma_milstein_without_slope<P: StochasticProcess>(
    process: &P,
    x: Scalar,
    t: Scalar,
    dt: Scalar,
    dw: Scalar,
)
    requires
        diffusion_slope_spec(process, x, t) == Some(Scalar { raw: 0 }),
        opt_sub(dw.mul_spec(dw), Some(dt)) is Some,
    ensures
        milstein_step_spec(process, x, t, dt, dw) == euler_maruyama_step_spec(process, x, t, dt, dw),
{
    let zero = Scalar { raw: 0 };
    let gap = opt_sub(dw.mul_spec(dw), Some(dt))->0;
    assert(0 * gap@ == 0) by (nonlinear_arith);
    assert(zero.mul_spec(gap) == Some(zero));
    if process.diffusion_spec(x, t) is Some {
        let sigma = process.diffusion_spec(x, t)->0;
        assert(sigma@ * 0 == 0) by (nonlinear_arith);
        assert(sigma.mul_spec(zero) == Some(zero));
        assert(zero.half_spec() == zero);
        assert(milstein_correction_spec(process, x, t, dt, dw) == Some(zero));
    } else {
        assert(euler_increment_spec(process, x, t, dt, dw) is None);
    }
}

/// No path reads another path's random input: where two runs under one
/// configuration succeed and their noise agrees in row `i`, they agree in
/// path `i`.
pub proof fn lemma_paths_are_independent<P: StochasticProcess>(
    process: &P,
    config: &StochasticProcessConfig,
    first: Seq<Seq<Scalar>>,
    second: Seq<Seq<Scalar>>,
    i: int,
)
    requires
        simulate_spec(process, config, first) is Ok,
        simulate_spec(process, config, second) is Ok,
        0 <= i < config.m_paths,
        first[i] == second[i],
    ensures
        simulate_spec(process, config, first)->Ok_0.1[i] == simulate_spec(process, config, second)->Ok_0.1[i],
{
}

/// Simulation as a method of every process: the process selects the engine
/// by the noise that it says drives it.
pub trait Generate {
    /// What `generate` returns.
    spec fn generate_spec(&self, config: &StochasticProcessConfig, noise: Seq<Seq<Scalar>>) -> Result<
        (Seq<Scalar>, Seq<Seq<Scalar>>),
        SimulationError,
    >;

    /// Simulate the stochastic process from the draws `noise`: unit-variance
    /// draws of white noise for a process driven by Brownian motion, of
    /// fractional Gaussian noise for a process driven by fractional noise.
    fn generate(&self, config: &StochasticProcessConfig, noise: &Vec<Vec<Scalar>>) -> (r: Result<
        Trajectories,
        SimulationError,
    >)
        ensures
            outcome(r) == self.generate_spec(config, rows(noise@)),
            r is Ok ==> r->Ok_0.fits(config),
    ;
}

impl<P: StochasticProcess> Generate for P {
    /// A process that names a Hurst exponent is simulated by the fractional
    /// generator, any other by the engine with Brownian increments.
    open spec fn generate_spec(&self, config: &StochasticProcessConfig, noise: Seq<Seq<Scalar>>) -> Result<
        (Seq<Scalar>, Seq<Seq<Scalar>>),
        SimulationError,
    > {
        match self.hurst_spec() {
            Some(hurst) => simulate_fractional_spec(self, config, hurst, noise),
            None => simulate_spec(self, config, noise),
        }
    }

    fn generate(&self, config: &StochasticProcessConfig, noise: &Vec<Vec<Scalar>>) -> (r: Result<
        Trajectories,
        SimulationError,
    >) {
        match self.hurst_exponent() {
            Some(hurst) => simulate_fractional_stochastic_process(self, config, hurst, noise),
            None => simulate_stochastic_process(self, config, noise),
        }
    }
}

} // verus!
