//! Monte Carlo simulation of stochastic differential equations.
//!
//! A process is given by its drift, its diffusion and, where it has one, its
//! jump term. The engine integrates it over an evenly spaced time grid by the
//! Euler-Maruyama, the Milstein or the Strang splitting scheme and returns
//! the simulated paths. Two-factor stochastic-volatility models and processes
//! driven by fractional Gaussian noise are simulated too.
//!
//! All numbers are exact decimal fixed-point [`Scalar`]s, and the random
//! input of a run is an argument of it: what a run returns is a function of
//! its arguments alone, the same on every machine and for serial and
//! parallel execution alike. The functions of the library state that
//! function in their contracts.
//!
//! - [`scalar`]: the numbers and their checked arithmetic.
//! - [`model_parameter`]: coefficients that are constant or vary with time.
//! - [`process`]: the process abstractions, the configuration of a run, the
//!   time grid and the trajectories.
//! - [`simulation`]: the three schemes, paths and runs.
//! - [`stochastic_volatility`]: runs of two-factor models.
//! - [`fractional_process`] and [`fractional_noise`]: runs driven by
//!   fractional noise, and that noise by the Cholesky method.
//! - the remaining modules hold one model each.

pub mod brownian_motion;
pub mod cox_ingersoll_ross;
pub mod extended_vasicek;
pub mod fractional_noise;
pub mod fractional_ornstein_uhlenbeck;
pub mod fractional_process;
pub mod geometric_brownian_motion;
pub mod ho_lee;
pub mod model_parameter;
mod parallel;
pub mod process;
pub mod scalar;
pub mod simulation;
pub mod stochastic_volatility;

pub use brownian_motion::BrownianMotion;
pub use cox_ingersoll_ross::CoxIngersollRoss;
pub use extended_vasicek::ExtendedVasicek;
pub use fractional_ornstein_uhlenbeck::FractionalOrnsteinUhlenbeck;
pub use fractional_process::FractionalProcessGeneratorMethod;
pub use geometric_brownian_motion::GeometricBrownianMotion;
pub use ho_lee::HoLee;
pub use model_parameter::{ModelParameter, TimeFunction};
pub use process::{
    SimulationError, StochasticProcess, StochasticProcessConfig, StochasticScheme, StochasticVolatilityProcess,
    Trajectories,
};
pub use scalar::Scalar;
pub use simulation::Generate;
pub use stochastic_volatility::{EulerMaruyama, VolatilityTrajectories};
