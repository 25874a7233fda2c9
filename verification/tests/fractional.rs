use rand::rngs::StdRng;
use rand::SeedableRng;
use rand_distr::{Distribution, Normal};
use stochastics::fractional_noise::{
    autocovariance, autocovariances, check_hurst, cholesky_factor, correlate, dot, fractional_gaussian_noise,
    lag_power, MAX_LAG,
};
use stochastics::fractional_ornstein_uhlenbeck::FractionalOrnsteinUhlenbeck;
use stochastics::fractional_process::FractionalProcessGeneratorMethod;
use stochastics::process::{SimulationError, StochasticProcessConfig, StochasticScheme};
use stochastics::scalar::Scalar;
use stochastics::simulation::simulate_stochastic_process;

fn scalar(x: f64) -> Scalar {
    Scalar::from_binary64_bits(x.to_bits()).unwrap()
}

fn float(x: Scalar) -> f64 {
    x.raw() as f64 / 1e9
}

fn white_noise(m_paths: usize, n_steps: usize, seed: u64) -> Vec<Vec<Scalar>> {
    let normal = Normal::new(0.0, 1.0).unwrap();
    (0..m_paths)
        .map(|path| {
            let mut rng = StdRng::seed_from_u64(seed.wrapping_add(path as u64));
            (0..n_steps).map(|_| scalar(normal.sample(&mut rng))).collect()
        })
        .collect()
}

#[test]
fn hurst_check_accepts_the_unit_interval() {
    assert!(check_hurst(scalar(0.0)));
    assert!(check_hurst(scalar(0.7)));
    assert!(check_hurst(scalar(1.0)));
    assert!(!check_hurst(Scalar::from_raw(-1)));
    assert!(!check_hurst(Scalar::from_raw(1_000_000_001)));
}

#[test]
fn lag_power_with_hurst_one_half_is_the_lag() {
    for k in [0usize, 1, 2, 3, 10, 100, 96_038] {
        assert_eq!(lag_power(scalar(0.5), k), Scalar::from_usize(k));
    }
}

#[test]
fn lag_power_with_hurst_one_is_the_square_of_the_lag() {
    assert_eq!(lag_power(scalar(1.0), 0), Some(scalar(0.0)));
    assert_eq!(lag_power(scalar(1.0), 7), Some(scalar(49.0)));
}

#[test]
fn lag_power_is_zero_at_lag_zero() {
    for hurst in [0.0, 0.3, 0.5, 1.0] {
        assert_eq!(lag_power(scalar(hurst), 0), Some(scalar(0.0)));
    }
    assert_eq!(lag_power(scalar(0.0), 5), Some(scalar(1.0)));
}

#[test]
fn lag_power_beyond_the_largest_lag_has_no_value() {
    assert_eq!(MAX_LAG, 96_038);
    assert!(lag_power(scalar(0.5), MAX_LAG).is_some());
    assert_eq!(lag_power(scalar(0.5), MAX_LAG + 1), None);
    assert_eq!(lag_power(scalar(0.5), usize::MAX), None);
    assert_eq!(autocovariance(scalar(0.5), MAX_LAG), None);
    assert_eq!(autocovariance(scalar(0.5), usize::MAX), None);
}

#[test]
fn covariance_of_white_noise() {
    assert_eq!(
        autocovariances(scalar(0.5), 4),
        Some(vec![scalar(1.0), scalar(0.0), scalar(0.0), scalar(0.0)])
    );
}

#[test]
fn covariance_with_hurst_one_is_constant() {
    // ((k + 1)^2 - 2 k^2 + (k - 1)^2) / 2 = 1
    assert_eq!(autocovariances(scalar(1.0), 3), Some(vec![scalar(1.0), scalar(1.0), scalar(1.0)]));
}

#[test]
fn covariance_is_close_to_the_real_formula() {
    let hurst = 0.7_f64;
    for k in 0..20usize {
        let exact = 0.5
            * (((k + 1) as f64).powf(2.0 * hurst) - 2.0 * (k as f64).powf(2.0 * hurst)
                + ((k as f64) - 1.0).abs().powf(2.0 * hurst));
        let value = float(autocovariance(scalar(hurst), k).unwrap());
        assert!((value - exact).abs() < 1e-6, "lag {}: {} against {}", k, value, exact);
    }
    assert_eq!(autocovariance(scalar(hurst), 0), Some(scalar(1.0)));
}

#[test]
fn dot_product_of_prefixes() {
    let a = vec![scalar(1.0), scalar(2.0), scalar(3.0)];
    let b = vec![scalar(0.5), scalar(-1.0), scalar(4.0)];
    assert_eq!(dot(&a, &b, 0), Some(scalar(0.0)));
    assert_eq!(dot(&a, &b, 2), Some(scalar(-1.5)));
    assert_eq!(dot(&a, &b, 3), Some(scalar(10.5)));
    assert_eq!(dot(&a, &b, 4), None);
    assert_eq!(dot(&a, &vec![scalar(0.5)], 2), None);
    let huge = vec![Scalar::from_raw(i64::MAX)];
    assert_eq!(dot(&huge, &huge, 1), None);
}

#[test]
fn cholesky_factor_of_a_small_matrix() {
    // [[4, 2], [2, 4]] = L * transpose(L) with L = [[2, 0], [1, sqrt(3)]]
    let factor = cholesky_factor(&vec![scalar(4.0), scalar(2.0)]).unwrap();
    assert_eq!(factor, vec![vec![scalar(2.0)], vec![scalar(1.0), Scalar::from_raw(1_732_050_807)]]);
}

#[test]
fn cholesky_factor_of_the_identity_is_the_identity() {
    let factor = cholesky_factor(&vec![scalar(1.0), scalar(0.0), scalar(0.0)]).unwrap();
    assert_eq!(
        factor,
        vec![
            vec![scalar(1.0)],
            vec![scalar(0.0), scalar(1.0)],
            vec![scalar(0.0), scalar(0.0), scalar(1.0)],
        ]
    );
}

#[test]
fn cholesky_factor_reproduces_the_matrix() {
    let gamma = autocovariances(scalar(0.7), 12).unwrap();
    let factor = cholesky_factor(&gamma).unwrap();
    for i in 0..12 {
        assert_eq!(factor[i].len(), i + 1);
        for j in 0..=i {
            let product: f64 = (0..=j).map(|k| float(factor[i][k]) * float(factor[j][k])).sum();
            assert!((product - float(gamma[i - j])).abs() < 1e-7);
        }
    }
}

#[test]
fn cholesky_factor_needs_a_positive_definite_matrix() {
    // [[1, 2], [2, 1]] has a negative eigenvalue
    assert_eq!(cholesky_factor(&vec![scalar(1.0), scalar(2.0)]), None);
    // a zero on the diagonal leaves nothing to divide by
    assert_eq!(cholesky_factor(&vec![scalar(0.0), scalar(1.0)]), None);
    assert_eq!(cholesky_factor(&vec![scalar(-1.0)]), None);
    assert_eq!(cholesky_factor(&vec![]), Some(vec![]));
}

#[test]
fn correlate_multiplies_factor_and_draws() {
    let factor = vec![vec![scalar(2.0)], vec![scalar(1.0), scalar(3.0)]];
    let draws = vec![scalar(0.5), scalar(-1.0)];
    // [2 * 0.5, 1 * 0.5 + 3 * -1]
    assert_eq!(correlate(&factor, &draws), Some(vec![scalar(1.0), scalar(-2.5)]));
}

#[test]
fn correlate_refuses_shapes_that_do_not_fit() {
    let factor = vec![vec![scalar(2.0)], vec![scalar(1.0), scalar(3.0)]];
    assert_eq!(correlate(&factor, &vec![scalar(0.5)]), None);
    let square = vec![vec![scalar(2.0), scalar(0.0)], vec![scalar(1.0), scalar(3.0)]];
    assert_eq!(correlate(&square, &vec![scalar(0.5), scalar(-1.0)]), None);
}

#[test]
fn noise_with_hurst_one_half_is_the_white_noise_it_was_made_from() {
    let draws = white_noise(5, 40, 7);
    assert_eq!(fractional_gaussian_noise(scalar(0.5), 40, &draws), Ok(draws));
}

#[test]
fn noise_generation_checks_its_arguments() {
    let draws = white_noise(3, 10, 7);
    assert_eq!(fractional_gaussian_noise(scalar(1.5), 10, &draws), Err(SimulationError::HurstOutOfRange));
    assert_eq!(fractional_gaussian_noise(scalar(-0.1), 10, &draws), Err(SimulationError::HurstOutOfRange));
    assert_eq!(fractional_gaussian_noise(scalar(0.7), 11, &draws), Err(SimulationError::NoiseShape));
    // with H = 1 all values of the noise are the same: the covariance matrix is singular
    assert_eq!(fractional_gaussian_noise(scalar(1.0), 10, &draws), Err(SimulationError::NumericalDomain));
    assert!(fractional_gaussian_noise(scalar(0.7), 10, &draws).is_ok());
    assert_eq!(fractional_gaussian_noise(scalar(0.7), 10, &vec![]), Ok(vec![]));
}

#[test]
fn noise_has_the_covariance_of_its_hurst_exponent() {
    let hurst = 0.7_f64;
    let n = 16;
    let m = 4000;
    let noise = fractional_gaussian_noise(scalar(hurst), n, &white_noise(m, n, 2024)).unwrap();
    assert_eq!(noise.len(), m);
    let moment = |lag: usize| -> f64 {
        let mut sum = 0.0;
        let mut count = 0.0;
        for row in &noise {
            assert_eq!(row.len(), n);
            for k in 0..n - lag {
                sum += float(row[k]) * float(row[k + lag]);
                count += 1.0;
            }
        }
        sum / count
    };
    let exact = |k: f64| 0.5 * ((k + 1.0).powf(2.0 * hurst) - 2.0 * k.powf(2.0 * hurst) + (k - 1.0).abs().powf(2.0 * hurst));
    assert!((moment(0) - 1.0).abs() < 0.05);
    assert!((moment(1) - exact(1.0)).abs() < 0.05);
    assert!((moment(2) - exact(2.0)).abs() < 0.05);
    assert!((moment(5) - exact(5.0)).abs() < 0.05);
}

#[test]
fn fractional_process_with_hurst_one_half_is_the_brownian_process() {
    let fou = FractionalOrnsteinUhlenbeck::new(
        scalar(0.15),
        scalar(0.45),
        scalar(0.01),
        scalar(0.5),
        FractionalProcessGeneratorMethod::CHOLESKY,
    )
    .unwrap();
    let config = StochasticProcessConfig::new(
        scalar(10.0),
        scalar(0.0),
        scalar(0.5),
        50,
        StochasticScheme::EulerMaruyama,
        30,
        false,
        Some(11),
    )
    .unwrap();
    let draws = white_noise(30, 50, 11);
    let noise = fractional_gaussian_noise(fou.hurst, config.n_steps, &draws).unwrap();
    let fractional = fou.generate(&config, &noise).unwrap();
    let brownian = simulate_stochastic_process(&fou, &config, &draws).unwrap();
    assert_eq!(fractional.times, brownian.times);
    assert_eq!(fractional.paths, brownian.paths);
}

#[test]
fn fractional_process_has_the_moments_of_its_brownian_counterpart_at_hurst_one_half() {
    let terminal_moments = |paths: &Vec<Vec<Scalar>>| -> (f64, f64) {
        let ends: Vec<f64> = paths.iter().map(|p| float(*p.last().unwrap())).collect();
        let mean = ends.iter().sum::<f64>() / ends.len() as f64;
        let variance = ends.iter().map(|v| (v - mean) * (v - mean)).sum::<f64>() / (ends.len() as f64 - 1.0);
        (mean, variance)
    };
    let fou = FractionalOrnsteinUhlenbeck::new(
        scalar(0.15),
        scalar(0.45),
        scalar(0.01),
        scalar(0.5),
        FractionalProcessGeneratorMethod::CHOLESKY,
    )
    .unwrap();
    let config = StochasticProcessConfig::new(
        scalar(10.0),
        scalar(0.0),
        scalar(0.5),
        50,
        StochasticScheme::EulerMaruyama,
        1000,
        false,
        None,
    )
    .unwrap();
    let noise = fractional_gaussian_noise(fou.hurst, 50, &white_noise(1000, 50, 1)).unwrap();
    let fractional = fou.generate(&config, &noise).unwrap();
    let brownian = simulate_stochastic_process(&fou, &config, &white_noise(1000, 50, 5000)).unwrap();
    let (fractional_mean, fractional_variance) = terminal_moments(&fractional.paths);
    let (brownian_mean, brownian_variance) = terminal_moments(&brownian.paths);
    // both are Ornstein-Uhlenbeck: the mean stays near 10, the variance is near 0.45^2 * 0.5
    assert!((fractional_mean - brownian_mean).abs() < 0.1);
    assert!((fractional_variance - brownian_variance).abs() < 0.05);
    assert!((fractional_variance - 0.45 * 0.45 * 0.5).abs() < 0.05);
}

#[test]
fn long_rows_of_strongly_correlated_noise_can_be_made() {
    for hurst in [0.1, 0.3, 0.9, 0.95] {
        let noise = fractional_gaussian_noise(scalar(hurst), 200, &white_noise(3, 200, 5)).unwrap();
        assert_eq!(noise.len(), 3);
        assert!(noise.iter().all(|row| row.len() == 200));
        assert!(noise.iter().flatten().all(|value| float(*value).abs() < 10.0));
    }
}
