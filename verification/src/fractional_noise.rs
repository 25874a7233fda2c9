//! Fractional Gaussian noise by the Cholesky method.
//!
//! Fractional Gaussian noise with Hurst exponent `H` is a stationary Gaussian
//! sequence of unit variance whose covariance at lag `k` is
//! `((k + 1)^2H - 2 k^2H + |k - 1|^2H) / 2`. The Cholesky method factors the
//! covariance matrix of `n` consecutive values into `L * transpose(L)` with
//! `L` lower triangular, and turns `n` independent unit-variance draws `z`
//! into the correlated sequence `L * z`.

use vstd::prelude::*;
use crate::process::{SimulationError, rows};
use crate::scalar::{
    Scalar, HALF, SCALE, add_opt, div_opt, is_floor_sqrt, lemma_floor_sqrt_unique, lemma_one_times, lemma_pow_half,
    lemma_sqrt_exists, opt_add, opt_div, opt_mul, opt_sub, sub_opt,
};

verus! {

/// Largest lag whose power the covariance can hold: the square of any larger
/// number has no scalar.
pub const MAX_LAG: usize = 96_038;

/// Whether `hurst` is a Hurst exponent: a number in `[0, 1]`.
pub open spec fn hurst_in_range(hurst: Scalar) -> bool {
    0 <= hurst@ <= SCALE
}

/// Checks that `hurst` lies in `[0, 1]`.
pub fn check_hurst(hurst: Scalar) -> (ok: bool)
    ensures
        ok == hurst_in_range(hurst),
{
    0 <= hurst.raw && hurst.raw <= SCALE
}

/// `k` to the power `2 * hurst`, taken as the power `hurst` of `k * k`; zero
/// for `k = 0` whatever the exponent.
pub open spec fn lag_power_spec(hurst: Scalar, k: int) -> Option<Scalar> {
    if k == 0 {
        Some(Scalar { raw: 0 })
    } else {
        match Scalar::from_int_spec(k * k) {
            Some(square) => square.pow_spec(hurst),
            None => None,
        }
    }
}

/// The covariance of fractional Gaussian noise at lag `k >= 0`:
/// `half((k + 1)^2H - k^2H - k^2H + |k - 1|^2H)`.
pub open spec fn autocovariance_spec(hurst: Scalar, k: int) -> Option<Scalar> {
    let below = if k == 0 {
        1
    } else {
        k - 1
    };
    match opt_add(
        opt_sub(opt_sub(lag_power_spec(hurst, k + 1), lag_power_spec(hurst, k)), lag_power_spec(hurst, k)),
        lag_power_spec(hurst, below),
    ) {
        Some(sum) => Some(sum.half_spec()),
        None => None,
    }
}

/// The covariances at the lags `0, 1, .., n - 1`, if each of them has a
/// value.
pub open spec fn autocovariances_spec(hurst: Scalar, n: nat) -> Option<Seq<Scalar>> {
    if forall|k: int| 0 <= k < n ==> (#[trigger] autocovariance_spec(hurst, k)) is Some {
        Some(Seq::new(n, |k: int| autocovariance_spec(hurst, k)->0))
    } else {
        None
    }
}

/// `k` to the power `2 * hurst`.
pub fn lag_power(hurst: Scalar, k: usize) -> (r: Option<Scalar>)
    ensures
        r == lag_power_spec(hurst, k as int),
{
    if k == 0 {
        return Some(Scalar::zero());
    }
    if k > MAX_LAG {
        assert(k * k * SCALE > i64::MAX) by (nonlinear_arith)
            requires
                k > 96_038,
                SCALE == 1_000_000_000,
        ;
        return None;
    }
    let base: i64 = k as i64;
    assert(base * base <= 96_038 * 96_038) by (nonlinear_arith)
        requires
            0 <= base <= 96_038,
    ;
    match Scalar::from_int(base * base) {
        Some(square) => square.checked_pow(hurst),
        None => None,
    }
}

/// The covariance of fractional Gaussian noise at lag `k`.
pub fn autocovariance(hurst: Scalar, k: usize) -> (r: Option<Scalar>)
    ensures
        r == autocovariance_spec(hurst, k as int),
{
    if k >= MAX_LAG {
        assert((k + 1) * (k + 1) * SCALE > i64::MAX) by (nonlinear_arith)
            requires
                k >= 96_038,
                SCALE == 1_000_000_000,
        ;
        return None;
    }
    let below: usize = if k == 0 {
        1
    } else {
        k - 1
    };
    let up = lag_power(hurst, k + 1);
    let mid = lag_power(hurst, k);
    let down = lag_power(hurst, below);
    match add_opt(sub_opt(sub_opt(up, mid), mid), down) {
        Some(sum) => Some(sum.half()),
        None => None,
    }
}

/// The covariances at the lags `0, 1, .., n - 1`.
pub fn autocovariances(hurst: Scalar, n: usize) -> (r: Option<Vec<Scalar>>)
    ensures
        match r {
            Some(gamma) => autocovariances_spec(hurst, n as nat) == Some(gamma@),
            None => autocovariances_spec(hurst, n as nat) is None,
        },
{
    let mut gamma: Vec<Scalar> = Vec::new();
    let mut k: usize = 0;
    while k < n
        invariant
            0 <= k <= n,
            gamma@.len() == k,
            forall|j: int| 0 <= j < k ==> #[trigger] autocovariance_spec(hurst, j) == Some(gamma@[j]),
        decreases n - k,
    {
        match autocovariance(hurst, k) {
            Some(value) => {
                gamma.push(value);
            },
            None => {
                return None;
            },
        }
        k += 1;
    }
    assert(gamma@ =~= autocovariances_spec(hurst, n as nat)->0);
    Some(gamma)
}

/// The sum of the products `a[k] * b[k]` over `k < m`, added up from the
/// first.
pub open spec fn dot_spec(a: Seq<Scalar>, b: Seq<Scalar>, m: nat) -> Option<Scalar>
    decreases m,
{
    if m == 0 {
        Some(Scalar { raw: 0 })
    } else {
        opt_add(dot_spec(a, b, (m - 1) as nat), a[m - 1].mul_spec(b[m - 1]))
    }
}

/// The sum of the products of the first `m` entries of `a` and `b`; `None`
/// when one of them holds fewer than `m` entries or the sum cannot be
/// represented.
pub fn dot(a: &Vec<Scalar>, b: &Vec<Scalar>, m: usize) -> (r: Option<Scalar>)
    ensures
        r == if m <= a@.len() && m <= b@.len() {
            dot_spec(a@, b@, m as nat)
        } else {
            None
        },
{
    if m > a.len() || m > b.len() {
        return None;
    }
    let mut sum: Option<Scalar> = Some(Scalar::zero());
    let mut k: usize = 0;
    while k < m
        invariant
            0 <= k <= m,
            m <= a@.len(),
            m <= b@.len(),
            sum == dot_spec(a@, b@, k as nat),
        decreases m - k,
    {
        sum = add_opt(sum, a[k].checked_mul(b[k]));
        k += 1;
    }
    sum
}

/// The sum over `k < m` of the products of the entries `(i, k)` and `(j, k)`
/// of the Cholesky factor, for `m <= j <= i`.
pub open spec fn factor_dot_spec(gamma: Seq<Scalar>, i: nat, j: nat, m: nat) -> Option<Scalar>
    decreases i, j, m,
{
    if m == 0 || m > j || j > i {
        Some(Scalar { raw: 0 })
    } else {
        opt_add(
            factor_dot_spec(gamma, i, j, (m - 1) as nat),
            opt_mul(factor_entry_spec(gamma, i, (m - 1) as nat), factor_entry_spec(gamma, j, (m - 1) as nat)),
        )
    }
}

/// Entry `(i, j)`, with `j <= i`, of the lower triangular Cholesky factor `L`
/// of the matrix whose entry `(i, j)` is `gamma[|i - j|]`.
///
/// On the diagonal `L[i][i] = sqrt(gamma[0] - sum of L[i][k]^2 over k < i)`;
/// below it `L[i][j] = (gamma[i - j] - sum of L[i][k] * L[j][k] over k < j)
/// / L[j][j]`. There is no entry where the root of a negative number or a
/// division by zero would be needed, or where a value cannot be represented.
pub open spec fn factor_entry_spec(gamma: Seq<Scalar>, i: nat, j: nat) -> Option<Scalar>
    decreases i, j, j + 1,
{
    if j > i || i >= gamma.len() {
        None
    } else {
        let rest = opt_sub(Some(gamma[i - j]), factor_dot_spec(gamma, i, j, j));
        if i == j {
            match rest {
                Some(square) => square.sqrt_spec(),
                None => None,
            }
        } else {
            opt_div(rest, factor_entry_spec(gamma, j, j))
        }
    }
}

/// Whether every entry of the factor exists.
pub open spec fn has_factor(gamma: Seq<Scalar>) -> bool {
    forall|i: nat, j: nat| j <= i < gamma.len() ==> (#[trigger] factor_entry_spec(gamma, i, j)) is Some
}

/// The Cholesky factor as its rows: row `i` holds the entries `(i, 0)` to
/// `(i, i)`.
pub open spec fn factor_spec(gamma: Seq<Scalar>) -> Option<Seq<Seq<Scalar>>> {
    if has_factor(gamma) {
        Some(
            Seq::new(
                gamma.len(),
                |i: int| Seq::new((i + 1) as nat, |j: int| factor_entry_spec(gamma, i as nat, j as nat)->0),
            ),
        )
    } else {
        None
    }
}

/// Where the entries `(i, k)` and `(j, k)` of the factor are the entries of
/// `a` and `b` for all `k < m`, the factor's partial sum is their dot
/// product.
pub proof fn lemma_factor_dot(gamma: Seq<Scalar>, i: nat, j: nat, m: nat, a: Seq<Scalar>, b: Seq<Scalar>)
    requires
        m <= j <= i,
        forall|k: nat| k < m ==> #[trigger] factor_entry_spec(gamma, i, k) == Some(a[k as int]),
        forall|k: nat| k < m ==> #[trigger] factor_entry_spec(gamma, j, k) == Some(b[k as int]),
    ensures
        factor_dot_spec(gamma, i, j, m) == dot_spec(a, b, m),
    decreases m,
{
    if m > 0 {
        lemma_factor_dot(gamma, i, j, (m - 1) as nat, a, b);
        assert(factor_entry_spec(gamma, i, (m - 1) as nat) == Some(a[m - 1]));
        assert(factor_entry_spec(gamma, j, (m - 1) as nat) == Some(b[m - 1]));
    }
}

/// Factors the matrix whose entry `(i, j)` is `gamma[|i - j|]`.
pub fn cholesky_factor(gamma: &Vec<Scalar>) -> (r: Option<Vec<Vec<Scalar>>>)
    ensures
        match r {
            Some(factor) => factor_spec(gamma@) == Some(rows(factor@)),
            None => factor_spec(gamma@) is None,
        },
{
    let n: usize = gamma.len();
    let mut factor: Vec<Vec<Scalar>> = Vec::new();
    let mut i: usize = 0;
    while i < n
        invariant
            0 <= i <= n,
            n == gamma@.len(),
            factor@.len() == i,
            forall|a: int| 0 <= a < i ==> (#[trigger] factor@[a])@.len() == a + 1,
            forall|a: nat, b: nat|
                b <= a < i ==> #[trigger] factor_entry_spec(gamma@, a, b) == Some(factor@[a as int]@[b as int]),
        decreases n - i,
    {
        let mut row: Vec<Scalar> = Vec::new();
        let mut j: usize = 0;
        while j <= i
            invariant
                0 <= j <= i + 1,
                i < n,
                n == gamma@.len(),
                factor@.len() == i,
                forall|a: int| 0 <= a < i ==> (#[trigger] factor@[a])@.len() == a + 1,
                forall|a: nat, b: nat|
                    b <= a < i ==> #[trigger] factor_entry_spec(gamma@, a, b) == Some(factor@[a as int]@[b as int]),
                row@.len() == j,
                forall|b: nat| b < j ==> #[trigger] factor_entry_spec(gamma@, i as nat, b) == Some(row@[b as int]),
            decreases i + 1 - j,
        {
            let entry = if j == i {
                let sum = dot(&row, &row, j);
                proof {
                    lemma_factor_dot(gamma@, i as nat, j as nat, j as nat, row@, row@);
                }
                match sub_opt(Some(gamma[0]), sum) {
                    Some(square) => square.checked_sqrt(),
                    None => None,
                }
            } else {
                let sum = dot(&row, &factor[j], j);
                proof {
                    lemma_factor_dot(gamma@, i as nat, j as nat, j as nat, row@, factor@[j as int]@);
                    assert(factor_entry_spec(gamma@, j as nat, j as nat) == Some(factor@[j as int]@[j as int]));
                }
                div_opt(sub_opt(Some(gamma[i - j]), sum), Some(factor[j][j]))
            };
            assert(entry == factor_entry_spec(gamma@, i as nat, j as nat));
            match entry {
                Some(value) => {
                    row.push(value);
                },
                None => {
                    return None;
                },
            }
            j += 1;
        }
        factor.push(row);
        i += 1;
    }
    proof {
        assert(has_factor(gamma@));
        let target = factor_spec(gamma@)->0;
        assert(rows(factor@).len() == target.len());
        assert forall|a: int| 0 <= a < n implies #[trigger] rows(factor@)[a] == target[a] by {
            assert(factor@[a]@.len() == a + 1);
            assert forall|b: int| 0 <= b <= a implies factor@[a]@[b] == #[trigger] target[a][b] by {
                assert(factor_entry_spec(gamma@, a as nat, b as nat) == Some(factor@[a as nat as int]@[b as nat as int]));
            }
            assert(rows(factor@)[a] =~= target[a]);
        }
        assert(rows(factor@) =~= target);
    }
    Some(factor)
}

/// Whether row `i` of `factor` holds `i + 1` entries, for every row.
pub open spec fn is_lower_triangular(factor: Seq<Seq<Scalar>>) -> bool {
    forall|i: int| 0 <= i < factor.len() ==> (#[trigger] factor[i]).len() == i + 1
}

/// Entry `i` of the product of the lower triangular `factor` with `draws`:
/// the dot product of row `i` with the first `i + 1` draws.
pub open spec fn product_entry_spec(factor: Seq<Seq<Scalar>>, draws: Seq<Scalar>, i: int) -> Option<Scalar> {
    dot_spec(factor[i], draws, (i + 1) as nat)
}

/// The product of the lower triangular `factor` with `draws`. There is none
/// when the shapes do not fit or an entry cannot be represented.
pub open spec fn correlate_spec(factor: Seq<Seq<Scalar>>, draws: Seq<Scalar>) -> Option<Seq<Scalar>> {
    if factor.len() == draws.len() && is_lower_triangular(factor) && (forall|i: int|
        0 <= i < draws.len() ==> (#[trigger] product_entry_spec(factor, draws, i)) is Some) {
        Some(Seq::new(draws.len(), |i: int| product_entry_spec(factor, draws, i)->0))
    } else {
        None
    }
}

/// Multiplies the lower triangular `factor` with `draws`.
pub fn correlate(factor: &Vec<Vec<Scalar>>, draws: &Vec<Scalar>) -> (r: Option<Vec<Scalar>>)
    ensures
        match r {
            Some(noise) => correlate_spec(rows(factor@), draws@) == Some(noise@),
            None => correlate_spec(rows(factor@), draws@) is None,
        },
{
    let n: usize = draws.len();
    if factor.len() != n {
        return None;
    }
    let mut noise: Vec<Scalar> = Vec::new();
    let mut i: usize = 0;
    while i < n
        invariant
            0 <= i <= n,
            n == draws@.len(),
            n == factor@.len(),
            noise@.len() == i,
            forall|a: int| 0 <= a < i ==> (#[trigger] rows(factor@)[a]).len() == a + 1,
            forall|a: int|
                0 <= a < i ==> #[trigger] product_entry_spec(rows(factor@), draws@, a) == Some(noise@[a]),
        decreases n - i,
    {
        if factor[i].len() != i + 1 {
            assert(rows(factor@)[i as int].len() != i + 1);
            return None;
        }
        match dot(&factor[i], draws, i + 1) {
            Some(value) => {
                noise.push(value);
            },
            None => {
                assert(product_entry_spec(rows(factor@), draws@, i as int) is None);
                return None;
            },
        }
        i += 1;
    }
    assert(is_lower_triangular(rows(factor@)));
    assert(noise@ =~= correlate_spec(rows(factor@), draws@)->0);
    Some(noise)
}

/// Whether every row of `draws` holds `n_steps` draws.
pub open spec fn rows_have_length(draws: Seq<Seq<Scalar>>, n_steps: usize) -> bool {
    forall|i: int| 0 <= i < draws.len() ==> (#[trigger] draws[i]).len() == n_steps
}

/// Fractional Gaussian noise with Hurst exponent `hurst` from rows of
/// independent draws, or the reason why there is none.
///
/// The Hurst exponent is checked first, then the length of the rows. After
/// that the covariances at the lags below `n_steps` are factored, and each
/// row of draws is multiplied by the factor; a value that does not exist on
/// the way is a failure of the numerical domain.
pub open spec fn fractional_noise_spec(hurst: Scalar, n_steps: usize, draws: Seq<Seq<Scalar>>) -> Result<
    Seq<Seq<Scalar>>,
    SimulationError,
> {
    if !hurst_in_range(hurst) {
        Err(SimulationError::HurstOutOfRange)
    } else if !rows_have_length(draws, n_steps) {
        Err(SimulationError::NoiseShape)
    } else {
        match autocovariances_spec(hurst, n_steps as nat) {
            Some(gamma) => match factor_spec(gamma) {
                Some(factor) => if forall|i: int|
                    0 <= i < draws.len() ==> (#[trigger] correlate_spec(factor, draws[i])) is Some {
                    Ok(Seq::new(draws.len(), |i: int| correlate_spec(factor, draws[i])->0))
                } else {
                    Err(SimulationError::NumericalDomain)
                },
                None => Err(SimulationError::NumericalDomain),
            },
            None => Err(SimulationError::NumericalDomain),
        }
    }
}

/// What the generation of noise returned, by the views of its rows.
pub open spec fn noise_outcome(r: Result<Vec<Vec<Scalar>>, SimulationError>) -> Result<
    Seq<Seq<Scalar>>,
    SimulationError,
> {
    match r {
        Ok(noise) => Ok(rows(noise@)),
        Err(e) => Err(e),
    }
}

/// Checks that every row holds `n_steps` draws.
fn check_rows(draws: &Vec<Vec<Scalar>>, n_steps: usize) -> (ok: bool)
    ensures
        ok == rows_have_length(rows(draws@), n_steps),
{
    let mut i: usize = 0;
    while i < draws.len()
        invariant
            0 <= i <= draws@.len(),
            forall|j: int| 0 <= j < i ==> (#[trigger] rows(draws@)[j]).len() == n_steps,
        decreases draws@.len() - i,
    {
        if draws[i].len() != n_steps {
            assert(rows(draws@)[i as int].len() != n_steps);
            return false;
        }
        i += 1;
    }
    true
}

/// Turns rows of independent unit-variance draws, one row per path and one
/// draw per step, into rows of fractional Gaussian noise with Hurst exponent
/// `hurst` by the Cholesky method.
pub fn fractional_gaussian_noise(hurst: Scalar, n_steps: usize, draws: &Vec<Vec<Scalar>>) -> (r: Result<
    Vec<Vec<Scalar>>,
    SimulationError,
>)
    ensures
        noise_outcome(r) == fractional_noise_spec(hurst, n_steps, rows(draws@)),
{
    if !check_hurst(hurst) {
        return Err(SimulationError::HurstOutOfRange);
    }
    if !check_rows(draws, n_steps) {
        return Err(SimulationError::NoiseShape);
    }
    let gamma = match autocovariances(hurst, n_steps) {
        Some(gamma) => gamma,
        None => {
            return Err(SimulationError::NumericalDomain);
        },
    };
    let factor = match cholesky_factor(&gamma) {
        Some(factor) => factor,
        None => {
            return Err(SimulationError::NumericalDomain);
        },
    };
    let mut noise: Vec<Vec<Scalar>> = Vec::new();
    let mut i: usize = 0;
    while i < draws.len()
        invariant
            0 <= i <= draws@.len(),
            hurst_in_range(hurst),
            rows_have_length(rows(draws@), n_steps),
            autocovariances_spec(hurst, n_steps as nat) == Some(gamma@),
            factor_spec(gamma@) == Some(rows(factor@)),
            noise@.len() == i,
            forall|j: int|
                0 <= j < i ==> #[trigger] correlate_spec(rows(factor@), rows(draws@)[j]) == Some(noise@[j]@),
        decreases draws@.len() - i,
    {
        match correlate(&factor, &draws[i]) {
            Some(row) => {
                noise.push(row);
            },
            None => {
                assert(correlate_spec(rows(factor@), rows(draws@)[i as int]) is None);
                return Err(SimulationError::NumericalDomain);
            },
        }
        i += 1;
    }
    proof {
        let target = Seq::new(draws@.len(), |j: int| correlate_spec(rows(factor@), rows(draws@)[j])->0);
        assert forall|j: int| 0 <= j < draws@.len() implies rows(noise@)[j] == #[trigger] target[j] by {
            assert(correlate_spec(rows(factor@), rows(draws@)[j]) == Some(noise@[j]@));
        }
        assert(rows(noise@) =~= target);
    }
    Ok(noise)
}

/// The covariances of white noise: one at lag zero and zero at every other
/// lag.
pub open spec fn is_white(gamma: Seq<Scalar>) -> bool {
    forall|k: int| 0 <= k < gamma.len() ==> (#[trigger] gamma[k])@ == (if k == 0 {
        SCALE as int
    } else {
        0
    })
}

/// With a Hurst exponent of one half, `k` to the power `2 * hurst` is `k`.
pub proof fn lemma_lag_power_half(k: int)
    requires
        0 <= k <= MAX_LAG,
    ensures
        lag_power_spec(Scalar { raw: HALF }, k) is Some,
        lag_power_spec(Scalar { raw: HALF }, k)->0@ == k * SCALE,
{
    if k > 0 {
        assert(0 < k * k * SCALE <= 96_038 * 96_038 * SCALE) by (nonlinear_arith)
            requires
                0 < k <= 96_038,
                SCALE == 1_000_000_000,
        ;
        let square = Scalar::from_int_spec(k * k)->0;
        assert(square@ == k * k * SCALE);
        lemma_pow_half(square);
        lemma_sqrt_exists(square);
        assert(is_floor_sqrt(k * SCALE, square@ * SCALE)) by (nonlinear_arith)
            requires
                square@ == k * k * SCALE,
                k > 0,
                SCALE == 1_000_000_000,
        ;
        lemma_floor_sqrt_unique(k * SCALE, square.sqrt_spec()->0@, square@ * SCALE);
    }
}

/// With a Hurst exponent of one half the covariances are those of white
/// noise.
pub proof fn lemma_half_is_white(n: nat)
    requires
        n <= MAX_LAG,
    ensures
        autocovariances_spec(Scalar { raw: HALF }, n) is Some,
        autocovariances_spec(Scalar { raw: HALF }, n)->0.len() == n,
        is_white(autocovariances_spec(Scalar { raw: HALF }, n)->0),
{
    let half = Scalar { raw: HALF };
    assert forall|k: int| 0 <= k < n implies (#[trigger] autocovariance_spec(half, k)) is Some
        && autocovariance_spec(half, k)->0@ == (if k == 0 {
        SCALE as int
    } else {
        0
    }) by {
        lemma_lag_power_half(k + 1);
        lemma_lag_power_half(k);
        if k == 0 {
            lemma_lag_power_half(1);
        } else {
            lemma_lag_power_half(k - 1);
        }
        assert((k + 1) * SCALE - k * SCALE == SCALE) by (nonlinear_arith);
        assert(k * SCALE - (k - 1) * SCALE == SCALE) by (nonlinear_arith);
        assert(0 <= k * SCALE <= 96_038 * SCALE) by (nonlinear_arith)
            requires
                0 <= k <= 96_038,
                SCALE == 1_000_000_000,
        ;
    }
}

/// The Cholesky factor of the covariance of white noise is the identity: one
/// on the diagonal, zero below it, and every partial sum of products on the
/// way is zero.
pub proof fn lemma_white_factor(gamma: Seq<Scalar>, i: nat, j: nat, m: nat)
    requires
        is_white(gamma),
        m <= j <= i < gamma.len(),
    ensures
        factor_dot_spec(gamma, i, j, m) == Some(Scalar { raw: 0 }),
        m == j ==> factor_entry_spec(gamma, i, j) == Some(
            Scalar {
                raw: if i == j {
                    SCALE
                } else {
                    0
                },
            },
        ),
    decreases i, j, m,
{
    let zero = Scalar { raw: 0 };
    let one = Scalar { raw: SCALE };
    if m > 0 {
        let k = (m - 1) as nat;
        lemma_white_factor(gamma, i, j, k);
        lemma_white_factor(gamma, i, k, k);
        lemma_white_factor(gamma, j, k, k);
        assert(factor_entry_spec(gamma, i, k) == Some(zero));
        assert(factor_entry_spec(gamma, j, k) == Some(zero));
        assert(zero.mul_spec(zero) == Some(zero));
    }
    if m == j {
        if i == j {
            assert(gamma[0] == one);
            lemma_sqrt_exists(one);
            assert(is_floor_sqrt(SCALE as int, SCALE * SCALE)) by (nonlinear_arith)
                requires
                    SCALE == 1_000_000_000,
            ;
            lemma_floor_sqrt_unique(SCALE as int, one.sqrt_spec()->0@, SCALE * SCALE);
        } else {
            lemma_white_factor(gamma, j, j, j);
            assert(gamma[i - j] == zero);
            assert(zero.div_spec(one) == Some(zero));
        }
    }
}

/// Multiplying the identity factor with draws returns the draws.
pub proof fn lemma_identity_product(factor: Seq<Seq<Scalar>>, draws: Seq<Scalar>, i: int, m: nat)
    requires
        0 <= i < factor.len(),
        factor[i].len() == i + 1,
        i < draws.len(),
        forall|k: int| 0 <= k <= i ==> (#[trigger] factor[i][k])@ == (if k == i {
            SCALE as int
        } else {
            0
        }),
        m <= i + 1,
    ensures
        dot_spec(factor[i], draws, m) == Some(
            if m == i + 1 {
                draws[i]
            } else {
                Scalar { raw: 0 }
            },
        ),
    decreases m,
{
    if m > 0 {
        lemma_identity_product(factor, draws, i, (m - 1) as nat);
        let entry = factor[i][m - 1];
        let draw = draws[m - 1];
        if m == i + 1 {
            assert(entry == Scalar { raw: SCALE });
            lemma_one_times(draw);
        } else {
            assert(entry == Scalar { raw: 0 });
            assert(0 * draw@ == 0) by (nonlinear_arith);
            assert(entry.mul_spec(draw) == Some(Scalar { raw: 0 }));
        }
    }
}

/// With a Hurst exponent of one half the Cholesky method hands the draws
/// back as they came: fractional Gaussian noise is then white noise.
pub proof fn lemma_half_noise_is_white(n_steps: usize, draws: Seq<Seq<Scalar>>)
    requires
        n_steps <= MAX_LAG,
        rows_have_length(draws, n_steps),
    ensures
        fractional_noise_spec(Scalar { raw: HALF }, n_steps, draws) == Ok::<Seq<Seq<Scalar>>, SimulationError>(
            draws,
        ),
{
    let half = Scalar { raw: HALF };
    lemma_half_is_white(n_steps as nat);
    let gamma = autocovariances_spec(half, n_steps as nat)->0;
    assert forall|i: nat, j: nat| j <= i < gamma.len() implies (#[trigger] factor_entry_spec(gamma, i, j))
        == Some(
        Scalar {
            raw: if i == j {
                SCALE
            } else {
                0
            },
        },
    ) by {
        lemma_white_factor(gamma, i, j, j);
    }
    assert(has_factor(gamma));
    let factor = factor_spec(gamma)->0;
    assert(is_lower_triangular(factor));
    assert forall|a: int| 0 <= a < draws.len() implies (#[trigger] correlate_spec(factor, draws[a])) == Some(
        draws[a],
    ) by {
        let row = draws[a];
        assert forall|i: int| 0 <= i < row.len() implies (#[trigger] product_entry_spec(factor, row, i)) == Some(
            row[i],
        ) by {
            assert forall|k: int| 0 <= k <= i implies (#[trigger] factor[i][k])@ == (if k == i {
                SCALE as int
            } else {
                0
            }) by {
                assert(factor_entry_spec(gamma, i as nat, k as nat) is Some);
            }
            lemma_identity_product(factor, row, i, (i + 1) as nat);
        }
        assert(correlate_spec(factor, row)->0 =~= row);
    }
    assert(Seq::new(draws.len(), |a: int| correlate_spec(factor, draws[a])->0) =~= draws);
}

} // verus!
