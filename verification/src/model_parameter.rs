//! Model coefficients that may vary with time.

use vstd::prelude::*;
use vstd::std_specs::convert::FromSpecImpl;
use crate::scalar::Scalar;

verus! {

/// A pure function of time, supplied by the user of a model.
///
/// `evaluate` must return the same value whenever it is asked about the same
/// time: that value is what `value_at` names. Models evaluate their
/// coefficients from several threads at once, hence the `Send + Sync` bound.
pub trait TimeFunction: Send + Sync {
    /// The value of the function at time `t`.
    spec fn value_at(&self, t: Scalar) -> Scalar;

    /// Computes the value of the function at time `t`.
    fn evaluate(&self, t: Scalar) -> (r: Scalar)
        ensures
            r == self.value_at(t),
    ;
}

/// A model coefficient: either one fixed number or a function of time.
pub enum ModelParameter {
    /// The same value at every time.
    Constant(Scalar),
    /// A value looked up from a function of time.
    Function(Box<dyn TimeFunction>),
}

impl ModelParameter {
    /// The value of the coefficient at time `t`.
    pub open spec fn at(&self, t: Scalar) -> Scalar {
        match self {
            ModelParameter::Constant(c) => *c,
            ModelParameter::Function(f) => f.value_at(t),
        }
    }

    /// Evaluates the coefficient at time `t`: a constant ignores `t`, a
    /// function is asked for its value there.
    pub fn call(&self, t: Scalar) -> (r: Scalar)
        ensures
            r == self.at(t),
    {
        match self {
            ModelParameter::Constant(c) => *c,
            ModelParameter::Function(f) => f.evaluate(t),
        }
    }
}

impl From<Scalar> for ModelParameter {
    fn from(value: Scalar) -> (r: ModelParameter) {
        ModelParameter::Constant(value)
    }
}

impl FromSpecImpl<Scalar> for ModelParameter {
    open spec fn obeys_from_spec() -> bool {
        true
    }

    open spec fn from_spec(value: Scalar) -> ModelParameter {
        ModelParameter::Constant(value)
    }
}

impl From<Box<dyn TimeFunction>> for ModelParameter {
    fn from(function: Box<dyn TimeFunction>) -> (r: ModelParameter) {
        ModelParameter::Function(function)
    }
}

impl FromSpecImpl<Box<dyn TimeFunction>> for ModelParameter {
    open spec fn obeys_from_spec() -> bool {
        true
    }

    open spec fn from_spec(function: Box<dyn TimeFunction>) -> ModelParameter {
        ModelParameter::Function(function)
    }
}

} // verus!
