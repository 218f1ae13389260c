use message_picker::binary64::ONE_BITS;
use message_picker::weight::{normalize_weights, WeightType, Weights};

/// Evaluates carried weights to their binary64 values, the way the caller
/// of `get_weights` is meant to.
fn eval_weights(w: &Weights) -> Vec<f64> {
    match w {
        Weights::Exact { bits } => bits.iter().map(|b| f64::from_bits(*b)).collect(),
        Weights::Linear { gaps, bias } => {
            let bias = f64::from_bits(*bias);
            gaps.iter().map(|g| *g as f64 + bias).collect()
        }
        Weights::Boltzmann { gaps, beta } => {
            let beta = f64::from_bits(*beta);
            gaps.iter().map(|g| (-beta * *g as f64).exp()).collect()
        }
    }
}

#[test]
fn get_weights_should_return_uniform_weights() {
    let weights = WeightType::Uniform.get_weights(&vec![2, 1, 3, 4]);
    assert_eq!(eval_weights(&weights), vec![1.0, 1.0, 1.0, 1.0]);
}

#[test]
fn get_weights_should_return_min_only_weights() {
    let weights = WeightType::MinOnly.get_weights(&vec![2, 1, 3, 4]);
    assert_eq!(eval_weights(&weights), vec![0.0, 1.0, 0.0, 0.0]);
}

#[test]
fn get_weights_should_return_min_only_weights_if_all_the_values_are_the_same() {
    let weights = WeightType::MinOnly.get_weights(&vec![0, 0, 0, 0]);
    assert_eq!(eval_weights(&weights), vec![1.0, 1.0, 1.0, 1.0]);
}

#[test]
fn get_weights_should_return_linear_weights() {
    let weights = WeightType::Linear { bias: 0.25f64.to_bits() }.get_weights(&vec![2, 1, 3, 4]);
    assert_eq!(eval_weights(&weights), vec![2.25, 3.25, 1.25, 0.25]);
}

#[test]
fn get_weights_should_return_boltzmann_weights() {
    let weights =
        WeightType::Boltzmann { beta: 0.25f64.to_bits() }.get_weights(&vec![0, 2, 1, 3, 4]);
    assert_eq!(
        eval_weights(&weights),
        vec![
            1.0,
            (-0.5_f64).exp(),
            (-0.25_f64).exp(),
            (-0.75_f64).exp(),
            (-1.0_f64).exp()
        ]
    );
}

#[test]
fn validate_should_accept_uniform_and_min_only() {
    assert!(WeightType::Uniform.validate().is_ok());
    assert!(WeightType::MinOnly.validate().is_ok());
}

#[test]
fn validate_should_reject_a_negative_bias() {
    let result = WeightType::Linear { bias: (-1.0f64).to_bits() }.validate();
    assert_eq!(result, Err("bias must be positive"));
}

#[test]
fn validate_should_reject_a_nan_bias() {
    let result = WeightType::Linear { bias: f64::NAN.to_bits() }.validate();
    assert_eq!(result, Err("bias must be positive"));
}

#[test]
fn validate_should_accept_a_zero_bias_and_an_infinite_bias() {
    assert!(WeightType::Linear { bias: 0.0f64.to_bits() }.validate().is_ok());
    assert!(WeightType::Linear { bias: (-0.0f64).to_bits() }.validate().is_ok());
    assert!(WeightType::Linear { bias: f64::INFINITY.to_bits() }.validate().is_ok());
}

#[test]
fn validate_should_reject_a_nan_beta() {
    let result = WeightType::Boltzmann { beta: f64::NAN.to_bits() }.validate();
    assert_eq!(result, Err("beta must not be NaN"));
}

#[test]
fn validate_should_accept_any_other_beta() {
    assert!(WeightType::Boltzmann { beta: 0.0f64.to_bits() }.validate().is_ok());
    assert!(WeightType::Boltzmann { beta: (-3.5f64).to_bits() }.validate().is_ok());
    assert!(WeightType::Boltzmann { beta: f64::NEG_INFINITY.to_bits() }.validate().is_ok());
}

#[test]
fn normalize_weights_should_keep_ordinary_weights_unchanged() {
    let raw: Vec<u64> = vec![2.25f64, 3.25, 1.25, 0.25].iter().map(|w| w.to_bits()).collect();
    assert_eq!(normalize_weights(&raw), raw);
}

#[test]
fn normalize_weights_should_restrict_to_the_infinite_positions() {
    let raw: Vec<u64> =
        vec![5.0, f64::INFINITY, 0.5, f64::INFINITY].iter().map(|w| w.to_bits()).collect();
    let normalized: Vec<f64> =
        normalize_weights(&raw).iter().map(|b| f64::from_bits(*b)).collect();
    assert_eq!(normalized, vec![0.0, 1.0, 0.0, 1.0]);
}

#[test]
fn normalize_weights_should_fall_back_to_uniform_if_all_weights_are_zero() {
    let raw: Vec<u64> = vec![0.0f64, -0.0, 0.0].iter().map(|w| w.to_bits()).collect();
    assert_eq!(normalize_weights(&raw), vec![ONE_BITS, ONE_BITS, ONE_BITS]);
}
