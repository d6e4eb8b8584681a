use mlp::objective::{Objective, ObjectiveError};

#[test]
fn test_objective_mse_compute_valid_args() {
    // input [1, 0], target [1, 0]
    let result = Objective::MSE.check_args(2, 2, Some(1));
    assert!(result.is_ok());
}

#[test]
fn test_objective_mse_compute_invalid_args() {
    // input [1, 0, 0], target [1, 0]
    let result = Objective::MSE.check_args(3, 2, Some(1));
    assert!(result.is_err());
}

#[test]
fn test_objective_nll_compute_valid_args() {
    // input [1], target [0]
    let result = Objective::NLL.check_args(1, 1, Some(0));
    assert!(result.is_ok());
}

#[test]
fn test_objective_nll_compute_invalid_target_dim() {
    // input [1, 0], target [1, 0]
    let result = Objective::NLL.check_args(2, 2, Some(1));
    assert!(result.is_err());
}

#[test]
fn test_objective_nll_compute_invalid_target_index() {
    // input [1, 0], target [4]
    let result = Objective::NLL.check_args(2, 1, Some(4));
    assert!(result.is_err());
}

#[test]
fn test_objective_mse_gradient_valid_args() {
    let result = Objective::MSE.check_args(2, 2, Some(1));
    assert!(result.is_ok());
}

#[test]
fn test_objective_mse_gradient_invalid_args() {
    let result = Objective::MSE.check_args(3, 2, Some(1));
    assert!(result.is_err());
}

#[test]
fn objective_errors_carry_their_messages() {
    let err = |m: &str| Err(ObjectiveError::InvalidArgDimensions(m.to_string()));
    assert_eq!(
        Objective::MSE.check_args(1, 0, None),
        err("input and target vectors must be the same length")
    );
    assert_eq!(Objective::NLL.check_args(3, 0, None), err("target must have only one element"));
    assert_eq!(
        Objective::NLL.check_args(3, 1, Some(3)),
        err("target index cannot be greater than the number of elements in input")
    );
    assert_eq!(Objective::NLL.check_args(3, 1, Some(2)), Ok(()));
    assert_eq!(Objective::MSE.check_args(0, 0, None), Ok(()));
}
