use mlp::network::NetworkError;
use mlp::objective::ObjectiveError;
use mlp::trainer::{batch_starts, check_aggregation, check_batch_size, TrainerError};

#[test]
fn test_trainer_run_invalid_args_batch_too_large() {
    // two samples, batch size 3
    let result = check_batch_size(2, 3);
    assert!(result.is_err());
}

#[test]
fn test_trainer_run_invalid_args_batch_not_divisor() {
    // four samples, batch size 3
    let result = check_batch_size(4, 3);
    assert!(result.is_err());
}

#[test]
fn test_trainer_run_valid_args() {
    // four samples, batch size 2
    let result = check_batch_size(4, 2);
    assert!(result.is_ok());
    assert_eq!(batch_starts(4, 2), vec![0, 2]);
}

#[test]
fn test_trainer_aggregate_batch_invalid_args_empty_batch() {
    let result = check_aggregation(0, 1);
    assert!(result.is_err());
}

#[test]
fn test_trainer_aggregate_batch_invalid_args_uninitialized_cache() {
    let result = check_aggregation(1, 0);
    assert!(result.is_err());
}

#[test]
fn test_trainer_aggregate_batch_valid_args() {
    let result = check_aggregation(1, 1);
    assert!(result.is_ok());
}

#[test]
fn trainer_errors_carry_their_messages() {
    assert_eq!(
        check_batch_size(2, 3),
        Err(TrainerError::InvalidBatchSize(
            "Batch size cannot exceed number of samples in data set".to_string()
        ))
    );
    assert_eq!(
        check_batch_size(4, 3),
        Err(TrainerError::InvalidBatchSize(
            "Batch size must divide the number of samples in data set".to_string()
        ))
    );
    assert_eq!(
        check_aggregation(0, 0),
        Err(TrainerError::EmptyBatch("Cannot aggregate empty batch".to_string()))
    );
    assert_eq!(
        check_aggregation(2, 0),
        Err(TrainerError::UninitializedCache(
            "Aggregated gradients cache struct must be initialized".to_string()
        ))
    );
}

#[test]
fn batch_size_edges() {
    // batch size zero only fits an empty data set
    assert!(check_batch_size(0, 0).is_ok());
    assert!(check_batch_size(5, 0).is_err());
    assert!(check_batch_size(5, 5).is_ok());
    assert!(check_batch_size(5, 1).is_ok());
    assert!(check_batch_size(0, 1).is_err());
}

#[test]
fn batches_partition_an_epoch() {
    let n = 12;
    for b in 1..=n {
        if check_batch_size(n, b).is_err() {
            continue;
        }
        let starts = batch_starts(n, b);
        let mut seen = vec![0usize; n];
        for s in &starts {
            assert!(s + b <= n);
            for j in 0..b {
                seen[s + j] += 1;
            }
        }
        assert!(seen.iter().all(|&c| c == 1));
    }
    // without a fitting batch size the starts still step by the batch size
    assert_eq!(batch_starts(5, 2), vec![0, 2, 4]);
    assert_eq!(batch_starts(0, 3), Vec::<usize>::new());
    assert_eq!(batch_starts(usize::MAX, usize::MAX), vec![0]);
}

#[test]
fn trainer_conversions_keep_the_debug_text() {
    let e = NetworkError::BadForwardPass("x".to_string());
    assert_eq!(
        TrainerError::from_network_error(e),
        TrainerError::BadForwardPass("BadForwardPass(\"x\")".to_string())
    );
    let e = ObjectiveError::InvalidArgDimensions("y".to_string());
    assert_eq!(
        TrainerError::from_objective_error(e),
        TrainerError::BadObjectiveGradient("InvalidArgDimensions(\"y\")".to_string())
    );
}
