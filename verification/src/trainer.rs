//! Training-loop decisions: which batch sizes a data set admits, how each
//! epoch is cut into batches, and when a batch can be averaged.
use vstd::prelude::*;

use crate::network::{format_network_error, network_error_debug_text, NetworkError};
use crate::objective::{format_objective_error, objective_error_debug_text, ObjectiveError};

verus! {

/// Why a training run, or one of its steps, was refused.
#[derive(Debug, PartialEq, Eq)]
pub enum TrainerError {
    BadForwardPass(String),
    BadObjectiveGradient(String),
    EmptyBatch(String),
    InvalidBatchSize(String),
    UninitializedCache(String),
    EmptyDataSet(String),
}

impl TrainerError {
    /// A failing network step fails the run; the network's error is kept in
    /// its `Debug` rendering.
    pub fn from_network_error(e: NetworkError) -> (r: TrainerError)
        ensures
            r matches TrainerError::BadForwardPass(m) && m@ == network_error_debug_text(e),
    {
        TrainerError::BadForwardPass(format_network_error(&e))
    }

    /// A refused objective fails the run; the objective's error is kept in
    /// its `Debug` rendering.
    pub fn from_objective_error(e: ObjectiveError) -> (r: TrainerError)
        ensures
            r matches TrainerError::BadObjectiveGradient(m) && m@ == objective_error_debug_text(e),
    {
        TrainerError::BadObjectiveGradient(format_objective_error(&e))
    }
}

/// A data set of `num_samples` samples can be trained in batches of
/// `batch_size`: a batch is no larger than the data set and the batches
/// cover it exactly.
pub open spec fn batch_size_fits(num_samples: usize, batch_size: usize) -> bool {
    &&& batch_size <= num_samples
    &&& if batch_size == 0 { num_samples == 0 } else { num_samples % batch_size == 0 }
}

/// A positive batch size fits exactly when it is at most the number of
/// samples and divides it; a zero batch size fits only an empty data set.
pub proof fn lemma_batch_size_fits_meaning(num_samples: usize, batch_size: usize)
    ensures
        batch_size > 0 ==> (batch_size_fits(num_samples, batch_size) <==> (batch_size <= num_samples
            && num_samples % batch_size == 0)),
        batch_size == 0 ==> (batch_size_fits(num_samples, batch_size) <==> num_samples == 0),
{
}

/// Checks a batch size against the number of samples, as a training run does
/// before its first epoch.
pub fn check_batch_size(num_samples: usize, batch_size: usize) -> (r: Result<(), TrainerError>)
    ensures
        (r is Ok) <==> batch_size_fits(num_samples, batch_size),
        batch_size > 0 ==> ((r is Ok) <==> (batch_size <= num_samples && num_samples % batch_size == 0)),
        batch_size == 0 ==> ((r is Ok) <==> num_samples == 0),
        num_samples < batch_size ==> (r matches Err(TrainerError::InvalidBatchSize(m))
            && m@ == "Batch size cannot exceed number of samples in data set"@),
        batch_size <= num_samples && !batch_size_fits(num_samples, batch_size) ==> (r matches Err(
            TrainerError::InvalidBatchSize(m),
        ) && m@ == "Batch size must divide the number of samples in data set"@),
{
    if num_samples < batch_size {
        return Err(TrainerError::InvalidBatchSize(
            "Batch size cannot exceed number of samples in data set".to_string(),
        ));
    }
    let divides: bool = if batch_size == 0 {
        num_samples == 0
    } else {
        num_samples % batch_size == 0
    };
    if !divides {
        return Err(TrainerError::InvalidBatchSize(
            "Batch size must divide the number of samples in data set".to_string(),
        ));
    }
    Ok(())
}

/// The index of the first sample of each batch of an epoch, in order:
/// `0, b, 2b, ...`, every multiple of the batch size below the number of
/// samples.
pub fn batch_starts(num_samples: usize, batch_size: usize) -> (r: Vec<usize>)
    requires
        batch_size > 0,
    ensures
        forall|k: int| 0 <= k < r@.len() ==> #[trigger] r@[k] == k * batch_size,
        forall|k: int| 0 <= k ==> (k < r@.len() <==> #[trigger] (k * batch_size) < num_samples),
{
    let mut r: Vec<usize> = Vec::new();
    let mut start: usize = 0;
    assert(r@.len() * batch_size == 0) by (nonlinear_arith)
        requires
            r@.len() == 0,
    ;
    while start < num_samples
        invariant_except_break
            batch_size > 0,
            start == r@.len() * batch_size,
            forall|k: int| 0 <= k < r@.len() ==> #[trigger] r@[k] == k * batch_size,
            forall|k: int| 0 <= k < r@.len() ==> #[trigger] (k * batch_size) < num_samples,
        ensures
            forall|k: int| 0 <= k < r@.len() ==> #[trigger] r@[k] == k * batch_size,
            forall|k: int| 0 <= k < r@.len() ==> #[trigger] (k * batch_size) < num_samples,
            r@.len() * batch_size >= num_samples,
        decreases num_samples - start,
    {
        let ghost old_len = r@.len();
        r.push(start);
        assert(r@[old_len as int] == old_len * batch_size);
        assert((r@.len() as int) * batch_size == start + batch_size) by (nonlinear_arith)
            requires
                r@.len() == old_len + 1,
                start == old_len * batch_size,
        ;
        if num_samples - start <= batch_size {
            break;
        }
        start = start + batch_size;
    }
    assert forall|k: int| 0 <= k implies (k < r@.len() <==> #[trigger] (k * batch_size) < num_samples) by {
        if k >= r@.len() {
            assert(k * batch_size >= r@.len() * batch_size) by (nonlinear_arith)
                requires
                    k >= r@.len(),
                    batch_size > 0,
            ;
        }
    }
    r
}

/// Every epoch visits each sample exactly once: when the batch size fits the
/// data set, each batch `[k * b, k * b + b)` that starts inside the data set
/// also ends inside it, and each sample index lies in exactly one batch.
pub proof fn lemma_epoch_partition(num_samples: usize, batch_size: usize, index: usize)
    requires
        batch_size_fits(num_samples, batch_size),
        batch_size > 0,
        index < num_samples,
    ensures
        forall|k: int| 0 <= k && #[trigger] (k * batch_size) < num_samples
            ==> k * batch_size + batch_size <= num_samples,
        (index / batch_size) * batch_size <= index < (index / batch_size) * batch_size + batch_size,
        forall|k: int| 0 <= k && #[trigger] (k * batch_size) <= index < k * batch_size + batch_size
            ==> k == index / batch_size,
{
    let n: int = num_samples as int;
    let b: int = batch_size as int;
    let q: int = n / b;
    assert(n == q * b) by (nonlinear_arith)
        requires
            b > 0,
            n % b == 0,
            q == n / b,
    ;
    assert forall|k: int| 0 <= k && #[trigger] (k * batch_size) < num_samples
        implies k * batch_size + batch_size <= num_samples by {
        assert(k * b + b <= n) by (nonlinear_arith)
            requires
                b > 0,
                k >= 0,
                k * b < n,
                n == q * b,
        ;
    }
    let i: int = index as int;
    let p: int = i / b;
    assert(p * b <= i < p * b + b) by (nonlinear_arith)
        requires
            b > 0,
            i >= 0,
            p == i / b,
    ;
    assert forall|k: int| 0 <= k && #[trigger] (k * batch_size) <= index < k * batch_size + batch_size
        implies k == index / batch_size by {
        assert(k == p) by (nonlinear_arith)
            requires
                b > 0,
                k * b <= i < k * b + b,
                p * b <= i < p * b + b,
        ;
    }
}

/// Checks that a batch can be averaged into the aggregation cache: the batch
/// holds at least one back propagation and the cache has been shaped.
pub fn check_aggregation(batch_len: usize, num_cache_entries: usize) -> (r: Result<(), TrainerError>)
    ensures
        (r is Ok) <==> (batch_len > 0 && num_cache_entries > 0),
        batch_len == 0 ==> (r matches Err(TrainerError::EmptyBatch(m))
            && m@ == "Cannot aggregate empty batch"@),
        batch_len > 0 && num_cache_entries == 0 ==> (r matches Err(TrainerError::UninitializedCache(m))
            && m@ == "Aggregated gradients cache struct must be initialized"@),
{
    if batch_len == 0 {
        return Err(TrainerError::EmptyBatch("Cannot aggregate empty batch".to_string()));
    }
    if num_cache_entries == 0 {
        return Err(TrainerError::UninitializedCache(
            "Aggregated gradients cache struct must be initialized".to_string(),
        ));
    }
    Ok(())
}

} // verus!
