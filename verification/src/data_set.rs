//! Validation of the sample and label dimensions of a data set.
use vstd::prelude::*;

verus! {

/// Why a data set was refused, with a human readable message.
#[derive(Debug, PartialEq, Eq)]
pub enum DataError {
    EmptySamples(String),
    EmptyLabels(String),
    InvalidSizes(String),
}

pub open spec fn all_equal_to(dims: Seq<usize>, d: usize) -> bool {
    forall|i: int| 0 <= i < dims.len() ==> dims[i] == d
}

/// The dimensions describe a usable data set: at least one sample, as many
/// labels as samples, every sample of one size and every label of one size.
pub open spec fn valid_data_dims(sample_dims: Seq<usize>, label_dims: Seq<usize>) -> bool {
    &&& sample_dims.len() > 0
    &&& label_dims.len() > 0
    &&& sample_dims.len() == label_dims.len()
    &&& all_equal_to(sample_dims, sample_dims[0])
    &&& all_equal_to(label_dims, label_dims[0])
}

/// A data set's dimensions are valid exactly when there is at least one
/// sample, as many labels as samples, every sample as long as the first
/// sample, and every label as long as the first label.
pub proof fn lemma_valid_data_dims_meaning(sample_dims: Seq<usize>, label_dims: Seq<usize>)
    ensures
        valid_data_dims(sample_dims, label_dims) <==> (sample_dims.len() > 0
            && sample_dims.len() == label_dims.len()
            && (forall|i: int| 0 <= i < sample_dims.len() ==> #[trigger] sample_dims[i] == sample_dims[0])
            && (forall|j: int| 0 <= j < label_dims.len() ==> #[trigger] label_dims[j] == label_dims[0])),
{
}

/// Checks the lengths of the samples and labels of a data set, in the order
/// the data set constructor checks them: empty samples, empty labels, count
/// mismatch, ragged samples, ragged labels.
pub fn validate_data_dims(sample_dims: &Vec<usize>, label_dims: &Vec<usize>) -> (r: Result<(), DataError>)
    ensures
        sample_dims@.len() == 0 ==> (r matches Err(DataError::EmptySamples(m))
            && m@ == "Samples cannot be empty"@),
        sample_dims@.len() > 0 && label_dims@.len() == 0 ==> (r matches Err(DataError::EmptyLabels(m))
            && m@ == "Labels cannot be empty"@),
        sample_dims@.len() > 0 && label_dims@.len() > 0 && sample_dims@.len() != label_dims@.len()
            ==> (r matches Err(DataError::InvalidSizes(m))
            && m@ == "There must be an equal number of samples and labels"@),
        sample_dims@.len() > 0 && sample_dims@.len() == label_dims@.len()
            && !all_equal_to(sample_dims@, sample_dims@[0])
            ==> (r matches Err(DataError::InvalidSizes(m)) && m@ == "All samples must be the same size"@),
        sample_dims@.len() > 0 && sample_dims@.len() == label_dims@.len()
            && all_equal_to(sample_dims@, sample_dims@[0]) && !all_equal_to(label_dims@, label_dims@[0])
            ==> (r matches Err(DataError::InvalidSizes(m)) && m@ == "All labels must be of the same size"@),
        (r is Ok) <==> valid_data_dims(sample_dims@, label_dims@),
        (r is Ok) <==> (sample_dims@.len() > 0 && sample_dims@.len() == label_dims@.len()
            && (forall|i: int| 0 <= i < sample_dims@.len() ==> #[trigger] sample_dims@[i] == sample_dims@[0])
            && (forall|j: int| 0 <= j < label_dims@.len() ==> #[trigger] label_dims@[j] == label_dims@[0])),
        forall|i: int|
            0 <= i < sample_dims@.len() && sample_dims@.len() == label_dims@.len()
                && #[trigger] sample_dims@[i] != sample_dims@[0]
            ==> (r matches Err(DataError::InvalidSizes(m)) && m@ == "All samples must be the same size"@),
        forall|j: int|
            0 <= j < label_dims@.len() && sample_dims@.len() == label_dims@.len()
                && (forall|i: int| 0 <= i < sample_dims@.len() ==> #[trigger] sample_dims@[i] == sample_dims@[0])
                && #[trigger] label_dims@[j] != label_dims@[0]
            ==> (r matches Err(DataError::InvalidSizes(m)) && m@ == "All labels must be of the same size"@),
{
    if sample_dims.len() == 0 {
        return Err(DataError::EmptySamples("Samples cannot be empty".to_string()));
    }
    if label_dims.len() == 0 {
        return Err(DataError::EmptyLabels("Labels cannot be empty".to_string()));
    }
    if sample_dims.len() != label_dims.len() {
        return Err(DataError::InvalidSizes(
            "There must be an equal number of samples and labels".to_string(),
        ));
    }
    let sample_size: usize = sample_dims[0];
    let mut i: usize = 0;
    while i < sample_dims.len()
        invariant
            0 <= i <= sample_dims@.len(),
            sample_dims@.len() > 0,
            sample_dims@.len() == label_dims@.len(),
            sample_size == sample_dims@[0],
            forall|k: int| 0 <= k < i ==> sample_dims@[k] == sample_size,
        decreases sample_dims@.len() - i,
    {
        if sample_dims[i] != sample_size {
            return Err(DataError::InvalidSizes("All samples must be the same size".to_string()));
        }
        i = i + 1;
    }
    let label_size: usize = label_dims[0];
    let mut j: usize = 0;
    while j < label_dims.len()
        invariant
            0 <= j <= label_dims@.len(),
            label_dims@.len() > 0,
            sample_dims@.len() == label_dims@.len(),
            all_equal_to(sample_dims@, sample_dims@[0]),
            label_size == label_dims@[0],
            forall|k: int| 0 <= k < j ==> label_dims@[k] == label_size,
        decreases label_dims@.len() - j,
    {
        if label_dims[j] != label_size {
            return Err(DataError::InvalidSizes("All labels must be of the same size".to_string()));
        }
        j = j + 1;
    }
    Ok(())
}

} // verus!
