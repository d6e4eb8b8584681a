//! The objective (loss) functions and the checks on their arguments.
use vstd::prelude::*;

verus! {

/// Why an objective could not be evaluated.
#[derive(Debug, PartialEq, Eq)]
pub enum ObjectiveError {
    InvalidArgDimensions(String),
}

/// The `Debug` rendering of an objective error.
pub uninterp spec fn objective_error_debug_text(e: ObjectiveError) -> Seq<char>;

/// Renders an objective error with `format!("{:?}", ..)`. Trusted: the text
/// is the one that std's formatting machinery produces for the derived
/// `Debug` impl, a function of the error alone; what that text is, is not
/// stated.
#[verifier::external_body]
pub(crate) fn format_objective_error(e: &ObjectiveError) -> (s: String)
    ensures
        s@ == objective_error_debug_text(*e),
{
    format!("{:?}", e)
}

/// The loss a network is trained against.
///
/// `MSE` compares an output with a target of the same length; `NLL` reads the
/// target as a single class index into the output.
#[derive(Debug, Clone, Copy, PartialEq, Eq)]
pub enum Objective {
    MSE,
    NLL,
}

/// Whether the objective accepts an output of `input_len` entries and a
/// target of `target_len` entries whose first entry, read as an index, is
/// `target_index`.
pub open spec fn objective_accepts(
    objective: Objective,
    input_len: usize,
    target_len: usize,
    target_index: Option<usize>,
) -> bool {
    match objective {
        Objective::MSE => input_len == target_len,
        Objective::NLL => target_len == 1 && (target_index matches Some(k) && k < input_len),
    }
}

/// MSE accepts exactly equal lengths; NLL accepts exactly a one-entry
/// target whose class index is below the output's length.
pub proof fn lemma_objective_accepts_meaning(input_len: usize, target_len: usize, target_index: Option<usize>)
    ensures
        objective_accepts(Objective::MSE, input_len, target_len, target_index) <==> input_len == target_len,
        target_len != 1 ==> !objective_accepts(Objective::NLL, input_len, target_len, target_index),
        forall|k: usize| #[trigger] objective_accepts(Objective::NLL, input_len, 1, Some(k)) <==> k < input_len,
{
}

impl Objective {
    /// Checks the arguments of both the value and the gradient of the
    /// objective. `target_index` is the first target entry read as a class
    /// index, or `None` when the target is empty (a one-entry target always
    /// has an index).
    pub fn check_args(&self, input_len: usize, target_len: usize, target_index: Option<usize>) -> (r: Result<(), ObjectiveError>)
        ensures
            (r is Ok) <==> objective_accepts(*self, input_len, target_len, target_index),
            *self == Objective::MSE ==> ((r is Ok) <==> input_len == target_len),
            *self == Objective::NLL && target_len != 1 ==> r is Err,
            forall|k: usize| *self == Objective::NLL && target_len == 1 && target_index == Some(k)
                ==> ((r is Ok) <==> k < input_len),
            *self == Objective::MSE && input_len != target_len ==> (r matches Err(
                ObjectiveError::InvalidArgDimensions(m),
            ) && m@ == "input and target vectors must be the same length"@),
            *self == Objective::NLL && target_len != 1 ==> (r matches Err(
                ObjectiveError::InvalidArgDimensions(m),
            ) && m@ == "target must have only one element"@),
            *self == Objective::NLL && target_len == 1 && !objective_accepts(*self, input_len, target_len, target_index)
                ==> (r matches Err(ObjectiveError::InvalidArgDimensions(m))
                && m@ == "target index cannot be greater than the number of elements in input"@),
    {
        match self {
            Objective::MSE => {
                if input_len != target_len {
                    return Err(ObjectiveError::InvalidArgDimensions(
                        "input and target vectors must be the same length".to_string(),
                    ));
                }
                Ok(())
            },
            Objective::NLL => {
                if target_len != 1 {
                    return Err(ObjectiveError::InvalidArgDimensions(
                        "target must have only one element".to_string(),
                    ));
                }
                match target_index {
                    Some(index) => {
                        if index >= input_len {
                            return Err(ObjectiveError::InvalidArgDimensions(
                                "target index cannot be greater than the number of elements in input".to_string(),
                            ));
                        }
                        Ok(())
                    },
                    None => {
                        Err(ObjectiveError::InvalidArgDimensions(
                            "target index cannot be greater than the number of elements in input".to_string(),
                        ))
                    },
                }
            },
        }
    }
}

} // verus!
