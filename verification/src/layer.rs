//! Dimensions of a dense layer `z = W x + b` and the checks on them.
use vstd::prelude::*;

verus! {

/// Why a layer could not be built or applied.
#[derive(Debug, PartialEq, Eq)]
pub enum LayerError {
    InvalidArgDimensions(String),
    InvalidRand(String),
}

/// The `Debug` rendering of a layer error.
pub uninterp spec fn layer_error_debug_text(e: LayerError) -> Seq<char>;

/// Renders a layer error with `format!("{:?}", ..)`. Trusted: the text is the
/// one that std's formatting machinery produces for the derived `Debug`
/// impl, a function of the error alone; what that text is, is not stated.
#[verifier::external_body]
pub(crate) fn format_layer_error(e: &LayerError) -> (s: String)
    ensures
        s@ == layer_error_debug_text(*e),
{
    format!("{:?}", e)
}

/// The shape of a layer: its weight matrix has `rows` rows (one per output)
/// and `cols` columns (one per input); it has `rows` biases.
#[derive(Debug, Clone, Copy, PartialEq, Eq)]
pub struct LayerShape {
    pub rows: usize,
    pub cols: usize,
}

impl LayerShape {
    /// The shape of a layer built from a `weight_rows` x `weight_cols` weight
    /// matrix and `bias_len` biases; refused unless there is one bias per row.
    pub fn new(weight_rows: usize, weight_cols: usize, bias_len: usize) -> (r: Result<LayerShape, LayerError>)
        ensures
            bias_len == weight_rows ==> r == Ok::<LayerShape, LayerError>(
                (LayerShape { rows: weight_rows, cols: weight_cols }),
            ),
            bias_len != weight_rows ==> (r matches Err(LayerError::InvalidArgDimensions(m))
                && m@ == "Weight matrix rows must equal number of biases"@),
    {
        if bias_len != weight_rows {
            return Err(LayerError::InvalidArgDimensions(
                "Weight matrix rows must equal number of biases".to_string(),
            ));
        }
        Ok(LayerShape { rows: weight_rows, cols: weight_cols })
    }

    /// The length of the pre- and post-activation that the forward pass of
    /// this layer produces from an input of `input_len` entries; refused
    /// unless the input has one entry per weight column.
    pub fn forward_dims(&self, input_len: usize) -> (r: Result<usize, LayerError>)
        ensures
            input_len == self.cols ==> r == Ok::<usize, LayerError>(self.rows),
            input_len != self.cols ==> (r matches Err(LayerError::InvalidArgDimensions(m))
                && m@ == "Length of input must equal number of columns in weight matrix"@),
    {
        if input_len != self.cols {
            return Err(LayerError::InvalidArgDimensions(
                "Length of input must equal number of columns in weight matrix".to_string(),
            ));
        }
        Ok(self.rows)
    }
}

} // verus!
