//! Dimensions of a network of dense layers: which layer lists form a network,
//! and which inputs a forward pass through them accepts.
use vstd::prelude::*;

use crate::layer::{format_layer_error, layer_error_debug_text, LayerError, LayerShape};
use crate::objective::{format_objective_error, objective_error_debug_text, ObjectiveError};

verus! {

/// Why a network could not be built, run or trained.
#[derive(Debug, PartialEq, Eq)]
pub enum NetworkError {
    InvalidArgDimensions(String),
    BadForwardPass(String),
    BadObjectiveGradient(String),
}

/// The `Debug` rendering of a network error.
pub uninterp spec fn network_error_debug_text(e: NetworkError) -> Seq<char>;

/// Renders a network error with `format!("{:?}", ..)`. Trusted: the text is
/// the one that std's formatting machinery produces for the derived `Debug`
/// impl, a function of the error alone; what that text is, is not stated.
#[verifier::external_body]
pub(crate) fn format_network_error(e: &NetworkError) -> (s: String)
    ensures
        s@ == network_error_debug_text(*e),
{
    format!("{:?}", e)
}

impl NetworkError {
    /// A layer that refused its input makes the forward pass fail; the
    /// layer's error is kept in its `Debug` rendering.
    pub fn from_layer_error(e: LayerError) -> (r: NetworkError)
        ensures
            r matches NetworkError::BadForwardPass(m) && m@ == layer_error_debug_text(e),
    {
        NetworkError::BadForwardPass(format_layer_error(&e))
    }

    /// An objective that refused its arguments makes the objective gradient
    /// fail; the objective's error is kept in its `Debug` rendering.
    pub fn from_objective_error(e: ObjectiveError) -> (r: NetworkError)
        ensures
            r matches NetworkError::BadObjectiveGradient(m) && m@ == objective_error_debug_text(e),
    {
        NetworkError::BadObjectiveGradient(format_objective_error(&e))
    }
}

/// Consecutive layers fit together: each layer produces as many entries as
/// the next one takes.
pub open spec fn chained(layers: Seq<LayerShape>) -> bool {
    forall|i: int| 0 <= i < layers.len() - 1 ==> #[trigger] layers[i].rows == layers[i + 1].cols
}

/// Layers chain exactly when every layer but the last has as many rows as
/// the next layer has columns, whatever the number of layers.
pub proof fn lemma_chained_meaning(layers: Seq<LayerShape>)
    ensures
        chained(layers) <==> (forall|i: int|
            0 <= i < layers.len() - 1 ==> #[trigger] layers[i].rows == layers[i + 1].cols),
{
}

/// The output length of a forward pass through `layers` from an input of
/// `input_len` entries, or `None` when some layer refuses what reaches it.
pub open spec fn propagate(layers: Seq<LayerShape>, input_len: usize) -> Option<usize>
    decreases layers.len(),
{
    if layers.len() == 0 {
        Some(input_len)
    } else if layers[0].cols == input_len {
        propagate(layers.drop_first(), layers[0].rows)
    } else {
        None
    }
}

/// A forward pass through any list of layers succeeds exactly when the input
/// fits the first layer and every layer produces what the next one takes;
/// its output then has as many entries as the last layer has rows (or is
/// the input itself when there are no layers).
pub proof fn lemma_propagate_meaning(layers: Seq<LayerShape>, input_len: usize)
    ensures
        (propagate(layers, input_len) is Some) <==> (layers.len() == 0 || (input_len == layers[0].cols
            && forall|i: int| 0 <= i < layers.len() - 1 ==> #[trigger] layers[i].rows == layers[i + 1].cols)),
        propagate(layers, input_len) matches Some(n) ==> n == (if layers.len() == 0 {
            input_len
        } else {
            layers.last().rows
        }),
    decreases layers.len(),
{
    if layers.len() > 0 && layers[0].cols == input_len {
        let rest = layers.drop_first();
        lemma_propagate_meaning(rest, layers[0].rows);
        if rest.len() > 0 {
            assert(rest.last() == layers.last());
            if propagate(rest, layers[0].rows) is Some {
                assert forall|i: int| 0 <= i < layers.len() - 1 implies #[trigger] layers[i].rows
                    == layers[i + 1].cols by {
                    if i > 0 {
                        assert(rest[i - 1].rows == rest[i].cols);
                    }
                }
            } else {
                if forall|i: int| 0 <= i < layers.len() - 1 ==> #[trigger] layers[i].rows == layers[i + 1].cols {
                    assert forall|i: int| 0 <= i < rest.len() - 1 implies #[trigger] rest[i].rows
                        == rest[i + 1].cols by {
                        assert(layers[i + 1].rows == layers[i + 2].cols);
                    }
                    assert(layers[0].rows == layers[1].cols);
                }
            }
        }
    }
}

/// The forward pass of a network walks its layers in order, each layer
/// taking what the previous one produced; it fails at the first layer whose
/// weight columns do not match, with that layer's error. On success it
/// returns the length of the network's output.
pub fn forward_dims(layers: &Vec<LayerShape>, input_len: usize) -> (r: Result<usize, NetworkError>)
    ensures
        (r is Ok) <==> propagate(layers@, input_len) is Some,
        r matches Ok(n) ==> propagate(layers@, input_len) == Some(n),
        (r is Ok) <==> (layers@.len() == 0 || (input_len == layers@[0].cols && forall|i: int|
            0 <= i < layers@.len() - 1 ==> #[trigger] layers@[i].rows == layers@[i + 1].cols)),
        r matches Ok(n) ==> n == (if layers@.len() == 0 {
            input_len
        } else {
            layers@.last().rows
        }),
        r matches Err(e) ==> exists|le: LayerError|
            #![trigger layer_error_debug_text(le)]
            (le matches LayerError::InvalidArgDimensions(lm)
                && lm@ == "Length of input must equal number of columns in weight matrix"@)
            && (e matches NetworkError::BadForwardPass(m) && m@ == layer_error_debug_text(le)),
{
    let mut len: usize = input_len;
    let mut i: usize = 0;
    assert(layers@.skip(0) =~= layers@);
    while i < layers.len()
        invariant
            0 <= i <= layers@.len(),
            propagate(layers@, input_len) == propagate(layers@.skip(i as int), len),
        decreases layers@.len() - i,
    {
        assert(layers@.skip(i as int).drop_first() =~= layers@.skip(i + 1));
        match layers[i].forward_dims(len) {
            Ok(next) => {
                len = next;
            },
            Err(e) => {
                proof {
                    lemma_propagate_meaning(layers@, input_len);
                }
                return Err(NetworkError::from_layer_error(e));
            },
        }
        i = i + 1;
    }
    assert(layers@.skip(i as int).len() == 0);
    proof {
        lemma_propagate_meaning(layers@, input_len);
    }
    Ok(len)
}

/// The shapes of the layers of a network, kept only when they chain.
pub struct NetworkShape {
    layers: Vec<LayerShape>,
}

impl View for NetworkShape {
    type V = Seq<LayerShape>;

    closed spec fn view(&self) -> Seq<LayerShape> {
        self.layers@
    }
}

impl NetworkShape {
    #[verifier::type_invariant]
    closed spec fn well_formed(self) -> bool {
        self.layers@.len() > 0 && chained(self.layers@)
    }

    /// Builds a network from its layers; refused unless consecutive layers
    /// chain. The list must not be empty: there is no first layer to take
    /// the network's input.
    pub fn new(layers: Vec<LayerShape>) -> (r: Result<NetworkShape, NetworkError>)
        requires
            layers@.len() > 0,
        ensures
            (r is Ok) <==> chained(layers@),
            (r is Ok) <==> (forall|i: int|
                0 <= i < layers@.len() - 1 ==> #[trigger] layers@[i].rows == layers@[i + 1].cols),
            r matches Ok(n) ==> n@ == layers@ && n@.len() > 0 && chained(n@),
            r matches Err(e) ==> (e matches NetworkError::InvalidArgDimensions(m)
                && m@ == "The number of rows in one layer's weight matrix must equal the number of columns in the next layer's weight matrix."@),
    {
        let mut i: usize = 0;
        while i < layers.len() - 1
            invariant
                layers@.len() > 0,
                0 <= i <= layers@.len() - 1,
                forall|k: int| 0 <= k < i ==> #[trigger] layers@[k].rows == layers@[k + 1].cols,
            decreases layers@.len() - 1 - i,
        {
            if layers[i].rows != layers[i + 1].cols {
                return Err(NetworkError::InvalidArgDimensions(
                    "The number of rows in one layer's weight matrix must equal the number of columns in the next layer's weight matrix.".to_string(),
                ));
            }
            i = i + 1;
        }
        Ok(NetworkShape { layers })
    }

    /// The layers of the network, in order.
    pub fn layers(&self) -> (r: &Vec<LayerShape>)
        ensures
            r@ == self@,
    {
        &self.layers
    }

    /// The forward pass through a well-formed network: it succeeds exactly
    /// when the input has as many entries as the first layer has columns,
    /// and then produces as many entries as the last layer has rows; a
    /// refused input fails with the first layer's error.
    pub fn forward_dims(&self, input_len: usize) -> (r: Result<usize, NetworkError>)
        ensures
            self@.len() > 0,
            (r is Ok) <==> input_len == self@[0].cols,
            r matches Ok(n) ==> n == self@.last().rows,
            r matches Err(e) ==> exists|le: LayerError|
                #![trigger layer_error_debug_text(le)]
                (le matches LayerError::InvalidArgDimensions(lm)
                    && lm@ == "Length of input must equal number of columns in weight matrix"@)
                && (e matches NetworkError::BadForwardPass(m) && m@ == layer_error_debug_text(le)),
    {
        proof {
            use_type_invariant(self);
            lemma_chained_forward(self@, input_len);
        }
        forward_dims(&self.layers, input_len)
    }
}

/// In a network whose consecutive layers chain, the forward pass succeeds
/// exactly when the input fits the first layer, and the output then has as
/// many entries as the last layer has rows.
pub proof fn lemma_chained_forward(layers: Seq<LayerShape>, input_len: usize)
    requires
        layers.len() > 0,
        chained(layers),
    ensures
        propagate(layers, input_len) == (if input_len == layers[0].cols {
            Some(layers.last().rows)
        } else {
            None::<usize>
        }),
    decreases layers.len(),
{
    if layers.len() > 1 && layers[0].cols == input_len {
        let rest = layers.drop_first();
        assert forall|i: int| 0 <= i < rest.len() - 1 implies #[trigger] rest[i].rows == rest[i + 1].cols by {
            assert(layers[i + 1].rows == layers[i + 2].cols);
        }
        assert(layers[0].rows == layers[1].cols);
        lemma_chained_forward(rest, layers[0].rows);
        assert(rest.last() == layers.last());
    } else if layers.len() == 1 && layers[0].cols == input_len {
        assert(layers.drop_first().len() == 0);
        assert(propagate(layers.drop_first(), layers[0].rows) == Some(layers[0].rows));
    }
}

} // verus!
