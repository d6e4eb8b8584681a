//! Shapes of the gradient caches that back propagation fills and that the
//! updaters and the training loop keep between steps.
use vstd::prelude::*;

use crate::layer::LayerShape;

verus! {

/// The shape of one gradient entry: a `weight_rows` x `weight_cols` weight
/// gradient and a bias gradient of `bias_len` entries.
#[derive(Debug, Clone, Copy, PartialEq, Eq)]
pub struct EntryShape {
    pub weight_rows: usize,
    pub weight_cols: usize,
    pub bias_len: usize,
}

/// The shape of a layer's parameters: its weight matrix and its biases.
pub open spec fn parameter_shape(layer: LayerShape) -> EntryShape {
    EntryShape { weight_rows: layer.rows, weight_cols: layer.cols, bias_len: layer.rows }
}

/// The gradient entries that back propagation produces from `num_entries`
/// forward cache entries: it pairs the layers with the cache entries from
/// the back, so the last `min(layers, entries)` layers each get one entry,
/// in layer order, shaped like that layer's parameters.
pub open spec fn backward_entry_shapes(layers: Seq<LayerShape>, num_entries: nat) -> Seq<EntryShape> {
    let k = if num_entries < layers.len() { num_entries } else { layers.len() };
    Seq::new(k, |j: int| parameter_shape(layers[layers.len() - k + j]))
}

/// The shapes of the gradient entries that a backward pass over `layers`
/// produces from a forward cache of `num_entries` entries.
pub fn backward_shapes(layers: &Vec<LayerShape>, num_entries: usize) -> (r: Vec<EntryShape>)
    ensures
        r@ == backward_entry_shapes(layers@, num_entries as nat),
        r@.len() == (if num_entries < layers@.len() { num_entries as int } else { layers@.len() as int }),
        forall|k: int| 0 <= k < r@.len() ==> (#[trigger] r@[k]) == (EntryShape {
            weight_rows: layers@[layers@.len() - r@.len() + k].rows,
            weight_cols: layers@[layers@.len() - r@.len() + k].cols,
            bias_len: layers@[layers@.len() - r@.len() + k].rows,
        }),
{
    let k: usize = if num_entries < layers.len() {
        num_entries
    } else {
        layers.len()
    };
    let first: usize = layers.len() - k;
    let mut r: Vec<EntryShape> = Vec::new();
    let mut j: usize = 0;
    while j < k
        invariant
            first + k == layers.len(),
            0 <= j <= k,
            r@.len() == j,
            forall|i: int| 0 <= i < j ==> #[trigger] r@[i] == parameter_shape(layers@[first + i]),
        decreases k - j,
    {
        let layer = layers[first + j];
        r.push(EntryShape { weight_rows: layer.rows, weight_cols: layer.cols, bias_len: layer.rows });
        j = j + 1;
    }
    assert(r@ =~= backward_entry_shapes(layers@, num_entries as nat));
    r
}

/// Back propagation through the cache of a forward pass, which holds one
/// entry per layer, yields one gradient entry per layer, in layer order, each
/// shaped like that layer's weights and biases.
pub proof fn lemma_gradients_shaped_like_parameters(layers: Seq<LayerShape>, num_entries: nat)
    requires
        num_entries == layers.len(),
    ensures
        backward_entry_shapes(layers, num_entries).len() == layers.len(),
        forall|i: int| 0 <= i < layers.len()
            ==> #[trigger] backward_entry_shapes(layers, num_entries)[i] == parameter_shape(layers[i]),
        forall|i: int| 0 <= i < layers.len() ==> (#[trigger] backward_entry_shapes(layers, num_entries)[i])
            == (EntryShape { weight_rows: layers[i].rows, weight_cols: layers[i].cols, bias_len: layers[i].rows }),
{
}

/// Whether a kept cache (an update vector, or the aggregation of a batch)
/// must be created now, and with which entry shapes: only when it has no
/// entries yet and there is a cache to copy the shapes from. The new cache
/// is then shaped entry for entry like `template`.
pub fn shapes_to_initialize(existing_len: usize, template: Option<&Vec<EntryShape>>) -> (r: Option<Vec<EntryShape>>)
    ensures
        (r is Some) <==> (existing_len == 0 && template is Some),
        r matches Some(s) ==> s@ == template.unwrap()@,
{
    if existing_len != 0 {
        return None;
    }
    match template {
        None => None,
        Some(t) => {
            let mut s: Vec<EntryShape> = Vec::new();
            let mut j: usize = 0;
            while j < t.len()
                invariant
                    0 <= j <= t@.len(),
                    s@ =~= t@.subrange(0, j as int),
                decreases t@.len() - j,
            {
                s.push(t[j]);
                j = j + 1;
            }
            assert(s@ =~= t@);
            Some(s)
        },
    }
}

} // verus!
