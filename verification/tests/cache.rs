use mlp::cache::{backward_shapes, shapes_to_initialize, EntryShape};
use mlp::layer::LayerShape;

fn layer(rows: usize, cols: usize) -> LayerShape {
    LayerShape { rows, cols }
}

fn entry(weight_rows: usize, weight_cols: usize, bias_len: usize) -> EntryShape {
    EntryShape { weight_rows, weight_cols, bias_len }
}

#[test]
fn gradients_have_the_shapes_of_the_parameters() {
    // 2 -> 3 -> 2 -> 2, one forward cache entry per layer
    let layers = vec![layer(3, 2), layer(2, 3), layer(2, 2)];
    assert_eq!(
        backward_shapes(&layers, 3),
        vec![entry(3, 2, 3), entry(2, 3, 2), entry(2, 2, 2)]
    );
}

#[test]
fn short_caches_give_gradients_to_the_last_layers() {
    let layers = vec![layer(3, 2), layer(2, 3), layer(2, 2)];
    assert_eq!(backward_shapes(&layers, 1), vec![entry(2, 2, 2)]);
    assert_eq!(backward_shapes(&layers, 0), vec![]);
    // extra cache entries pair with nothing
    assert_eq!(backward_shapes(&layers[..1].to_vec(), 5), vec![entry(3, 2, 3)]);
}

#[test]
fn kept_caches_are_created_once_like_their_template() {
    let template = vec![entry(2, 2, 2), entry(3, 2, 3)];
    assert_eq!(shapes_to_initialize(0, Some(&template)), Some(template.clone()));
    assert_eq!(shapes_to_initialize(2, Some(&template)), None);
    assert_eq!(shapes_to_initialize(0, None), None);
    assert_eq!(shapes_to_initialize(0, Some(&vec![])), Some(vec![]));
}
