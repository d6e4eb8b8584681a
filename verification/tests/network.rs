use mlp::layer::{LayerError, LayerShape};
use mlp::network::{forward_dims, NetworkError, NetworkShape};
use mlp::objective::ObjectiveError;

fn shape(rows: usize, cols: usize) -> LayerShape {
    LayerShape::new(rows, cols, rows).unwrap()
}

#[test]
fn test_network_valid_args() {
    let layers = vec![shape(2, 2), shape(3, 2), shape(2, 3)];
    let result = NetworkShape::new(layers);
    assert!(result.is_ok());
}

#[test]
fn test_network_invalid_args() {
    let layers = vec![shape(2, 2), shape(3, 2), shape(2, 2)];
    let result = NetworkShape::new(layers);
    assert!(result.is_err());
}

#[test]
fn network_refusal_message() {
    let result = NetworkShape::new(vec![shape(4, 2), shape(1, 3)]);
    assert_eq!(
        result.err(),
        Some(NetworkError::InvalidArgDimensions(
            "The number of rows in one layer's weight matrix must equal the number of columns in the next layer's weight matrix.".to_string()
        ))
    );
}

#[test]
fn chained_network_forward_fits_first_and_last_layer() {
    // 4 -> 2 -> 4
    let network = NetworkShape::new(vec![shape(2, 4), shape(4, 2)]).unwrap();
    assert_eq!(network.forward_dims(4), Ok(4));
    assert!(network.forward_dims(2).is_err());
    assert_eq!(network.layers().len(), 2);

    // 2 -> 3 -> 2 -> 3
    let network = NetworkShape::new(vec![shape(3, 2), shape(2, 3), shape(3, 2)]).unwrap();
    assert_eq!(network.forward_dims(2), Ok(3));
    assert!(network.forward_dims(3).is_err());
}

#[test]
fn unchained_layers_fail_at_the_refusing_layer() {
    let layers = vec![shape(2, 4), shape(1, 3)];
    let err = forward_dims(&layers, 4).unwrap_err();
    let layer_err = LayerError::InvalidArgDimensions(
        "Length of input must equal number of columns in weight matrix".to_string(),
    );
    assert_eq!(err, NetworkError::BadForwardPass(format!("{:?}", layer_err)));
    assert_eq!(forward_dims(&vec![], 7), Ok(7));
}

#[test]
fn conversions_keep_the_debug_text() {
    let e = LayerError::InvalidRand("bad range".to_string());
    assert_eq!(
        NetworkError::from_layer_error(e),
        NetworkError::BadForwardPass("InvalidRand(\"bad range\")".to_string())
    );
    let e = ObjectiveError::InvalidArgDimensions("x".to_string());
    assert_eq!(
        NetworkError::from_objective_error(e),
        NetworkError::BadObjectiveGradient("InvalidArgDimensions(\"x\")".to_string())
    );
}
