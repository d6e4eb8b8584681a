# mlp

A small multilayer perceptron (dense layers, ReLU / identity activations,
MSE / NLL objectives, gradient-descent updaters) split in two crates.

- `src/` is the verified library. It holds the shape and argument decisions
  of the network: layer and network shapes and the dimension checks of the
  forward pass, the shapes of the gradient entries of the backward pass and
  of the caches that updaters and the training loop keep, the argument
  checks of the objectives and of data sets, the batch-size checks and
  batch layout of a training epoch, and the generation and windowing of the
  synthetic symbol sequences. Each public function carries a contract; the
  proof functions `lemma_chained_forward`,
  `lemma_gradients_shaped_like_parameters`, `lemma_epoch_partition` and
  `lemma_window_encoding_injective` state the laws that span functions.
- `app/` is the program. It holds the `ndarray`-based `f32` arithmetic
  (activations, forward and backward passes, losses, updaters, training
  loop) and consults the library for every shape and argument decision.
- `tests/` exercises the library.
