use hello_nn::model::{Layer, NeuralNetworkModel, ToLayerCache};

/// `z = scale * a + shift` on whole numbers.
#[derive(Debug, Clone, PartialEq)]
struct Affine {
    scale: i64,
    shift: i64,
}

impl Layer for Affine {
    type Mat = i64;
    type Rate = i64;

    fn forward_spec(&self, _input: i64, _training: bool) -> (i64, Vec<i64>) {
        unreachable!()
    }

    fn backward_spec(&self, _grads: i64, _cache_forward: Vec<i64>) -> (i64, Vec<i64>) {
        unreachable!()
    }

    fn update_spec(&self, _learning_rate: i64, _grads: Vec<i64>) -> Self {
        unreachable!()
    }

    fn forward(&self, input: &i64, training: bool) -> (i64, Vec<i64>) {
        let cache = if training { vec![*input] } else { vec![] };
        (self.scale * input + self.shift, cache)
    }

    fn backward(&self, grads: &i64, cache_forward: &Vec<i64>) -> (i64, Vec<i64>) {
        (grads * self.scale, vec![*grads, grads * cache_forward[0]])
    }

    fn update(&mut self, learning_rate: i64, grads: &Vec<i64>) {
        self.shift -= learning_rate * grads[0];
        self.scale -= learning_rate * grads[1];
    }
}

fn two_layers() -> NeuralNetworkModel<Affine> {
    let mut model = NeuralNetworkModel::new();
    model.push_layer(Affine { scale: 2, shift: 1 });
    model.push_layer(Affine { scale: 10, shift: 3 });
    model
}

#[test]
fn new_model_has_no_layers() {
    let model: NeuralNetworkModel<Affine> = NeuralNetworkModel::new();
    assert!(model.layers.is_empty());
    assert_eq!(model.predict(7), 7);
}

#[test]
fn layers_are_kept_in_the_order_pushed() {
    let model = two_layers();
    assert_eq!(
        model.layers,
        vec![Affine { scale: 2, shift: 1 }, Affine { scale: 10, shift: 3 }]
    );
}

#[test]
fn predict_runs_the_layers_in_order() {
    let model = two_layers();
    // (2 * 5 + 1) * 10 + 3
    assert_eq!(model.predict(5), 113);
}

#[test]
fn predict_twice_gives_the_same() {
    let model = two_layers();
    let first = model.predict(5);
    let second = model.predict(5);
    assert_eq!(first, second);
    assert_eq!(model.layers, two_layers().layers);
}

#[test]
fn forward_keeps_one_cache_per_layer() {
    let model = two_layers();
    let (out, caches) = model.forward(5);
    assert_eq!(out, 113);
    assert_eq!(caches, vec![vec![5], vec![11]]);
}

#[test]
fn backward_runs_the_layers_in_reverse() {
    let model = two_layers();
    let (_, caches) = model.forward(5);
    let grads = model.backward(1, &caches);
    // last layer: seed 1, input 11; first layer: gradient 1 * 10, input 5
    assert_eq!(grads, vec![vec![10, 50], vec![1, 11]]);
}

#[test]
fn backward_of_no_layers_is_empty() {
    let model: NeuralNetworkModel<Affine> = NeuralNetworkModel::new();
    let (out, caches) = model.forward(4);
    assert_eq!(out, 4);
    assert!(caches.is_empty());
    assert!(model.backward(1, &caches).is_empty());
}

#[test]
fn update_hands_each_layer_its_own_gradients() {
    let mut model = two_layers();
    model.update(1, &vec![vec![10, 50], vec![1, 11]]);
    assert_eq!(
        model.layers,
        vec![Affine { scale: -48, shift: -9 }, Affine { scale: -1, shift: 2 }]
    );
}

#[test]
fn single_matrix_makes_a_cache_of_one() {
    assert_eq!(7i64.to_layer_cache(), vec![7]);
    assert_eq!(vec![vec![1u8, 2]].to_layer_cache(), vec![vec![vec![1u8, 2]]]);
}
