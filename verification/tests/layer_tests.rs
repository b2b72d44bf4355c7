use hello_nn::layer_impls::{ReLULayer, SigmodLayer, SoftmaxLayer};
use hello_nn::loss_impls::CrossEntropy;

#[test]
fn activation_layers_carry_no_state() {
    assert_eq!(ReLULayer::new(), ReLULayer::new());
    assert_eq!(SigmodLayer::new(), SigmodLayer::new());
    assert_eq!(SoftmaxLayer::new(), SoftmaxLayer::new());
}

#[test]
fn cross_entropy_starts_empty() {
    let c = CrossEntropy::new();
    assert_eq!(c.acc(), 0);
    assert_eq!(c.total(), 0);
}

#[test]
fn cross_entropy_counts_hits_and_samples() {
    let mut c = CrossEntropy::new();
    c.sum_loss(true);
    c.sum_loss(false);
    c.sum_loss(true);
    c.sum_loss(true);
    assert_eq!(c.acc(), 3);
    assert_eq!(c.total(), 4);
}

#[test]
fn cross_entropy_reset_forgets() {
    let mut c = CrossEntropy::new();
    c.sum_loss(true);
    c.sum_loss(false);
    c.reset();
    assert_eq!(c.acc(), 0);
    assert_eq!(c.total(), 0);
    c.sum_loss(false);
    assert_eq!(c.acc(), 0);
    assert_eq!(c.total(), 1);
}
