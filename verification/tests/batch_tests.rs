use hello_nn::batch::{check_batch, grads_layout_ok, BatchError};

#[test]
fn empty_batch_is_refused() {
    assert_eq!(check_batch(0, 0), Err(BatchError::Empty));
    assert_eq!(check_batch(0, 3), Err(BatchError::Empty));
}

#[test]
fn batch_needs_one_label_per_sample() {
    assert_eq!(check_batch(4, 3), Err(BatchError::Unpaired));
    assert_eq!(check_batch(3, 4), Err(BatchError::Unpaired));
}

#[test]
fn paired_batch_is_accepted() {
    assert_eq!(check_batch(1, 1), Ok(()));
    assert_eq!(check_batch(16, 16), Ok(()));
}

fn dense_then_activation(n_out: usize, n_in: usize) -> Vec<Vec<(usize, usize)>> {
    vec![vec![(n_out, 1), (n_out, n_in)], vec![]]
}

#[test]
fn batch_without_samples_has_a_uniform_layout() {
    assert!(grads_layout_ok(&vec![]));
}

#[test]
fn single_sample_has_a_uniform_layout() {
    assert!(grads_layout_ok(&vec![dense_then_activation(2, 3)]));
}

#[test]
fn equal_layouts_are_uniform() {
    let shapes = vec![
        dense_then_activation(2, 3),
        dense_then_activation(2, 3),
        dense_then_activation(2, 3),
    ];
    assert!(grads_layout_ok(&shapes));
}

#[test]
fn differing_shape_is_found() {
    let shapes = vec![
        dense_then_activation(2, 3),
        dense_then_activation(2, 3),
        dense_then_activation(2, 4),
    ];
    assert!(!grads_layout_ok(&shapes));
    let swapped = vec![vec![vec![(2, 3)]], vec![vec![(3, 2)]]];
    assert!(!grads_layout_ok(&swapped));
}

#[test]
fn differing_number_of_slots_is_found() {
    let shapes = vec![vec![vec![(2, 1), (2, 3)]], vec![vec![(2, 1)]]];
    assert!(!grads_layout_ok(&shapes));
}

#[test]
fn differing_number_of_layers_is_found() {
    let shapes = vec![dense_then_activation(2, 3), vec![vec![(2, 1), (2, 3)]]];
    assert!(!grads_layout_ok(&shapes));
    let longer = vec![vec![], vec![vec![]]];
    assert!(!grads_layout_ok(&longer));
}
