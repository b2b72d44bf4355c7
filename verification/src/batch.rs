//! What must hold of a mini-batch before any arithmetic is done on it: it is
//! not empty, every sample has a label, and the gradients collected for its
//! samples are laid out alike.

use vstd::prelude::*;

verus! {

/// Why a mini-batch cannot be trained on.
#[derive(Debug, Clone, Copy, PartialEq, Eq, Structural)]
pub enum BatchError {
    /// The batch holds no sample, so there is nothing to average over.
    Empty,
    /// The numbers of samples and of labels differ.
    Unpaired,
}

/// Why a batch of `samples` inputs and `labels` labels is refused, if it is.
pub open spec fn batch_error(samples: usize, labels: usize) -> Option<BatchError> {
    if samples == 0 {
        Some(BatchError::Empty)
    } else if samples != labels {
        Some(BatchError::Unpaired)
    } else {
        None
    }
}

/// Accepts a batch that holds at least one sample and as many labels as
/// samples.
pub fn check_batch(samples: usize, labels: usize) -> (r: Result<(), BatchError>)
    ensures
        match batch_error(samples, labels) {
            Some(e) => r == Err::<(), BatchError>(e),
            None => r == Ok::<(), BatchError>(()),
        },
{
    if samples == 0 {
        Err(BatchError::Empty)
    } else if samples != labels {
        Err(BatchError::Unpaired)
    } else {
        Ok(())
    }
}

/// The shapes of the gradients of one sample: for each layer, the rows and
/// columns of each of its gradient matrices.
pub open spec fn layout_of(sample: Vec<Vec<(usize, usize)>>) -> Seq<Seq<(usize, usize)>> {
    Seq::new(sample@.len(), |j: int| sample@[j]@)
}

/// Every sample has the number of layers, per layer the number of gradient
/// matrices, and per matrix the shape that the first sample has. Gradients
/// laid out so can be averaged matrix by matrix.
pub open spec fn uniform_layout(shapes: Seq<Vec<Vec<(usize, usize)>>>) -> bool {
    forall|i: int| 0 <= i < shapes.len() ==> layout_of(#[trigger] shapes[i]) == layout_of(shapes[0])
}

fn same_slots(a: &Vec<(usize, usize)>, b: &Vec<(usize, usize)>) -> (r: bool)
    ensures
        r == (a@ == b@),
{
    if a.len() != b.len() {
        return false;
    }
    let mut k: usize = 0;
    while k < a.len()
        invariant
            k <= a@.len(),
            a@.len() == b@.len(),
            forall|m: int| 0 <= m < k ==> a@[m] == b@[m],
        decreases a@.len() - k,
    {
        if a[k].0 != b[k].0 || a[k].1 != b[k].1 {
            return false;
        }
        k = k + 1;
    }
    assert(a@ =~= b@);
    true
}

fn same_layers(a: &Vec<Vec<(usize, usize)>>, b: &Vec<Vec<(usize, usize)>>) -> (r: bool)
    ensures
        r == (layout_of(*a) == layout_of(*b)),
{
    if a.len() != b.len() {
        assert(layout_of(*a).len() != layout_of(*b).len());
        return false;
    }
    let mut j: usize = 0;
    while j < a.len()
        invariant
            j <= a@.len(),
            a@.len() == b@.len(),
            forall|m: int| 0 <= m < j ==> a@[m]@ == b@[m]@,
        decreases a@.len() - j,
    {
        if !same_slots(&a[j], &b[j]) {
            assert(layout_of(*a)[j as int] != layout_of(*b)[j as int]);
            return false;
        }
        j = j + 1;
    }
    assert(layout_of(*a) =~= layout_of(*b));
    true
}

/// Tells whether the gradients of a batch can be averaged: `shapes[i][j][k]`
/// is the shape of gradient matrix `k` of layer `j` for sample `i`. A batch
/// without samples passes.
pub fn grads_layout_ok(shapes: &Vec<Vec<Vec<(usize, usize)>>>) -> (r: bool)
    ensures
        r == uniform_layout(shapes@),
{
    let mut i: usize = 1;
    while i < shapes.len()
        invariant
            1 <= i,
            forall|m: int| 0 <= m < i && m < shapes@.len() ==> layout_of(#[trigger] shapes@[m]) == layout_of(
                shapes@[0],
            ),
        decreases shapes@.len() - i,
    {
        if !same_layers(&shapes[i], &shapes[0]) {
            return false;
        }
        i = i + 1;
    }
    true
}

} // verus!
