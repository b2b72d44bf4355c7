//! The model: an ordered stack of layers, and the passes that thread a
//! sample through them. The arithmetic of a layer is its implementor's; what
//! is fixed here is the order in which layers run and which value each one is
//! handed.

use vstd::prelude::*;

verus! {

/// One layer of a network. A layer owns its parameters; `forward` and
/// `backward` read them and `update` alone changes them.
///
/// What a pass returns depends on the layer and the arguments alone. Each
/// method therefore has a twin, named `..._spec`, that stands for its result
/// in contracts. Nothing here proves that an implementor's methods behave so:
/// what is shown of the model holds for layers that do. The twins are never
/// run; an implementor outside this crate gives them a body that cannot be
/// reached.
pub trait Layer: Sized {
    /// The matrices that flow between layers.
    type Mat;

    /// The learning rate.
    type Rate: Copy;

    /// Stands for what `forward` returns.
    spec fn forward_spec(&self, input: Self::Mat, training: bool) -> (Self::Mat, Vec<Self::Mat>);

    /// Stands for what `backward` returns.
    spec fn backward_spec(&self, grads: Self::Mat, cache_forward: Vec<Self::Mat>) -> (
        Self::Mat,
        Vec<Self::Mat>,
    );

    /// Stands for the layer that `update` leaves.
    spec fn update_spec(&self, learning_rate: Self::Rate, grads: Vec<Self::Mat>) -> Self;

    /// Computes the layer's output for `input` and, when `training`, what its
    /// own backward pass will need.
    fn forward(&self, input: &Self::Mat, training: bool) -> (r: (Self::Mat, Vec<Self::Mat>))
        ensures
            r == self.forward_spec(*input, training),
    ;

    /// Takes the gradients that arrive from the next layer, one row per
    /// outgoing edge, and what this layer's last training pass kept; returns
    /// the gradients for the previous layer and those of its own parameters.
    fn backward(&self, grads: &Self::Mat, cache_forward: &Vec<Self::Mat>) -> (r: (
        Self::Mat,
        Vec<Self::Mat>,
    ))
        ensures
            r == self.backward_spec(*grads, *cache_forward),
    ;

    /// Moves the parameters against `grads`, which are laid out as the
    /// parameter gradients of `backward` are.
    fn update(&mut self, learning_rate: Self::Rate, grads: &Vec<Self::Mat>)
        ensures
            *final(self) == old(self).update_spec(learning_rate, *grads),
    ;
}

/// Wraps a single matrix as the cache of a layer.
pub trait ToLayerCache: Sized {
    /// A cache that holds `self` and nothing else.
    fn to_layer_cache(self) -> (r: Vec<Self>)
        ensures
            r@ == seq![self],
    ;
}

impl<M> ToLayerCache for M {
    fn to_layer_cache(self) -> (r: Vec<M>) {
        let mut cache: Vec<M> = Vec::new();
        cache.push(self);
        assert(cache@ =~= seq![self]);
        cache
    }
}

/// The output of the first `k` layers for `data`.
pub open spec fn output_after<L: Layer>(
    layers: Seq<L>,
    data: L::Mat,
    training: bool,
    k: nat,
) -> L::Mat
    decreases k,
{
    if k == 0 {
        data
    } else {
        layers[k - 1].forward_spec(output_after(layers, data, training, (k - 1) as nat), training).0
    }
}

/// What the layers keep of a training pass on `data`: cache `j` is the one
/// that layer `j` makes of the output of the layers before it.
pub open spec fn caches_of<L: Layer>(layers: Seq<L>, data: L::Mat) -> Seq<Vec<L::Mat>> {
    Seq::new(
        layers.len(),
        |j: int| layers[j].forward_spec(output_after(layers, data, true, j as nat), true).1,
    )
}

/// The gradient that reaches layer `j` on the way back: the seed for the last
/// layer, and for every other layer what the layer behind it hands on.
pub open spec fn grads_into<L: Layer>(
    layers: Seq<L>,
    seed: L::Mat,
    caches: Seq<Vec<L::Mat>>,
    j: int,
) -> L::Mat
    decreases layers.len() - j,
{
    if j + 1 >= layers.len() {
        seed
    } else {
        layers[j + 1].backward_spec(grads_into(layers, seed, caches, j + 1), caches[j + 1]).0
    }
}

/// The parameter gradients of a backward pass: entry `j` is what layer `j`
/// finds for the gradient that reaches it and the cache it made.
pub open spec fn grads_of<L: Layer>(layers: Seq<L>, seed: L::Mat, caches: Seq<Vec<L::Mat>>) -> Seq<
    Vec<L::Mat>,
> {
    Seq::new(
        layers.len(),
        |j: int| layers[j].backward_spec(grads_into(layers, seed, caches, j), caches[j]).1,
    )
}

/// The layers after an update in which layer `j` is handed `grads[j]`.
pub open spec fn updated_layers<L: Layer>(
    layers: Seq<L>,
    learning_rate: L::Rate,
    grads: Seq<Vec<L::Mat>>,
) -> Seq<L> {
    Seq::new(layers.len(), |j: int| layers[j].update_spec(learning_rate, grads[j]))
}

/// A network: its layers, input layer first.
pub struct NeuralNetworkModel<L> {
    pub layers: Vec<L>,
}

impl<L: Layer> NeuralNetworkModel<L> {
    /// A network without layers.
    pub fn new() -> (r: Self)
        ensures
            r.layers@ == Seq::<L>::empty(),
    {
        NeuralNetworkModel { layers: Vec::new() }
    }

    /// Adds `layer` behind the layers that are there.
    pub fn push_layer(&mut self, layer: L)
        ensures
            final(self).layers@ == old(self).layers@.push(layer),
    {
        self.layers.push(layer);
    }

    /// Runs `data` through every layer in order, outside of training. The
    /// result depends on the layers and the input alone, and the network is
    /// left as it was.
    pub fn predict(&self, data: L::Mat) -> (r: L::Mat)
        ensures
            r == output_after(self.layers@, data, false, self.layers@.len()),
    {
        let mut pre = data;
        let mut j: usize = 0;
        while j < self.layers.len()
            invariant
                j <= self.layers@.len(),
                pre == output_after(self.layers@, data, false, j as nat),
            decreases self.layers@.len() - j,
        {
            let (a, _) = self.layers[j].forward(&pre, false);
            pre = a;
            j = j + 1;
        }
        pre
    }

    /// The forward pass of training for one sample: runs `data` through every
    /// layer in order and keeps what each layer caches.
    pub fn forward(&self, data: L::Mat) -> (r: (L::Mat, Vec<Vec<L::Mat>>))
        ensures
            r.0 == output_after(self.layers@, data, true, self.layers@.len()),
            r.1@ == caches_of(self.layers@, data),
    {
        let mut pre = data;
        let mut caches: Vec<Vec<L::Mat>> = Vec::new();
        let mut j: usize = 0;
        while j < self.layers.len()
            invariant
                j <= self.layers@.len(),
                caches@.len() == j,
                pre == output_after(self.layers@, data, true, j as nat),
                forall|m: int| 0 <= m < j ==> #[trigger] caches@[m] == caches_of(self.layers@, data)[m],
            decreases self.layers@.len() - j,
        {
            let (a, f_cache) = self.layers[j].forward(&pre, true);
            caches.push(f_cache);
            pre = a;
            j = j + 1;
        }
        assert(caches@ =~= caches_of(self.layers@, data));
        (pre, caches)
    }

    /// The backward pass for one sample: starting from `seed` at the last
    /// layer, runs every layer backwards in reverse order, each on the cache
    /// that it made for this sample, and collects the parameter gradients of
    /// each layer. Entry `j` of the result belongs to layer `j`.
    pub fn backward(&self, seed: L::Mat, caches: &Vec<Vec<L::Mat>>) -> (r: Vec<Vec<L::Mat>>)
        requires
            caches@.len() == self.layers@.len(),
        ensures
            r@ == grads_of(self.layers@, seed, caches@),
    {
        let n: usize = self.layers.len();
        let ghost want = grads_of(self.layers@, seed, caches@);
        let mut grads = seed;
        // collected from the last layer down, turned round at the end
        let mut found: Vec<Vec<L::Mat>> = Vec::new();
        let mut j: usize = n;
        while j > 0
            invariant
                j <= n,
                n == self.layers@.len(),
                caches@.len() == n,
                want == grads_of(self.layers@, seed, caches@),
                found@.len() == n - j,
                grads == grads_into(self.layers@, seed, caches@, j - 1),
                forall|m: int| j <= m < n ==> #[trigger] found@[n - 1 - m] == want[m],
            decreases j,
        {
            j = j - 1;
            let (g, backward_cache) = self.layers[j].backward(&grads, &caches[j]);
            assert(backward_cache == want[j as int]);
            grads = g;
            found.push(backward_cache);
            assert forall|m: int| j <= m < n implies #[trigger] found@[n - 1 - m] == want[m] by {
                if m > j {
                    assert(found@[n - 1 - m] == want[m]);
                }
            }
        }
        let mut r: Vec<Vec<L::Mat>> = Vec::new();
        while found.len() > 0
            invariant
                n == self.layers@.len(),
                want.len() == n,
                r@.len() + found@.len() == n,
                forall|m: int| 0 <= m < r@.len() ==> #[trigger] r@[m] == want[m],
                forall|m: int| r@.len() <= m < n ==> #[trigger] found@[n - 1 - m] == want[m],
            decreases found@.len(),
        {
            let ghost m = r@.len() as int;
            assert(found@[n - 1 - m] == want[m]);
            match found.pop() {
                Some(g) => {
                    r.push(g);
                },
                None => {},
            }
        }
        assert(r@ =~= want);
        r
    }

    /// Updates every layer with the gradients meant for it: entry `j` of
    /// `grads` goes to layer `j`.
    pub fn update(&mut self, learning_rate: L::Rate, grads: &Vec<Vec<L::Mat>>)
        requires
            grads@.len() == old(self).layers@.len(),
        ensures
            final(self).layers@ == updated_layers(old(self).layers@, learning_rate, grads@),
    {
        let ghost before = self.layers@;
        let ghost want = updated_layers(before, learning_rate, grads@);
        let mut j: usize = 0;
        while j < self.layers.len()
            invariant
                j <= self.layers@.len(),
                self.layers@.len() == before.len(),
                grads@.len() == before.len(),
                want == updated_layers(before, learning_rate, grads@),
                forall|m: int| 0 <= m < j ==> #[trigger] self.layers@[m] == want[m],
                forall|m: int| j <= m < before.len() ==> #[trigger] self.layers@[m] == before[m],
            decreases self.layers@.len() - j,
        {
            self.layers[j].update(learning_rate, &grads[j]);
            j = j + 1;
        }
        assert(self.layers@ =~= want);
    }
}

} // verus!
