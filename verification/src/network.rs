//! A fully connected network, trained one example at a time.
use crate::activation::Activation;
use crate::matrix::Matrix;
use crate::model::MatrixView;
use crate::scalar::Real;
use crate::training::{
    backward, descend, descend_layer, forward_trace, is_column, layer_follows, one_pass,
    output_of, pass_follows, trace_fits, trained, training_run, Descent, Parameters,
};
use vstd::prelude::*;

verus! {

/// A stack of fully connected layers with one activation for all of them.
///
/// `weights[i]` and `biases[i]` take the output of layer `i` to the weighted
/// input of layer `i + 1`. `data` holds the outputs of all layers in the last
/// forward pass, the input first.
#[derive(Debug)]
pub struct Network<T> {
    layers: Vec<usize>,
    weights: Vec<Matrix<T>>,
    biases: Vec<Matrix<T>>,
    data: Vec<Matrix<T>>,
    activation: Activation<T>,
    learning_rate: T,
}

/// The matrices of `s` as values.
pub open spec fn views<T>(s: Seq<Matrix<T>>) -> Seq<MatrixView<T>> {
    Seq::new(s.len(), |i: int| s[i]@)
}

/// The vectors of `s` as values.
pub open spec fn rows_of<T>(s: Seq<Vec<T>>) -> Seq<Seq<T>> {
    Seq::new(s.len(), |i: int| s[i]@)
}

/// The activation's image of `m`, element by element.
fn activate<T: Real>(act: &Activation<T>, m: &Matrix<T>) -> (r: Matrix<T>)
    ensures
        act.maps(m@, r@),
{
    let f = |x: T| -> (y: T)
        ensures
            act.yields(x, y),
        {
            act.func(x)
        };
    m.map(f)
}

/// The activation's slopes at the outputs `m`, element by element.
fn slope<T: Real>(act: &Activation<T>, m: &Matrix<T>) -> (r: Matrix<T>)
    ensures
        r@ == act.slopes(m@),
{
    let f = |y: T| -> (d: T)
        ensures
            d == act.slope_at(y),
        {
            act.derivative(y)
        };
    let r = m.map(f);
    proof {
        assert(r@.data =~= act.slopes(m@).data);
    }
    r
}

impl<T: Real> Network<T> {
    /// The widths of the layers, the input layer first.
    pub closed spec fn layer_widths(&self) -> Seq<usize> {
        self.layers@
    }

    /// The weights and biases.
    pub closed spec fn parameters(&self) -> Parameters<T> {
        Parameters { weights: views(self.weights@), biases: views(self.biases@) }
    }

    /// The outputs of all layers in the last forward pass.
    pub closed spec fn cache(&self) -> Seq<MatrixView<T>> {
        views(self.data@)
    }

    /// The activation of all layers.
    pub closed spec fn activation(&self) -> Activation<T> {
        self.activation
    }

    /// The learning rate.
    pub closed spec fn rate(&self) -> T {
        self.learning_rate
    }

    /// The parameters have the shapes that the layer widths ask for.
    pub open spec fn wf(&self) -> bool {
        self.parameters().fits(self.layer_widths())
    }

    /// `other` has the layer widths, the activation and the learning rate of
    /// this network.
    pub open spec fn same_settings(&self, other: &Self) -> bool {
        &&& other.layer_widths() == self.layer_widths()
        &&& other.activation() == self.activation()
        &&& other.rate() == self.rate()
    }

    /// A network of the given layer widths, with every weight and every bias
    /// a fresh draw from the closed range from minus one to one.
    pub fn new(layers: Vec<usize>, activation: Activation<T>, learning_rate: T) -> (r: Self)
        requires
            layers@.len() >= 1,
        ensures
            r.wf(),
            r.layer_widths() == layers@,
            r.activation() == activation,
            r.rate() == learning_rate,
            r.parameters().within_unit(),
            r.cache().len() == 0,
    {
        let mut weights: Vec<Matrix<T>> = Vec::new();
        let mut biases: Vec<Matrix<T>> = Vec::new();
        let count = layers.len() - 1;
        let mut i: usize = 0;
        while i < count
            invariant
                count + 1 == layers@.len(),
                i <= count,
                weights@.len() == i,
                biases@.len() == i,
                forall|k: int|
                    0 <= k < i ==> {
                        &&& (#[trigger] weights@[k])@.wf()
                        &&& weights@[k]@.rows == layers@[k + 1]
                        &&& weights@[k]@.cols == layers@[k]
                        &&& weights@[k]@.within_unit()
                    },
                forall|k: int|
                    0 <= k < i ==> {
                        &&& is_column((#[trigger] biases@[k])@, layers@[k + 1] as nat)
                        &&& biases@[k]@.within_unit()
                    },
            decreases count - i,
        {
            weights.push(Matrix::random(layers[i + 1], layers[i]));
            biases.push(Matrix::random(layers[i + 1], 1));
            i += 1;
        }
        Network { layers, weights, biases, data: Vec::new(), activation, learning_rate }
    }

    /// The widths of the layers, the input layer first.
    pub fn layers(&self) -> (r: &Vec<usize>)
        ensures
            r@ == self.layer_widths(),
    {
        &self.layers
    }

    /// The weight matrices, that of the first hidden layer first.
    pub fn weights(&self) -> (r: &Vec<Matrix<T>>)
        ensures
            views(r@) == self.parameters().weights,
    {
        &self.weights
    }

    /// The bias vectors, that of the first hidden layer first.
    pub fn biases(&self) -> (r: &Vec<Matrix<T>>)
        ensures
            views(r@) == self.parameters().biases,
    {
        &self.biases
    }

    /// The forward pass: the output of the last layer for `input`.
    ///
    /// The outputs of all layers are kept for the backward pass that follows.
    pub fn feedforward(&mut self, input: Matrix<T>) -> (r: Matrix<T>)
        requires
            old(self).wf(),
            is_column(input@, old(self).layer_widths()[0] as nat),
        ensures
            final(self).wf(),
            old(self).same_settings(final(self)),
            final(self).parameters() == old(self).parameters(),
            forward_trace(
                old(self).activation(),
                old(self).parameters(),
                input@,
                final(self).cache(),
            ),
            trace_fits(final(self).cache(), old(self).layer_widths()),
            r@ == final(self).cache().last(),
            is_column(r@, old(self).layer_widths().last() as nat),
    {
        let ghost p = self.parameters();
        let mut current = input.clone();
        let mut cache: Vec<Matrix<T>> = Vec::new();
        cache.push(input);
        let mut i: usize = 0;
        while i < self.weights.len()
            invariant
                self.wf(),
                p == self.parameters(),
                i <= self.weights@.len(),
                cache@.len() == i + 1,
                cache@[0]@ == input@,
                current@ == cache@[i as int]@,
                forall|k: int|
                    0 <= k <= i ==> is_column((#[trigger] cache@[k])@, self.layers@[k] as nat),
                forall|k: int|
                    0 <= k < i ==> #[trigger] layer_follows(self.activation, p, views(cache@), k),
            decreases self.weights@.len() - i,
        {
            let ghost before = views(cache@);
            proof {
                assert(p.weights[i as int] == self.weights@[i as int]@);
                assert(p.biases[i as int] == self.biases@[i as int]@);
            }
            let weighted = self.weights[i].mul(&current).add(&self.biases[i]);
            current = activate(&self.activation, &weighted);
            cache.push(current.clone());
            proof {
                let after = views(cache@);
                assert(weighted@ == p.weighted_input(i as int, before[i as int]));
                assert forall|k: int| 0 <= k <= i implies #[trigger] layer_follows(
                    self.activation,
                    p,
                    after,
                    k,
                ) by {
                    assert(after[k] == before[k]);
                    if k < i {
                        assert(after[k + 1] == before[k + 1]);
                        assert(layer_follows(self.activation, p, before, k));
                    }
                }
            }
            i += 1;
        }
        self.data = cache;
        current
    }

    /// The backward pass towards `target`: one step of gradient descent on
    /// every weight and every bias, from the last layer down to the first.
    ///
    /// `output` is what the forward pass before it returned, and the outputs
    /// of the other layers are those that this forward pass has kept.
    pub fn backpropagation(&mut self, output: Matrix<T>, target: Matrix<T>)
        requires
            old(self).wf(),
            trace_fits(old(self).cache(), old(self).layer_widths()),
            is_column(output@, old(self).layer_widths().last() as nat),
            is_column(target@, old(self).layer_widths().last() as nat),
        ensures
            final(self).wf(),
            old(self).same_settings(final(self)),
            final(self).cache() == old(self).cache(),
            final(self).parameters() == backward(
                old(self).activation(),
                old(self).rate(),
                old(self).parameters(),
                old(self).cache(),
                output@,
                target@,
            ),
    {
        let ghost p = self.parameters();
        let ghost trace = self.cache();
        let ghost start = target@.difference(output@);
        let mut error = target.sub(&output);
        let mut slopes = slope(&self.activation, &output);
        let mut i: usize = self.weights.len();
        while i > 0
            invariant
                self.wf(),
                old(self).same_settings(self),
                self.cache() == trace,
                trace_fits(trace, self.layers@),
                is_column(output@, self.layers@.last() as nat),
                i <= self.weights@.len(),
                p.weights.len() == self.weights@.len(),
                is_column(error@, self.layers@[i as int] as nat),
                i > 0 ==> slopes@ == self.activation.slopes(output_of(trace, output@, i - 1)),
                descend(self.activation, self.learning_rate, p, trace, output@, start, i as nat)
                    == (Descent { parameters: self.parameters(), error: error@ }),
            decreases i,
        {
            i -= 1;
            let ghost d = Descent { parameters: self.parameters(), error: error@ };
            proof {
                assert(d.parameters.weights[i as int] == self.weights@[i as int]@);
                assert(d.parameters.biases[i as int] == self.biases@[i as int]@);
                assert(trace[i as int] == self.data@[i as int]@);
                assert(is_column(output_of(trace, output@, i as int), self.layers@[i + 1] as nat));
            }
            let gradient = slopes.hadamard(&error).mul_scalar(self.learning_rate);
            let weights = self.weights[i].add(&gradient.mul(&self.data[i].transpose()));
            let biases = self.biases[i].add(&gradient);
            error = weights.transpose().mul(&error);
            let ghost next = descend_layer(d, i as int, trace[i as int], slopes@, self.learning_rate);
            proof {
                assert(weights@ == next.parameters.weights[i as int]);
                assert(biases@ == next.parameters.biases[i as int]);
                assert(error@ == next.error);
            }
            slopes = slope(&self.activation, &self.data[i]);
            self.weights.set(i, weights);
            self.biases.set(i, biases);
            proof {
                assert(self.parameters().weights =~= next.parameters.weights);
                assert(self.parameters().biases =~= next.parameters.biases);
            }
        }
    }

    /// Trains on the examples, in their order, `epochs` times over: for each
    /// example one forward pass and one backward pass.
    pub fn train(&mut self, inputs: Vec<Vec<T>>, targets: Vec<Vec<T>>, epochs: usize)
        requires
            old(self).wf(),
            inputs@.len() == targets@.len(),
            forall|i: int|
                0 <= i < inputs@.len() ==> (#[trigger] inputs@[i])@.len() == old(
                    self,
                ).layer_widths()[0],
            forall|i: int|
                0 <= i < targets@.len() ==> (#[trigger] targets@[i])@.len() == old(
                    self,
                ).layer_widths().last(),
        ensures
            final(self).wf(),
            old(self).same_settings(final(self)),
            trained(
                old(self).activation(),
                old(self).rate(),
                old(self).parameters(),
                final(self).parameters(),
                rows_of(inputs@),
                rows_of(targets@),
                epochs as nat * inputs@.len(),
            ),
    {
        let ghost start = self.parameters();
        let ghost xs = rows_of(inputs@);
        let ghost ts = rows_of(targets@);
        let examples = inputs.len();
        let ghost mut history: Seq<Parameters<T>> = seq![start];
        let mut epoch: usize = 0;
        while epoch < epochs
            invariant
                self.wf(),
                old(self).same_settings(self),
                examples == inputs@.len(),
                inputs@.len() == targets@.len(),
                xs == rows_of(inputs@),
                ts == rows_of(targets@),
                forall|i: int|
                    0 <= i < inputs@.len() ==> (#[trigger] inputs@[i])@.len() == self.layers@[0],
                forall|i: int|
                    0 <= i < targets@.len() ==> (#[trigger] targets@[i])@.len()
                        == self.layers@.last(),
                epoch <= epochs,
                history[0] == start,
                history.last() == self.parameters(),
                training_run(
                    self.activation,
                    self.learning_rate,
                    history,
                    xs,
                    ts,
                    epoch as nat * examples as nat,
                ),
            decreases epochs - epoch,
        {
            let mut i: usize = 0;
            while i < examples
                invariant
                    self.wf(),
                    old(self).same_settings(self),
                    examples == inputs@.len(),
                    inputs@.len() == targets@.len(),
                    xs == rows_of(inputs@),
                    ts == rows_of(targets@),
                    forall|i: int|
                        0 <= i < inputs@.len() ==> (#[trigger] inputs@[i])@.len()
                            == self.layers@[0],
                    forall|i: int|
                        0 <= i < targets@.len() ==> (#[trigger] targets@[i])@.len()
                            == self.layers@.last(),
                    epoch < epochs,
                    i <= examples,
                    history[0] == start,
                    history.last() == self.parameters(),
                    training_run(
                        self.activation,
                        self.learning_rate,
                        history,
                        xs,
                        ts,
                        epoch as nat * examples as nat + i as nat,
                    ),
                decreases examples - i,
            {
                let ghost middle = self.parameters();
                let ghost done = epoch as nat * examples as nat + i as nat;
                let input = Matrix::from_array(inputs[i].as_slice());
                let target = Matrix::from_array(targets[i].as_slice());
                let output = self.feedforward(input);
                self.backpropagation(output, target);
                proof {
                    assert(done % (examples as nat) == i) by (nonlinear_arith)
                        requires
                            done == epoch as nat * examples as nat + i as nat,
                            i < examples,
                    ;
                    assert(xs.len() == examples);
                    assert(xs[i as int] == inputs@[i as int]@);
                    assert(ts[i as int] == targets@[i as int]@);
                    assert(one_pass(
                        self.activation,
                        self.learning_rate,
                        middle,
                        self.parameters(),
                        xs[i as int],
                        ts[i as int],
                    ));
                    let longer = history.push(self.parameters());
                    assert forall|k: int| 0 <= k < done + 1 implies #[trigger] pass_follows(
                        self.activation,
                        self.learning_rate,
                        longer,
                        xs,
                        ts,
                        k,
                    ) by {
                        if k < done {
                            assert(pass_follows(
                                self.activation,
                                self.learning_rate,
                                history,
                                xs,
                                ts,
                                k,
                            ));
                        }
                    }
                    history = longer;
                }
                i += 1;
            }
            proof {
                assert(epoch as nat * examples as nat + examples as nat == (epoch + 1) as nat
                    * examples as nat) by (nonlinear_arith);
            }
            epoch += 1;
        }
    }
}

} // verus!
