//! What a network computes, as mathematics.
use crate::activation::Activation;
use crate::model::MatrixView;
use crate::scalar::{Real, Scalar};
use vstd::prelude::*;

verus! {

/// What training changes: one weight matrix and one bias vector for each
/// layer after the first.
pub struct Parameters<T> {
    pub weights: Seq<MatrixView<T>>,
    pub biases: Seq<MatrixView<T>>,
}

/// `m` is a column vector of `height` elements.
pub open spec fn is_column<T: Scalar>(m: MatrixView<T>, height: nat) -> bool {
    m.wf() && m.rows == height && m.cols == 1
}

impl<T: Scalar> Parameters<T> {
    /// The parameters are those of a network of the given layer widths:
    /// layer `i + 1` has a weight matrix of `layers[i + 1]` rows and
    /// `layers[i]` columns, and a bias vector of `layers[i + 1]` elements.
    pub open spec fn fits(self, layers: Seq<usize>) -> bool {
        &&& layers.len() >= 1
        &&& self.weights.len() == layers.len() - 1
        &&& self.biases.len() == layers.len() - 1
        &&& forall|i: int|
            0 <= i < layers.len() - 1 ==> {
                &&& (#[trigger] self.weights[i]).wf()
                &&& self.weights[i].rows == layers[i + 1]
                &&& self.weights[i].cols == layers[i]
            }
        &&& forall|i: int|
            0 <= i < layers.len() - 1 ==> is_column(#[trigger] self.biases[i], layers[i + 1] as nat)
    }

    /// Every weight and every bias lies in the closed range from minus one to
    /// one.
    pub open spec fn within_unit(self) -> bool {
        &&& forall|i: int| 0 <= i < self.weights.len() ==> (#[trigger] self.weights[i]).within_unit()
        &&& forall|i: int| 0 <= i < self.biases.len() ==> (#[trigger] self.biases[i]).within_unit()
    }

    /// The weighted input of layer `i + 1`, given the output `below` of layer
    /// `i`.
    pub open spec fn weighted_input(self, i: int, below: MatrixView<T>) -> MatrixView<T> {
        self.weights[i].product(below).sum(self.biases[i])
    }
}

/// There is one column vector for each layer, of the layer's width.
pub open spec fn trace_fits<T: Scalar>(trace: Seq<MatrixView<T>>, layers: Seq<usize>) -> bool {
    &&& trace.len() == layers.len()
    &&& forall|i: int| 0 <= i < layers.len() ==> is_column(#[trigger] trace[i], layers[i] as nat)
}

/// `trace[i + 1]` is the activation's image of the weighted input of layer
/// `i + 1`, given `trace[i]`.
pub open spec fn layer_follows<T: Real>(
    act: Activation<T>,
    p: Parameters<T>,
    trace: Seq<MatrixView<T>>,
    i: int,
) -> bool {
    act.maps(p.weighted_input(i, trace[i]), trace[i + 1])
}

/// `trace` is a forward pass of `input`: it starts with `input`, and each
/// later entry follows from the one before it.
pub open spec fn forward_trace<T: Real>(
    act: Activation<T>,
    p: Parameters<T>,
    input: MatrixView<T>,
    trace: Seq<MatrixView<T>>,
) -> bool {
    &&& trace.len() == p.weights.len() + 1
    &&& trace[0] == input
    &&& forall|i: int| 0 <= i < p.weights.len() ==> #[trigger] layer_follows(act, p, trace, i)
}

/// The output of layer `i + 1` that the backward pass takes the slope at: for
/// the last layer the output that it was given, for the others the one that
/// the forward pass left in the trace.
pub open spec fn output_of<T: Scalar>(
    trace: Seq<MatrixView<T>>,
    output: MatrixView<T>,
    i: int,
) -> MatrixView<T> {
    if i + 2 == trace.len() {
        output
    } else {
        trace[i + 1]
    }
}

/// The state of a backward pass: the parameters as updated so far, and the
/// error that reaches the next layer down.
pub struct Descent<T> {
    pub parameters: Parameters<T>,
    pub error: MatrixView<T>,
}

/// The update of layer `i + 1`, whose input was `below` and whose slopes are
/// `slopes`.
///
/// The gradient is the slope times the error, elementwise, scaled by the
/// learning rate. The weights grow by the gradient times the transposed
/// input, the biases by the gradient, and the error that goes down is the
/// transposed new weight matrix times the error.
pub open spec fn descend_layer<T: Scalar>(
    d: Descent<T>,
    i: int,
    below: MatrixView<T>,
    slopes: MatrixView<T>,
    rate: T,
) -> Descent<T> {
    let gradient = slopes.hadamard(d.error).scaled(rate);
    let weights = d.parameters.weights[i].sum(gradient.product(below.transpose()));
    let biases = d.parameters.biases[i].sum(gradient);
    Descent {
        parameters: Parameters {
            weights: d.parameters.weights.update(i, weights),
            biases: d.parameters.biases.update(i, biases),
        },
        error: weights.transpose().product(d.error),
    }
}

/// The backward pass from the last layer down to layer `from + 1`, starting
/// with the parameters `p` and the error `error` at the output.
pub open spec fn descend<T: Real>(
    act: Activation<T>,
    rate: T,
    p: Parameters<T>,
    trace: Seq<MatrixView<T>>,
    output: MatrixView<T>,
    error: MatrixView<T>,
    from: nat,
) -> Descent<T>
    decreases p.weights.len() - from,
{
    if from >= p.weights.len() {
        Descent { parameters: p, error }
    } else {
        descend_layer(
            descend(act, rate, p, trace, output, error, from + 1),
            from as int,
            trace[from as int],
            act.slopes(output_of(trace, output, from as int)),
            rate,
        )
    }
}

/// The parameters after one whole backward pass towards `target`.
pub open spec fn backward<T: Real>(
    act: Activation<T>,
    rate: T,
    p: Parameters<T>,
    trace: Seq<MatrixView<T>>,
    output: MatrixView<T>,
    target: MatrixView<T>,
) -> Parameters<T> {
    descend(act, rate, p, trace, output, target.difference(output), 0).parameters
}

/// `after` comes from `before` by one forward pass of `input` followed by one
/// backward pass towards `target`.
pub open spec fn one_pass<T: Real>(
    act: Activation<T>,
    rate: T,
    before: Parameters<T>,
    after: Parameters<T>,
    input: Seq<T>,
    target: Seq<T>,
) -> bool {
    exists|trace: Seq<MatrixView<T>>|
        {
            &&& #[trigger] forward_trace(act, before, MatrixView::column(input), trace)
            &&& after == backward(
                act,
                rate,
                before,
                trace,
                trace.last(),
                MatrixView::column(target),
            )
        }
}

/// Pass `k` of a training run takes `history[k]` to `history[k + 1]`, on the
/// example whose turn it is: the examples are taken in their order, and the
/// first follows the last.
pub open spec fn pass_follows<T: Real>(
    act: Activation<T>,
    rate: T,
    history: Seq<Parameters<T>>,
    inputs: Seq<Seq<T>>,
    targets: Seq<Seq<T>>,
    k: int,
) -> bool {
    let example = k % (inputs.len() as int);
    one_pass(act, rate, history[k], history[k + 1], inputs[example], targets[example])
}

/// `history` records a training run of `passes` passes: the parameters at the
/// start, and after each pass.
pub open spec fn training_run<T: Real>(
    act: Activation<T>,
    rate: T,
    history: Seq<Parameters<T>>,
    inputs: Seq<Seq<T>>,
    targets: Seq<Seq<T>>,
    passes: nat,
) -> bool {
    &&& history.len() == passes + 1
    &&& forall|k: int|
        0 <= k < passes ==> #[trigger] pass_follows(act, rate, history, inputs, targets, k)
}

/// `after` comes from `before` by `passes` passes over the examples.
pub open spec fn trained<T: Real>(
    act: Activation<T>,
    rate: T,
    before: Parameters<T>,
    after: Parameters<T>,
    inputs: Seq<Seq<T>>,
    targets: Seq<Seq<T>>,
    passes: nat,
) -> bool {
    exists|history: Seq<Parameters<T>>|
        {
            &&& #[trigger] training_run(act, rate, history, inputs, targets, passes)
            &&& history[0] == before
            &&& history.last() == after
        }
}

} // verus!
