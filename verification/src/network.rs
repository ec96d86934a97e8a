//! The evaluator that is a feed-forward network: layers of weights and biases
//! over whole numbers, a rectifier after every layer but the last, and every
//! activation held within fixed limits.

use crate::cards::random_below;
use crate::search::{Evaluator, Position};
use vstd::prelude::*;

verus! {

/// Why a network cannot be built or used.
#[derive(Debug, PartialEq, Eq, Clone, Copy, Structural)]
pub enum ConfigError {
    /// A network needs an input width and at least one layer after it.
    TooFewLayers,
    /// A layer of no inputs or no outputs has no weight matrix.
    EmptyLayer,
    /// Two widths that must be equal are not: a layer's weights or biases do
    /// not fill its shape, a layer does not take what the one before it gives,
    /// or an input is not as wide as the network's first layer.
    ShapeMismatch,
    /// A weight matrix would hold more weights than can be counted.
    TooLarge,
}

/// One layer: a matrix of `outputs` rows and `inputs` columns, stored row by
/// row, and one bias for each row.
#[derive(Debug)]
pub struct Layer {
    pub inputs: usize,
    pub outputs: usize,
    pub weights: Vec<i32>,
    pub bias: Vec<i32>,
}

/// The mathematical model of a layer.
pub struct LayerModel {
    pub inputs: nat,
    pub outputs: nat,
    pub weights: Seq<i32>,
    pub bias: Seq<i32>,
}

/// A network: its layers from the input to the output. The layers cannot be
/// changed once the network is built.
#[derive(Debug)]
pub struct Network {
    layers: Vec<Layer>,
}

/// The greatest activation; the least is its negative.
pub const ACTIVATION_LIMIT: i32 = i32::MAX;

impl View for Layer {
    type V = LayerModel;

    open spec fn view(&self) -> LayerModel {
        LayerModel {
            inputs: self.inputs as nat,
            outputs: self.outputs as nat,
            weights: self.weights@,
            bias: self.bias@,
        }
    }
}

impl View for Network {
    type V = Seq<LayerModel>;

    closed spec fn view(&self) -> Seq<LayerModel> {
        Seq::new(self.layers@.len(), |i: int| self.layers@[i]@)
    }
}

impl LayerModel {
    /// Whether the weights and biases fill the shape of the layer, and the
    /// shape is not empty.
    pub open spec fn shaped(self) -> bool {
        &&& self.inputs > 0
        &&& self.outputs > 0
        &&& self.weights.len() == self.inputs * self.outputs
        &&& self.bias.len() == self.outputs
    }

    /// Whether every weight and every bias of the layer lies within `spread` of
    /// 0.
    pub open spec fn within(self, spread: int) -> bool {
        &&& forall|k: int|
            0 <= k < self.weights.len() ==> -spread <= #[trigger] self.weights[k] <= spread
        &&& forall|k: int| 0 <= k < self.bias.len() ==> -spread <= #[trigger] self.bias[k] <= spread
    }

    /// The weight that output `row` gives to input `col`.
    pub open spec fn weight(self, row: int, col: int) -> int {
        self.weights[row * self.inputs + col] as int
    }

    /// The weighted sum of the first `n` inputs for output `row`.
    pub open spec fn weighted(self, input: Seq<i32>, row: int, n: nat) -> int
        decreases n,
    {
        if n == 0 {
            0
        } else {
            self.weighted(input, row, (n - 1) as nat) + self.weight(row, n - 1) * input[n - 1]
        }
    }

    /// The affine transform for output `row`: its bias and the weighted sum of
    /// all inputs.
    pub open spec fn affine(self, input: Seq<i32>, row: int) -> int {
        self.bias[row] + self.weighted(input, row, self.inputs)
    }

    /// What the layer gives for an input: for each output the affine transform,
    /// rectified unless the layer is the last of its network, and held within
    /// the limits of an activation.
    pub open spec fn output(self, input: Seq<i32>, last: bool) -> Seq<i32> {
        Seq::new(
            self.outputs,
            |row: int|
                limited(
                    if last {
                        self.affine(input, row)
                    } else {
                        rectified(self.affine(input, row))
                    },
                ) as i32,
        )
    }
}

/// The rectifier: what is negative becomes 0.
pub open spec fn rectified(v: int) -> int {
    if v < 0 {
        0
    } else {
        v
    }
}

/// A value held within the limits of an activation.
pub open spec fn limited(v: int) -> int {
    if v > i32::MAX {
        i32::MAX as int
    } else if v < -i32::MAX {
        -i32::MAX
    } else {
        v
    }
}

/// Whether layers can follow one another in a network: there is at least one,
/// each has its shape, and each takes as many inputs as the one before it gives
/// outputs.
pub open spec fn chained(layers: Seq<LayerModel>) -> bool {
    &&& layers.len() > 0
    &&& forall|i: int| 0 <= i < layers.len() ==> (#[trigger] layers[i]).shaped()
    &&& forall|i: int|
        0 <= i < layers.len() - 1 ==> (#[trigger] layers[i]).outputs == layers[i + 1].inputs
}

/// What the first `n` layers of a network give for an input.
pub open spec fn forward(layers: Seq<LayerModel>, input: Seq<i32>, n: nat) -> Seq<i32>
    decreases n,
{
    if n == 0 {
        input
    } else {
        layers[n - 1].output(forward(layers, input, (n - 1) as nat), n == layers.len())
    }
}

/// The widths of a network: of its input, then of what each layer gives.
pub open spec fn widths_of(layers: Seq<LayerModel>) -> Seq<nat> {
    Seq::new(
        layers.len() + 1,
        |i: int|
            if i == 0 {
                layers[0].inputs
            } else {
                layers[i - 1].outputs
            },
    )
}

/// The place of a weight in a matrix stored row by row lies within the matrix.
proof fn lemma_weight_index(inputs: int, outputs: int, row: int, col: int)
    requires
        0 <= row < outputs,
        0 <= col < inputs,
    ensures
        0 <= row * inputs + col < inputs * outputs,
        0 <= row * inputs,
{
    assert(row * inputs + inputs <= inputs * outputs) by (nonlinear_arith)
        requires
            row + 1 <= outputs,
            0 <= inputs,
    ;
}

/// A product of a weight and an activation lies within these limits.
proof fn lemma_product_limits(w: i32, x: i32)
    ensures
        -0x4000_0000_0000_0000 <= w * x <= 0x4000_0000_0000_0000,
{
    assert(-0x4000_0000_0000_0000 <= w * x <= 0x4000_0000_0000_0000) by (nonlinear_arith)
        requires
            -0x8000_0000 <= w <= 0x8000_0000,
            -0x8000_0000 <= x <= 0x8000_0000,
    ;
}

impl Layer {
    /// The affine transform for output `row`: its bias and the weighted sum of
    /// all inputs.
    fn affine(&self, input: &Vec<i32>, row: usize) -> (r: i128)
        requires
            self@.shaped(),
            input@.len() == self.inputs,
            row < self.outputs,
        ensures
            r == self@.affine(input@, row as int),
    {
        let mut sum: i128 = 0;
        let mut col: usize = 0;
        let count = self.weights.len();
        proof {
            lemma_weight_index(self.inputs as int, self.outputs as int, row as int, 0);
        }
        let base = row * self.inputs;
        while col < self.inputs
            invariant
                self@.shaped(),
                input@.len() == self.inputs,
                row < self.outputs,
                base == row * self.inputs,
                count == self.weights@.len(),
                col <= self.inputs,
                sum == self@.weighted(input@, row as int, col as nat),
                -0x4000_0000_0000_0000 * col <= sum <= 0x4000_0000_0000_0000 * col,
            decreases self.inputs - col,
        {
            proof {
                lemma_weight_index(self.inputs as int, self.outputs as int, row as int, col as int);
                lemma_product_limits(self.weights@[base + col], input@[col as int]);
            }
            let w = self.weights[base + col] as i128;
            let x = input[col] as i128;
            sum = sum + w * x;
            col += 1;
        }
        sum + self.bias[row] as i128
    }

    /// What the layer gives for an input: for each output the affine transform,
    /// rectified unless the layer is the last of its network, and held within
    /// the limits of an activation.
    pub fn output(&self, input: &Vec<i32>, last: bool) -> (r: Vec<i32>)
        requires
            self@.shaped(),
            input@.len() == self.inputs,
        ensures
            r@ == self@.output(input@, last),
    {
        let mut out: Vec<i32> = Vec::new();
        let mut row: usize = 0;
        while row < self.outputs
            invariant
                self@.shaped(),
                input@.len() == self.inputs,
                row <= self.outputs,
                out@.len() == row,
                forall|k: int| 0 <= k < row ==> out@[k] == self@.output(input@, last)[k],
            decreases self.outputs - row,
        {
            let sum = self.affine(input, row);
            let held = if sum < 0 && !last {
                0
            } else if sum > ACTIVATION_LIMIT as i128 {
                ACTIVATION_LIMIT
            } else if sum < -(ACTIVATION_LIMIT as i128) {
                -ACTIVATION_LIMIT
            } else {
                sum as i32
            };
            out.push(held);
            row += 1;
        }
        out
    }
}

/// The first fault of a row of layers, going from the input to the output and
/// looking in each layer first at its shape and then at how it follows the one
/// before; `None` if the layers can follow one another in a network.
pub open spec fn first_fault(layers: Seq<LayerModel>, n: nat) -> Option<ConfigError>
    decreases n,
{
    if n == 0 {
        None
    } else if first_fault(layers, (n - 1) as nat) is Some {
        first_fault(layers, (n - 1) as nat)
    } else {
        let layer = layers[n - 1];
        if layer.inputs == 0 || layer.outputs == 0 {
            Some(ConfigError::EmptyLayer)
        } else if !layer.shaped() || (n >= 2 && layers[n - 2].outputs != layer.inputs) {
            Some(ConfigError::ShapeMismatch)
        } else {
            None
        }
    }
}

/// Layers without a fault can follow one another.
proof fn lemma_no_fault(layers: Seq<LayerModel>, n: nat)
    requires
        n <= layers.len(),
        first_fault(layers, n) is None,
    ensures
        forall|i: int| 0 <= i < n ==> (#[trigger] layers[i]).shaped(),
        forall|i: int| 0 <= i < n - 1 ==> (#[trigger] layers[i]).outputs == layers[i + 1].inputs,
    decreases n,
{
    if n > 0 {
        lemma_no_fault(layers, (n - 1) as nat);
    }
}

/// Layers that can follow one another have no fault.
proof fn lemma_chained_no_fault(layers: Seq<LayerModel>, n: nat)
    requires
        n <= layers.len(),
        chained(layers),
    ensures
        first_fault(layers, n) is None,
    decreases n,
{
    if n > 0 {
        lemma_chained_no_fault(layers, (n - 1) as nat);
    }
}

/// What is wrong with two widths that are to be the inputs and the outputs of a
/// layer: `EmptyLayer` if one of them is 0, `TooLarge` if the layer would hold
/// more weights than a `usize` can count, and `None` if nothing is wrong.
pub open spec fn pair_fault(inputs: usize, outputs: usize) -> Option<ConfigError> {
    if inputs == 0 || outputs == 0 {
        Some(ConfigError::EmptyLayer)
    } else if inputs * outputs > usize::MAX {
        Some(ConfigError::TooLarge)
    } else {
        None
    }
}

/// The first fault among the first `n` pairs of widths that follow one
/// another, or `None` if none of them has a fault.
pub open spec fn widths_fault(widths: Seq<usize>, n: nat) -> Option<ConfigError>
    decreases n,
{
    if n == 0 {
        None
    } else if widths_fault(widths, (n - 1) as nat) is Some {
        widths_fault(widths, (n - 1) as nat)
    } else {
        pair_fault(widths[n - 1], widths[n as int])
    }
}

/// Whether every weight and every bias of the layers lies within `spread` of 0.
pub open spec fn within(layers: Seq<LayerModel>, spread: int) -> bool {
    forall|i: int| 0 <= i < layers.len() ==> (#[trigger] layers[i]).within(spread)
}

/// A row of `count` numbers within `spread` of 0: all of them 0 when `spread`
/// is 0, and else drawn at random.
fn draw_row(count: usize, spread: u16) -> (r: Vec<i32>)
    ensures
        r@.len() == count,
        forall|k: int| 0 <= k < count ==> -spread <= #[trigger] r@[k] <= spread,
{
    let mut row: Vec<i32> = Vec::new();
    let mut k: usize = 0;
    while k < count
        invariant
            k <= count,
            row@.len() == k,
            forall|j: int| 0 <= j < k ==> -spread <= #[trigger] row@[j] <= spread,
        decreases count - k,
    {
        let value = if spread == 0 {
            0
        } else {
            let roll = random_below(2 * (spread as usize) + 1);
            roll as i32 - spread as i32
        };
        row.push(value);
        k += 1;
    }
    row
}

impl Network {
    /// Builds a network of the widths given: the first is the width of the
    /// input, and each one after it the width of what one more layer gives.
    /// Every weight and every bias lies within `spread` of 0, drawn at random;
    /// with a `spread` of 0 all of them are 0.
    ///
    /// Fails with `TooFewLayers` for fewer than two widths, and else with the
    /// first fault among the pairs of widths that follow one another.
    pub fn from(widths: &Vec<usize>, spread: u16) -> (r: Result<Network, ConfigError>)
        ensures
            match r {
                Ok(net) => {
                    &&& widths@.len() >= 2
                    &&& widths_fault(widths@, (widths@.len() - 1) as nat) is None
                    &&& net.valid()
                    &&& widths_of(net@) == widths@.map_values(|w: usize| w as nat)
                    &&& within(net@, spread as int)
                },
                Err(e) => if widths@.len() < 2 {
                    e == ConfigError::TooFewLayers
                } else {
                    widths_fault(widths@, (widths@.len() - 1) as nat) == Some(e)
                },
            },
    {
        if widths.len() < 2 {
            return Err(ConfigError::TooFewLayers);
        }
        let mut layers: Vec<Layer> = Vec::new();
        let mut i: usize = 0;
        let pairs = widths.len() - 1;
        while i < pairs
            invariant
                pairs == widths@.len() - 1,
                i <= pairs,
                layers@.len() == i,
                widths_fault(widths@, i as nat) is None,
                forall|k: int|
                    0 <= k < i ==> {
                        &&& (#[trigger] layers@[k])@.shaped()
                        &&& layers@[k].inputs == widths@[k]
                        &&& layers@[k].outputs == widths@[k + 1]
                    },
                forall|k: int| 0 <= k < i ==> (#[trigger] layers@[k])@.within(spread as int),
            decreases pairs - i,
        {
            let inputs = widths[i];
            let outputs = widths[i + 1];
            if inputs == 0 || outputs == 0 {
                proof {
                    lemma_widths_fault_stays(widths@, (i + 1) as nat, pairs as nat);
                }
                return Err(ConfigError::EmptyLayer);
            }
            let count = match inputs.checked_mul(outputs) {
                Some(count) => count,
                None => {
                    proof {
                        lemma_widths_fault_stays(widths@, (i + 1) as nat, pairs as nat);
                    }
                    return Err(ConfigError::TooLarge);
                },
            };
            let weights = draw_row(count, spread);
            let bias = draw_row(outputs, spread);
            layers.push(Layer { inputs, outputs, weights, bias });
            i += 1;
        }
        Ok(Network { layers })
    }
}

/// A fault found among the first pairs of widths is the first fault of all.
proof fn lemma_widths_fault_stays(widths: Seq<usize>, n: nat, m: nat)
    requires
        n <= m,
        widths_fault(widths, n) is Some,
    ensures
        widths_fault(widths, m) == widths_fault(widths, n),
    decreases m - n,
{
    if n < m {
        lemma_widths_fault_stays(widths, n, (m - 1) as nat);
    }
}

impl Network {
    /// Whether the layers of the network can follow one another. Every network
    /// that this module builds is valid.
    pub open spec fn valid(&self) -> bool {
        chained(self@)
    }

    /// Builds a network from its layers, the first one next to the input.
    /// Fails with `TooFewLayers` if there is no layer, and else with the first
    /// fault among the layers: `EmptyLayer` for a layer without inputs or
    /// outputs, `ShapeMismatch` for one whose weights or biases do not fill its
    /// shape or which does not take what the layer before it gives.
    pub fn from_layers(layers: Vec<Layer>) -> (r: Result<Network, ConfigError>)
        ensures
            match r {
                Ok(net) => {
                    &&& net@ == Seq::new(layers@.len(), |i: int| layers@[i]@)
                    &&& net.valid()
                },
                Err(e) => {
                    let models = Seq::new(layers@.len(), |i: int| layers@[i]@);
                    if layers@.len() == 0 {
                        e == ConfigError::TooFewLayers
                    } else {
                        first_fault(models, models.len()) == Some(e)
                    }
                },
            },
            r is Ok <==> chained(Seq::new(layers@.len(), |i: int| layers@[i]@)),
    {
        let ghost models = Seq::new(layers@.len(), |i: int| layers@[i]@);
        if layers.len() == 0 {
            return Err(ConfigError::TooFewLayers);
        }
        let mut i: usize = 0;
        while i < layers.len()
            invariant
                i <= layers@.len(),
                models == Seq::new(layers@.len(), |i: int| layers@[i]@),
                first_fault(models, i as nat) is None,
            decreases layers@.len() - i,
        {
            let layer = &layers[i];
            if layer.inputs == 0 || layer.outputs == 0 {
                proof {
                    lemma_fault_stays(models, (i + 1) as nat, models.len());
                }
                return Err(ConfigError::EmptyLayer);
            }
            let held = layer.weights.len();
            let fits = match layer.inputs.checked_mul(layer.outputs) {
                Some(count) => held == count,
                None => false,
            };
            let follows = i == 0 || layers[i - 1].outputs == layer.inputs;
            if !fits || layer.bias.len() != layer.outputs || !follows {
                proof {
                    lemma_fault_stays(models, (i + 1) as nat, models.len());
                }
                return Err(ConfigError::ShapeMismatch);
            }
            i += 1;
        }
        proof {
            lemma_no_fault(models, models.len());
        }
        let net = Network { layers };
        Ok(net)
    }
}

impl Network {
    /// Width of the input that the network takes.
    pub fn input_width(&self) -> (r: usize)
        requires
            self.valid(),
        ensures
            r == self@[0].inputs,
    {
        self.layers[0].inputs
    }

    /// Width of what the network gives.
    pub fn output_width(&self) -> (r: usize)
        requires
            self.valid(),
        ensures
            r == self@.last().outputs,
            r > 0,
    {
        let n = self.layers.len();
        self.layers[n - 1].outputs
    }

    /// Runs an input through the network, layer by layer: each layer applies
    /// its affine transform, every layer but the last rectifies what comes out,
    /// and every activation is held within its limits. Fails with
    /// `ShapeMismatch` for an input that is not as wide as the first layer
    /// takes.
    pub fn forward(&self, input: &Vec<i32>) -> (r: Result<Vec<i32>, ConfigError>)
        requires
            self.valid(),
        ensures
            r is Ok <==> input@.len() == self@[0].inputs,
            r matches Ok(out) ==> out@ == forward(self@, input@, self@.len()) && out@.len()
                == self@.last().outputs,
            r matches Err(e) ==> e == ConfigError::ShapeMismatch,
    {
        let n = self.layers.len();
        assert forall|k: int| 0 <= k < n implies self@[k] == (#[trigger] self.layers@[k])@ by {}
        if input.len() != self.layers[0].inputs {
            return Err(ConfigError::ShapeMismatch);
        }
        let mut current = self.layers[0].output(input, n == 1);
        let mut k: usize = 1;
        assert(forward(self@, input@, 0) == input@);
        while k < n
            invariant
                n == self.layers@.len() == self@.len(),
                chained(self@),
                forall|k: int| 0 <= k < n ==> self@[k] == (#[trigger] self.layers@[k])@,
                1 <= k <= n,
                current@ == forward(self@, input@, k as nat),
                current@.len() == self@[k - 1].outputs,
            decreases n - k,
        {
            current = self.layers[k].output(&current, k + 1 == n);
            k += 1;
        }
        Ok(current)
    }
}

/// A position that can be laid out as a row of numbers for a network.
pub trait Featured: Position {
    /// The `k`-th number of the row. A position has as many numbers as it has;
    /// past them the row goes on with zeros, so that it can be cut or filled to
    /// any width.
    spec fn feature(state: Self::V, k: int) -> i32;

    /// The `k`-th number of the row.
    fn feature_at(&self, k: usize) -> (r: i32)
        requires
            self.wf(),
        ensures
            r == Self::feature(self@, k as int),
    ;
}

/// The first `width` numbers of the row of a position.
pub open spec fn features<P: Featured>(state: P::V, width: nat) -> Seq<i32> {
    Seq::new(width, |k: int| P::feature(state, k))
}

impl<P: Featured> Evaluator<P> for Network {
    open spec fn wf(&self) -> bool {
        self.valid()
    }

    /// The first output of the network for the row of the position, cut or
    /// filled to the width of the network's input.
    open spec fn score(&self, state: P::V) -> int {
        forward(self@, features::<P>(state, self@[0].inputs), self@.len())[0] as int
    }

    fn evaluate(&self, state: &P) -> (r: i64) {
        let width = self.input_width();
        let mut input: Vec<i32> = Vec::new();
        let mut k: usize = 0;
        while k < width
            invariant
                state.wf(),
                k <= width,
                input@.len() == k,
                forall|j: int| 0 <= j < k ==> input@[j] == P::feature(state@, j),
            decreases width - k,
        {
            input.push(state.feature_at(k));
            k += 1;
        }
        assert(input@ =~= features::<P>(state@, width as nat));
        match self.forward(&input) {
            Ok(out) => out[0] as i64,
            Err(_) => unreached(),
        }
    }
}

/// A fault found among the first layers is the first fault of all of them.
proof fn lemma_fault_stays(layers: Seq<LayerModel>, n: nat, m: nat)
    requires
        n <= m,
        first_fault(layers, n) is Some,
    ensures
        first_fault(layers, m) == first_fault(layers, n),
    decreases m - n,
{
    if n < m {
        lemma_fault_stays(layers, n, (m - 1) as nat);
    }
}

} // verus!
