//! An ordered stack of layers built on [`crate::matrix`]: forward
//! inference, mean-squared-error loss, gradient-descent backpropagation and
//! weight persistence.
//!
//! Every spec below is stated over the architecture (the layer widths and
//! activation kinds), the sequences of weight and bias grids, and the named
//! scalar operations, so the contracts pin every produced cell exactly.

use vstd::prelude::*;
use crate::activation::{apply_bits, derive_bits, Activation};
use crate::error::Error;
use crate::matrix::{
    add_grid, col_sum, copy_grid, from_ok, grid_fold, grid_wf, had_grid, mul_grid, rows_view,
    sub_grid, transpose_of, Matrix,
};
use crate::scalar::{
    int_bits, prod_bits, quot_bits, sum_bits, scalar_add, scalar_div, scalar_from_int,
    NEG_ONE_BITS, ONE_BITS, ZERO_BITS,
};

verus! {

/// The sequence of matrix views of a vector of matrices.
pub open spec fn mats_view(v: Vec<Matrix>) -> Seq<Seq<Seq<u64>>> {
    Seq::new(v@.len(), |i: int| v@[i]@)
}

/// The sequence of grid views of a vector of batches.
pub open spec fn stack_view(v: Vec<Vec<Vec<u64>>>) -> Seq<Seq<Seq<u64>>> {
    Seq::new(v@.len(), |i: int| rows_view(v@[i]))
}

/// A grid with `kind`'s nonlinearity applied to every cell.
pub open spec fn apply_grid(kind: Activation, g: Seq<Seq<u64>>) -> Seq<Seq<u64>> {
    Seq::new(g.len(), |i: int| Seq::new(g[i].len(), |j: int| apply_bits(kind, g[i][j])))
}

/// A grid with `kind`'s derivative applied to every cell.
pub open spec fn derive_grid(kind: Activation, g: Seq<Seq<u64>>) -> Seq<Seq<u64>> {
    Seq::new(g.len(), |i: int| Seq::new(g[i].len(), |j: int| derive_bits(kind, g[i][j])))
}

/// A grid with every cell multiplied by the scalar `c`.
pub open spec fn scale_grid(g: Seq<Seq<u64>>, c: u64) -> Seq<Seq<u64>> {
    Seq::new(g.len(), |i: int| Seq::new(g[i].len(), |j: int| prod_bits(g[i][j], c)))
}

/// The single-row grid of column totals of `g`.
pub open spec fn axis0_of(g: Seq<Seq<u64>>) -> Seq<Seq<u64>> {
    Seq::new(1, |r: int| Seq::new(g[0].len(), |j: int| col_sum(g, j, g.len() as int)))
}

/// The width of layer `i` of an architecture.
pub open spec fn wid(arch: Seq<(usize, Activation)>, i: int) -> int {
    arch[i].0 as int
}

/// The activation kind attached to layer `i` of an architecture.
pub open spec fn act_of(arch: Seq<(usize, Activation)>, i: int) -> Activation {
    arch[i].1
}

/// A usable architecture: at least two layers, each of width at least one.
pub open spec fn arch_ok(arch: Seq<(usize, Activation)>) -> bool {
    &&& arch.len() >= 2
    &&& forall|i: int| 0 <= i < arch.len() ==> (#[trigger] arch[i]).0 >= 1
}

/// The activation grid of layer `i` of a forward pass: the input batch for
/// layer 0, and for each following layer the nonlinearity of layer `i - 1`
/// applied to `previous * weights[i - 1] + biases[i - 1]` (the bias row
/// broadcast across the batch).
pub open spec fn fwd(
    arch: Seq<(usize, Activation)>,
    w: Seq<Seq<Seq<u64>>>,
    b: Seq<Seq<Seq<u64>>>,
    g: Seq<Seq<u64>>,
    i: int,
) -> Seq<Seq<u64>>
    decreases i,
{
    if i <= 0 {
        g
    } else {
        apply_grid(act_of(arch, i - 1), add_grid(mul_grid(fwd(arch, w, b, g, i - 1), w[i - 1]), b[i - 1]))
    }
}

/// The whole forward cache: one activation grid per layer.
pub open spec fn fwd_data(
    arch: Seq<(usize, Activation)>,
    w: Seq<Seq<Seq<u64>>>,
    b: Seq<Seq<Seq<u64>>>,
    g: Seq<Seq<u64>>,
) -> Seq<Seq<Seq<u64>>> {
    Seq::new(arch.len(), |i: int| fwd(arch, w, b, g, i))
}

/// The output batch of a forward pass: the last layer's activation grid.
pub open spec fn fwd_out(
    arch: Seq<(usize, Activation)>,
    w: Seq<Seq<Seq<u64>>>,
    b: Seq<Seq<Seq<u64>>>,
    g: Seq<Seq<u64>>,
) -> Seq<Seq<u64>> {
    fwd(arch, w, b, g, arch.len() - 1)
}

/// The loss gradient that reaches the output of transition `i` during a
/// backward pass: `g0 = outputs - targets` at the last transition, and
/// walking down, the next transition's working gradient propagated through
/// that transition's pre-update weights.
pub open spec fn delta_at(
    arch: Seq<(usize, Activation)>,
    w: Seq<Seq<Seq<u64>>>,
    d: Seq<Seq<Seq<u64>>>,
    g0: Seq<Seq<u64>>,
    i: int,
) -> Seq<Seq<u64>>
    decreases arch.len() - i, 0int,
{
    if i >= arch.len() - 2 {
        g0
    } else {
        mul_grid(zeta_at(arch, w, d, g0, i + 1), transpose_of(w[i + 1]))
    }
}

/// The working gradient of transition `i`: the arriving loss gradient
/// times, cell for cell, the derivative of the transition's activation
/// taken on the cached activation it produced.
pub open spec fn zeta_at(
    arch: Seq<(usize, Activation)>,
    w: Seq<Seq<Seq<u64>>>,
    d: Seq<Seq<Seq<u64>>>,
    g0: Seq<Seq<u64>>,
    i: int,
) -> Seq<Seq<u64>>
    decreases arch.len() - i, 1int,
{
    had_grid(delta_at(arch, w, d, g0, i), derive_grid(act_of(arch, i), d[i + 1]))
}

/// The weight grid of transition `i` after one backward pass:
/// `w[i] - learning_rate * (data[i]^T * zeta)`, cell for cell.
pub open spec fn bp_weight(
    arch: Seq<(usize, Activation)>,
    w: Seq<Seq<Seq<u64>>>,
    d: Seq<Seq<Seq<u64>>>,
    g0: Seq<Seq<u64>>,
    lr: u64,
    i: int,
) -> Seq<Seq<u64>> {
    sub_grid(w[i], scale_grid(mul_grid(transpose_of(d[i]), zeta_at(arch, w, d, g0, i)), lr))
}

/// The bias row of transition `i` after one backward pass:
/// `b[i] - learning_rate * column_totals(zeta)`.
pub open spec fn bp_bias(
    arch: Seq<(usize, Activation)>,
    w: Seq<Seq<Seq<u64>>>,
    b: Seq<Seq<Seq<u64>>>,
    d: Seq<Seq<Seq<u64>>>,
    g0: Seq<Seq<u64>>,
    lr: u64,
    i: int,
) -> Seq<Seq<u64>> {
    sub_grid(b[i], scale_grid(axis0_of(zeta_at(arch, w, d, g0, i)), lr))
}

/// The mean squared error of an output batch against a target batch:
/// `(targets - outputs)` squared cell by cell, folded row-major, divided by
/// the cell count.
pub open spec fn mse_bits(o: Seq<Seq<u64>>, t: Seq<Seq<u64>>) -> u64 {
    let d = sub_grid(t, o);
    quot_bits(
        grid_fold(had_grid(d, d), d.len() as int),
        int_bits((o.len() * o[0].len()) as u64),
    )
}

/// What a forward pass answers for an input batch: a batch that is not a
/// non-empty rectangle is refused as malformed, one whose width is not the
/// input layer's width as mismatched.
pub open spec fn ff_verdict(arch: Seq<(usize, Activation)>, g: Seq<Seq<u64>>) -> Result<(), Error> {
    if !from_ok(g) {
        Err(Error::ShapeError)
    } else if g[0].len() != wid(arch, 0) {
        Err(Error::DimensionMismatch)
    } else {
        Ok(())
    }
}

/// A dense feedforward network: one weight matrix and one bias row per
/// consecutive layer pair, the cached activations of the latest forward
/// pass, the default step size, and the immutable layer stack.
#[derive(Debug)]
pub struct Network {
    pub weights: Vec<Matrix>,
    pub biases: Vec<Matrix>,
    pub data: Vec<Matrix>,
    pub learning_rate: u64,
    pub layers: Vec<(usize, Activation)>,
}

impl Network {
    /// The layer stack: a width and an activation kind per layer.
    pub open spec fn arch(&self) -> Seq<(usize, Activation)> {
        self.layers@
    }

    /// How many layers the network has.
    pub open spec fn depth(&self) -> int {
        self.arch().len() as int
    }

    /// The sequence of weight grids.
    pub open spec fn wgrids(&self) -> Seq<Seq<Seq<u64>>> {
        mats_view(self.weights)
    }

    /// The sequence of bias grids.
    pub open spec fn bgrids(&self) -> Seq<Seq<Seq<u64>>> {
        mats_view(self.biases)
    }

    /// The network invariant: a usable architecture, one weight matrix of
    /// shape `(width[i], width[i+1])` and one bias row of shape
    /// `(1, width[i+1])` per transition, all well-formed.
    pub open spec fn wf(&self) -> bool {
        &&& arch_ok(self.arch())
        &&& self.weights@.len() == self.depth() - 1
        &&& self.biases@.len() == self.depth() - 1
        &&& forall|i: int| 0 <= i < self.depth() - 1 ==> {
            let m = #[trigger] self.weights@[i];
            m.wf() && m.rows as int == wid(self.arch(), i) && m.cols as int == wid(self.arch(), i + 1)
        }
        &&& forall|i: int| 0 <= i < self.depth() - 1 ==> {
            let m = #[trigger] self.biases@[i];
            m.wf() && m.rows as int == 1 && m.cols as int == wid(self.arch(), i + 1)
        }
    }

    /// Whether the forward cache holds one well-formed activation matrix of
    /// the right shape per layer, for a batch of `batch` rows.
    pub open spec fn cache_ok(&self, batch: int) -> bool {
        &&& self.data@.len() == self.depth()
        &&& forall|i: int| 0 <= i < self.depth() ==> {
            let m = #[trigger] self.data@[i];
            m.wf() && m.rows as int == batch && m.cols as int == wid(self.arch(), i)
        }
    }

    /// A network with one weight matrix and one bias row per consecutive
    /// layer pair, each cell drawn independently and uniformly from
    /// `[-1, 1]`, an empty forward cache, and the given step size; refused
    /// with `InvalidArchitecture` for fewer than two layers or a layer of
    /// width zero.
    pub fn new(layers: Vec<(usize, Activation)>, learning_rate: u64) -> (r: Result<Network, Error>)
        ensures
            r.is_ok() <==> arch_ok(layers@),
            r matches Ok(n) ==> {
                &&& n.wf()
                &&& n.arch() == layers@
                &&& n.learning_rate == learning_rate
                &&& n.data@.len() == 0
            },
            r matches Err(e) ==> e == Error::InvalidArchitecture,
    {
        if layers.len() < 2 {
            return Err(Error::InvalidArchitecture);
        }
        let mut c: usize = 0;
        while c < layers.len()
            invariant
                c <= layers@.len(),
                forall|i: int| 0 <= i < c as int ==> (#[trigger] layers@[i]).0 >= 1,
            decreases layers@.len() - c,
        {
            if layers[c].0 == 0 {
                return Err(Error::InvalidArchitecture);
            }
            c += 1;
        }
        let mut weights: Vec<Matrix> = Vec::new();
        let mut biases: Vec<Matrix> = Vec::new();
        let mut i: usize = 0;
        while i < layers.len() - 1
            invariant
                arch_ok(layers@),
                i <= layers@.len() - 1,
                weights@.len() == i as int,
                biases@.len() == i as int,
                forall|k: int| 0 <= k < i as int ==> {
                    let m = #[trigger] weights@[k];
                    m.wf() && m.rows as int == wid(layers@, k) && m.cols as int == wid(layers@, k + 1)
                },
                forall|k: int| 0 <= k < i as int ==> {
                    let m = #[trigger] biases@[k];
                    m.wf() && m.rows as int == 1 && m.cols as int == wid(layers@, k + 1)
                },
            decreases layers@.len() - 1 - i,
        {
            proof {
                assert(layers@[i as int].0 >= 1);
                assert(layers@[i as int + 1].0 >= 1);
            }
            weights.push(Matrix::random(layers[i].0, layers[i + 1].0, NEG_ONE_BITS, ONE_BITS));
            biases.push(Matrix::random(1, layers[i + 1].0, NEG_ONE_BITS, ONE_BITS));
            i += 1;
        }
        Ok(Network { weights, biases, data: Vec::new(), learning_rate, layers })
    }

    /// One forward pass.  The batch is checked against the input layer's
    /// width, every intermediate activation (the raw input included) is
    /// cached into `data`, and the last layer's activation batch is
    /// returned.  Nothing else of the network changes.
    pub fn feed_forward(&mut self, inputs: Vec<Vec<u64>>) -> (r: Result<Vec<Vec<u64>>, Error>)
        requires
            old(self).wf(),
        ensures
            final(self).wf(),
            final(self).weights == old(self).weights,
            final(self).biases == old(self).biases,
            final(self).learning_rate == old(self).learning_rate,
            final(self).arch() == old(self).arch(),
            r.is_ok() <==> ff_verdict(old(self).arch(), rows_view(inputs)) is Ok,
            r matches Err(e) ==> {
                &&& ff_verdict(old(self).arch(), rows_view(inputs)) == Err::<(), Error>(e)
                &&& final(self).data == old(self).data
            },
            r matches Ok(out) ==> {
                let g = rows_view(inputs);
                let arch = old(self).arch();
                let w = old(self).wgrids();
                let b = old(self).bgrids();
                &&& final(self).cache_ok(g.len() as int)
                &&& final(self).data@.len() == arch.len()
                &&& forall|i: int| 0 <= i < arch.len() ==>
                    (#[trigger] final(self).data@[i])@ == fwd(arch, w, b, g, i)
                &&& out@.len() == g.len()
                &&& rows_view(out) == fwd_out(arch, w, b, g)
            },
    {
        let m = match Matrix::from(inputs) {
            Ok(m) => m,
            Err(e) => {
                return Err(e);
            },
        };
        if m.cols != self.layers[0].0 {
            return Err(Error::DimensionMismatch);
        }
        let ghost g = m@;
        let ghost arch = self.arch();
        let ghost w = self.wgrids();
        let ghost b = self.bgrids();
        let batch = m.rows;
        let mut current = m;
        self.data = Vec::new();
        self.data.push(current.duplicate());
        let mut i: usize = 0;
        while i < self.layers.len() - 1
            invariant
                self.wf(),
                self.weights == old(self).weights,
                self.biases == old(self).biases,
                self.learning_rate == old(self).learning_rate,
                self.arch() == arch,
                arch == old(self).arch(),
                w == self.wgrids(),
                b == self.bgrids(),
                i <= self.depth() - 1,
                current.wf(),
                current.rows == batch,
                batch as int == g.len(),
                current.cols as int == wid(arch, i as int),
                current@ == fwd(arch, w, b, g, i as int),
                self.data@.len() == i as int + 1,
                forall|k: int| 0 <= k <= i as int ==> {
                    let m = #[trigger] self.data@[k];
                    m.wf() && m.rows as int == g.len() && m.cols as int == wid(arch, k)
                        && m@ == fwd(arch, w, b, g, k)
                },
            decreases self.depth() - 1 - i,
        {
            proof {
                assert(self.weights@[i as int].wf());
                assert(self.biases@[i as int].wf());
                assert(self.wgrids()[i as int] == self.weights@[i as int]@);
                assert(self.bgrids()[i as int] == self.biases@[i as int]@);
            }
            let prod = match current.dot_product(&self.weights[i]) {
                Ok(p) => p,
                Err(_) => vstd::pervasive::unreached(),
            };
            let summed = match prod.add(&self.biases[i]) {
                Ok(s) => s,
                Err(_) => vstd::pervasive::unreached(),
            };
            let kind = self.layers[i].1;
            current = apply_matrix(kind, &summed);
            proof {
                assert(act_of(arch, i as int) == kind);
                assert(current@ == fwd(arch, w, b, g, i as int + 1));
            }
            self.data.push(current.duplicate());
            i += 1;
        }
        Ok(current.data)
    }
}

/// What the loss computation answers for a pair of batches: a malformed
/// batch is refused first (outputs, then targets), then a shape mismatch
/// between the two.
pub open spec fn ce_verdict(o: Seq<Seq<u64>>, t: Seq<Seq<u64>>) -> Result<(), Error> {
    if !from_ok(o) {
        Err(Error::ShapeError)
    } else if !from_ok(t) {
        Err(Error::ShapeError)
    } else if t.len() != o.len() || t[0].len() != o[0].len() {
        Err(Error::DimensionMismatch)
    } else {
        Ok(())
    }
}

impl Network {
    /// What a backward pass answers: malformed targets are refused, then a
    /// target width other than the last layer's, then malformed outputs,
    /// then a shape mismatch between the two batches, then a forward cache
    /// that does not fit the batch.
    pub open spec fn bp_verdict(&self, o: Seq<Seq<u64>>, t: Seq<Seq<u64>>) -> Result<(), Error> {
        if !from_ok(t) {
            Err(Error::ShapeError)
        } else if t[0].len() != wid(self.arch(), self.depth() - 1) {
            Err(Error::DimensionMismatch)
        } else if !from_ok(o) {
            Err(Error::ShapeError)
        } else if o.len() != t.len() || o[0].len() != t[0].len() {
            Err(Error::DimensionMismatch)
        } else if !self.cache_ok(o.len() as int) {
            Err(Error::DimensionMismatch)
        } else {
            Ok(())
        }
    }

    /// The mean squared error of an output batch against a target batch.
    /// Pure: nothing of the network is read or changed.
    pub fn calculate_error(&self, outputs: &Vec<Vec<u64>>, targets: &Vec<Vec<u64>>) -> (r: Result<
        u64,
        Error,
    >)
        requires
            from_ok(rows_view(*outputs)) ==> outputs@.len() * outputs@[0]@.len() <= usize::MAX,
        ensures
            r.is_ok() <==> ce_verdict(rows_view(*outputs), rows_view(*targets)) is Ok,
            r matches Err(e) ==> ce_verdict(rows_view(*outputs), rows_view(*targets)) == Err::<
                (),
                Error,
            >(e),
            r matches Ok(v) ==> v == mse_bits(rows_view(*outputs), rows_view(*targets)),
    {
        let po = match Matrix::from(copy_grid(outputs)) {
            Ok(m) => m,
            Err(e) => {
                return Err(e);
            },
        };
        let pt = match Matrix::from(copy_grid(targets)) {
            Ok(m) => m,
            Err(e) => {
                return Err(e);
            },
        };
        let diff = match pt.subtract(&po) {
            Ok(m) => m,
            Err(e) => {
                return Err(e);
            },
        };
        let sq = diff.square();
        let total = sq.collect_sum();
        let cnt = sq.count();
        Ok(scalar_div(total, scalar_from_int(cnt as u64)))
    }

    /// One backward pass with the given step size.  Walking the transitions
    /// from the last to the first, the arriving loss gradient is first
    /// multiplied, cell for cell, by the derivative of the transition's
    /// activation taken on the cached activation it produced; the weight
    /// gradient is then the transition's cached input transposed times that
    /// working gradient, the bias gradient is the working gradient's column
    /// totals, both are scaled and subtracted in place, and the loss
    /// gradient for the transition below is the working gradient propagated
    /// through the pre-update weights.  On any refusal nothing changes.
    #[verifier::loop_isolation(false)]
    pub fn back_propagate(
        &mut self,
        outputs: Vec<Vec<u64>>,
        targets: Vec<Vec<u64>>,
        learning_rate: u64,
    ) -> (r: Result<(), Error>)
        requires
            old(self).wf(),
        ensures
            final(self).wf(),
            final(self).arch() == old(self).arch(),
            final(self).learning_rate == old(self).learning_rate,
            final(self).data == old(self).data,
            r.is_ok() <==> old(self).bp_verdict(rows_view(outputs), rows_view(targets)) is Ok,
            r matches Err(e) ==> {
                &&& old(self).bp_verdict(rows_view(outputs), rows_view(targets)) == Err::<
                    (),
                    Error,
                >(e)
                &&& *final(self) == *old(self)
            },
            r is Ok ==> {
                let o = rows_view(outputs);
                let t = rows_view(targets);
                let g0 = sub_grid(o, t);
                let arch = old(self).arch();
                let w0 = old(self).wgrids();
                let d0 = mats_view(old(self).data);
                &&& final(self).weights@.len() == old(self).weights@.len()
                &&& final(self).biases@.len() == old(self).biases@.len()
                &&& forall|k: int| 0 <= k < arch.len() - 1 ==> {
                    let m = #[trigger] final(self).weights@[k];
                    &&& m.wf()
                    &&& m.rows == old(self).weights@[k].rows
                    &&& m.cols == old(self).weights@[k].cols
                    &&& m@ == bp_weight(arch, w0, d0, g0, learning_rate, k)
                }
                &&& forall|k: int| 0 <= k < arch.len() - 1 ==> {
                    let m = #[trigger] final(self).biases@[k];
                    &&& m.wf()
                    &&& m.rows == old(self).biases@[k].rows
                    &&& m.cols == old(self).biases@[k].cols
                    &&& m@ == bp_bias(arch, w0, old(self).bgrids(), d0, g0, learning_rate, k)
                }
            },
    {
        let tm = match Matrix::from(targets) {
            Ok(m) => m,
            Err(e) => {
                return Err(e);
            },
        };
        if tm.cols != self.layers[self.layers.len() - 1].0 {
            return Err(Error::DimensionMismatch);
        }
        let om = match Matrix::from(outputs) {
            Ok(m) => m,
            Err(e) => {
                return Err(e);
            },
        };
        if om.rows != tm.rows || om.cols != tm.cols {
            return Err(Error::DimensionMismatch);
        }
        let batch = om.rows;
        if self.data.len() != self.layers.len() {
            return Err(Error::DimensionMismatch);
        }
        let mut ci: usize = 0;
        while ci < self.data.len()
            invariant
                old(self).wf(),
                self == old(self),
                batch as int == rows_view(outputs).len(),
                self.data@.len() == self.depth(),
                ci <= self.data@.len(),
                forall|k: int| 0 <= k < ci as int ==> {
                    let m = #[trigger] self.data@[k];
                    m.wf() && m.rows as int == batch as int && m.cols as int == wid(self.arch(), k)
                },
            decreases self.data@.len() - ci,
        {
            let bad = !self.data[ci].is_wf() || self.data[ci].rows != batch
                || self.data[ci].cols != self.layers[ci].0;
            if bad {
                proof {
                    assert(!self.cache_ok(batch as int));
                }
                return Err(Error::DimensionMismatch);
            }
            ci += 1;
        }
        let ghost o = om@;
        let ghost t = tm@;
        let ghost g0 = sub_grid(o, t);
        let ghost arch = self.arch();
        let ghost w0 = self.wgrids();
        let ghost b0 = self.bgrids();
        let ghost d0 = mats_view(self.data);
        let mut grad = match om.subtract(&tm) {
            Ok(m) => m,
            Err(_) => vstd::pervasive::unreached(),
        };
        let mut i: usize = self.layers.len() - 1;
        while i > 0
            invariant
                old(self).wf(),
                self.wf(),
                self.arch() == arch,
                arch == old(self).arch(),
                self.learning_rate == old(self).learning_rate,
                self.data == old(self).data,
                self.cache_ok(batch as int),
                w0 == old(self).wgrids(),
                b0 == old(self).bgrids(),
                d0 == mats_view(old(self).data),
                g0 == sub_grid(o, t),
                o.len() == batch as int,
                batch >= 1,
                o[0].len() == wid(arch, arch.len() - 1),
                self.weights@.len() == arch.len() - 1,
                self.biases@.len() == arch.len() - 1,
                0 <= i as int <= arch.len() - 1,
                forall|k: int| 0 <= k < i as int ==> #[trigger] self.weights@[k]
                    == old(self).weights@[k],
                forall|k: int| 0 <= k < i as int ==> #[trigger] self.biases@[k]
                    == old(self).biases@[k],
                forall|k: int| i as int <= k < arch.len() - 1 ==> {
                    let m = #[trigger] self.weights@[k];
                    &&& m.wf()
                    &&& m.rows == old(self).weights@[k].rows
                    &&& m.cols == old(self).weights@[k].cols
                    &&& m@ == bp_weight(arch, w0, d0, g0, learning_rate, k)
                },
                forall|k: int| i as int <= k < arch.len() - 1 ==> {
                    let m = #[trigger] self.biases@[k];
                    &&& m.wf()
                    &&& m.rows == old(self).biases@[k].rows
                    &&& m.cols == old(self).biases@[k].cols
                    &&& m@ == bp_bias(arch, w0, b0, d0, g0, learning_rate, k)
                },
                grad.wf(),
                grad.rows == batch,
                grad.cols as int == wid(arch, i as int),
                grad@ == delta_at(arch, w0, d0, g0, i as int - 1),
            decreases i,
        {
            let j = i - 1;
            proof {
                assert(self.data@[j as int].wf());
                assert(self.data@[j as int].rows == batch);
                assert(self.data@[j as int].cols as int == wid(arch, j as int));
                assert(self.data@[j as int + 1].wf());
                assert(self.data@[j as int + 1].rows == batch);
                assert(self.data@[j as int + 1].cols as int == wid(arch, j as int + 1));
                assert(self.weights@[j as int] == old(self).weights@[j as int]);
                assert(self.weights@[j as int].wf());
                assert(self.weights@[j as int].rows as int == wid(arch, j as int));
                assert(self.weights@[j as int].cols as int == wid(arch, j as int + 1));
                assert(self.biases@[j as int] == old(self).biases@[j as int]);
                assert(self.biases@[j as int].wf());
                assert(w0[j as int] == old(self).weights@[j as int]@);
                assert(b0[j as int] == old(self).biases@[j as int]@);
                assert(d0[j as int] == old(self).data@[j as int]@);
                assert(d0[j as int + 1] == old(self).data@[j as int + 1]@);
                assert(grad@ == delta_at(arch, w0, d0, g0, j as int));
            }
            let dm = derive_matrix(self.layers[j].1, &self.data[j + 1]);
            let zeta = match grad.scalar_multiplication(&dm) {
                Ok(m) => m,
                Err(_) => vstd::pervasive::unreached(),
            };
            proof {
                assert(zeta@ == zeta_at(arch, w0, d0, g0, j as int));
            }
            let dt = self.data[j].transpose();
            let de_dw = match dt.dot_product(&zeta) {
                Ok(m) => m,
                Err(_) => vstd::pervasive::unreached(),
            };
            let de_db = match zeta.sum_by_axis(0) {
                Ok(m) => m,
                Err(_) => vstd::pervasive::unreached(),
            };
            proof {
                assert(de_db@.len() == 1);
                assert(de_db@[0] =~= axis0_of(zeta@)[0]);
                assert(de_db@ =~= axis0_of(zeta@));
            }
            let wt = self.weights[j].transpose();
            let sw = scale_matrix(&de_dw, learning_rate);
            let new_w = match self.weights[j].subtract(&sw) {
                Ok(m) => m,
                Err(_) => vstd::pervasive::unreached(),
            };
            let sb = scale_matrix(&de_db, learning_rate);
            let new_b = match self.biases[j].subtract(&sb) {
                Ok(m) => m,
                Err(_) => vstd::pervasive::unreached(),
            };
            self.weights[j] = new_w;
            self.biases[j] = new_b;
            grad = match zeta.dot_product(&wt) {
                Ok(m) => m,
                Err(_) => vstd::pervasive::unreached(),
            };
            proof {
                assert(self.weights@[j as int]@ == bp_weight(arch, w0, d0, g0, learning_rate, j as int));
                assert(self.biases@[j as int]@ == bp_bias(arch, w0, b0, d0, g0, learning_rate, j as int));
                if j as int - 1 < arch.len() - 2 {
                    assert(grad@ == delta_at(arch, w0, d0, g0, j as int - 1));
                }
            }
            i = j;
        }
        Ok(())
    }
}

/// The weight grids after one whole training step on one batch: a forward
/// pass, then a backward pass on its cache and output error.
pub open spec fn step_w(
    arch: Seq<(usize, Activation)>,
    w: Seq<Seq<Seq<u64>>>,
    b: Seq<Seq<Seq<u64>>>,
    g: Seq<Seq<u64>>,
    t: Seq<Seq<u64>>,
    lr: u64,
) -> Seq<Seq<Seq<u64>>> {
    Seq::new(
        (arch.len() - 1) as nat,
        |i: int| bp_weight(arch, w, fwd_data(arch, w, b, g), sub_grid(fwd_out(arch, w, b, g), t), lr, i),
    )
}

/// The bias grids after one whole training step on one batch.
pub open spec fn step_b(
    arch: Seq<(usize, Activation)>,
    w: Seq<Seq<Seq<u64>>>,
    b: Seq<Seq<Seq<u64>>>,
    g: Seq<Seq<u64>>,
    t: Seq<Seq<u64>>,
    lr: u64,
) -> Seq<Seq<Seq<u64>>> {
    Seq::new(
        (arch.len() - 1) as nat,
        |i: int| bp_bias(arch, w, b, fwd_data(arch, w, b, g), sub_grid(fwd_out(arch, w, b, g), t), lr, i),
    )
}

/// The loss contributed by one batch: the mean squared error of its
/// forward output against its targets, before that batch's update.
pub open spec fn step_err(
    arch: Seq<(usize, Activation)>,
    w: Seq<Seq<Seq<u64>>>,
    b: Seq<Seq<Seq<u64>>>,
    g: Seq<Seq<u64>>,
    t: Seq<Seq<u64>>,
) -> u64 {
    mse_bits(fwd_out(arch, w, b, g), t)
}

/// The weight and bias grids after the first `k` batches of one epoch,
/// each batch trained on the state the previous one left.
pub open spec fn epoch_wb(
    arch: Seq<(usize, Activation)>,
    w: Seq<Seq<Seq<u64>>>,
    b: Seq<Seq<Seq<u64>>>,
    ins: Seq<Seq<Seq<u64>>>,
    tgs: Seq<Seq<Seq<u64>>>,
    lr: u64,
    k: int,
) -> (Seq<Seq<Seq<u64>>>, Seq<Seq<Seq<u64>>>)
    decreases k,
{
    if k <= 0 {
        (w, b)
    } else {
        let (pw, pb) = epoch_wb(arch, w, b, ins, tgs, lr, k - 1);
        (step_w(arch, pw, pb, ins[k - 1], tgs[k - 1], lr), step_b(arch, pw, pb, ins[k - 1], tgs[k - 1], lr))
    }
}

/// The running error total over the first `k` batches of one epoch, folded
/// with the scalar sum in batch order from zero.
pub open spec fn epoch_err(
    arch: Seq<(usize, Activation)>,
    w: Seq<Seq<Seq<u64>>>,
    b: Seq<Seq<Seq<u64>>>,
    ins: Seq<Seq<Seq<u64>>>,
    tgs: Seq<Seq<Seq<u64>>>,
    lr: u64,
    k: int,
) -> u64
    decreases k,
{
    if k <= 0 {
        ZERO_BITS
    } else {
        let (pw, pb) = epoch_wb(arch, w, b, ins, tgs, lr, k - 1);
        sum_bits(
            epoch_err(arch, w, b, ins, tgs, lr, k - 1),
            step_err(arch, pw, pb, ins[k - 1], tgs[k - 1]),
        )
    }
}

/// The forward cache a non-empty epoch leaves behind: the cache of its
/// last batch's forward pass, taken in the state the earlier batches left.
pub open spec fn epoch_cache(
    arch: Seq<(usize, Activation)>,
    w: Seq<Seq<Seq<u64>>>,
    b: Seq<Seq<Seq<u64>>>,
    ins: Seq<Seq<Seq<u64>>>,
    tgs: Seq<Seq<Seq<u64>>>,
    lr: u64,
) -> Seq<Seq<Seq<u64>>> {
    let k = ins.len() as int - 1;
    let (pw, pb) = epoch_wb(arch, w, b, ins, tgs, lr, k);
    fwd_data(arch, pw, pb, ins[k])
}

/// What one batch of an epoch is checked against before any training: the
/// input batch must be a non-empty rectangle of the input layer's width,
/// the target batch a non-empty rectangle of the last layer's width with
/// one row per input row.
pub open spec fn batch_verdict(w0: int, wl: int, g: Seq<Seq<u64>>, t: Seq<Seq<u64>>) -> Result<
    (),
    Error,
> {
    if !from_ok(g) {
        Err(Error::ShapeError)
    } else if g[0].len() != w0 {
        Err(Error::DimensionMismatch)
    } else if !from_ok(t) {
        Err(Error::ShapeError)
    } else if t.len() != g.len() || t[0].len() != wl {
        Err(Error::DimensionMismatch)
    } else {
        Ok(())
    }
}

/// The first refusal among the batches from `k` on, if any.
pub open spec fn scan_verdict(
    w0: int,
    wl: int,
    ins: Seq<Seq<Seq<u64>>>,
    tgs: Seq<Seq<Seq<u64>>>,
    k: int,
) -> Result<(), Error>
    decreases ins.len() - k,
{
    if k >= ins.len() {
        Ok(())
    } else {
        match batch_verdict(w0, wl, ins[k], tgs[k]) {
            Ok(u) => scan_verdict(w0, wl, ins, tgs, k + 1),
            Err(e) => Err(e),
        }
    }
}

/// What an epoch answers before training: the two batch lists must pair
/// up, and every pair must pass `batch_verdict`.
pub open spec fn epoch_verdict(
    w0: int,
    wl: int,
    ins: Seq<Seq<Seq<u64>>>,
    tgs: Seq<Seq<Seq<u64>>>,
) -> Result<(), Error> {
    if ins.len() != tgs.len() {
        Err(Error::DimensionMismatch)
    } else {
        scan_verdict(w0, wl, ins, tgs, 0)
    }
}

/// The weight and bias grids after `e` whole epochs.
pub open spec fn train_wb(
    arch: Seq<(usize, Activation)>,
    w: Seq<Seq<Seq<u64>>>,
    b: Seq<Seq<Seq<u64>>>,
    ins: Seq<Seq<Seq<u64>>>,
    tgs: Seq<Seq<Seq<u64>>>,
    lr: u64,
    e: int,
) -> (Seq<Seq<Seq<u64>>>, Seq<Seq<Seq<u64>>>)
    decreases e,
{
    if e <= 0 {
        (w, b)
    } else {
        let (pw, pb) = train_wb(arch, w, b, ins, tgs, lr, e - 1);
        epoch_wb(arch, pw, pb, ins, tgs, lr, ins.len() as int)
    }
}

/// The mean epoch errors of `e` whole epochs, in epoch order.
pub open spec fn train_errs(
    arch: Seq<(usize, Activation)>,
    w: Seq<Seq<Seq<u64>>>,
    b: Seq<Seq<Seq<u64>>>,
    ins: Seq<Seq<Seq<u64>>>,
    tgs: Seq<Seq<Seq<u64>>>,
    lr: u64,
    e: int,
) -> Seq<u64>
    decreases e,
{
    if e <= 0 {
        Seq::empty()
    } else {
        let (pw, pb) = train_wb(arch, w, b, ins, tgs, lr, e - 1);
        train_errs(arch, w, b, ins, tgs, lr, e - 1).push(
            quot_bits(
                epoch_err(arch, pw, pb, ins, tgs, lr, ins.len() as int),
                int_bits(ins.len() as u64),
            ),
        )
    }
}

/// Whether a non-empty rectangle stands in the vector of rows.
fn grid_check(v: &Vec<Vec<u64>>) -> (b: bool)
    ensures
        b == from_ok(rows_view(*v)),
{
    if v.len() == 0 {
        return false;
    }
    let c = v[0].len();
    if c == 0 {
        return false;
    }
    let mut i: usize = 1;
    while i < v.len()
        invariant
            1 <= i <= v@.len(),
            c == v@[0]@.len(),
            forall|k: int| 0 <= k < i as int ==> (#[trigger] rows_view(*v)[k]).len() == c as int,
        decreases v@.len() - i,
    {
        if v[i].len() != c {
            proof {
                assert(rows_view(*v)[i as int] == v@[i as int]@);
            }
            return false;
        }
        i += 1;
    }
    true
}

/// One batch pair checked against the two end widths.
fn batch_check(w0: usize, wl: usize, g: &Vec<Vec<u64>>, t: &Vec<Vec<u64>>) -> (r: Result<
    (),
    Error,
>)
    ensures
        r == batch_verdict(w0 as int, wl as int, rows_view(*g), rows_view(*t)),
{
    if !grid_check(g) {
        return Err(Error::ShapeError);
    }
    if g[0].len() != w0 {
        return Err(Error::DimensionMismatch);
    }
    if !grid_check(t) {
        return Err(Error::ShapeError);
    }
    if t.len() != g.len() || t[0].len() != wl {
        return Err(Error::DimensionMismatch);
    }
    Ok(())
}

impl Network {
    /// One training epoch: the paired batches, in the given order, each go
    /// through a forward pass, the loss computation and a backward pass
    /// with the given step size, so each batch trains on the state the
    /// previous one left; the answer is the mean of the per-batch losses.
    /// All batches are checked first, and on any refusal nothing changes.
    #[verifier::loop_isolation(false)]
    pub fn train_one_epoch(
        &mut self,
        inputs: &Vec<Vec<Vec<u64>>>,
        targets: &Vec<Vec<Vec<u64>>>,
        learning_rate: u64,
    ) -> (r: Result<u64, Error>)
        requires
            old(self).wf(),
            forall|k: int| 0 <= k < targets@.len() ==> (#[trigger] targets@[k])@.len()
                * targets@[k]@[0]@.len() <= usize::MAX,
        ensures
            final(self).wf(),
            final(self).arch() == old(self).arch(),
            final(self).learning_rate == old(self).learning_rate,
            r.is_ok() <==> epoch_verdict(
                wid(old(self).arch(), 0),
                wid(old(self).arch(), old(self).depth() - 1),
                stack_view(*inputs),
                stack_view(*targets),
            ) is Ok,
            r matches Err(e) ==> {
                &&& epoch_verdict(
                    wid(old(self).arch(), 0),
                    wid(old(self).arch(), old(self).depth() - 1),
                    stack_view(*inputs),
                    stack_view(*targets),
                ) == Err::<(), Error>(e)
                &&& *final(self) == *old(self)
            },
            r matches Ok(v) ==> {
                let arch = old(self).arch();
                let w0 = old(self).wgrids();
                let b0 = old(self).bgrids();
                let ins = stack_view(*inputs);
                let tgs = stack_view(*targets);
                let n = ins.len() as int;
                &&& final(self).wgrids() == epoch_wb(arch, w0, b0, ins, tgs, learning_rate, n).0
                &&& final(self).bgrids() == epoch_wb(arch, w0, b0, ins, tgs, learning_rate, n).1
                &&& v == quot_bits(
                    epoch_err(arch, w0, b0, ins, tgs, learning_rate, n),
                    int_bits(n as u64),
                )
                &&& n == 0 ==> final(self).data == old(self).data
                &&& n > 0 ==> final(self).cache_ok(ins[n - 1].len() as int)
                &&& n > 0 ==> mats_view(final(self).data) == epoch_cache(
                    arch,
                    w0,
                    b0,
                    ins,
                    tgs,
                    learning_rate,
                )
            },
    {
        let w0 = self.layers[0].0;
        let wl = self.layers[self.layers.len() - 1].0;
        if inputs.len() != targets.len() {
            return Err(Error::DimensionMismatch);
        }
        let ghost ins = stack_view(*inputs);
        let ghost tgs = stack_view(*targets);
        let mut k: usize = 0;
        while k < inputs.len()
            invariant
                k <= inputs@.len(),
                scan_verdict(w0 as int, wl as int, ins, tgs, 0) == scan_verdict(
                    w0 as int,
                    wl as int,
                    ins,
                    tgs,
                    k as int,
                ),
                forall|m: int| 0 <= m < k as int ==> batch_verdict(
                    w0 as int,
                    wl as int,
                    ins[m],
                    tgs[m],
                ) is Ok,
            decreases inputs@.len() - k,
        {
            proof {
                assert(ins[k as int] == rows_view(inputs@[k as int]));
                assert(tgs[k as int] == rows_view(targets@[k as int]));
            }
            match batch_check(w0, wl, &inputs[k], &targets[k]) {
                Ok(_) => {},
                Err(e) => {
                    return Err(e);
                },
            }
            k += 1;
        }
        let ghost arch = self.arch();
        let ghost gw0 = self.wgrids();
        let ghost gb0 = self.bgrids();
        let mut acc: u64 = ZERO_BITS;
        let mut k: usize = 0;
        while k < inputs.len()
            invariant
                self.wf(),
                self.arch() == arch,
                self.learning_rate == old(self).learning_rate,
                k <= inputs@.len(),
                self.wgrids() == epoch_wb(arch, gw0, gb0, ins, tgs, learning_rate, k as int).0,
                self.bgrids() == epoch_wb(arch, gw0, gb0, ins, tgs, learning_rate, k as int).1,
                acc == epoch_err(arch, gw0, gb0, ins, tgs, learning_rate, k as int),
                k == 0 ==> self.data == old(self).data,
                k > 0 ==> self.cache_ok(ins[k as int - 1].len() as int),
                k > 0 ==> mats_view(self.data) == fwd_data(
                    arch,
                    epoch_wb(arch, gw0, gb0, ins, tgs, learning_rate, k as int - 1).0,
                    epoch_wb(arch, gw0, gb0, ins, tgs, learning_rate, k as int - 1).1,
                    ins[k as int - 1],
                ),
            decreases inputs@.len() - k,
        {
            let ghost pw = self.wgrids();
            let ghost pb = self.bgrids();
            let ghost gk = ins[k as int];
            let ghost tk = tgs[k as int];
            proof {
                assert(batch_verdict(w0 as int, wl as int, ins[k as int], tgs[k as int]) is Ok);
                assert(gk == rows_view(inputs@[k as int]));
                assert(tk == rows_view(targets@[k as int]));
            }
            let out = match self.feed_forward(copy_grid(&inputs[k])) {
                Ok(o) => o,
                Err(_) => vstd::pervasive::unreached(),
            };
            proof {
                assert(rows_view(out) == fwd_out(arch, pw, pb, gk));
                assert(self.cache_ok(gk.len() as int));
                assert(self.data@[arch.len() - 1]@ == rows_view(out));
                assert(self.data@[arch.len() - 1].wf());
                assert(rows_view(out).len() == gk.len());
                assert(rows_view(out)[0].len() == wid(arch, arch.len() - 1)) by {
                    assert(self.data@[arch.len() - 1].cols as int == wid(arch, arch.len() - 1));
                    assert(self.data@[arch.len() - 1]@[0].len()
                        == self.data@[arch.len() - 1].cols as int);
                }
                assert(from_ok(rows_view(out))) by {
                    let m = self.data@[arch.len() - 1];
                    assert(forall|i: int| 0 <= i < m@.len() ==> (#[trigger] m@[i]).len()
                        == m.cols as int);
                }
                assert(out@.len() * out@[0]@.len() <= usize::MAX) by {
                    assert(rows_view(out)[0] == out@[0]@);
                    assert(tk.len() * tk[0].len() <= usize::MAX);
                    assert(rows_view(out).len() == tk.len());
                    assert(rows_view(out)[0].len() == tk[0].len());
                }
            }
            let e = match self.calculate_error(&out, &targets[k]) {
                Ok(v) => v,
                Err(_) => vstd::pervasive::unreached(),
            };
            acc = scalar_add(acc, e);
            let ghost dcache = mats_view(self.data);
            proof {
                assert(self.bp_verdict(rows_view(out), tk) is Ok);
                assert(dcache =~= fwd_data(arch, pw, pb, gk));
            }
            match self.back_propagate(out, copy_grid(&targets[k]), learning_rate) {
                Ok(_) => {},
                Err(_) => vstd::pervasive::unreached(),
            }
            proof {
                let g0k = sub_grid(fwd_out(arch, pw, pb, gk), tk);
                assert(self.wgrids() =~= step_w(arch, pw, pb, gk, tk, learning_rate)) by {
                    assert(forall|i: int| 0 <= i < arch.len() - 1 ==> (#[trigger] self.weights@[i])@
                        == bp_weight(arch, pw, dcache, g0k, learning_rate, i));
                }
                assert(self.bgrids() =~= step_b(arch, pw, pb, gk, tk, learning_rate)) by {
                    assert(forall|i: int| 0 <= i < arch.len() - 1 ==> (#[trigger] self.biases@[i])@
                        == bp_bias(arch, pw, pb, dcache, g0k, learning_rate, i));
                }
                assert(e == step_err(arch, pw, pb, gk, tk));
                assert(epoch_wb(arch, gw0, gb0, ins, tgs, learning_rate, k as int + 1).0
                    == step_w(arch, pw, pb, gk, tk, learning_rate));
                assert(epoch_wb(arch, gw0, gb0, ins, tgs, learning_rate, k as int + 1).1
                    == step_b(arch, pw, pb, gk, tk, learning_rate));
            }
            k += 1;
        }
        Ok(scalar_div(acc, scalar_from_int(inputs.len() as u64)))
    }

    /// Repeated epochs with the network's own step size: the answer is the
    /// mean epoch error of each epoch, in order.  With zero epochs nothing
    /// runs and nothing is checked.  On any refusal nothing changes.
    #[verifier::loop_isolation(false)]
    pub fn train(
        &mut self,
        inputs: &Vec<Vec<Vec<u64>>>,
        targets: &Vec<Vec<Vec<u64>>>,
        epochs: usize,
    ) -> (r: Result<Vec<u64>, Error>)
        requires
            old(self).wf(),
            forall|k: int| 0 <= k < targets@.len() ==> (#[trigger] targets@[k])@.len()
                * targets@[k]@[0]@.len() <= usize::MAX,
        ensures
            final(self).wf(),
            final(self).arch() == old(self).arch(),
            final(self).learning_rate == old(self).learning_rate,
            r.is_ok() <==> epochs == 0 || epoch_verdict(
                wid(old(self).arch(), 0),
                wid(old(self).arch(), old(self).depth() - 1),
                stack_view(*inputs),
                stack_view(*targets),
            ) is Ok,
            r matches Err(e) ==> {
                &&& epoch_verdict(
                    wid(old(self).arch(), 0),
                    wid(old(self).arch(), old(self).depth() - 1),
                    stack_view(*inputs),
                    stack_view(*targets),
                ) == Err::<(), Error>(e)
                &&& *final(self) == *old(self)
            },
            r matches Ok(v) ==> {
                let arch = old(self).arch();
                let w0 = old(self).wgrids();
                let b0 = old(self).bgrids();
                let ins = stack_view(*inputs);
                let tgs = stack_view(*targets);
                let lr = old(self).learning_rate;
                &&& v@.len() == epochs
                &&& v@ == train_errs(arch, w0, b0, ins, tgs, lr, epochs as int)
                &&& final(self).wgrids() == train_wb(arch, w0, b0, ins, tgs, lr, epochs as int).0
                &&& final(self).bgrids() == train_wb(arch, w0, b0, ins, tgs, lr, epochs as int).1
                &&& epochs > 0 && ins.len() == 0 ==> final(self).data == old(self).data
                &&& epochs > 0 && ins.len() > 0 ==> mats_view(final(self).data) == epoch_cache(
                    arch,
                    train_wb(arch, w0, b0, ins, tgs, lr, epochs as int - 1).0,
                    train_wb(arch, w0, b0, ins, tgs, lr, epochs as int - 1).1,
                    ins,
                    tgs,
                    lr,
                )
            },
    {
        let mut errs: Vec<u64> = Vec::new();
        if epochs == 0 {
            return Ok(errs);
        }
        let ghost arch = self.arch();
        let ghost gw0 = self.wgrids();
        let ghost gb0 = self.bgrids();
        let ghost ins = stack_view(*inputs);
        let ghost tgs = stack_view(*targets);
        let lr = self.learning_rate;
        let mut e: usize = 0;
        while e < epochs
            invariant
                self.wf(),
                self.arch() == arch,
                self.learning_rate == lr,
                e <= epochs,
                errs@.len() == e as int,
                errs@ == train_errs(arch, gw0, gb0, ins, tgs, lr, e as int),
                self.wgrids() == train_wb(arch, gw0, gb0, ins, tgs, lr, e as int).0,
                self.bgrids() == train_wb(arch, gw0, gb0, ins, tgs, lr, e as int).1,
                e > 0 ==> epoch_verdict(
                    wid(arch, 0),
                    wid(arch, arch.len() - 1),
                    ins,
                    tgs,
                ) is Ok,
                e == 0 ==> *self == *old(self),
                e > 0 && ins.len() == 0 ==> self.data == old(self).data,
                e > 0 && ins.len() > 0 ==> mats_view(self.data) == epoch_cache(
                    arch,
                    train_wb(arch, gw0, gb0, ins, tgs, lr, e as int - 1).0,
                    train_wb(arch, gw0, gb0, ins, tgs, lr, e as int - 1).1,
                    ins,
                    tgs,
                    lr,
                ),
            decreases epochs - e,
        {
            let ghost pw = self.wgrids();
            let ghost pb = self.bgrids();
            let err = match self.train_one_epoch(inputs, targets, lr) {
                Ok(v) => v,
                Err(er) => {
                    proof {
                        assert(e == 0);
                    }
                    return Err(er);
                },
            };
            errs.push(err);
            e += 1;
        }
        Ok(errs)
    }

    /// Whether the progress of epoch `i` of `epochs` (1-based) is worth a
    /// report: every epoch when there are fewer than a hundred, else every
    /// twentieth of the run.
    pub fn should_report(i: usize, epochs: usize) -> (r: bool)
        ensures
            r == (epochs < 100 || i % (epochs / 20) == 0),
    {
        epochs < 100 || i % (epochs / 20) == 0
    }
}

/// Exactly what persistence carries: the weight grids and the bias grids,
/// one per layer transition, and nothing else (not the layer stack, not
/// the step size).
#[derive(Clone, Debug, PartialEq, Eq)]
pub struct SaveData {
    pub weights: Vec<Vec<Vec<u64>>>,
    pub biases: Vec<Vec<Vec<u64>>>,
}

impl Network {
    /// Whether persisted data fits this network: one weight grid and one
    /// bias grid per layer transition, each a rectangle of exactly the
    /// architecture's shape.
    pub open spec fn fits(&self, d: SaveData) -> bool {
        &&& d.weights@.len() == self.depth() - 1
        &&& d.biases@.len() == self.depth() - 1
        &&& forall|i: int| 0 <= i < self.depth() - 1 ==> grid_wf(
            rows_view(#[trigger] d.weights@[i]),
            wid(self.arch(), i),
            wid(self.arch(), i + 1),
        )
        &&& forall|i: int| 0 <= i < self.depth() - 1 ==> grid_wf(
            rows_view(#[trigger] d.biases@[i]),
            1,
            wid(self.arch(), i + 1),
        )
    }

    /// The persistable copy of the current weights and biases, cell for
    /// cell.
    pub fn snapshot(&self) -> (d: SaveData)
        requires
            self.wf(),
        ensures
            self.fits(d),
            d.weights@.len() == self.depth() - 1,
            d.biases@.len() == self.depth() - 1,
            forall|i: int| 0 <= i < self.depth() - 1 ==> rows_view(#[trigger] d.weights@[i])
                == self.weights@[i]@,
            forall|i: int| 0 <= i < self.depth() - 1 ==> rows_view(#[trigger] d.biases@[i])
                == self.biases@[i]@,
    {
        let mut weights: Vec<Vec<Vec<u64>>> = Vec::new();
        let mut biases: Vec<Vec<Vec<u64>>> = Vec::new();
        let mut i: usize = 0;
        while i < self.weights.len()
            invariant
                self.wf(),
                i <= self.weights@.len(),
                weights@.len() == i as int,
                forall|k: int| 0 <= k < i as int ==> rows_view(#[trigger] weights@[k])
                    == self.weights@[k]@,
            decreases self.weights@.len() - i,
        {
            weights.push(copy_grid(&self.weights[i].data));
            i += 1;
        }
        let mut i: usize = 0;
        while i < self.biases.len()
            invariant
                self.wf(),
                i <= self.biases@.len(),
                biases@.len() == i as int,
                forall|k: int| 0 <= k < i as int ==> rows_view(#[trigger] biases@[k])
                    == self.biases@[k]@,
            decreases self.biases@.len() - i,
        {
            biases.push(copy_grid(&self.biases[i].data));
            i += 1;
        }
        let d = SaveData { weights, biases };
        proof {
            assert forall|k: int| 0 <= k < self.depth() - 1 implies grid_wf(
                rows_view(#[trigger] d.weights@[k]),
                wid(self.arch(), k),
                wid(self.arch(), k + 1),
            ) by {
                assert(self.weights@[k].wf());
            }
            assert forall|k: int| 0 <= k < self.depth() - 1 implies grid_wf(
                rows_view(#[trigger] d.biases@[k]),
                1,
                wid(self.arch(), k + 1),
            ) by {
                assert(self.biases@[k].wf());
            }
        }
        d
    }

    /// Overwrites the weights and biases with persisted data, after
    /// checking that the number of layer transitions and every grid's
    /// shape match the live architecture; refused whole with `FormatError`
    /// otherwise, and on refusal nothing changes.  The layer stack, the
    /// step size and the forward cache are untouched.
    #[verifier::loop_isolation(false)]
    pub fn restore(&mut self, d: &SaveData) -> (r: Result<(), Error>)
        requires
            old(self).wf(),
        ensures
            final(self).wf(),
            final(self).arch() == old(self).arch(),
            final(self).learning_rate == old(self).learning_rate,
            final(self).data == old(self).data,
            r.is_ok() <==> old(self).fits(*d),
            r matches Err(e) ==> e == Error::FormatError && *final(self) == *old(self),
            r is Ok ==> {
                &&& forall|i: int| 0 <= i < old(self).depth() - 1 ==>
                    (#[trigger] final(self).weights@[i])@ == rows_view(d.weights@[i])
                &&& forall|i: int| 0 <= i < old(self).depth() - 1 ==>
                    (#[trigger] final(self).biases@[i])@ == rows_view(d.biases@[i])
            },
    {
        let trans = self.layers.len() - 1;
        if d.weights.len() != trans || d.biases.len() != trans {
            return Err(Error::FormatError);
        }
        let mut new_w: Vec<Matrix> = Vec::new();
        let mut i: usize = 0;
        while i < trans
            invariant
                trans as int == self.depth() - 1,
                i <= trans,
                new_w@.len() == i as int,
                forall|k: int| 0 <= k < i as int ==> {
                    let m = #[trigger] new_w@[k];
                    &&& m.wf()
                    &&& m.rows as int == wid(self.arch(), k)
                    &&& m.cols as int == wid(self.arch(), k + 1)
                    &&& m@ == rows_view(d.weights@[k])
                },
            decreases trans - i,
        {
            let m = match Matrix::from(copy_grid(&d.weights[i])) {
                Ok(m) => m,
                Err(_) => {
                    proof {
                        assert(!grid_wf(
                            rows_view(d.weights@[i as int]),
                            wid(self.arch(), i as int),
                            wid(self.arch(), i as int + 1),
                        ));
                    }
                    return Err(Error::FormatError);
                },
            };
            if m.rows != self.layers[i].0 || m.cols != self.layers[i + 1].0 {
                return Err(Error::FormatError);
            }
            new_w.push(m);
            i += 1;
        }
        let mut new_b: Vec<Matrix> = Vec::new();
        let mut i: usize = 0;
        while i < trans
            invariant
                trans as int == self.depth() - 1,
                i <= trans,
                new_b@.len() == i as int,
                forall|k: int| 0 <= k < i as int ==> {
                    let m = #[trigger] new_b@[k];
                    &&& m.wf()
                    &&& m.rows as int == 1
                    &&& m.cols as int == wid(self.arch(), k + 1)
                    &&& m@ == rows_view(d.biases@[k])
                },
            decreases trans - i,
        {
            let m = match Matrix::from(copy_grid(&d.biases[i])) {
                Ok(m) => m,
                Err(_) => {
                    proof {
                        assert(!grid_wf(
                            rows_view(d.biases@[i as int]),
                            1,
                            wid(self.arch(), i as int + 1),
                        ));
                    }
                    return Err(Error::FormatError);
                },
            };
            if m.rows != 1 || m.cols != self.layers[i + 1].0 {
                return Err(Error::FormatError);
            }
            new_b.push(m);
            i += 1;
        }
        proof {
            assert forall|k: int| 0 <= k < self.depth() - 1 implies grid_wf(
                rows_view(#[trigger] d.weights@[k]),
                wid(self.arch(), k),
                wid(self.arch(), k + 1),
            ) by {
                assert(new_w@[k].wf());
            }
            assert forall|k: int| 0 <= k < self.depth() - 1 implies grid_wf(
                rows_view(#[trigger] d.biases@[k]),
                1,
                wid(self.arch(), k + 1),
            ) by {
                assert(new_b@[k].wf());
            }
        }
        self.weights = new_w;
        self.biases = new_b;
        Ok(())
    }
}

/// Law: a snapshot of a well-formed network always fits that network
/// again, and what it holds are exactly the network's weight and bias
/// grids — so a restore of a fresh snapshot is accepted and puts back
/// precisely the matrices the snapshot was taken from, element for
/// element.
pub proof fn lemma_snapshot_round_trip(n: Network, d: SaveData)
    requires
        n.wf(),
        d.weights@.len() == n.depth() - 1,
        d.biases@.len() == n.depth() - 1,
        forall|i: int| 0 <= i < n.depth() - 1 ==> rows_view(#[trigger] d.weights@[i])
            == n.weights@[i]@,
        forall|i: int| 0 <= i < n.depth() - 1 ==> rows_view(#[trigger] d.biases@[i])
            == n.biases@[i]@,
    ensures
        n.fits(d),
        forall|i: int| 0 <= i < n.depth() - 1 ==> rows_view(#[trigger] d.weights@[i])
            == n.wgrids()[i],
        forall|i: int| 0 <= i < n.depth() - 1 ==> rows_view(#[trigger] d.biases@[i])
            == n.bgrids()[i],
{
    assert forall|i: int| 0 <= i < n.depth() - 1 implies grid_wf(
        rows_view(#[trigger] d.weights@[i]),
        wid(n.arch(), i),
        wid(n.arch(), i + 1),
    ) by {
        assert(n.weights@[i].wf());
    }
    assert forall|i: int| 0 <= i < n.depth() - 1 implies grid_wf(
        rows_view(#[trigger] d.biases@[i]),
        1,
        wid(n.arch(), i + 1),
    ) by {
        assert(n.biases@[i].wf());
    }
}

/// A fresh matrix with `kind`'s nonlinearity applied to every cell.
pub fn apply_matrix(kind: Activation, m: &Matrix) -> (r: Matrix)
    requires
        m.wf(),
    ensures
        r.wf(),
        r.rows == m.rows,
        r.cols == m.cols,
        r@ == apply_grid(kind, m@),
{
    let f = |x: u64| -> (y: u64)
        ensures
            y == apply_bits(kind, x),
        { kind.evaluate(x) };
    let r = m.map(f);
    proof {
        assert forall|i: int| 0 <= i < r@.len() implies #[trigger] r@[i] =~= apply_grid(kind, m@)[i] by {
            assert(m@[i].len() == m.cols as int);
            assert(r@[i].len() == m.cols as int);
            assert(forall|j: int| 0 <= j < m.cols as int ==>
                call_ensures(f, (m@[i][j],), #[trigger] r@[i][j]));
        }
        assert(r@ =~= apply_grid(kind, m@));
    }
    r
}

/// A fresh matrix with `kind`'s derivative applied to every cell.
pub fn derive_matrix(kind: Activation, m: &Matrix) -> (r: Matrix)
    requires
        m.wf(),
    ensures
        r.wf(),
        r.rows == m.rows,
        r.cols == m.cols,
        r@ == derive_grid(kind, m@),
{
    let f = |x: u64| -> (y: u64)
        ensures
            y == derive_bits(kind, x),
        { kind.derivative(x) };
    let r = m.map(f);
    proof {
        assert forall|i: int| 0 <= i < r@.len() implies #[trigger] r@[i] =~= derive_grid(kind, m@)[i] by {
            assert(m@[i].len() == m.cols as int);
            assert(r@[i].len() == m.cols as int);
            assert(forall|j: int| 0 <= j < m.cols as int ==>
                call_ensures(f, (m@[i][j],), #[trigger] r@[i][j]));
        }
        assert(r@ =~= derive_grid(kind, m@));
    }
    r
}

/// A fresh matrix with every cell multiplied by the scalar `c`.
pub fn scale_matrix(m: &Matrix, c: u64) -> (r: Matrix)
    requires
        m.wf(),
    ensures
        r.wf(),
        r.rows == m.rows,
        r.cols == m.cols,
        r@ == scale_grid(m@, c),
{
    let f = |x: u64| -> (y: u64)
        ensures
            y == prod_bits(x, c),
        { crate::scalar::scalar_mul(x, c) };
    let r = m.map(f);
    proof {
        assert forall|i: int| 0 <= i < r@.len() implies #[trigger] r@[i] =~= scale_grid(m@, c)[i] by {
            assert(m@[i].len() == m.cols as int);
            assert(r@[i].len() == m.cols as int);
            assert(forall|j: int| 0 <= j < m.cols as int ==>
                call_ensures(f, (m@[i][j],), #[trigger] r@[i][j]));
        }
        assert(r@ =~= scale_grid(m@, c));
    }
    r
}

} // verus!
