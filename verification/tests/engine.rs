use nn_engine::activation::Activation;
use nn_engine::error::Error;
use nn_engine::matrix::Matrix;
use nn_engine::network::{Network, SaveData};
use nn_engine::scalar::RandomSource;

struct FixedWords(Vec<u64>, usize);

impl RandomSource for FixedWords {
    fn next_u64(&mut self) -> u64 {
        let w = self.0[self.1 % self.0.len()];
        self.1 += 1;
        w
    }
}

fn bits_row(row: Vec<f64>) -> Vec<u64> {
    row.into_iter().map(f64::to_bits).collect()
}

fn bits_grid(rows: Vec<Vec<f64>>) -> Vec<Vec<u64>> {
    rows.into_iter().map(bits_row).collect()
}

fn mat(rows: Vec<Vec<f64>>) -> Matrix {
    Matrix::from(bits_grid(rows)).unwrap()
}

fn val(bits: u64) -> f64 {
    f64::from_bits(bits)
}

fn grid_vals(rows: &Vec<Vec<u64>>) -> Vec<Vec<f64>> {
    rows.iter().map(|r| r.iter().map(|&b| f64::from_bits(b)).collect()).collect()
}

#[test]
fn add() {
    let a: Matrix = mat(vec![vec![0.1, 0.2], vec![2.0, 1.0]]);
    let b = mat(vec![vec![5.0, 4.0], vec![0.5, 0.4]]);
    let result = a.add(&b).unwrap();
    assert_eq!(result, mat(vec![vec![5.1, 4.2], vec![2.5, 1.4]]));
}

#[test]
fn add_with_different_dimentions() {
    let a: Matrix = mat(vec![vec![0.1, 0.2], vec![2.0, 1.0]]);
    let b = mat(vec![vec![1.0, 1.0]]);
    let result = a.add(&b).unwrap();
    assert_eq!(result, mat(vec![vec![1.1, 1.2], vec![3.0, 2.0]]));
}

#[test]
fn sum_by_axis() {
    let a: Matrix = mat(vec![vec![0.0, 1.0], vec![0.0, 5.0]]);
    let result = a.sum_by_axis(0).unwrap();
    assert_eq!(result, mat(vec![vec![0.0, 6.0]]));

    let b: Matrix = mat(vec![vec![0.0, 1.0], vec![0.0, 5.0]]);
    let result = b.sum_by_axis(1).unwrap();
    assert_eq!(result, mat(vec![vec![1.0, 5.0]]));
}

#[test]
fn add_matches_spec_scenario() {
    let a = mat(vec![vec![5.0, 4.0], vec![0.5, 0.4]]);
    let b = mat(vec![vec![0.1, 0.2], vec![2.0, 1.0]]);
    assert_eq!(a.add(&b).unwrap(), mat(vec![vec![5.1, 4.2], vec![2.5, 1.4]]));
}

#[test]
fn add_then_subtract_returns_original_within_tolerance() {
    let a = mat(vec![vec![0.1, -2.75, 3.5], vec![7.25, 0.0, -0.625]]);
    let b = mat(vec![vec![1.3, 0.7, -4.2], vec![0.9, 5.5, 2.25]]);
    let round_trip = a.add(&b).unwrap().subtract(&b).unwrap();
    for i in 0..2usize {
        for j in 0..3usize {
            let got = val(round_trip.data[i][j]);
            let want = val(a.data[i][j]);
            assert!((got - want).abs() < 1e-12);
        }
    }
}

#[test]
fn transpose_twice_is_identity() {
    let a = mat(vec![vec![1.5, -2.0, 0.25], vec![4.0, 0.0, -7.5]]);
    assert_eq!(a.transpose().transpose(), a);
    assert_eq!(a.transpose().rows, 3);
    assert_eq!(a.transpose().cols, 2);
}

#[test]
fn row_broadcast_equals_full_matrix_add() {
    let a = mat(vec![vec![1.0, 2.0, 3.0], vec![4.0, 5.0, 6.0]]);
    let r = mat(vec![vec![0.5, -1.5, 2.5]]);
    let tiled = mat(vec![vec![0.5, -1.5, 2.5], vec![0.5, -1.5, 2.5]]);
    assert_eq!(a.add(&r).unwrap(), a.add(&tiled).unwrap());
}

#[test]
fn column_broadcast_adds_column_everywhere() {
    let a = mat(vec![vec![1.0, 2.0], vec![3.0, 4.0]]);
    let c = mat(vec![vec![10.0], vec![20.0]]);
    assert_eq!(a.add(&c).unwrap(), mat(vec![vec![11.0, 12.0], vec![23.0, 24.0]]));
}

#[test]
fn add_rejects_incompatible_shapes() {
    let a = mat(vec![vec![1.0, 2.0], vec![3.0, 4.0]]);
    let b = mat(vec![vec![1.0, 2.0, 3.0], vec![4.0, 5.0, 6.0]]);
    assert_eq!(a.add(&b).unwrap_err(), Error::DimensionMismatch);
}

#[test]
fn dot_product_computes_exact_product() {
    let a = mat(vec![vec![1.0, 2.0], vec![3.0, 4.0]]);
    let b = mat(vec![vec![5.0, 6.0], vec![7.0, 8.0]]);
    assert_eq!(a.dot_product(&b).unwrap(), mat(vec![vec![19.0, 22.0], vec![43.0, 50.0]]));
}

#[test]
fn dot_product_rejects_mismatched_inner_dimensions() {
    let a = mat(vec![vec![1.0, 2.0, 3.0], vec![4.0, 5.0, 6.0]]);
    let b = mat(vec![vec![1.0, 2.0, 3.0], vec![4.0, 5.0, 6.0]]);
    assert_eq!(a.dot_product(&b).unwrap_err(), Error::DimensionMismatch);
    let tall = mat(vec![vec![1.0], vec![2.0], vec![3.0]]);
    assert_eq!(tall.dot_product(&a).unwrap_err(), Error::DimensionMismatch);
}

#[test]
fn subtract_requires_exact_shapes() {
    let a = mat(vec![vec![1.0, 2.0], vec![3.0, 4.0]]);
    let r = mat(vec![vec![1.0, 2.0]]);
    assert_eq!(a.subtract(&r).unwrap_err(), Error::DimensionMismatch);
    assert_eq!(
        a.subtract(&a).unwrap(),
        mat(vec![vec![0.0, 0.0], vec![0.0, 0.0]])
    );
}

#[test]
fn scalar_multiplication_is_elementwise() {
    let a = mat(vec![vec![1.5, -2.0], vec![3.0, 0.5]]);
    let b = mat(vec![vec![2.0, 4.0], vec![-1.0, 8.0]]);
    assert_eq!(
        a.scalar_multiplication(&b).unwrap(),
        mat(vec![vec![3.0, -8.0], vec![-3.0, 4.0]])
    );
    assert_eq!(a.square(), a.scalar_multiplication(&a).unwrap());
}

#[test]
fn from_rejects_malformed_rows() {
    assert_eq!(Matrix::from(vec![]).unwrap_err(), Error::ShapeError);
    assert_eq!(Matrix::from(vec![vec![]]).unwrap_err(), Error::ShapeError);
    assert_eq!(
        Matrix::from(bits_grid(vec![vec![1.0, 2.0], vec![3.0]])).unwrap_err(),
        Error::ShapeError
    );
}

#[test]
fn sum_by_axis_rejects_other_axes() {
    let a = mat(vec![vec![1.0, 2.0]]);
    assert_eq!(a.sum_by_axis(2).unwrap_err(), Error::InvalidAxis);
    assert_eq!(a.sum_by_axis(7).unwrap_err(), Error::InvalidAxis);
}

#[test]
fn collect_sum_and_count() {
    let a = mat(vec![vec![1.0, 2.0], vec![3.0, 4.0]]);
    assert_eq!(val(a.collect_sum()), 10.0);
    assert_eq!(a.count(), 4);
}

#[test]
fn zeros_is_all_zero() {
    let z = Matrix::zeros(2, 3);
    assert_eq!(z, mat(vec![vec![0.0, 0.0, 0.0], vec![0.0, 0.0, 0.0]]));
}

#[test]
fn map_applies_to_every_cell() {
    let a = mat(vec![vec![1.0, 2.0], vec![3.0, 4.0]]);
    let doubled = a.map(|x: u64| f64::to_bits(f64::from_bits(x) * 2.0));
    assert_eq!(doubled, mat(vec![vec![2.0, 4.0], vec![6.0, 8.0]]));
}

#[test]
fn random_draws_lie_in_the_given_range() {
    let r = Matrix::random(4, 5, f64::to_bits(-1.0), f64::to_bits(1.0));
    assert_eq!(r.rows, 4);
    assert_eq!(r.cols, 5);
    for row in &r.data {
        assert_eq!(row.len(), 5);
        for &cell in row {
            let v = val(cell);
            assert!((-1.0..=1.0).contains(&v));
        }
    }
}

#[test]
fn injected_source_gives_reproducible_draws() {
    let words = vec![0u64, u64::MAX, 0x0123_4567_89AB_CDEF];
    let mut src = FixedWords(words.clone(), 0);
    let m = Matrix::random_with(1, 3, f64::to_bits(-1.0), f64::to_bits(1.0), &mut src);
    for (j, &w) in words.iter().enumerate() {
        let unit = ((w >> 11) as f64) * (2.0f64).powi(-53);
        let expect = unit * (1.0 - (-1.0)) + (-1.0);
        assert_eq!(val(m.data[0][j]), expect);
    }
    let mut src2 = FixedWords(words, 0);
    let again = Matrix::random_with(1, 3, f64::to_bits(-1.0), f64::to_bits(1.0), &mut src2);
    assert_eq!(m, again);
}

#[test]
fn matrix_equality_is_ieee_equality() {
    let pos = Matrix::from(vec![vec![f64::to_bits(0.0)]]).unwrap();
    let neg = Matrix::from(vec![vec![f64::to_bits(-0.0)]]).unwrap();
    assert_eq!(pos, neg);
    let nan = Matrix::from(vec![vec![f64::to_bits(f64::NAN)]]).unwrap();
    assert_ne!(nan, nan.duplicate());
}

#[test]
fn activations_match_their_formulas() {
    let sig = Activation::Sigmoid;
    assert_eq!(val(sig.evaluate(f64::to_bits(0.0))), 0.5);
    let s2 = val(sig.evaluate(f64::to_bits(2.0)));
    assert!((s2 - 0.8807970779778823).abs() < 1e-12);
    assert_eq!(val(sig.derivative(f64::to_bits(0.5))), 0.25);
    assert_eq!(val(sig.derivative(f64::to_bits(0.0))), 0.0);

    let relu = Activation::Relu;
    assert_eq!(val(relu.evaluate(f64::to_bits(-3.5))), 0.0);
    assert_eq!(val(relu.evaluate(f64::to_bits(3.5))), 3.5);
    assert_eq!(val(relu.derivative(f64::to_bits(-1.0))), 0.0);
    assert_eq!(val(relu.derivative(f64::to_bits(1.0))), 1.0);

    let id = Activation::Identity;
    assert_eq!(val(id.evaluate(f64::to_bits(-7.25))), -7.25);
    assert_eq!(val(id.derivative(f64::to_bits(-7.25))), 1.0);
}

#[test]
fn network_new_allocates_transition_shapes() {
    let layers = vec![
        (2usize, Activation::Identity),
        (3usize, Activation::Relu),
        (1usize, Activation::Sigmoid),
    ];
    let lr = f64::to_bits(0.5);
    let n = Network::new(layers, lr).unwrap();
    assert_eq!(n.weights.len(), 2);
    assert_eq!(n.biases.len(), 2);
    assert_eq!((n.weights[0].rows, n.weights[0].cols), (2, 3));
    assert_eq!((n.weights[1].rows, n.weights[1].cols), (3, 1));
    assert_eq!((n.biases[0].rows, n.biases[0].cols), (1, 3));
    assert_eq!((n.biases[1].rows, n.biases[1].cols), (1, 1));
    assert_eq!(n.data.len(), 0);
    assert_eq!(n.learning_rate, lr);
}

#[test]
fn network_new_rejects_thin_architectures() {
    assert_eq!(
        Network::new(vec![(2usize, Activation::Identity)], 0).unwrap_err(),
        Error::InvalidArchitecture
    );
    assert_eq!(
        Network::new(
            vec![(2usize, Activation::Identity), (0usize, Activation::Relu)],
            0
        )
        .unwrap_err(),
        Error::InvalidArchitecture
    );
}

fn restored_network(
    layers: Vec<(usize, Activation)>,
    lr: f64,
    weights: Vec<Vec<Vec<f64>>>,
    biases: Vec<Vec<Vec<f64>>>,
) -> Network {
    let mut n = Network::new(layers, f64::to_bits(lr)).unwrap();
    let d = SaveData {
        weights: weights.into_iter().map(bits_grid).collect(),
        biases: biases.into_iter().map(bits_grid).collect(),
    };
    n.restore(&d).unwrap();
    n
}

#[test]
fn feed_forward_computes_exact_affine_map() {
    let mut n = restored_network(
        vec![(2usize, Activation::Identity), (1usize, Activation::Identity)],
        0.5,
        vec![vec![vec![2.0], vec![3.0]]],
        vec![vec![vec![1.0]]],
    );
    let out = n
        .feed_forward(bits_grid(vec![vec![1.0, 1.0], vec![0.5, -1.0]]))
        .unwrap();
    assert_eq!(grid_vals(&out), vec![vec![6.0], vec![-1.0]]);
    assert_eq!(n.data.len(), 2);
}

#[test]
fn feed_forward_applies_the_rectifier() {
    let mut n = restored_network(
        vec![(1usize, Activation::Relu), (1usize, Activation::Identity)],
        0.1,
        vec![vec![vec![1.0]]],
        vec![vec![vec![0.0]]],
    );
    let out = n
        .feed_forward(bits_grid(vec![vec![-2.0], vec![3.0], vec![0.0]]))
        .unwrap();
    assert_eq!(grid_vals(&out), vec![vec![0.0], vec![3.0], vec![0.0]]);
}

#[test]
fn feed_forward_rejects_wrong_input_width() {
    let mut n = Network::new(
        vec![(2usize, Activation::Identity), (1usize, Activation::Identity)],
        0,
    )
    .unwrap();
    assert_eq!(
        n.feed_forward(bits_grid(vec![vec![1.0, 2.0, 3.0]])).unwrap_err(),
        Error::DimensionMismatch
    );
    assert_eq!(n.feed_forward(vec![]).unwrap_err(), Error::ShapeError);
}

#[test]
fn calculate_error_is_mean_squared_error() {
    let n = Network::new(
        vec![(1usize, Activation::Identity), (1usize, Activation::Identity)],
        0,
    )
    .unwrap();
    let outputs = bits_grid(vec![vec![1.0], vec![3.0]]);
    let targets = bits_grid(vec![vec![2.0], vec![5.0]]);
    assert_eq!(val(n.calculate_error(&outputs, &targets).unwrap()), 2.5);
    let short = bits_grid(vec![vec![2.0]]);
    assert_eq!(
        n.calculate_error(&outputs, &short).unwrap_err(),
        Error::DimensionMismatch
    );
}

#[test]
fn back_propagate_applies_exact_gradient_step() {
    let mut n = restored_network(
        vec![(1usize, Activation::Identity), (1usize, Activation::Identity)],
        0.5,
        vec![vec![vec![1.0]]],
        vec![vec![vec![0.0]]],
    );
    let inputs = bits_grid(vec![vec![1.0]]);
    let targets = bits_grid(vec![vec![3.0]]);
    let outputs = n.feed_forward(inputs).unwrap();
    assert_eq!(grid_vals(&outputs), vec![vec![1.0]]);
    n.back_propagate(outputs, targets, f64::to_bits(0.5)).unwrap();
    // gradient: output - target = -2; weight step: 1 - 0.5 * (1 * -2) = 2;
    // bias step: 0 - 0.5 * -2 = 1.
    assert_eq!(val(n.weights[0].data[0][0]), 2.0);
    assert_eq!(val(n.biases[0].data[0][0]), 1.0);
}

#[test]
fn back_propagate_rejects_wrong_target_width() {
    let mut n = Network::new(
        vec![(2usize, Activation::Identity), (1usize, Activation::Identity)],
        0,
    )
    .unwrap();
    let inputs = bits_grid(vec![vec![1.0, 2.0]]);
    let outputs = n.feed_forward(inputs).unwrap();
    assert_eq!(
        n.back_propagate(outputs, bits_grid(vec![vec![1.0, 2.0]]), 0)
            .unwrap_err(),
        Error::DimensionMismatch
    );
}

#[test]
fn train_one_epoch_reports_exact_mean_error() {
    let mut n = restored_network(
        vec![(1usize, Activation::Identity), (1usize, Activation::Identity)],
        0.5,
        vec![vec![vec![1.0]]],
        vec![vec![vec![0.0]]],
    );
    let inputs = vec![bits_grid(vec![vec![1.0]])];
    let targets = vec![bits_grid(vec![vec![3.0]])];
    let err = n.train_one_epoch(&inputs, &targets, f64::to_bits(0.5)).unwrap();
    assert_eq!(val(err), 4.0);
    assert_eq!(val(n.weights[0].data[0][0]), 2.0);
    assert_eq!(val(n.biases[0].data[0][0]), 1.0);
}

#[test]
fn train_one_epoch_with_no_batches_changes_nothing() {
    let mut n = restored_network(
        vec![(1usize, Activation::Identity), (1usize, Activation::Identity)],
        0.5,
        vec![vec![vec![1.0]]],
        vec![vec![vec![0.0]]],
    );
    let inputs: Vec<Vec<Vec<u64>>> = vec![];
    let targets: Vec<Vec<Vec<u64>>> = vec![];
    let err = n.train_one_epoch(&inputs, &targets, f64::to_bits(0.5)).unwrap();
    // The mean of no batch errors is 0/0.
    assert!(val(err).is_nan());
    assert_eq!(val(n.weights[0].data[0][0]), 1.0);
    assert_eq!(val(n.biases[0].data[0][0]), 0.0);
}

#[test]
fn train_one_epoch_rejects_ragged_batches_untouched() {
    let mut n = restored_network(
        vec![(1usize, Activation::Identity), (1usize, Activation::Identity)],
        0.5,
        vec![vec![vec![1.0]]],
        vec![vec![vec![0.0]]],
    );
    let inputs = vec![vec![bits_row(vec![1.0]), bits_row(vec![2.0, 3.0])]];
    let targets = vec![bits_grid(vec![vec![1.0], vec![2.0]])];
    assert_eq!(
        n.train_one_epoch(&inputs, &targets, f64::to_bits(0.5)).unwrap_err(),
        Error::ShapeError
    );
    assert_eq!(val(n.weights[0].data[0][0]), 1.0);
    assert_eq!(val(n.biases[0].data[0][0]), 0.0);
}

#[test]
fn train_rejects_unpaired_batches() {
    let mut n = Network::new(
        vec![(1usize, Activation::Identity), (1usize, Activation::Identity)],
        f64::to_bits(0.1),
    )
    .unwrap();
    let inputs = vec![bits_grid(vec![vec![1.0]])];
    let targets: Vec<Vec<Vec<u64>>> = vec![];
    assert_eq!(
        n.train(&inputs, &targets, 3).unwrap_err(),
        Error::DimensionMismatch
    );
}

#[test]
fn identity_network_learns_doubling() {
    let mut n = Network::new(
        vec![(1usize, Activation::Identity), (1usize, Activation::Identity)],
        f64::to_bits(0.01),
    )
    .unwrap();
    let inputs: Vec<Vec<Vec<u64>>> = vec![
        bits_grid(vec![vec![0.0]]),
        bits_grid(vec![vec![5.0]]),
        bits_grid(vec![vec![0.0]]),
        bits_grid(vec![vec![1.0]]),
    ];
    let targets: Vec<Vec<Vec<u64>>> = vec![
        bits_grid(vec![vec![0.0]]),
        bits_grid(vec![vec![10.0]]),
        bits_grid(vec![vec![0.0]]),
        bits_grid(vec![vec![2.0]]),
    ];
    n.train(&inputs, &targets, 2000).unwrap();
    let w = val(n.weights[0].data[0][0]);
    let b = val(n.biases[0].data[0][0]);
    assert!((w - 2.0).abs() < 1e-3, "weight {w} did not approach 2");
    assert!(b.abs() < 1e-3, "bias {b} did not approach 0");
}

#[test]
fn sigmoid_network_learns_logical_or() {
    let mut n = Network::new(
        vec![
            (2usize, Activation::Sigmoid),
            (2usize, Activation::Sigmoid),
            (1usize, Activation::Sigmoid),
        ],
        f64::to_bits(0.5),
    )
    .unwrap();
    let inputs = vec![bits_grid(vec![
        vec![0.0, 0.0],
        vec![1.0, 0.0],
        vec![0.0, 1.0],
        vec![1.0, 1.0],
    ])];
    let targets = vec![bits_grid(vec![vec![0.0], vec![1.0], vec![1.0], vec![1.0]])];
    let errs = n.train(&inputs, &targets, 10000).unwrap();
    let first = val(errs[0]);
    let last = val(errs[errs.len() - 1]);
    assert!(
        last <= first / 10.0,
        "error fell only from {first} to {last} over 10000 epochs"
    );
    let marks: Vec<f64> = [0, 2500, 5000, 7500, 9999].iter().map(|&i| val(errs[i])).collect();
    for pair in marks.windows(2) {
        assert!(
            pair[1] <= pair[0] * 1.0001,
            "error rose from {} to {} between milestones",
            pair[0],
            pair[1]
        );
    }
}

#[test]
fn snapshot_restore_round_trip_is_identical() {
    let mut trained = Network::new(
        vec![(2usize, Activation::Identity), (2usize, Activation::Relu), (1usize, Activation::Sigmoid)],
        f64::to_bits(0.05),
    )
    .unwrap();
    let inputs = vec![bits_grid(vec![vec![0.0, 1.0], vec![1.0, 0.0]])];
    let targets = vec![bits_grid(vec![vec![1.0], vec![0.0]])];
    trained.train(&inputs, &targets, 25).unwrap();

    let saved = trained.snapshot();
    let as_values: (Vec<Vec<Vec<f64>>>, Vec<Vec<Vec<f64>>>) = (
        saved.weights.iter().map(grid_vals).collect(),
        saved.biases.iter().map(grid_vals).collect(),
    );
    let text = serde_json::to_string(&as_values).unwrap();
    let parsed: (Vec<Vec<Vec<f64>>>, Vec<Vec<Vec<f64>>>) = serde_json::from_str(&text).unwrap();
    let reloaded = SaveData {
        weights: parsed.0.into_iter().map(bits_grid).collect(),
        biases: parsed.1.into_iter().map(bits_grid).collect(),
    };

    let mut fresh = Network::new(
        vec![(2usize, Activation::Identity), (2usize, Activation::Relu), (1usize, Activation::Sigmoid)],
        f64::to_bits(0.05),
    )
    .unwrap();
    fresh.restore(&reloaded).unwrap();
    assert_eq!(fresh.snapshot(), saved);
    assert_eq!(fresh.weights[0], trained.weights[0]);
    assert_eq!(fresh.weights[1], trained.weights[1]);
    assert_eq!(fresh.biases[0], trained.biases[0]);
    assert_eq!(fresh.biases[1], trained.biases[1]);
}

#[test]
fn restore_rejects_incompatible_shapes() {
    let mut n = Network::new(
        vec![(2usize, Activation::Identity), (1usize, Activation::Identity)],
        0,
    )
    .unwrap();
    let wrong_count = SaveData { weights: vec![], biases: vec![] };
    assert_eq!(n.restore(&wrong_count).unwrap_err(), Error::FormatError);
    let wrong_shape = SaveData {
        weights: vec![bits_grid(vec![vec![1.0, 2.0]])],
        biases: vec![bits_grid(vec![vec![0.0]])],
    };
    assert_eq!(n.restore(&wrong_shape).unwrap_err(), Error::FormatError);
}

#[test]
fn progress_reports_follow_the_epoch_cadence() {
    assert!(Network::should_report(1, 50));
    assert!(Network::should_report(37, 99));
    assert!(Network::should_report(10, 200));
    assert!(!Network::should_report(11, 200));
    assert!(Network::should_report(500, 10000));
    assert!(!Network::should_report(501, 10000));
}
