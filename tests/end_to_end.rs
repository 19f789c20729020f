use logreg::descent::iterate_descent;
use logreg::metrics::metrics;
use logreg::shape::check_shape;
use logreg::split::{split, TrainRatio};

fn sigmoid(z: f64) -> f64 {
    1.0 / (1.0 + (-z).exp())
}

fn linear(weights: &[f64], bias: f64, x: &[f64]) -> f64 {
    weights.iter().zip(x.iter()).map(|(w, v)| w * v).sum::<f64>() + bias
}

/// One batch gradient step of logistic regression: the cross-entropy cost at
/// `params` and the parameters after the update.
fn gradient_step(rows: &[Vec<f64>], learning_rate: f64, params: (Vec<f64>, f64)) -> (f64, (Vec<f64>, f64)) {
    let (weights, bias) = params;
    let m = rows.len() as f64;
    let features = weights.len();
    let mut cost = 0.0;
    let mut d_weights = vec![0.0; features];
    let mut d_bias = 0.0;
    for row in rows {
        let y = row[features];
        let y_head = sigmoid(linear(&weights, bias, &row[..features]));
        cost += -(y * y_head.ln() + (1.0 - y) * (1.0 - y_head).ln());
        for k in 0..features {
            d_weights[k] += row[k] * (y_head - y);
        }
        d_bias += y_head - y;
    }
    let new_weights = weights.iter().zip(d_weights.iter()).map(|(w, d)| w - learning_rate * d / m).collect();
    (cost / m, (new_weights, bias - learning_rate * d_bias / m))
}

/// 100 rows `[f1, f2, label]`, labelled by `f1 + f2 > 0`, none closer than
/// 0.5 to the boundary.
fn separable_rows() -> Vec<Vec<f64>> {
    let mut rows = Vec::new();
    let mut i: u64 = 0;
    while rows.len() < 100 {
        let a = ((i * 37 + 11) % 41) as f64 / 4.0 - 5.0;
        let b = ((i * 53 + 7) % 43) as f64 / 4.0 - 5.25;
        i += 1;
        if (a + b).abs() < 0.5 {
            continue;
        }
        rows.push(vec![a, b, if a + b > 0.0 { 1.0 } else { 0.0 }]);
    }
    rows
}

#[test]
fn end_to_end_split_train_and_score() {
    let rows = separable_rows();
    assert_eq!(check_shape(&rows), Ok(3));
    let (train, test) = split(rows, TrainRatio::new(7, 10)).unwrap();
    assert_eq!(train.len(), 70);
    assert_eq!(test.len(), 30);

    let (costs, (weights, bias)) =
        iterate_descent((vec![0.01, 0.01], 0.0), 200, |p: (Vec<f64>, f64)| gradient_step(&train, 1.0, p));
    assert_eq!(costs.len(), 200);
    assert!(*costs.last().unwrap() < 0.1);

    let first: f64 = costs[..100].iter().sum::<f64>() / 100.0;
    let second: f64 = costs[100..].iter().sum::<f64>() / 100.0;
    assert!(first > second);

    let actual: Vec<bool> = test.iter().map(|r| r[2] == 1.0).collect();
    let predicted: Vec<bool> = test.iter().map(|r| sigmoid(linear(&weights, bias, &r[..2])) > 0.5).collect();
    let m = metrics(&actual, &predicted);
    assert!(m.accuracy.num as f64 / m.accuracy.den as f64 > 0.9);
}
