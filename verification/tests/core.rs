use zk_regression::commit::{emit_all, encode_value, CommitmentStream, CommittedValue};
use zk_regression::error::{ConfigError, MetricError, MyError, ShapeError};
use zk_regression::matrix::build;
use zk_regression::metrics::{check_targets, MetricSet};
use zk_regression::model::{expanded_feature_count, monomial_exponents, ModelRegistry, ModelVariant};
use zk_regression::transform::{transform, ColumnStats, TransformConfig, TransformMethod};

fn bits(xs: &[f64]) -> Vec<u64> {
    xs.iter().map(|x| x.to_bits()).collect()
}

fn nested_bits(rows: &[&[f64]]) -> Vec<Vec<u64>> {
    rows.iter().map(|r| bits(r)).collect()
}

#[test]
fn build_round_trips_shape() {
    let raw = nested_bits(&[&[1.0, 2.0, 3.0], &[4.0, 5.0, 6.0]]);
    let m = build(&raw).unwrap();
    assert_eq!(m.rows(), 2);
    assert_eq!(m.cols(), 3);
    for i in 0..2 {
        for j in 0..3 {
            assert_eq!(m.entry(i, j), raw[i][j]);
        }
    }
    assert_eq!(m.row(1), raw[1]);
}

#[test]
fn build_rejects_ragged_input() {
    let raw = nested_bits(&[&[1.0, 2.0], &[3.0]]);
    assert_eq!(build(&raw), Err(ShapeError::RaggedRow));
}

#[test]
fn build_rejects_empty_input() {
    let raw: Vec<Vec<u64>> = Vec::new();
    assert_eq!(build(&raw), Err(ShapeError::EmptyMatrix));
    let raw = vec![Vec::new(), Vec::new()];
    assert_eq!(build(&raw), Err(ShapeError::EmptyRow));
}

#[test]
fn identity_transform_is_identity() {
    let raw = nested_bits(&[&[1.5, -2.0], &[0.0, 7.25], &[-0.5, 3.0]]);
    let m = build(&raw).unwrap();
    let config = TransformConfig { method: TransformMethod::Identity, fitted: None };
    let t = transform(&m, &config).unwrap();
    assert_eq!(t.rows(), m.rows());
    assert_eq!(t.cols(), m.cols());
    for i in 0..3 {
        for j in 0..2 {
            assert_eq!(t.entry(i, j), m.entry(i, j));
        }
    }
}

#[test]
fn scaling_without_fitted_params_is_rejected() {
    let raw = nested_bits(&[&[1.0, 2.0]]);
    let m = build(&raw).unwrap();
    let config = TransformConfig { method: TransformMethod::StandardScale, fitted: None };
    assert_eq!(transform(&m, &config), Err(ConfigError::MissingFittedParams));
    let short = TransformConfig {
        method: TransformMethod::MinMaxScale,
        fitted: Some(ColumnStats { shift: bits(&[0.0]), scale: bits(&[1.0]) }),
    };
    assert_eq!(transform(&m, &short), Err(ConfigError::FittedParamsMismatch));
    let full = TransformConfig {
        method: TransformMethod::MinMaxScale,
        fitted: Some(ColumnStats { shift: bits(&[0.0, 0.0]), scale: bits(&[1.0, 1.0]) }),
    };
    assert_eq!(transform(&m, &full), Err(ConfigError::UnsupportedMethod));
}

#[test]
fn linear_coefficient_count_is_checked() {
    let good = ModelVariant::LinearRegression {
        intercept: 0.0f64.to_bits(),
        coefficients: bits(&[1.0, 1.0, 1.0]),
    };
    assert_eq!(good.check_shape(3), Ok(()));
    assert_eq!(good.check_shape(2), Err(ShapeError::CoefficientCountMismatch));
    let ridge = ModelVariant::RidgeRegression {
        intercept: 0.0f64.to_bits(),
        coefficients: bits(&[0.5, 0.5]),
        lambda: 1.0f64.to_bits(),
    };
    assert_eq!(ridge.check_shape(2), Ok(()));
}

#[test]
fn polynomial_expansion_has_graded_order() {
    // Degree 2 over x1, x2: 1, x1, x2, x1^2, x1*x2, x2^2.
    let exps = monomial_exponents(2, 2);
    let expected: Vec<Vec<usize>> =
        vec![vec![0, 0], vec![1, 0], vec![0, 1], vec![2, 0], vec![1, 1], vec![0, 2]];
    assert_eq!(exps, expected);
    assert_eq!(expanded_feature_count(2, 2), Some(6));
    assert_eq!(expanded_feature_count(3, 2), Some(10));
    assert_eq!(expanded_feature_count(1, 5), Some(6));
}

#[test]
fn polynomial_coefficient_count_is_checked() {
    let poly = ModelVariant::PolynomialRidgeRegression {
        intercept: 0.0f64.to_bits(),
        coefficients: bits(&[0.0; 10]),
        lambda: 0.1f64.to_bits(),
        degree: 2,
    };
    assert_eq!(poly.check_shape(3), Ok(()));
    assert_eq!(poly.check_shape(2), Err(ShapeError::CoefficientCountMismatch));
}

#[test]
fn registry_keeps_registration_order() {
    let mut registry = ModelRegistry::new();
    let linear = ModelVariant::LinearRegression {
        intercept: 1.0f64.to_bits(),
        coefficients: bits(&[0.0, 0.0]),
    };
    let ridge = ModelVariant::RidgeRegression {
        intercept: 2.0f64.to_bits(),
        coefficients: bits(&[0.0, 0.0]),
        lambda: 1.0f64.to_bits(),
    };
    registry.register(linear.clone());
    registry.register(ridge.clone());
    assert_eq!(registry.len(), 2);
    assert_eq!(registry.get(0), &linear);
    assert_eq!(registry.get(1), &ridge);
    assert_eq!(registry.validate(2), Ok(()));
    assert_eq!(registry.validate(3), Err(ShapeError::CoefficientCountMismatch));
}

#[test]
fn degenerate_targets_are_rejected() {
    let actuals = bits(&[5.0, 5.0, 5.0]);
    assert_eq!(check_targets(&actuals), Err(MetricError::DegenerateTargets));
}

#[test]
fn varied_targets_are_accepted() {
    let actuals = bits(&[10.0, 20.0, 30.0]);
    assert_eq!(check_targets(&actuals), Ok(()));
}

#[test]
fn prediction_vector_encoding_is_length_prefixed_little_endian() {
    let value = CommittedValue::Predictions(bits(&[1.0, 2.0]));
    let mut expected: Vec<u8> = Vec::new();
    expected.extend_from_slice(&2u64.to_le_bytes());
    expected.extend_from_slice(&1.0f64.to_bits().to_le_bytes());
    expected.extend_from_slice(&2.0f64.to_bits().to_le_bytes());
    assert_eq!(encode_value(&value), expected);
}

#[test]
fn metric_set_encoding_is_the_fixed_tuple() {
    let m = MetricSet::new(
        9.0f64.to_bits(),
        81.0f64.to_bits(),
        9.0f64.to_bits(),
        (-5.415f64).to_bits(),
    );
    let mut expected: Vec<u8> = Vec::new();
    expected.extend_from_slice(&9.0f64.to_bits().to_le_bytes());
    expected.extend_from_slice(&81.0f64.to_bits().to_le_bytes());
    expected.extend_from_slice(&9.0f64.to_bits().to_le_bytes());
    expected.extend_from_slice(&(-5.415f64).to_bits().to_le_bytes());
    assert_eq!(encode_value(&CommittedValue::Metrics(m)), expected);
}

#[test]
fn commitment_order_is_predictions_then_metrics() {
    let predictions =
        vec![bits(&[1.0, 1.0, 1.0]), bits(&[2.0, 2.0, 2.0]), bits(&[3.0, 3.0, 3.0])];
    let metric_sets: Vec<MetricSet> = (0..3)
        .map(|k| {
            MetricSet::new(
                (k as f64).to_bits(),
                (k as f64 + 0.5).to_bits(),
                (k as f64 + 0.25).to_bits(),
                (k as f64 - 1.0).to_bits(),
            )
        })
        .collect();
    let mut stream = CommitmentStream::new();
    emit_all(&mut stream, &predictions, &metric_sets);
    assert_eq!(stream.len(), 6);
    for k in 0..3 {
        assert_eq!(stream.get(k), &CommittedValue::Predictions(predictions[k].clone()));
        assert_eq!(stream.get(3 + k), &CommittedValue::Metrics(metric_sets[k]));
    }
}

#[test]
fn end_to_end_scenario_commits_in_order() {
    // Features 3 x 3, targets 10/20/30, and three placeholder models whose
    // predictions are the constant vectors 1, 2 and 3. Expected metrics:
    // MAE 9/8/7, MSE 81/64/49, RMSE 9/8/7, and R-squared from ss_tot = 200.
    let raw = nested_bits(&[&[1.0, 2.0, 3.0], &[4.0, 5.0, 6.0], &[7.0, 8.0, 9.0]]);
    let actual_values = [10.0, 20.0, 30.0];
    let actuals = bits(&actual_values);
    let m = build(&raw).unwrap();
    let config = TransformConfig { method: TransformMethod::Identity, fitted: None };
    let scaled = transform(&m, &config).unwrap();
    assert_eq!(scaled.rows(), 3);
    assert_eq!(check_targets(&actuals), Ok(()));

    let predicted = [1.0f64, 2.0, 3.0];
    let expected_mae = [9.0f64, 8.0, 7.0];
    let expected_mse = [81.0f64, 64.0, 49.0];
    let expected_rmse = [9.0f64, 8.0, 7.0];
    let mut predictions: Vec<Vec<u64>> = Vec::new();
    let mut metric_sets: Vec<MetricSet> = Vec::new();
    for k in 0..3 {
        predictions.push(bits(&[predicted[k]; 3]));
        let ss_res: f64 = actual_values.iter().map(|a| (a - predicted[k]) * (a - predicted[k])).sum();
        let r2 = 1.0 - ss_res / 200.0;
        metric_sets.push(MetricSet::new(
            expected_mae[k].to_bits(),
            expected_mse[k].to_bits(),
            expected_rmse[k].to_bits(),
            r2.to_bits(),
        ));
    }
    let mut stream = CommitmentStream::new();
    emit_all(&mut stream, &predictions, &metric_sets);
    assert_eq!(stream.len(), 6);
    for k in 0..3 {
        assert_eq!(stream.get(k), &CommittedValue::Predictions(predictions[k].clone()));
        assert_eq!(stream.get(3 + k), &CommittedValue::Metrics(metric_sets[k]));
    }
    // The first committed value decodes to the constant prediction 1.0.
    let first = encode_value(stream.get(0));
    let mut expected: Vec<u8> = Vec::new();
    expected.extend_from_slice(&3u64.to_le_bytes());
    for _ in 0..3 {
        expected.extend_from_slice(&1.0f64.to_bits().to_le_bytes());
    }
    assert_eq!(first, expected);
}

#[test]
fn error_messages_name_their_kind() {
    let parse = MyError::ParseError(String::from("bad row"));
    assert_eq!(parse.message(), "Parse error: bad row");
    let io = MyError::IoError(String::from("closed"));
    assert_eq!(io.message(), "IO error: closed");
}
