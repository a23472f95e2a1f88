use novelty::error::NoveltyError;
use novelty::stages::{
    apply_elementwise, compress_all, copy_of, first_difference, half_wave_rectify, scale_all,
    subsample,
};

#[test]
fn subsample_keeps_every_hop_th_value() {
    let v: Vec<f32> = vec![0.0, 1.0, 2.0, 3.0, 4.0, 5.0, 6.0, 7.0, 8.0, 9.0];
    assert_eq!(subsample(&v, 3), vec![0.0, 3.0, 6.0, 9.0]);
    assert_eq!(subsample(&v, 1), v);
    assert_eq!(subsample(&v, 10), vec![0.0]);
    assert_eq!(subsample(&v, 25), vec![0.0]);
    let empty: Vec<f32> = Vec::new();
    assert_eq!(subsample(&empty, 4), Vec::<f32>::new());
}

#[test]
fn apply_elementwise_squares_each_sample() {
    let v: Vec<f32> = vec![-2.0, 0.0, 1.5];
    assert_eq!(apply_elementwise(&v, |x: f32| x * x), vec![4.0, 0.0, 2.25]);
}

#[test]
fn compress_all_applies_the_parameter() {
    let v: Vec<f32> = vec![0.0, 1.0];
    let c = compress_all(&v, 10.0f32, |g: f32, x: f32| (1.0 + g * x).ln());
    assert_eq!(c.len(), 2);
    assert_eq!(c[0], 0.0);
    assert!((c[1] - 11.0f32.ln()).abs() < 1e-6);
}

#[test]
fn first_difference_pads_with_a_trailing_zero() {
    let v: Vec<f32> = vec![1.0, 4.0, 2.0, 2.0];
    let d = first_difference(&v, 0.0f32, |a: f32, b: f32| a - b);
    assert_eq!(d, vec![3.0, -2.0, 0.0, 0.0]);
    let single: Vec<f32> = vec![5.0];
    assert_eq!(
        first_difference(&single, 0.0f32, |a: f32, b: f32| a - b),
        vec![0.0]
    );
}

#[test]
fn half_wave_rectify_clamps_negatives() {
    let v: Vec<f32> = vec![3.0, -2.0, 0.0, -0.5, 1.0];
    let r = half_wave_rectify(&v, 0.0f32, |a: f32, b: f32| a < b);
    assert_eq!(r, vec![3.0, 0.0, 0.0, 0.0, 1.0]);
}

#[test]
fn scale_all_divides_by_the_maximum() {
    let v: Vec<f32> = vec![1.0, 2.0, 4.0];
    let s = scale_all(&v, 4.0f32, |a: f32, b: f32| a / b);
    assert_eq!(s, vec![0.25, 0.5, 1.0]);
}

#[test]
fn copy_of_preserves_the_sequence() {
    let v: Vec<f32> = vec![1.0, -2.5, 3.0];
    assert_eq!(copy_of(&v), v);
}

#[test]
fn errors_carry_a_description() {
    assert!(!NoveltyError::InvalidParameter.describe().is_empty());
    assert!(!NoveltyError::ConvolutionError.describe().is_empty());
    assert!(!NoveltyError::EmptyMax.describe().is_empty());
    assert!(!NoveltyError::UnsupportedInput.describe().is_empty());
    assert!(!NoveltyError::OutputExists.describe().is_empty());
}
