use orama_tensor::{ShapeMismatch, Tensor};

fn assert_close(actual: &[f64], expected: &[f64], epsilon: f64) {
    assert_eq!(actual.len(), expected.len());
    for (a, e) in actual.iter().zip(expected.iter()) {
        assert!((a - e).abs() <= epsilon, "{} is not within {} of {}", a, epsilon, e);
    }
}

#[test]
fn test_add() {
    let tensor1 = Tensor::new(vec![1, 2, 3, 4], vec![2, 2]);
    let tensor2 = Tensor::new(vec![5, 6, 7, 8], vec![2, 2]);
    let result = tensor1.add(&tensor2).unwrap();
    assert_eq!(result, Tensor::new(vec![6, 8, 10, 12], vec![2, 2]));
}

#[test]
fn test_sub() {
    let tensor1 = Tensor::new(vec![1, 2, 3, 4], vec![2, 2]);
    let tensor2 = Tensor::new(vec![5, 6, 7, 8], vec![2, 2]);
    let result = tensor1.sub(&tensor2).unwrap();
    assert_eq!(result, Tensor::new(vec![-4, -4, -4, -4], vec![2, 2]));
}

#[test]
fn test_mul() {
    let tensor1 = Tensor::new(vec![1, 2, 3, 4], vec![2, 2]);
    let tensor2 = Tensor::new(vec![5, 6, 7, 8], vec![2, 2]);
    let result = tensor1.mul(&tensor2).unwrap();
    assert_eq!(result, Tensor::new(vec![5, 12, 21, 32], vec![2, 2]));
}

#[test]
fn test_div() {
    let tensor1 = Tensor::new(vec![1.0, 2.0, 3.0, 4.0], vec![2, 2]);
    let tensor2 = Tensor::new(vec![5.0, 6.0, 7.0, 8.0], vec![2, 2]);
    let result = tensor1.div(&tensor2).unwrap();
    assert_close(
        result.data(),
        Tensor::new(vec![0.2, 0.33333, 0.42857, 0.5], vec![2, 2]).data(),
        1e-5,
    );
}

#[test]
fn test_add_assign() {
    let mut tensor1 = Tensor::new(vec![1, 2, 3, 4], vec![2, 2]);
    let tensor2 = Tensor::new(vec![5, 6, 7, 8], vec![2, 2]);
    tensor1.add_assign(&tensor2).unwrap();
    assert_eq!(tensor1, Tensor::new(vec![6, 8, 10, 12], vec![2, 2]));
}

#[test]
fn test_sub_assign() {
    let mut tensor1 = Tensor::new(vec![1, 2, 3, 4], vec![2, 2]);
    let tensor2 = Tensor::new(vec![5, 6, 7, 8], vec![2, 2]);
    tensor1.sub_assign(&tensor2).unwrap();
    assert_eq!(tensor1, Tensor::new(vec![-4, -4, -4, -4], vec![2, 2]));
}

#[test]
fn test_mul_assign() {
    let mut tensor1 = Tensor::new(vec![1, 2, 3, 4], vec![2, 2]);
    let tensor2 = Tensor::new(vec![5, 6, 7, 8], vec![2, 2]);
    tensor1.mul_assign(&tensor2).unwrap();
    assert_eq!(tensor1, Tensor::new(vec![5, 12, 21, 32], vec![2, 2]));
}

#[test]
fn test_div_assign() {
    let mut tensor1 = Tensor::new(vec![1.0, 2.0, 3.0, 4.0], vec![2, 2]);
    let tensor2 = Tensor::new(vec![5.0, 6.0, 7.0, 8.0], vec![2, 2]);
    tensor1.div_assign(&tensor2).unwrap();
    assert_close(
        tensor1.data(),
        Tensor::new(vec![0.2, 0.33333, 0.42857, 0.5], vec![2, 2]).data(),
        1e-5,
    );
}

#[test]
fn test_add_scalar() {
    let tensor = Tensor::new(vec![1, 2, 3, 4], vec![2, 2]);
    let result = tensor.add_scalar(1);
    assert_eq!(result, Tensor::new(vec![2, 3, 4, 5], vec![2, 2]));
}

#[test]
fn test_sub_scalar() {
    let tensor = Tensor::new(vec![1, 2, 3, 4], vec![2, 2]);
    let result = tensor.sub_scalar(1);
    assert_eq!(result, Tensor::new(vec![0, 1, 2, 3], vec![2, 2]));
}

#[test]
fn test_mul_scalar() {
    let tensor = Tensor::new(vec![1, 2, 3, 4], vec![2, 2]);
    let result = tensor.mul_scalar(2);
    assert_eq!(result, Tensor::new(vec![2, 4, 6, 8], vec![2, 2]));
}

#[test]
fn test_div_scalar() {
    let tensor = Tensor::new(vec![1.0, 2.0, 3.0, 4.0], vec![2, 2]);
    let result = tensor.div_scalar(2.0);
    assert_close(
        result.data(),
        Tensor::new(vec![0.5, 1.0, 1.5, 2.0], vec![2, 2]).data(),
        f64::EPSILON,
    );
}

#[test]
fn test_add_assign_scalar() {
    let mut tensor = Tensor::new(vec![1, 2, 3, 4], vec![2, 2]);
    tensor.add_assign_scalar(1);
    assert_eq!(tensor, Tensor::new(vec![2, 3, 4, 5], vec![2, 2]));
}

#[test]
fn test_sub_assign_scalar() {
    let mut tensor = Tensor::new(vec![1, 2, 3, 4], vec![2, 2]);
    tensor.sub_assign_scalar(1);
    assert_eq!(tensor, Tensor::new(vec![0, 1, 2, 3], vec![2, 2]));
}

#[test]
fn test_mul_assign_scalar() {
    let mut tensor = Tensor::new(vec![1, 2, 3, 4], vec![2, 2]);
    tensor.mul_assign_scalar(2);
    assert_eq!(tensor, Tensor::new(vec![2, 4, 6, 8], vec![2, 2]));
}

#[test]
fn test_div_assign_scalar() {
    let mut tensor = Tensor::new(vec![1.0, 2.0, 3.0, 4.0], vec![2, 2]);
    tensor.div_assign_scalar(2.0);
    assert_close(
        tensor.data(),
        Tensor::new(vec![0.5, 1.0, 1.5, 2.0], vec![2, 2]).data(),
        f64::EPSILON,
    );
}

#[test]
fn test_neg() {
    let tensor = Tensor::new(vec![1, 2, 3, 4], vec![2, 2]);
    let result = tensor.neg();
    assert_eq!(result, Tensor::new(vec![-1, -2, -3, -4], vec![2, 2]));
}

#[test]
fn mismatched_shapes_are_refused_unchanged() {
    let mut tensor1 = Tensor::new(vec![1, 2, 3, 4], vec![2, 2]);
    let tensor2 = Tensor::new(vec![5, 6, 7, 8], vec![4]);
    assert_eq!(tensor1.add_assign(&tensor2), Err(ShapeMismatch));
    assert_eq!(tensor1.sub_assign(&tensor2), Err(ShapeMismatch));
    assert_eq!(tensor1.mul_assign(&tensor2), Err(ShapeMismatch));
    assert_eq!(tensor1.div_assign(&tensor2), Err(ShapeMismatch));
    assert_eq!(tensor1, Tensor::new(vec![1, 2, 3, 4], vec![2, 2]));
    assert_eq!(tensor2, Tensor::new(vec![5, 6, 7, 8], vec![4]));
    assert_eq!(tensor1.add(&tensor2), Err(ShapeMismatch));
}

#[test]
fn same_count_other_shape_is_refused() {
    let tensor1 = Tensor::new(vec![1, 2, 3, 4, 5, 6], vec![2, 3]);
    let tensor2 = Tensor::new(vec![1, 2, 3, 4, 5, 6], vec![3, 2]);
    assert_eq!(tensor1.mul(&tensor2), Err(ShapeMismatch));
}

#[test]
fn integer_division_truncates() {
    let tensor1 = Tensor::new(vec![7i64, -7, 9, 1], vec![4]);
    let tensor2 = Tensor::new(vec![2i64, 2, -4, 3], vec![4]);
    let result = tensor1.div(&tensor2).unwrap();
    assert_eq!(result.data(), &[3, -3, -2, 0]);
    let halves = Tensor::new(vec![5u32, 8, 1], vec![3]).div_scalar(2);
    assert_eq!(halves.data(), &[2, 4, 0]);
}

#[test]
fn elementwise_on_rank_three() {
    let a = Tensor::new((1..=8).collect::<Vec<i32>>(), vec![2, 2, 2]);
    let b = Tensor::new(vec![10; 8], vec![2, 2, 2]);
    let sum = a.add(&b).unwrap();
    assert_eq!(sum.data(), &[11, 12, 13, 14, 15, 16, 17, 18]);
    assert_eq!(sum.shape(), &[2, 2, 2]);
    let neg = sum.neg();
    assert_eq!(neg.data(), &[-11, -12, -13, -14, -15, -16, -17, -18]);
}
