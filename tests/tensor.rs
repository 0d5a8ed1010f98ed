use orama_tensor::shape::{checked_product, is_valid_dims};
use orama_tensor::{Shape, Tensor};

#[test]
fn test_new() {
    let data = vec![1, 2, 3, 4];
    let shape = vec![2, 2];
    let tensor = Tensor::new(data, shape);
    assert_eq!(tensor.data(), vec![1, 2, 3, 4]);
    assert_eq!(tensor.shape(), vec![2, 2]);
}

#[test]
fn test_zeros() {
    let shape = vec![2, 2];
    let tensor: Tensor<u32> = Tensor::zeros(shape);
    assert_eq!(tensor.data(), vec![0, 0, 0, 0]);
    assert_eq!(tensor.shape(), vec![2, 2]);
}

#[test]
fn test_ones() {
    let shape = vec![2, 2];
    let tensor: Tensor<u32> = Tensor::ones(shape);
    assert_eq!(tensor.data(), vec![1, 1, 1, 1]);
    assert_eq!(tensor.shape(), vec![2, 2]);
}

#[test]
fn test_eq() {
    let tensor1 = Tensor::new(vec![1, 2, 3, 4], vec![2, 2]);
    let tensor2 = Tensor::new(vec![1, 2, 3, 4], vec![2, 2]);
    assert_eq!(tensor1, tensor2);
}

#[test]
fn test_ne() {
    let tensor1 = Tensor::new(vec![1, 2, 3, 4], vec![2, 2]);
    let tensor2 = Tensor::new(vec![5, 6, 7, 8], vec![2, 2]);
    assert_ne!(tensor1, tensor2);
}

#[test]
fn test_cast() {
    let tensor = Tensor::new(vec![1, 2, 3, 4], vec![2, 2]);
    let tensor = tensor.cast::<f64>();
    assert_eq!(tensor.data(), &[1.0, 2.0, 3.0, 4.0]);
}

#[test]
fn eq_needs_same_shape() {
    let tensor1 = Tensor::new(vec![1, 2, 3, 4], vec![2, 2]);
    let tensor2 = Tensor::new(vec![1, 2, 3, 4], vec![4]);
    assert_ne!(tensor1, tensor2);
    let tensor3 = Tensor::new(vec![1, 2, 3, 4], vec![4, 1]);
    assert_ne!(tensor2, tensor3);
}

#[test]
fn new_keeps_data_and_shape() {
    let tensor = Tensor::new(vec![7i64, -3, 0, 9, 11, 2], vec![3, 2]);
    assert_eq!(tensor.data(), &[7, -3, 0, 9, 11, 2]);
    assert_eq!(tensor.shape(), &[3, 2]);
    assert_eq!(tensor.numel(), 6);
}

#[test]
fn zeros_and_ones_fill_every_element() {
    let zeros: Tensor<i64> = Tensor::zeros(vec![2, 3, 4]);
    assert_eq!(zeros.data().len(), 24);
    assert!(zeros.data().iter().all(|x| *x == 0));
    let ones: Tensor<u8> = Tensor::ones(vec![5]);
    assert_eq!(ones.data(), &[1, 1, 1, 1, 1]);
    assert_eq!(ones.shape(), &[5]);
}

#[test]
fn zeros_with_empty_axis_has_no_elements() {
    let tensor: Tensor<i32> = Tensor::zeros(vec![3, 0]);
    assert_eq!(tensor.numel(), 0);
    assert!(tensor.data().is_empty());
}

#[test]
fn from_scalar_fills_shape() {
    let tensor = Tensor::from_scalar(7u16, vec![2, 3]);
    assert_eq!(tensor.data(), &[7, 7, 7, 7, 7, 7]);
    assert_eq!(tensor.shape(), &[2, 3]);
    let single = Tensor::from_scalar(4i32, vec![1]);
    assert_eq!(single.data(), &[4]);
}

#[test]
fn cast_widens_integers() {
    let tensor = Tensor::new(vec![-1i32, 2, -3], vec![3]);
    let wide = tensor.cast::<i64>();
    assert_eq!(wide.data(), &[-1i64, 2, -3]);
    assert_eq!(wide.shape(), &[3]);
}

#[test]
fn shape_accessors() {
    let shape = Shape::from_dims(vec![2, 3, 4]);
    assert_eq!(shape.size(), 3);
    assert_eq!(shape.numel(), 24);
    assert_eq!(shape.dims(), &[2, 3, 4]);
    let with_zero = Shape::from_dims(vec![0, 5]);
    assert_eq!(with_zero.numel(), 0);
    assert!(shape == Shape::from_dims(vec![2, 3, 4]));
    assert!(shape != with_zero);
}

#[test]
fn valid_dims_check() {
    assert!(is_valid_dims(&[2, 2]));
    assert!(is_valid_dims(&[0, 1]));
    assert!(!is_valid_dims(&[0, 0]));
    assert!(!is_valid_dims(&[]));
    assert!(!is_valid_dims(&[usize::MAX, 2]));
    assert_eq!(checked_product(&[2, 3, 4]), Some(24));
    assert_eq!(checked_product(&[]), Some(1));
    assert_eq!(checked_product(&[usize::MAX, usize::MAX, 0]), Some(0));
    assert_eq!(checked_product(&[usize::MAX, 2]), None);
}
