use orama_tensor::{Convert, Tensor};

#[test]
fn test_into_tensor() {
    let tensor: Tensor<u32> = vec![1, 2, 3, 4].into_tensor(vec![2, 2]);
    assert_eq!(tensor.data(), vec![1, 2, 3, 4]);
    assert_eq!(tensor.shape(), vec![2, 2]);
}

#[test]
fn test_into_vector() {
    let tensor: Tensor<u32> = vec![1, 2, 3, 4].into_vector();
    assert_eq!(tensor.data(), vec![1, 2, 3, 4]);
    assert_eq!(tensor.shape(), vec![4]);
}

#[test]
fn test_into_matrix() {
    let tensor: Tensor<u32> = vec![1, 2, 3, 4].into_matrix(2, 2);
    assert_eq!(tensor.data(), vec![1, 2, 3, 4]);
    assert_eq!(tensor.shape(), vec![2, 2]);
}

#[test]
fn test_into_tensor_ref() {
    let data = vec![1, 2, 3, 4];
    let tensor: Tensor<u32> = data.as_slice().into_tensor(vec![2, 2]);
    assert_eq!(tensor.data(), vec![1, 2, 3, 4]);
    assert_eq!(tensor.shape(), vec![2, 2]);
}

#[test]
fn tensor_into_tensor_takes_new_shape() {
    let tensor = Tensor::new(vec![1, 2, 3, 4, 5, 6], vec![6]);
    assert_eq!(tensor.length(), 6);
    let matrix = tensor.into_matrix(3, 2);
    assert_eq!(matrix.shape(), &[3, 2]);
    assert_eq!(matrix.data(), &[1, 2, 3, 4, 5, 6]);
}
