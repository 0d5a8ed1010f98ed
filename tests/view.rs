use orama_tensor::{Convert, Entry, Index, Tensor, View};

#[test]
fn test_index() {
    let tensor = vec![1, 2, 3, 4].into_vector();
    let view = tensor.view();
    assert_eq!(view.index(0).scalar(), 1);
    assert_eq!(view.index(1).scalar(), 2);
    assert_eq!(view.index(2).scalar(), 3);
    assert_eq!(view.index(3).scalar(), 4);
}

#[test]
fn test_index_2d() {
    let tensor = vec![1, 2, 3, 4].into_tensor(vec![2, 2]);
    let view = tensor.view();
    assert_eq!(view.index(0).slice(), &[1, 2]);
    assert_eq!(view.index(1).slice(), &[3, 4]);
}

#[test]
fn index_then_index_reaches_scalar() {
    let tensor = Tensor::new(vec![1, 2, 3, 4], vec![2, 2]);
    let row = tensor.index(0);
    match row {
        Entry::Slice(v) => assert_eq!(v.index(1).scalar(), 2),
        Entry::Scalar(_) => panic!("expected a slice"),
    }
    assert_eq!(tensor.index(1).slice(), &[3, 4]);
}

#[test]
fn index_round_trip_rank_three() {
    let data: Vec<i32> = (0..24).collect();
    let tensor = Tensor::new(data.clone(), vec![2, 3, 4]);
    for i in 0..2 {
        for j in 0..3 {
            for k in 0..4 {
                let a = match tensor.index(i) {
                    Entry::Slice(v) => v,
                    Entry::Scalar(_) => panic!("expected a slice"),
                };
                let b = match a.index(j) {
                    Entry::Slice(v) => v,
                    Entry::Scalar(_) => panic!("expected a slice"),
                };
                assert_eq!(b.index(k).scalar(), data[i * 12 + j * 4 + k]);
            }
        }
    }
}

#[test]
fn view_new_over_slice() {
    let data = [5, 6, 7, 8, 9, 10];
    let shape = [3, 2];
    let view = View::new(&data, &shape);
    assert_eq!(view.data(), &data);
    assert_eq!(view.index(2).slice(), &[9, 10]);
}
