use fixed_linalg::matrix::Matrix;
use fixed_linalg::vector::Vector;

#[test]
fn additive_identity_vector() {
    let v = Vector::from_vec(vec![3, -7, 22]);
    let z = Vector::zero(3);
    let s = v.add(&z);
    assert_eq!(s.to_elems(), vec![3, -7, 22]);
}

#[test]
fn additive_identity_matrix() {
    let m = Matrix::new(2, 3, &vec![vec![3, 3], vec![1, 2], vec![0, 6]]).unwrap();
    let z = Matrix::zero(2, 3);
    let s = m.add(&z);
    assert_eq!(s.num_rows(), 2);
    assert_eq!(s.num_cols(), 3);
    assert_eq!(s.to_flat(), m.to_flat());
}

#[test]
fn dot_product_unit_size() {
    let v = Vector::from_vec(vec![7]);
    let w = Vector::from_vec(vec![9]);
    assert_eq!(v.dot(&w), 63);
}

#[test]
fn dot_product_small() {
    let v = Vector::from_vec(vec![1, 2, 3]);
    let w = Vector::from_vec(vec![4, 5, 6]);
    // reference loop: 1*4 + 2*5 + 3*6
    let mut reference: i64 = 0;
    for i in 0..3 {
        reference += v.index(i) * w.index(i);
    }
    assert_eq!(reference, 32);
    assert_eq!(v.dot(&w), 32);
}

#[test]
fn dot_product_empty_is_zero() {
    let v = Vector::from_vec(vec![]);
    let w = Vector::from_vec(vec![]);
    assert_eq!(v.dot(&w), 0);
}

#[test]
fn round_trip_vector() {
    let elems = vec![10, -4, 0, 99];
    let v = Vector::from_elems(4, elems.clone()).unwrap();
    assert_eq!(v.to_elems(), elems);
}

#[test]
fn round_trip_matrix() {
    let flat = vec![1, 2, 3, 4, 5, 6];
    let m = Matrix::from_flat(2, 3, flat.clone()).unwrap();
    assert_eq!(m.num_rows(), 2);
    assert_eq!(m.num_cols(), 3);
    assert_eq!(m.to_flat(), flat);
}

#[test]
fn construction_failure_vector() {
    assert!(Vector::from_elems(3, vec![1, 2]).is_none());
    assert!(Vector::from_elems(3, vec![1, 2, 3, 4]).is_none());
    assert!(Vector::from_elems(0, vec![1]).is_none());
    assert!(Vector::from_elems(3, vec![1, 2, 3]).is_some());
    assert!(Vector::from_elems(0, vec![]).is_some());
}

#[test]
fn construction_failure_matrix_flat() {
    assert!(Matrix::from_flat(2, 3, vec![1, 2, 3, 4, 5]).is_none());
    assert!(Matrix::from_flat(2, 3, vec![1, 2, 3, 4, 5, 6, 7]).is_none());
    assert!(Matrix::from_flat(2, 3, vec![1, 2, 3, 4, 5, 6]).is_some());
    assert!(Matrix::from_flat(1, 1, vec![]).is_none());
    assert!(Matrix::from_flat(1, 1, vec![5]).is_some());
}

#[test]
fn construction_failure_matrix_literal() {
    // one column too few
    assert!(Matrix::new(2, 3, &vec![vec![3, 3], vec![1, 2]]).is_none());
    // one column too long
    assert!(Matrix::new(2, 2, &vec![vec![3, 3, 3], vec![1, 2]]).is_none());
    // one column too short
    assert!(Matrix::new(2, 2, &vec![vec![3], vec![1, 2]]).is_none());
    assert!(Matrix::new(2, 2, &vec![vec![3, 3], vec![1, 2]]).is_some());
}

#[test]
fn bounds_vector() {
    let v = Vector::from_vec(vec![5, 6, 7]);
    assert_eq!(v.index(0), 5);
    assert_eq!(v.index(2), 7);
    assert_eq!(v.get(0), Some(5));
    assert_eq!(v.get(2), Some(7));
    // one past the last valid index
    assert_eq!(v.get(3), None);
}

#[test]
fn bounds_matrix() {
    let m = Matrix::from_flat(2, 3, vec![1, 2, 3, 4, 5, 6]).unwrap();
    assert_eq!(m.size(), 6);
    assert_eq!(m.index(0), 1);
    assert_eq!(m.index(5), 6);
    assert_eq!(m.get(0), Some(1));
    assert_eq!(m.get(5), Some(6));
    // one past the last valid flattened index
    assert_eq!(m.get(6), None);
}

#[test]
fn indexed_writes() {
    let mut v = Vector::from_vec(vec![1, 2, 3]);
    v.set_index(1, 20);
    assert_eq!(v.to_elems(), vec![1, 20, 3]);

    let mut m = Matrix::from_flat(2, 2, vec![1, 2, 3, 4]).unwrap();
    m.set_index(2, 30);
    assert_eq!(m.to_flat(), vec![1, 2, 30, 4]);
    assert_eq!(m.index(2), 30);
}

#[test]
fn zero_values() {
    assert_eq!(Vector::zero(4).to_elems(), vec![0, 0, 0, 0]);
    assert_eq!(Vector::zero(0).len(), 0);
    let z = Matrix::zero(2, 2);
    assert_eq!(z.to_flat(), vec![0, 0, 0, 0]);
}

#[test]
fn mirror_swaps_dimensions_and_values() {
    // 2 scalars per column, 3 columns; its rows are (3, 1, 0) and (3, 2, 6)
    let m = Matrix::new(2, 3, &vec![vec![3, 3], vec![1, 2], vec![0, 6]]).unwrap();
    let t = m.diag_mirror();
    assert_eq!(t.num_rows(), 3);
    assert_eq!(t.num_cols(), 2);
    assert_eq!(t.to_flat(), vec![3, 1, 0, 3, 2, 6]);
}

#[test]
fn mirror_round_trip_non_square() {
    let m = Matrix::from_flat(3, 2, vec![1, 2, 3, 4, 5, 6]).unwrap();
    let back = m.diag_mirror().diag_mirror();
    assert_eq!(back.num_rows(), 3);
    assert_eq!(back.num_cols(), 2);
    assert_eq!(back.to_flat(), m.to_flat());
}

#[test]
fn mirror_round_trip_square() {
    let m = Matrix::from_flat(2, 2, vec![9, 8, 7, 6]).unwrap();
    let back = m.diag_mirror().diag_mirror();
    assert_eq!(back.num_rows(), 2);
    assert_eq!(back.num_cols(), 2);
    assert_eq!(back.to_flat(), m.to_flat());
}

#[test]
fn multiplication_example() {
    let matrix1 = Matrix::new(2, 3, &vec![vec![3, 3], vec![1, 2], vec![0, 6]]).unwrap();
    let matrix2 = Matrix::new(4, 2, &vec![vec![2, 7, 3, 2], vec![4, 3, 2, 3]]).unwrap();
    let product = matrix1.mul(&matrix2);
    assert_eq!(product.num_rows(), 4);
    assert_eq!(product.num_cols(), 3);
    assert_eq!(
        product.to_flat(),
        vec![18, 30, 15, 15, 10, 13, 7, 8, 24, 18, 12, 18]
    );
}

#[test]
fn elementwise_multiply_vs_dot() {
    let v = Vector::from_vec(vec![1, 2, 3]);
    let w = Vector::from_vec(vec![4, 5, 6]);
    // element-wise product keeps the shape
    let p = v.mul(&w);
    assert_eq!(p.len(), 3);
    assert_eq!(p.to_elems(), vec![4, 10, 18]);
    // the dot product sums it into one scalar instead
    assert_eq!(v.dot(&w), 32);
}

#[test]
fn vector_sub() {
    let v = Vector::from_vec(vec![5, 5, 5]);
    let w = Vector::from_vec(vec![1, 2, 3]);
    assert_eq!(v.sub(&w).to_elems(), vec![4, 3, 2]);
}

#[test]
fn matrix_add_values() {
    let m1 = Matrix::from_flat(2, 2, vec![1, 2, 3, 4]).unwrap();
    let m2 = Matrix::from_flat(2, 2, vec![10, 20, 30, 40]).unwrap();
    assert_eq!(m1.add(&m2).to_flat(), vec![11, 22, 33, 44]);
}

#[test]
fn indexed_writes_at_bounds() {
    let mut v = Vector::from_vec(vec![1, 2, 3]);
    v.set_index(0, -1);
    v.set_index(2, -3);
    assert_eq!(v.to_elems(), vec![-1, 2, -3]);

    let mut m = Matrix::from_flat(2, 3, vec![0, 0, 0, 0, 0, 0]).unwrap();
    m.set_index(0, 9);
    m.set_index(5, 8);
    assert_eq!(m.to_flat(), vec![9, 0, 0, 0, 0, 8]);
}

#[test]
fn vector_add_values() {
    let v = Vector::from_vec(vec![1, -2, 3]);
    let w = Vector::from_vec(vec![10, 20, -30]);
    assert_eq!(v.add(&w).to_elems(), vec![11, 18, -27]);
}
