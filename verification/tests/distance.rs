use vector_store::distance::distance_squared;
use vector_store::error::VectorError;

#[test]
fn squared_distance_of_equal_length_vectors() {
    // The rooted distances of the three stored examples to the query
    // [3, 4, 5] are sqrt(12), sqrt(3) and sqrt(48).
    assert_eq!(distance_squared(&vec![1, 2, 3], &vec![3, 4, 5]), Ok(12));
    assert_eq!(distance_squared(&vec![4, 5, 6], &vec![3, 4, 5]), Ok(3));
    assert_eq!(distance_squared(&vec![7, 8, 9], &vec![3, 4, 5]), Ok(48));
}

#[test]
fn squared_distance_is_symmetric_here() {
    assert_eq!(distance_squared(&vec![-2, 7], &vec![3, -1]), Ok(89));
    assert_eq!(distance_squared(&vec![3, -1], &vec![-2, 7]), Ok(89));
}

#[test]
fn squared_distance_of_empty_vectors_is_zero() {
    assert_eq!(distance_squared(&vec![], &vec![]), Ok(0));
}

#[test]
fn squared_distance_of_extreme_components() {
    let lo = i32::MIN;
    let hi = i32::MAX;
    // (hi - lo)^2 = (2^32 - 1)^2, the largest single squared difference.
    assert_eq!(
        distance_squared(&vec![lo], &vec![hi]),
        Ok(0xFFFF_FFFE_0000_0001)
    );
}

#[test]
fn mismatched_lengths_report_mismatch() {
    assert_eq!(
        distance_squared(&vec![1, 2], &vec![1, 2, 3]),
        Err(VectorError::DimensionMismatch)
    );
    assert_eq!(
        distance_squared(&vec![], &vec![0]),
        Err(VectorError::DimensionMismatch)
    );
}
