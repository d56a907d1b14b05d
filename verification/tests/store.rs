use vector_store::error::VectorError;
use vector_store::store::{VectorRecord, VectorStore};

#[test]
fn test_insert_and_get() {
    let mut db = VectorStore::new();
    let vec1 = VectorRecord::new(1, vec![1, 2, 3]);
    db.insert(vec1);
    let retrieved = db.get(1);
    assert!(retrieved.is_some());
    assert_eq!(retrieved.unwrap().id, 1);
}

#[test]
fn test_update() {
    let mut db = VectorStore::new();
    db.insert(VectorRecord::new(1, vec![1, 2, 3]));
    db.update(1, vec![4, 5, 6]);
    let updated = db.get(1).unwrap();
    assert_eq!(updated.components, vec![4, 5, 6]);
}

#[test]
fn test_delete() {
    let mut db = VectorStore::new();
    db.insert(VectorRecord::new(1, vec![1, 2, 3]));
    db.delete(1);
    assert!(db.get(1).is_none());
}

#[test]
fn test_nearest_neighbour() {
    let mut db = VectorStore::new();
    db.insert(VectorRecord::new(1, vec![1, 2, 3]));
    db.insert(VectorRecord::new(2, vec![4, 5, 6]));
    db.insert(VectorRecord::new(3, vec![7, 8, 9]));
    let query = VectorRecord::new(4, vec![3, 4, 5]);
    let nearest = db.nearest_neighbour(&query).unwrap();
    assert!(nearest.id == 1 || nearest.id == 2 || nearest.id == 3);
}

#[test]
fn nearest_is_the_closest_of_three() {
    let mut db = VectorStore::new();
    db.insert(VectorRecord::new(1, vec![1, 2, 3]));
    db.insert(VectorRecord::new(2, vec![4, 5, 6]));
    db.insert(VectorRecord::new(3, vec![7, 8, 9]));
    let query = VectorRecord::new(4, vec![3, 4, 5]);
    let nearest = db.nearest_neighbour(&query).unwrap();
    assert_eq!(nearest.id, 2);
    assert_eq!(nearest.components, vec![4, 5, 6]);
}

#[test]
fn nearest_on_empty_store_reports_empty() {
    let db = VectorStore::new();
    let query = VectorRecord::new(1, vec![1, 2, 3]);
    let result = db.nearest_neighbour(&query);
    assert_eq!(result.unwrap_err(), VectorError::EmptyStore);
}

#[test]
fn nearest_with_mismatched_lengths_reports_mismatch() {
    let mut db = VectorStore::new();
    db.insert(VectorRecord::new(1, vec![1, 2, 3]));
    db.insert(VectorRecord::new(2, vec![4, 5]));
    let query = VectorRecord::new(9, vec![1, 2, 3]);
    let result = db.nearest_neighbour(&query);
    assert_eq!(result.unwrap_err(), VectorError::DimensionMismatch);
}

#[test]
fn nearest_tie_falls_to_the_earlier_record() {
    let mut db = VectorStore::new();
    db.insert(VectorRecord::new(10, vec![0, 0]));
    db.insert(VectorRecord::new(20, vec![2, 0]));
    let query = VectorRecord::new(1, vec![1, 0]);
    let nearest = db.nearest_neighbour(&query).unwrap();
    assert_eq!(nearest.id, 10);
}

#[test]
fn store_stays_usable_after_an_error() {
    let mut db = VectorStore::new();
    let query = VectorRecord::new(1, vec![5]);
    assert!(db.nearest_neighbour(&query).is_err());
    db.insert(VectorRecord::new(1, vec![4]));
    let nearest = db.nearest_neighbour(&query).unwrap();
    assert_eq!(nearest.id, 1);
}

#[test]
fn get_sees_the_first_of_duplicate_ids() {
    let mut db = VectorStore::new();
    db.insert(VectorRecord::new(5, vec![1]));
    db.insert(VectorRecord::new(5, vec![2]));
    let first = db.get(5).unwrap();
    assert_eq!(first.components, vec![1]);
}

#[test]
fn update_touches_only_the_first_of_duplicate_ids() {
    let mut db = VectorStore::new();
    db.insert(VectorRecord::new(5, vec![9]));
    db.insert(VectorRecord::new(5, vec![2]));
    db.update(5, vec![7]);
    let first = db.get(5).unwrap();
    assert_eq!(first.components, vec![7]);
    // The untouched duplicate still holds [2]: it is the nearest to [2].
    let probe = VectorRecord::new(0, vec![2]);
    let nearest = db.nearest_neighbour(&probe).unwrap();
    assert_eq!(nearest.components, vec![2]);
}

#[test]
fn update_of_an_absent_id_is_a_no_op() {
    let mut db = VectorStore::new();
    db.insert(VectorRecord::new(1, vec![1, 2]));
    db.update(2, vec![8, 8]);
    assert!(db.get(2).is_none());
    assert_eq!(db.get(1).unwrap().components, vec![1, 2]);
}

#[test]
fn delete_removes_all_duplicates_and_keeps_order() {
    let mut db = VectorStore::new();
    db.insert(VectorRecord::new(1, vec![0]));
    db.insert(VectorRecord::new(2, vec![4]));
    db.insert(VectorRecord::new(1, vec![0]));
    db.insert(VectorRecord::new(3, vec![4]));
    db.delete(1);
    assert!(db.get(1).is_none());
    assert!(db.get(2).is_some());
    assert!(db.get(3).is_some());
    // Records 2 and 3 are equidistant from the query; the tie falls to the
    // one that came earlier, so their relative order survived the delete.
    let query = VectorRecord::new(0, vec![4]);
    let nearest = db.nearest_neighbour(&query).unwrap();
    assert_eq!(nearest.id, 2);
}

#[test]
fn delete_of_an_absent_id_is_a_no_op() {
    let mut db = VectorStore::new();
    db.insert(VectorRecord::new(1, vec![3]));
    db.delete(9);
    assert_eq!(db.get(1).unwrap().components, vec![3]);
}
