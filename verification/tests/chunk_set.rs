use weak_peer::fs::{ChunkError, FsContainer};

#[test]
fn set_chunk_grows_with_empty_chunks() {
    let mut set = FsContainer::new(7);
    assert_eq!(set.len(), 0);
    set.set_chunk(5, vec![1, 2, 3]).unwrap();
    assert_eq!(set.len(), 6);
    for i in 0..5 {
        assert_eq!(set.get_chunk(i).unwrap(), Some(Vec::new()));
    }
    assert_eq!(set.get_chunk(5).unwrap(), Some(vec![1, 2, 3]));
    set.set_chunk(2, vec![9]).unwrap();
    assert_eq!(set.len(), 6);
    assert_eq!(set.get_chunk(2).unwrap(), Some(vec![9]));
    assert_eq!(set.get_chunk(5).unwrap(), Some(vec![1, 2, 3]));
    assert_eq!(set.get_clock(), 7);
}

#[test]
fn set_chunk_at_the_end_grows_by_one() {
    let mut set = FsContainer::new(0);
    set.set_chunk(0, vec![10]).unwrap();
    set.set_chunk(1, vec![11]).unwrap();
    assert_eq!(set.len(), 2);
    assert_eq!(set.get_chunk(0).unwrap(), Some(vec![10]));
    assert_eq!(set.get_chunk(1).unwrap(), Some(vec![11]));
}

#[test]
fn set_chunk_replaces_in_place() {
    let mut set = FsContainer::new(0);
    set.set_chunk(1, vec![1]).unwrap();
    set.set_chunk(1, vec![2, 2]).unwrap();
    assert_eq!(set.len(), 2);
    assert_eq!(set.get_chunk(0).unwrap(), Some(Vec::new()));
    assert_eq!(set.get_chunk(1).unwrap(), Some(vec![2, 2]));
}

#[test]
fn set_chunk_refuses_the_last_index() {
    let mut set = FsContainer::new(4);
    set.set_chunk(0, vec![1]).unwrap();
    assert_eq!(set.set_chunk(usize::MAX, vec![2]), Err(ChunkError::IndexOverflow));
    assert_eq!(set.len(), 1);
    assert_eq!(set.get_chunk(0).unwrap(), Some(vec![1]));
    assert_eq!(set.get_clock(), 4);
}

#[test]
fn get_chunk_out_of_range_is_absent() {
    let mut set = FsContainer::new(0);
    assert_eq!(set.get_chunk(0).unwrap(), None);
    set.set_chunk(2, vec![5]).unwrap();
    assert_eq!(set.get_chunk(3).unwrap(), None);
    assert_eq!(set.get_chunk(usize::MAX).unwrap(), None);
}

#[test]
fn get_chunk_hands_out_a_copy() {
    let mut set = FsContainer::new(0);
    set.set_chunk(0, vec![1, 2]).unwrap();
    let mut copy = set.get_chunk(0).unwrap().unwrap();
    copy.push(3);
    copy[0] = 9;
    assert_eq!(set.get_chunk(0).unwrap(), Some(vec![1, 2]));
}

#[test]
fn clock_is_stored_and_not_interpreted() {
    let mut set = FsContainer::new(u64::MAX);
    assert_eq!(set.get_clock(), u64::MAX);
    set.set_chunk(1, vec![1]).unwrap();
    set.set_clock(3);
    assert_eq!(set.get_clock(), 3);
    set.set_clock(1);
    assert_eq!(set.get_clock(), 1);
    assert_eq!(set.len(), 2);
    assert_eq!(set.get_chunk(1).unwrap(), Some(vec![1]));
}

#[test]
fn default_set_is_empty_with_clock_zero() {
    let set = FsContainer::default();
    assert_eq!(set.len(), 0);
    assert_eq!(set.get_clock(), 0);
}

#[test]
fn clone_of_a_set_is_independent() {
    let mut set = FsContainer::new(5);
    set.set_chunk(1, vec![7]).unwrap();
    let copy = set.clone();
    set.set_chunk(1, vec![8]).unwrap();
    set.set_clock(6);
    assert_eq!(copy.get_clock(), 5);
    assert_eq!(copy.len(), 2);
    assert_eq!(copy.get_chunk(1).unwrap(), Some(vec![7]));
}
