use lhe::buffers::BufferTable;
use lhe::error::LheError;

#[test]
fn published_buffer_is_seen_under_its_own_length() {
    let mut table = BufferTable::new();
    let ptr = table.publish(vec![1, 2, 3]);
    assert_eq!(ptr, 1);
    assert_eq!(table.lookup(ptr, 3), Ok(&[1u8, 2, 3][..]));
    // looking at a buffer does not take it
    assert_eq!(table.lookup(ptr, 3), Ok(&[1u8, 2, 3][..]));
}

#[test]
fn addresses_are_never_given_out_twice() {
    let mut table = BufferTable::new();
    let a = table.publish(vec![1]);
    let b = table.publish(vec![2]);
    assert_eq!((a, b), (1, 2));
    assert_eq!(table.release(a), Ok(()));
    let c = table.publish(vec![3]);
    assert_eq!(c, 3);
    assert_eq!(table.lookup(a, 1), Err(LheError::Pointer));
    assert_eq!(table.lookup(c, 1), Ok(&[3u8][..]));
}

#[test]
fn lookup_under_another_length_is_a_pointer_error() {
    let mut table = BufferTable::new();
    let ptr = table.publish(vec![1, 2, 3]);
    assert_eq!(table.lookup(ptr, 2), Err(LheError::Pointer));
    assert_eq!(table.lookup(ptr, 4), Err(LheError::Pointer));
    assert_eq!(table.lookup(ptr, usize::MAX), Err(LheError::Pointer));
}

#[test]
fn lookup_of_an_address_that_was_never_given_out_is_a_pointer_error() {
    let mut table = BufferTable::new();
    assert_eq!(table.lookup(0, 1), Err(LheError::Pointer));
    assert_eq!(table.lookup(1, 1), Err(LheError::Pointer));
    let _ = table.publish(vec![1]);
    assert_eq!(table.lookup(0, 1), Err(LheError::Pointer));
    assert_eq!(table.lookup(2, 1), Err(LheError::Pointer));
    assert_eq!(table.lookup(usize::MAX, 1), Err(LheError::Pointer));
}

#[test]
fn zero_length_handle_is_a_pointer_error_and_changes_nothing() {
    let mut table = BufferTable::new();
    let full = table.publish(vec![1, 2, 3]);
    let empty = table.publish(vec![]);
    assert_eq!(table.lookup(empty, 0), Err(LheError::Pointer));
    assert_eq!(table.lookup(full, 0), Err(LheError::Pointer));
    assert_eq!(table.lookup(full, 3), Ok(&[1u8, 2, 3][..]));
    // an empty buffer is still released like any other
    assert_eq!(table.release(empty), Ok(()));
    assert_eq!(table.release(empty), Err(LheError::Pointer));
    assert_eq!(table.lookup(full, 3), Ok(&[1u8, 2, 3][..]));
}

#[test]
fn releasing_twice_is_a_pointer_error_and_leaves_the_others_alone() {
    let mut table = BufferTable::new();
    let a = table.publish(vec![1, 1]);
    let b = table.publish(vec![2, 2, 2]);
    let c = table.publish(vec![3]);
    assert_eq!(table.release(b), Ok(()));
    assert_eq!(table.release(b), Err(LheError::Pointer));
    assert_eq!(table.release(b), Err(LheError::Pointer));
    assert_eq!(table.lookup(a, 2), Ok(&[1u8, 1][..]));
    assert_eq!(table.lookup(b, 3), Err(LheError::Pointer));
    assert_eq!(table.lookup(c, 1), Ok(&[3u8][..]));
    let d = table.publish(vec![4]);
    assert_eq!(d, 4);
    assert_eq!(table.release(b), Err(LheError::Pointer));
    assert_eq!(table.lookup(d, 1), Ok(&[4u8][..]));
}

#[test]
fn releasing_an_address_that_was_never_given_out_is_a_pointer_error() {
    let mut table = BufferTable::new();
    assert_eq!(table.release(0), Err(LheError::Pointer));
    assert_eq!(table.release(1), Err(LheError::Pointer));
    let a = table.publish(vec![5]);
    assert_eq!(table.release(a + 1), Err(LheError::Pointer));
    assert_eq!(table.release(usize::MAX), Err(LheError::Pointer));
    assert_eq!(table.lookup(a, 1), Ok(&[5u8][..]));
}
