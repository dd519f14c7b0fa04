use dsa::ds::DSError;
use dsa::linked_list::List;

#[test]
fn create_list() {
    let ll: List<i32> = List::new();

    assert!(ll.head.is_none());
    assert_eq!(ll.length, 0);
}

#[test]
fn insert() {
    let mut ll: List<i32> = List::new();

    ll.insert(5);

    assert!(ll.head.is_some());
    assert_eq!(ll.length, 1);

    let head = ll.head.unwrap();
    assert_eq!(head.value, 5);
    assert!(head.next.is_none());
}

#[test]
fn insert_multiple() {
    let mut ll: List<i32> = List::new();

    ll.insert(6);
    ll.insert(7);

    let head = ll.head.unwrap();
    assert_eq!(head.value, 7);
    assert!(head.next.is_some());

    let next = head.next.unwrap();
    assert_eq!(next.value, 6);
}

#[test]
fn insert_at() {
    let mut ll: List<i32> = List::new();

    ll.insert(5);
    ll.insert(6);
    let created = ll.insert_at(7, 1);

    assert!(created.is_ok());
    assert_eq!(ll.len(), 3);
    assert_eq!(ll.head.unwrap().next.unwrap().value, 7);
}

#[test]
fn get() {
    let mut ll: List<i32> = List::new();

    ll.insert(5);
    ll.insert(6);
    ll.insert(7);

    let value = ll.get(0).unwrap();
    assert_eq!(value, 7);

    let value = ll.get(1).unwrap();
    assert_eq!(value, 6);

    let value = ll.get(2).unwrap();
    assert_eq!(value, 5);

    let value = ll.get(3);
    assert_eq!(value, None);
}

#[test]
fn delete() {
    let mut ll: List<i32> = List::new();

    ll.insert(5);
    ll.insert(6);
    ll.insert(7);

    let value = ll.delete().unwrap();
    assert_eq!(value, 7);
    assert_eq!(ll.len(), 2);

    let value = ll.delete().unwrap();
    assert_eq!(value, 6);
    assert_eq!(ll.len(), 1);

    let value = ll.delete().unwrap();
    assert_eq!(value, 5);
    assert_eq!(ll.len(), 0);

    let value = ll.get(1);
    assert_eq!(value, None);
}

#[test]
fn prepend_reads_back_reversed() {
    let mut ll: List<i32> = List::new();

    ll.insert(1);
    ll.insert(2);
    ll.insert(3);
    ll.insert(4);

    assert_eq!(ll.len(), 4);
    assert_eq!(ll.get(0), Some(4));
    assert_eq!(ll.get(3), Some(1));
}

#[test]
fn delete_empty() {
    let mut ll: List<i32> = List::new();

    assert_eq!(ll.delete(), Err(DSError::EmptyCollection));
    assert_eq!(ll.len(), 0);
}

#[test]
fn insert_at_append() {
    let mut ll: List<i32> = List::new();

    ll.insert(5);
    ll.insert(6);

    let created = ll.insert_at(7, 2);
    assert!(created.is_ok());
    assert_eq!(ll.len(), 3);
    assert_eq!(ll.get(0), Some(6));
    assert_eq!(ll.get(1), Some(5));
    assert_eq!(ll.get(2), Some(7));
}

#[test]
fn insert_at_out_of_range() {
    let mut ll: List<i32> = List::new();

    ll.insert(5);
    ll.insert(6);

    let created = ll.insert_at(7, 3);
    assert_eq!(created, Err(DSError::IndexOutOfRange));
    assert_eq!(ll.len(), 2);
    assert_eq!(ll.get(0), Some(6));
    assert_eq!(ll.get(1), Some(5));
}

#[test]
fn insert_at_middle_chain() {
    let mut ll: List<i32> = List::new();

    ll.insert(5);
    ll.insert(6);

    let created = ll.insert_at(7, 1);
    assert!(created.is_ok());
    assert_eq!(ll.len(), 3);
    assert_eq!(ll.get(0), Some(6));
    assert_eq!(ll.get(1), Some(7));
    assert_eq!(ll.get(2), Some(5));
}

#[test]
fn delete_at_middle() {
    let mut ll: List<i32> = List::new();

    ll.insert(5);
    ll.insert(6);
    ll.insert(7);

    let value = ll.delete_at(1);
    assert_eq!(value, Ok(6));
    assert_eq!(ll.len(), 2);
    assert_eq!(ll.get(0), Some(7));
    assert_eq!(ll.get(1), Some(5));
}

#[test]
fn delete_at_out_of_range() {
    let mut ll: List<i32> = List::new();

    ll.insert(5);
    ll.insert(6);

    let value = ll.delete_at(2);
    assert_eq!(value, Err(DSError::IndexOutOfRange));
    assert_eq!(ll.len(), 2);
    assert_eq!(ll.get(0), Some(6));
    assert_eq!(ll.get(1), Some(5));
}

#[test]
fn delete_at_empty() {
    let mut ll: List<i32> = List::new();

    let value = ll.delete_at(0);
    assert_eq!(value, Err(DSError::IndexOutOfRange));
    assert_eq!(ll.len(), 0);
}

#[test]
fn get_empty_and_out_of_range() {
    let mut ll: List<i32> = List::new();

    assert_eq!(ll.get(0), None);
    assert_eq!(ll.len(), 0);

    ll.insert(5);
    assert_eq!(ll.get(1), None);
    assert_eq!(ll.get(100), None);
    assert_eq!(ll.len(), 1);
    assert_eq!(ll.get(0), Some(5));
}

#[test]
fn end_to_end_insert_get_delete() {
    let mut ll: List<i32> = List::new();

    ll.insert(5);
    ll.insert(6);
    ll.insert(7);

    assert_eq!(ll.get(0), Some(7));
    assert_eq!(ll.get(1), Some(6));
    assert_eq!(ll.get(2), Some(5));
    assert_eq!(ll.get(3), None);

    assert_eq!(ll.delete(), Ok(7));
    assert_eq!(ll.delete(), Ok(6));
    assert_eq!(ll.delete(), Ok(5));
    assert_eq!(ll.len(), 0);
}
