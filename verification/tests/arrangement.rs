use kidase_presentation::arrange::arrange;

#[test]
fn nothing_to_arrange() {
    assert_eq!(arrange(&vec![]), Vec::<usize>::new());
    assert_eq!(arrange(&vec![None, None]), Vec::<usize>::new());
}

#[test]
fn keys_ascend() {
    assert_eq!(arrange(&vec![Some(3), Some(1), Some(2)]), vec![1, 2, 0]);
}

#[test]
fn positions_without_key_are_left_out() {
    assert_eq!(arrange(&vec![Some(3), None, Some(1), None, Some(2)]), vec![2, 4, 0]);
}

#[test]
fn equal_keys_keep_their_order() {
    assert_eq!(arrange(&vec![Some(3), None, Some(1), Some(3), Some(2), Some(1)]), vec![
        2, 5, 4, 0, 3
    ]);
}

#[test]
fn negative_and_extreme_keys() {
    assert_eq!(arrange(&vec![Some(0), Some(i64::MAX), Some(-5), Some(i64::MIN)]), vec![
        3, 2, 0, 1
    ]);
}

#[test]
fn sorted_input_stays() {
    assert_eq!(arrange(&vec![Some(1), Some(2), Some(3), Some(4)]), vec![0, 1, 2, 3]);
}

#[test]
fn reversed_input_is_reversed() {
    assert_eq!(arrange(&vec![Some(4), Some(3), Some(2), Some(1)]), vec![3, 2, 1, 0]);
}
