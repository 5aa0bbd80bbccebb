use lit_vek::{cycle_n, CycleN};

fn items(c: CycleN<i32>) -> Vec<i32> {
    c.to_vec()
}

#[test]
fn test_cycle_n() {
    assert_eq!(items(cycle_n(vec![1, 2, 3], 0)), Vec::<i32>::new());
    assert_eq!(items(cycle_n(vec![1, 2, 3], 1)), vec![1, 2, 3]);
    assert_eq!(items(cycle_n(vec![1, 2, 3], 2)), vec![1, 2, 3, 1, 2, 3]);

    assert_eq!(items(cycle_n(Vec::new(), 10)), Vec::<i32>::new());
}

#[test]
fn cycle_n_yields_one_by_one_then_stops() {
    let mut c = cycle_n(vec![7, 8], 2);
    assert_eq!(c.next(), Some(7));
    assert_eq!(c.next(), Some(8));
    assert_eq!(c.next(), Some(7));
    assert_eq!(c.next(), Some(8));
    assert_eq!(c.next(), None);
    assert_eq!(c.next(), None);
}

#[test]
fn cycle_n_single_element_many_rounds() {
    assert_eq!(items(cycle_n(vec![5], 4)), vec![5, 5, 5, 5]);
}

#[test]
fn cycle_n_clone_continues_independently() {
    let mut c = cycle_n(vec![1, 2], 2);
    assert_eq!(c.next(), Some(1));
    let d = c.clone();
    assert_eq!(c.to_vec(), vec![2, 1, 2]);
    assert_eq!(d.to_vec(), vec![2, 1, 2]);
}
