use semval::util::{IsEmpty, Mergeable, UnitResult};

#[test]
fn unit_is_empty() {
    assert!(().is_empty())
}

#[test]
fn unit_mergeable() {
    assert_eq!((), <() as Mergeable>::empty(5));
    assert_eq!((), ().merge(()));
    assert_eq!((), ().merge_iter(3, core::iter::repeat(()).take(3)));
}

#[test]
fn unit_result_quantities() {
    assert_eq!(Ok(()) as UnitResult<usize>, Ok(()).merge(Ok(())));
    assert_eq!(Err(1usize), Err(1).merge(Ok(())));
    assert_eq!(Err(2usize), Ok(()).merge(Err(2)));
    assert_eq!(Err(3usize), Err(1).merge(Err(2)));
}

#[test]
fn vec_is_empty() {
    assert!(<Vec<()> as IsEmpty>::is_empty(&vec![]));
}

#[test]
fn vec_mergeable() {
    assert!(<Vec<()> as Mergeable>::empty(None).is_empty());
    assert!(<Vec<()> as Mergeable>::empty(5).is_empty());
    assert_eq!(vec![1, 2], vec![].merge(vec![1, 2]));
    assert_eq!(vec![1, 2], vec![1, 2].merge(vec![]));
    assert_eq!(vec![2, 1], vec![2].merge(vec![1]));
    assert_eq!(vec![2, 3, 1, 4], vec![2, 3].merge(vec![1, 4]));
    assert_eq!(vec![0, 2, 3, 1, 4], vec![0].merge_iter(4, vec![2, 3, 1, 4].into_iter()));
}
