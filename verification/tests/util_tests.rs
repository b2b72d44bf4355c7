use hello_nn::util::{shuffle, DistCustomWrap};

#[test]
fn test_shuffle() {
    let (a, b) = shuffle(vec![1, 2, 3, 4, 5, 6, 7], vec![1, 2, 3, 4, 5, 6, 7]);
    assert_eq!(a, b);
}

#[test]
fn shuffle_keeps_every_pair_exactly_once() {
    let samples: Vec<u32> = (0..50).collect();
    let labels: Vec<String> = (0..50).map(|i| format!("label-{}", i)).collect();
    let (a, b) = shuffle(samples.clone(), labels.clone());
    assert_eq!(a.len(), 50);
    assert_eq!(b.len(), 50);
    for i in 0..50 {
        assert_eq!(b[i], format!("label-{}", a[i]));
    }
    let mut seen = a.clone();
    seen.sort();
    assert_eq!(seen, samples);
}

#[test]
fn shuffle_drops_what_has_no_partner() {
    let (a, b) = shuffle(vec![0u8, 1, 2, 3, 4], vec![10u8, 11, 12]);
    assert_eq!(a.len(), 3);
    assert_eq!(b.len(), 3);
    for i in 0..3 {
        assert_eq!(b[i], a[i] + 10);
    }
    let mut seen = a.clone();
    seen.sort();
    assert_eq!(seen, vec![0, 1, 2]);
}

#[test]
fn shuffle_of_nothing_is_nothing() {
    let (a, b) = shuffle(Vec::<u8>::new(), vec![1u8, 2]);
    assert!(a.is_empty());
    assert!(b.is_empty());
}

#[test]
fn shuffle_of_one_pair_is_that_pair() {
    let (a, b) = shuffle(vec![7u8], vec!['x']);
    assert_eq!(a, vec![7]);
    assert_eq!(b, vec!['x']);
}

#[test]
fn shuffle_changes_the_order_of_a_long_sequence() {
    let samples: Vec<u32> = (0..200).collect();
    let (a, _) = shuffle(samples.clone(), samples.clone());
    assert_ne!(a, samples);
}

#[test]
fn dist_custom_wrap_holds_its_parts() {
    let w = DistCustomWrap::new(41u8, |v: u8| v + 1);
    assert_eq!(*w.inner(), 41);
    assert_eq!((w.f())(*w.inner()), 42);
}
