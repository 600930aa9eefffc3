use keygen::rng::Rng;

#[test]
fn words_are_taken_in_order_until_exhausted() {
    let mut rng = Rng::new(vec![7, 9]);
    assert_eq!(rng.u32(), Some(7));
    assert_eq!(rng.u32(), Some(9));
    assert_eq!(rng.u32(), None);
}

#[test]
fn range_reduces_accepted_word() {
    let mut rng = Rng::new(vec![25, 3]);
    assert_eq!(rng.range(10), Some(5));
    assert_eq!(rng.range(2), Some(1));
}

#[test]
fn range_rejects_words_at_or_above_threshold() {
    // For a bound of 10 the threshold is u32::MAX - u32::MAX % 10 = 4294967290.
    let mut rng = Rng::new(vec![4294967290, u32::MAX, 4294967289, 1]);
    assert_eq!(rng.range(10), Some(9));
    assert_eq!(rng.u32(), Some(1));
}

#[test]
fn range_of_zero_or_one_draws_nothing() {
    let mut rng = Rng::new(vec![42]);
    assert_eq!(rng.range(0), Some(0));
    assert_eq!(rng.range(1), Some(0));
    assert_eq!(rng.u32(), Some(42));
}

#[test]
fn range_runs_out() {
    let mut rng = Rng::new(vec![u32::MAX]);
    assert_eq!(rng.range(10), None);
    assert_eq!(rng.u32(), None);
}

#[test]
fn range_results_stay_below_bound() {
    let words: Vec<u32> = (0..200u32).map(|i| i.wrapping_mul(2654435761)).collect();
    let mut rng = Rng::new(words);
    for max in 2..100u32 {
        let v = rng.range(max).unwrap();
        assert!(v < max);
    }
}

#[test]
fn bytes_are_little_endian_and_exact_in_count() {
    let mut rng = Rng::new(vec![0x04030201, 0x08070605, 0xAA]);
    assert_eq!(rng.bytes(5), Some(vec![1, 2, 3, 4, 5]));
    assert_eq!(rng.u32(), Some(0xAA));
}

#[test]
fn bytes_of_zero_take_nothing() {
    let mut rng = Rng::new(vec![1]);
    assert_eq!(rng.bytes(0), Some(vec![]));
    assert_eq!(rng.u32(), Some(1));
}

#[test]
fn bytes_run_out() {
    let mut rng = Rng::new(vec![1]);
    assert_eq!(rng.bytes(5), None);
}

#[test]
fn pick_indexes_by_draw() {
    let items = ['x', 'y', 'z'];
    let mut rng = Rng::new(vec![4, 2]);
    assert_eq!(rng.pick(&items), Some(&'y'));
    assert_eq!(rng.pick(&items), Some(&'z'));
    assert_eq!(rng.pick(&items), None);
}

#[test]
fn shuffle_swaps_by_draws() {
    // i = 2 draws below 3 -> 0, swap(2, 0); i = 1 draws below 2 -> 0, swap(1, 0).
    let mut items = ['a', 'b', 'c'];
    let mut rng = Rng::new(vec![0, 0]);
    assert!(rng.shuffle(&mut items));
    assert_eq!(items, ['b', 'c', 'a']);
}

#[test]
fn shuffle_keeps_items() {
    let mut items: Vec<u32> = (0..50).collect();
    let words: Vec<u32> = (0..100u32).map(|i| i.wrapping_mul(2246822519)).collect();
    let mut rng = Rng::new(words);
    assert!(rng.shuffle(&mut items));
    let mut sorted = items.clone();
    sorted.sort();
    assert_eq!(sorted, (0..50).collect::<Vec<u32>>());
}

#[test]
fn shuffle_of_one_item_draws_nothing() {
    let mut items = [5];
    let mut rng = Rng::new(vec![]);
    assert!(rng.shuffle(&mut items));
    assert_eq!(items, [5]);
}

#[test]
fn shuffle_runs_out() {
    let mut items = [1, 2, 3];
    let mut rng = Rng::new(vec![0]);
    assert!(!rng.shuffle(&mut items));
}

#[test]
fn shuffle_that_runs_out_keeps_items() {
    let mut items = [1, 2, 3, 4];
    let mut rng = Rng::new(vec![0]);
    assert!(!rng.shuffle(&mut items));
    let mut sorted = items;
    sorted.sort();
    assert_eq!(sorted, [1, 2, 3, 4]);
}
