use kanari::block_files::{find_block_heights, sort_heights};

fn stems(v: &[&str]) -> Vec<String> {
    v.iter().map(|s| s.to_string()).collect()
}

#[test]
fn heights_come_sorted() {
    assert_eq!(find_block_heights(&stems(&["12", "3", "100", "3"])), Some(vec![3, 3, 12, 100]));
    assert_eq!(find_block_heights(&stems(&[])), Some(vec![]));
}

#[test]
fn a_stem_that_is_no_height_is_refused() {
    assert_eq!(find_block_heights(&stems(&["12", "block"])), None);
    assert_eq!(find_block_heights(&stems(&["-1"])), None);
}

#[test]
fn sorting_keeps_every_height() {
    assert_eq!(sort_heights(&vec![5, 1, 4, 1, 3]), vec![1, 1, 3, 4, 5]);
    assert_eq!(sort_heights(&vec![u64::MAX, 0]), vec![0, u64::MAX]);
}
