use spectral_noise::ranking::rank_descending;

#[test]
fn greatest_key_gets_rank_zero() {
    let ranks = rank_descending(&vec![10, 40, 20, 30]);
    assert_eq!(ranks, vec![3, 0, 2, 1]);
}

#[test]
fn equal_keys_are_ranked_by_position() {
    let ranks = rank_descending(&vec![5, 7, 5, 7, 5]);
    assert_eq!(ranks, vec![2, 0, 3, 1, 4]);
}

#[test]
fn negative_keys_rank_below_positive_ones() {
    let ranks = rank_descending(&vec![-1, 0, i128::MIN, i128::MAX, 1]);
    assert_eq!(ranks, vec![3, 2, 4, 0, 1]);
}

#[test]
fn no_keys_no_ranks() {
    assert_eq!(rank_descending(&Vec::new()), Vec::<usize>::new());
}

#[test]
fn a_single_key_has_rank_zero() {
    assert_eq!(rank_descending(&vec![-42]), vec![0]);
}

#[test]
fn every_rank_is_taken_once() {
    let keys: Vec<i128> = (0..1000).map(|i: i128| (i * 7919) % 257).collect();
    let mut ranks = rank_descending(&keys);
    ranks.sort_unstable();
    assert_eq!(ranks, (0..1000).collect::<Vec<usize>>());
}

#[test]
fn a_greater_key_has_a_smaller_rank() {
    let keys: Vec<i128> = (0..300).map(|i: i128| (i * 7919) % 101 - 50).collect();
    let ranks = rank_descending(&keys);
    for i in 0..keys.len() {
        for j in 0..keys.len() {
            if keys[i] > keys[j] {
                assert!(ranks[i] < ranks[j]);
            }
            if keys[i] == keys[j] && i < j {
                assert!(ranks[i] < ranks[j]);
            }
        }
    }
}

#[test]
fn ranking_twice_gives_the_same_ranks() {
    let keys: Vec<i128> = (0..500).map(|i: i128| (i * 31) % 17).collect();
    assert_eq!(rank_descending(&keys), rank_descending(&keys));
}

#[test]
fn a_large_list_is_ranked_quickly() {
    let keys: Vec<i128> = (0..65536).map(|i: i128| (i * 48271) % 65536).collect();
    let ranks = rank_descending(&keys);
    for i in 0..keys.len() {
        assert_eq!(ranks[i] as i128, 65535 - keys[i]);
    }
}
