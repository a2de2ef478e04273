use ragfs::ranking::{rank_positions, score_key_of};

fn b(x: f32) -> u32 {
    x.to_bits()
}

#[test]
fn ranking_orders_by_descending_score() {
    let scores = vec![b(0.1), b(0.9), b(-0.5), b(0.5)];
    assert_eq!(rank_positions(&scores, 10), vec![1, 3, 0, 2]);
    assert_eq!(rank_positions(&scores, 2), vec![1, 3]);
    assert!(rank_positions(&scores, 0).is_empty());
}

#[test]
fn ranking_keeps_equal_scores_in_original_order() {
    let scores = vec![b(0.5), b(1.0), b(0.5), b(1.0)];
    assert_eq!(rank_positions(&scores, 4), vec![1, 3, 0, 2]);
    // the two zeros compare equal
    let zeros = vec![b(-0.0), b(0.0), b(-0.0)];
    assert_eq!(rank_positions(&zeros, 3), vec![0, 1, 2]);
}

#[test]
fn ranking_places_nan_last() {
    let scores = vec![b(f32::NAN), b(f32::NEG_INFINITY), b(f32::INFINITY)];
    assert_eq!(rank_positions(&scores, 3), vec![2, 1, 0]);
}

#[test]
fn score_keys_follow_float_order() {
    assert_eq!(score_key_of(b(0.0)), 0);
    assert_eq!(score_key_of(b(-0.0)), 0);
    assert!(score_key_of(b(1.0)) > score_key_of(b(0.5)));
    assert!(score_key_of(b(-1.0)) < score_key_of(b(-0.5)));
    assert!(score_key_of(b(f32::NAN)) < score_key_of(b(f32::NEG_INFINITY)));
}

#[test]
fn smaller_limit_gives_prefix_of_larger() {
    let scores = vec![b(0.3), b(0.7), b(0.7), b(-1.0), b(0.9)];
    let all = rank_positions(&scores, 5);
    for k in 0..=5 {
        assert_eq!(rank_positions(&scores, k), all[..k].to_vec());
    }
}
