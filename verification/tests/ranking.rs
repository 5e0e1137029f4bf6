use quickshot::ranking::rank_by_score;

#[test]
fn rank_by_score_puts_the_highest_score_first() {
    let order = rank_by_score(&vec![Some(3), Some(9), Some(-4), Some(5)]);
    assert_eq!(order, vec![1, 3, 0, 2]);
}

#[test]
fn rank_by_score_keeps_input_order_among_equal_scores() {
    let order = rank_by_score(&vec![Some(5), Some(7), Some(5), Some(7), Some(5)]);
    assert_eq!(order, vec![1, 3, 0, 2, 4]);
}

#[test]
fn rank_by_score_keeps_input_order_where_all_scores_are_equal() {
    let order = rank_by_score(&vec![Some(0), Some(0), Some(0), Some(0)]);
    assert_eq!(order, vec![0, 1, 2, 3]);
}

#[test]
fn rank_by_score_leaves_out_what_has_no_score() {
    let order = rank_by_score(&vec![Some(5), None, Some(7), None, Some(5), Some(7)]);
    assert_eq!(order, vec![2, 5, 0, 4]);
}

#[test]
fn rank_by_score_of_rising_scores_is_the_reverse() {
    let order = rank_by_score(&vec![Some(1), Some(2), Some(3), Some(4)]);
    assert_eq!(order, vec![3, 2, 1, 0]);
}

#[test]
fn rank_by_score_handles_the_extreme_scores() {
    let order = rank_by_score(&vec![Some(i64::MIN), Some(i64::MAX), Some(0), Some(i64::MIN)]);
    assert_eq!(order, vec![1, 2, 0, 3]);
}

#[test]
fn rank_by_score_of_nothing_is_empty() {
    assert_eq!(rank_by_score(&vec![]), Vec::<usize>::new());
    assert_eq!(rank_by_score(&vec![None, None]), Vec::<usize>::new());
}

#[test]
fn rank_by_score_agrees_with_a_stable_sort_by_negated_score() {
    let scores: Vec<Option<i64>> = (0..200)
        .map(|i: i64| if i % 7 == 3 { None } else { Some((i * 37) % 11 - 5) })
        .collect();
    let mut expected: Vec<(i64, usize)> = scores
        .iter()
        .enumerate()
        .filter_map(|(place, score)| score.map(|score| (score, place)))
        .collect();
    expected.sort_by_key(|(score, _)| -score);
    let expected: Vec<usize> = expected.into_iter().map(|(_, place)| place).collect();
    assert_eq!(rank_by_score(&scores), expected);
}
