use dice_stats::sorting::sort_population;

#[test]
fn sorts_an_unsorted_population() {
    let mut population = vec![20, 1, 7, 3, 7, 2];
    sort_population(&mut population);
    assert_eq!(population, vec![1, 2, 3, 7, 7, 20]);
}

#[test]
fn sorting_a_sorted_population_is_a_noop() {
    let sorted = vec![1, 2, 2, 5, 9, 20];
    let mut population = sorted.clone();
    sort_population(&mut population);
    assert_eq!(population, sorted);
}

#[test]
fn sorts_empty_and_single_populations() {
    let mut empty: Vec<u8> = vec![];
    sort_population(&mut empty);
    assert!(empty.is_empty());

    let mut single = vec![11];
    sort_population(&mut single);
    assert_eq!(single, vec![11]);
}

#[test]
fn sorting_keeps_duplicates() {
    let mut population = vec![4, 4, 1, 4, 1];
    sort_population(&mut population);
    assert_eq!(population, vec![1, 1, 4, 4, 4]);
}
