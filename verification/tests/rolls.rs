use dice_stats::rolls::{
    adv_dis_of, adv_of, dis_adv_of, dis_of, print_progress, roll_adv, roll_adv_dis, roll_dis,
    roll_dis_adv, roll_population, RollKind,
};

#[test]
fn adv_of_returns_maximum() {
    assert_eq!(adv_of(3, 17), 17);
    assert_eq!(adv_of(17, 3), 17);
    assert_eq!(adv_of(1, 20), 20);
    assert_eq!(adv_of(20, 1), 20);
}

#[test]
fn adv_of_tie_returns_the_value() {
    assert_eq!(adv_of(9, 9), 9);
    assert_eq!(adv_of(20, 20), 20);
}

#[test]
fn dis_of_returns_minimum() {
    assert_eq!(dis_of(3, 17), 3);
    assert_eq!(dis_of(17, 3), 3);
    assert_eq!(dis_of(1, 20), 1);
    assert_eq!(dis_of(20, 1), 1);
}

#[test]
fn dis_of_tie_returns_the_value() {
    assert_eq!(dis_of(9, 9), 9);
    assert_eq!(dis_of(1, 1), 1);
}

#[test]
fn adv_dis_of_is_max_of_two_minima() {
    assert_eq!(adv_dis_of(1, 2, 19, 20), 19);
    assert_eq!(adv_dis_of(19, 20, 1, 2), 19);
    assert_eq!(adv_dis_of(5, 5, 5, 5), 5);
    assert_eq!(adv_dis_of(10, 3, 4, 12), 4);
}

#[test]
fn dis_adv_of_is_min_of_two_maxima() {
    assert_eq!(dis_adv_of(1, 2, 19, 20), 2);
    assert_eq!(dis_adv_of(19, 20, 1, 2), 2);
    assert_eq!(dis_adv_of(5, 5, 5, 5), 5);
    assert_eq!(dis_adv_of(10, 3, 4, 12), 10);
}

#[test]
fn composed_rolls_stay_in_range() {
    for _ in 0..1000 {
        let a = roll_adv();
        let d = roll_dis();
        let ad = roll_adv_dis();
        let da = roll_dis_adv();
        assert!((1..=20).contains(&a));
        assert!((1..=20).contains(&d));
        assert!((1..=20).contains(&ad));
        assert!((1..=20).contains(&da));
    }
}

#[test]
fn plain_population_is_roughly_uniform() {
    let n: usize = 20000;
    let population = roll_population(RollKind::Plain, n);
    assert_eq!(population.len(), n);
    let mut counts = [0usize; 21];
    for &roll in population.iter() {
        assert!((1..=20).contains(&roll));
        counts[roll as usize] += 1;
    }
    // Each face is expected about n / 20 = 1000 times; allow a wide
    // statistical tolerance around that.
    for face in 1..=20 {
        assert!(
            counts[face] > 600 && counts[face] < 1400,
            "face {} occurred {} times in {}",
            face,
            counts[face],
            n
        );
    }
}

#[test]
fn disadvantage_never_beats_plain_never_beats_advantage() {
    for a in 1..=20u8 {
        for b in 1..=20u8 {
            assert!(dis_of(a, b) <= a);
            assert!(a <= adv_of(a, b));
        }
    }
}

#[test]
fn mean_ordering_dis_below_plain_below_adv() {
    let n: usize = 20000;
    let plain = roll_population(RollKind::Plain, n);
    let plain_sum: u64 = plain.iter().map(|&r| r as u64).sum();
    let mut dis_sum: u64 = 0;
    let mut adv_sum: u64 = 0;
    for _ in 0..n {
        dis_sum += roll_dis() as u64;
        adv_sum += roll_adv() as u64;
    }
    // Expected means over 20000 samples: about 7.175 for disadvantage,
    // 10.5 for a plain roll, 13.825 for advantage; the gaps are far wider
    // than any plausible statistical wobble at this sample size.
    assert!(
        dis_sum < plain_sum,
        "disadvantage mean not below plain mean: {} vs {}",
        dis_sum,
        plain_sum
    );
    assert!(
        plain_sum < adv_sum,
        "plain mean not below advantage mean: {} vs {}",
        plain_sum,
        adv_sum
    );
}

#[test]
fn populations_have_requested_length_and_range() {
    for kind in [RollKind::Plain, RollKind::AdvDis, RollKind::DisAdv] {
        let population = roll_population(kind, 500);
        assert_eq!(population.len(), 500);
        assert!(population.iter().all(|&r| (1..=20).contains(&r)));
    }
    let empty = roll_population(RollKind::Plain, 0);
    assert!(empty.is_empty());
}

#[test]
fn progress_is_due_every_ten_thousand_iterations() {
    assert!(print_progress(0));
    assert!(print_progress(10000));
    assert!(print_progress(20000));
    assert!(print_progress(-10000));
    assert!(!print_progress(1));
    assert!(!print_progress(9999));
    assert!(!print_progress(10001));
}
