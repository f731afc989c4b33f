use yeti_set_go::scoring::{calculate_level_score_bonus, calculate_total_score_with_bonuses};

#[test]
fn level_bonus_formula() {
    assert_eq!(calculate_level_score_bonus(1), 75);
    assert_eq!(calculate_level_score_bonus(2), 100);
    assert_eq!(calculate_level_score_bonus(4), 150);
}

#[test]
fn total_score_sums_completed_level_bonuses() {
    // levels 1 and 2 were completed: 75 + 100; two checks add 4
    assert_eq!(calculate_total_score_with_bonuses(100, 3, 2), 279);
}

#[test]
fn total_score_at_level_one_has_no_level_bonus() {
    assert_eq!(calculate_total_score_with_bonuses(250, 1, 3), 256);
    assert_eq!(calculate_total_score_with_bonuses(0, 1, 0), 0);
}
