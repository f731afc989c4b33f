//! Score bonus formulas: the award for completing a level, and the final
//! total with all bonuses applied when a run ends.

use vstd::prelude::*;

verus! {

/// Points awarded for completing `level`: 50 plus 25 per level.
pub open spec fn spec_level_bonus(level: int) -> int {
    50 + level * 25
}

/// Total of the completion bonuses for levels 1 up to (excluding) `level`:
/// what a run that reached `level` collected along the way.
pub open spec fn spec_cumulative_bonus(level: int) -> int
    decreases level,
{
    if level <= 1 {
        0
    } else {
        spec_cumulative_bonus(level - 1) + spec_level_bonus(level - 1)
    }
}

pub proof fn lemma_cumulative_bonus_nonneg(level: int)
    ensures
        spec_cumulative_bonus(level) >= 0,
    decreases level,
{
    if level > 1 {
        lemma_cumulative_bonus_nonneg(level - 1);
    }
}

/// The cumulative bonus only grows with the level reached.
pub proof fn lemma_cumulative_bonus_mono(a: int, b: int)
    requires
        a <= b,
    ensures
        spec_cumulative_bonus(a) <= spec_cumulative_bonus(b),
    decreases b - a,
{
    if a < b {
        lemma_cumulative_bonus_mono(a, b - 1);
        if b > 1 {
            assert(spec_level_bonus(b - 1) >= 0);
        }
    }
}

/// Bonus points for completing a level.
pub fn calculate_level_score_bonus(level: u32) -> (b: u32)
    requires
        spec_level_bonus(level as int) <= u32::MAX,
    ensures
        b == spec_level_bonus(level as int),
{
    50 + level * 25
}

/// The final score of a run: the base score, plus the completion bonus of
/// every level finished before the run ended, plus 2 points per check
/// completed in the unfinished level.
pub fn calculate_total_score_with_bonuses(base_score: u32, level: u32, checks_completed: u32) -> (total: u32)
    requires
        base_score + spec_cumulative_bonus(level as int) + 2 * checks_completed <= u32::MAX,
    ensures
        total == base_score + spec_cumulative_bonus(level as int) + 2 * checks_completed,
{
    proof {
        lemma_cumulative_bonus_nonneg(level as int);
    }
    let mut level_bonus: u32 = 0;
    let mut i: u32 = 1;
    while i < level
        invariant
            1 <= i,
            i <= level || i == 1,
            level_bonus == spec_cumulative_bonus(i as int),
            spec_cumulative_bonus(level as int) <= u32::MAX,
        decreases level as int - i,
    {
        proof {
            lemma_cumulative_bonus_mono(i as int + 1, level as int);
        }
        let bonus = calculate_level_score_bonus(i);
        level_bonus = level_bonus + bonus;
        i = i + 1;
    }
    let completion_bonus = checks_completed * 2;
    base_score + level_bonus + completion_bonus
}

} // verus!
