use yeti_set_go::highscores::{HighScore, Leaderboard};

fn rec(name: &str, score: u32) -> HighScore {
    HighScore { name: name.to_string(), score, level: 1, timestamp: 0 }
}

fn keys(lb: &Leaderboard) -> Vec<(String, u32)> {
    lb.scores.iter().map(|h| (h.name.clone(), h.score)).collect()
}

#[test]
fn empty_table_first_score() {
    let mut lb = Leaderboard::new();
    lb.add_score(rec("A", 100));
    assert_eq!(keys(&lb), vec![("A".to_string(), 100)]);
    assert_eq!(lb.get_local_best_score(), 100);
    assert!(lb.is_high_score(50));
    assert_eq!(lb.get_rank(100), Some(1));
}

#[test]
fn full_table_threshold() {
    let mut lb = Leaderboard::new();
    for i in 0..25u32 {
        lb.add_score(rec(&format!("P{}", i), 1000 - i));
    }
    assert_eq!(lb.scores.len(), 25);
    assert_eq!(lb.scores.last().unwrap().score, 976);
    assert!(!lb.is_high_score(975));
    assert!(lb.is_high_score(977));
    assert!(!lb.is_high_score(976));
}

#[test]
fn merge_dedup_keeps_local_and_sorts() {
    let mut lb = Leaderboard::new();
    lb.add_score(rec("A", 500));
    lb.add_score(rec("B", 300));
    lb.merge_remote_scores(vec![rec("A", 500), rec("C", 400)]);
    assert_eq!(
        keys(&lb),
        vec![
            ("A".to_string(), 500),
            ("C".to_string(), 400),
            ("B".to_string(), 300),
        ]
    );
}

#[test]
fn add_score_keeps_descending_order_and_best() {
    let mut lb = Leaderboard::new();
    for &(n, s) in &[("A", 300u32), ("B", 700), ("C", 100), ("D", 700), ("E", 500)] {
        lb.add_score(rec(n, s));
    }
    let scores: Vec<u32> = lb.scores.iter().map(|h| h.score).collect();
    for w in scores.windows(2) {
        assert!(w[0] >= w[1]);
    }
    assert_eq!(lb.get_local_best_score(), 700);
    // a tie is inserted after the entry already present
    assert_eq!(scores, vec![700, 700, 500, 300, 100]);
    assert_eq!(lb.scores[0].name, "B");
    assert_eq!(lb.scores[1].name, "D");
}

#[test]
fn merge_caps_length_and_dedups() {
    let mut lb = Leaderboard::new();
    for i in 0..20u32 {
        lb.add_score(rec(&format!("L{}", i), 2 * i));
    }
    let remote: Vec<HighScore> = (0..20u32)
        .map(|i| rec(&format!("R{}", i), 2 * i + 1))
        .chain((0..5u32).map(|i| rec(&format!("L{}", i), 2 * i)))
        .collect();
    lb.merge_remote_scores(remote);
    assert_eq!(lb.scores.len(), 25);
    let ks = keys(&lb);
    for i in 0..ks.len() {
        for j in (i + 1)..ks.len() {
            assert_ne!(ks[i], ks[j]);
        }
    }
    let scores: Vec<u32> = lb.scores.iter().map(|h| h.score).collect();
    for w in scores.windows(2) {
        assert!(w[0] >= w[1]);
    }
}

#[test]
fn always_high_score_while_table_has_room() {
    let mut lb = Leaderboard::new();
    assert!(lb.is_high_score(0));
    for i in 0..24u32 {
        lb.add_score(rec(&format!("P{}", i), 1000 + i));
    }
    assert!(lb.is_high_score(0));
}

#[test]
fn rank_is_monotonic() {
    let mut lb = Leaderboard::new();
    for &s in &[900u32, 700, 700, 500, 100] {
        lb.add_score(rec("X", s));
    }
    let pairs = [(1000u32, 800u32), (800, 700), (700, 600), (600, 50)];
    for &(hi, lo) in &pairs {
        let r_hi = lb.get_rank(hi).unwrap();
        let r_lo = lb.get_rank(lo).unwrap();
        assert!(r_hi <= r_lo, "rank({}) = {} > rank({}) = {}", hi, r_hi, lo, r_lo);
    }
}

#[test]
fn rank_details() {
    let mut lb = Leaderboard::new();
    lb.add_score(rec("A", 500));
    lb.add_score(rec("B", 300));
    assert_eq!(lb.get_rank(600), Some(1));
    assert_eq!(lb.get_rank(500), Some(1));
    assert_eq!(lb.get_rank(400), Some(2));
    assert_eq!(lb.get_rank(200), Some(3));
    let mut full = Leaderboard::new();
    for i in 0..25u32 {
        full.add_score(rec(&format!("P{}", i), 1000 - i));
    }
    assert_eq!(full.get_rank(100), None);
    assert_eq!(full.get_rank(1000), Some(1));
}

#[test]
fn merge_is_idempotent_on_content() {
    let mut lb = Leaderboard::new();
    lb.add_score(rec("A", 500));
    lb.add_score(rec("B", 300));
    lb.merge_remote_scores(vec![rec("C", 400), rec("A", 500), rec("D", 300)]);
    let once = keys(&lb);
    lb.merge_remote_scores(Vec::new());
    assert_eq!(keys(&lb), once);
}

#[test]
fn truncation_drops_lowest() {
    let mut lb = Leaderboard::new();
    for i in 0..25u32 {
        lb.add_score(rec(&format!("P{}", i), 1000 - i));
    }
    lb.add_score(rec("LOW", 1));
    assert_eq!(lb.scores.len(), 25);
    assert!(lb.scores.iter().all(|h| h.name != "LOW"));
    lb.add_score(rec("TOP", 2000));
    assert_eq!(lb.scores.len(), 25);
    assert_eq!(lb.scores[0].name, "TOP");
    assert_eq!(lb.scores.last().unwrap().score, 977);
}

#[test]
fn merge_leaves_local_best_alone() {
    let mut lb = Leaderboard::new();
    lb.add_score(rec("ME", 800));
    lb.merge_remote_scores((0..25u32).map(|i| rec(&format!("R{}", i), 2000 + i)).collect());
    assert!(lb.scores.iter().all(|h| h.name != "ME"));
    assert_eq!(lb.get_local_best_score(), 800);
}

#[test]
fn top_3_prefix() {
    let mut lb = Leaderboard::new();
    lb.add_score(rec("A", 10));
    assert_eq!(lb.get_top_3().len(), 1);
    lb.add_score(rec("B", 30));
    lb.add_score(rec("C", 20));
    lb.add_score(rec("D", 40));
    let top = lb.get_top_3();
    let names: Vec<&str> = top.iter().map(|h| h.name.as_str()).collect();
    assert_eq!(names, vec!["D", "B", "C"]);
}

#[test]
fn best_score_defaults_to_zero() {
    let lb = Leaderboard::new();
    assert_eq!(lb.get_local_best_score(), 0);
    assert!(lb.local_best.is_none());
}

#[test]
fn record_constructor_sets_fields() {
    let h = HighScore::new("NAME".to_string(), 42, 7);
    assert_eq!(h.name, "NAME");
    assert_eq!(h.score, 42);
    assert_eq!(h.level, 7);
}
