use yeti_set_go::highscores::{HighScore, Leaderboard};
use yeti_set_go::session::{ApiMessage, Game, GameState, InputKey, SyncAction};

fn rec(name: &str, score: u32) -> HighScore {
    HighScore { name: name.to_string(), score, level: 1, timestamp: 0 }
}

fn table(entries: &[(&str, u32)]) -> Leaderboard {
    let mut lb = Leaderboard::new();
    for &(n, s) in entries {
        lb.add_score(rec(n, s));
    }
    lb
}

#[test]
fn fresh_session() {
    let g = Game::new();
    assert_eq!(g.state, GameState::MainMenu);
    assert_eq!(g.score, 0);
    assert_eq!(g.level, 1);
    assert_eq!(g.checks_required, 5);
    assert!(g.leaderboard.scores.is_empty());
    assert!(!g.api_loading);
}

#[test]
fn space_starts_a_run() {
    let mut g = Game::new();
    g.score = 99;
    let act = g.update(16, Vec::new(), Some(InputKey::Space));
    assert!(act.is_none());
    assert_eq!(g.state, GameState::Playing);
    assert_eq!(g.score, 0);
    assert_eq!(g.level, 1);
    assert_eq!(g.checks_completed, 0);
}

#[test]
fn leaderboard_view_round_trip() {
    let mut g = Game::new();
    let act = g.update(16, Vec::new(), Some(InputKey::Char('L')));
    assert!(act.is_none());
    assert_eq!(g.state, GameState::ViewingLeaderboard);
    g.update(16, Vec::new(), Some(InputKey::Escape));
    assert_eq!(g.state, GameState::MainMenu);
}

#[test]
fn idle_menu_triggers_sync_once() {
    let mut g = Game::new();
    let act = g.update(31_000, Vec::new(), None);
    assert!(matches!(act, Some(SyncAction::FetchLeaderboard)));
    assert!(g.api_loading);
    assert_eq!(g.last_api_sync, 0);

    // a second interval elapses while the first sync is in flight: no-op
    let act2 = g.update(31_000, Vec::new(), None);
    assert!(act2.is_none());
    assert!(g.api_loading);
}

#[test]
fn guard_clears_once_and_reenables_exactly_one_dispatch() {
    let mut g = Game::new();
    assert!(g.sync_leaderboard_with_api());
    assert!(!g.sync_leaderboard_with_api());
    let reply = ApiMessage::LeaderboardSynced(table(&[("R", 50)]));
    g.process_api_messages(vec![reply]);
    assert!(!g.api_loading);
    assert!(g.sync_leaderboard_with_api());
    assert!(!g.sync_leaderboard_with_api());
}

#[test]
fn messages_apply_in_order_last_table_wins() {
    let mut g = Game::new();
    let msgs = vec![
        ApiMessage::LeaderboardSynced(table(&[("FIRST", 10)])),
        ApiMessage::ScoreSubmitted(true),
        ApiMessage::LeaderboardSynced(table(&[("SECOND", 20)])),
    ];
    g.process_api_messages(msgs);
    assert_eq!(g.leaderboard.scores.len(), 1);
    assert_eq!(g.leaderboard.scores[0].name, "SECOND");
}

#[test]
fn adopted_table_never_lowers_local_best() {
    let mut g = Game::new();
    g.submit_score_to_api(rec("ME", 500));
    assert_eq!(g.leaderboard.get_local_best_score(), 500);
    g.process_api_messages(vec![ApiMessage::LeaderboardSynced(table(&[("R", 100)]))]);
    assert_eq!(g.leaderboard.scores.len(), 1);
    assert_eq!(g.leaderboard.scores[0].name, "R");
    assert_eq!(g.leaderboard.get_local_best_score(), 500);
    g.process_api_messages(vec![ApiMessage::LeaderboardSynced(table(&[("R", 900)]))]);
    assert_eq!(g.leaderboard.get_local_best_score(), 900);
}

#[test]
fn submitted_message_is_advisory() {
    let mut g = Game::new();
    g.submit_score_to_api(rec("ME", 500));
    g.api_loading = true;
    g.process_api_messages(vec![ApiMessage::ScoreSubmitted(false)]);
    assert_eq!(g.leaderboard.scores.len(), 1);
    assert!(g.api_loading);
}

#[test]
fn collisions_score_and_complete_levels() {
    let mut g = Game::new();
    g.start_game();
    for _ in 0..4 {
        g.handle_collision(true);
        g.check_level_completion();
    }
    assert_eq!(g.score, 40);
    assert_eq!(g.checks_completed, 4);
    assert_eq!(g.state, GameState::Playing);

    g.handle_item_passed(false); // dodged a bad item: 5 points, fifth check
    g.check_level_completion();
    assert_eq!(g.state, GameState::LevelComplete);
    assert_eq!(g.score, 40 + 5 + 75); // level 1 completion bonus
    assert_eq!(g.level, 2);
    assert_eq!(g.checks_completed, 0);
    assert_eq!(g.checks_required, 8);

    // the banner runs out, play resumes
    g.update(2_500, Vec::new(), None);
    assert_eq!(g.state, GameState::Playing);
}

#[test]
fn passing_good_items_changes_nothing() {
    let mut g = Game::new();
    g.start_game();
    g.handle_item_passed(true);
    assert_eq!(g.score, 0);
    assert_eq!(g.checks_completed, 0);
}

#[test]
fn fatal_collision_ends_run_with_bonuses() {
    let mut g = Game::new();
    g.start_game();
    g.handle_collision(true);
    g.handle_collision(false);
    assert_eq!(g.state, GameState::GameOver);
    // base 10, level 1 (no completed levels), one check: +2
    assert_eq!(g.score, 12);
    assert!(g.is_new_high_score);
}

#[test]
fn game_over_without_high_score_returns_to_menu() {
    let mut g = Game::new();
    let mut full = Leaderboard::new();
    for i in 0..25u32 {
        full.add_score(rec(&format!("P{}", i), 1000 - i));
    }
    g.leaderboard = full;
    g.start_game();
    g.handle_collision(false); // final score 0: not a high score
    assert_eq!(g.state, GameState::GameOver);
    assert!(!g.is_new_high_score);
    g.update(16, Vec::new(), Some(InputKey::Space));
    assert_eq!(g.state, GameState::MainMenu);
}

#[test]
fn name_entry_submits_trimmed_name() {
    let mut g = Game::new();
    g.start_game();
    g.handle_collision(true);
    g.handle_collision(false);
    assert!(g.is_new_high_score);
    g.update(16, Vec::new(), Some(InputKey::Space));
    assert_eq!(g.state, GameState::NameInput);

    for k in [
        InputKey::Space,
        InputKey::Char('A'),
        InputKey::Char('B'),
        InputKey::Space,
    ] {
        g.update(16, Vec::new(), Some(k));
    }
    assert_eq!(g.player_name_input, " AB ");
    let act = g.update(16, Vec::new(), Some(InputKey::Enter));
    match act {
        Some(SyncAction::SubmitScore(h)) => {
            assert_eq!(h.name, "AB");
            assert_eq!(h.score, 12);
            assert_eq!(h.level, 1);
        }
        _ => panic!("expected a submission action"),
    }
    assert_eq!(g.state, GameState::MainMenu);
    assert_eq!(g.player_name_input, "");
    assert_eq!(g.leaderboard.scores.len(), 1);
    assert_eq!(g.leaderboard.scores[0].name, "AB");
    assert_eq!(g.leaderboard.get_local_best_score(), 12);
}

#[test]
fn blank_name_is_not_submitted() {
    let mut g = Game::new();
    g.state = GameState::NameInput;
    g.update(16, Vec::new(), Some(InputKey::Space));
    g.update(16, Vec::new(), Some(InputKey::Space));
    let act = g.update(16, Vec::new(), Some(InputKey::Enter));
    assert!(act.is_none());
    assert_eq!(g.state, GameState::NameInput);
    assert!(g.leaderboard.scores.is_empty());
}

#[test]
fn name_entry_backspace_and_cancel() {
    let mut g = Game::new();
    g.state = GameState::NameInput;
    g.handle_name_input(InputKey::Char('A'));
    g.handle_name_input(InputKey::Char('B'));
    g.handle_name_input(InputKey::Backspace);
    assert_eq!(g.player_name_input, "A");
    g.handle_name_input(InputKey::Backspace);
    g.handle_name_input(InputKey::Backspace); // empty: stays empty
    assert_eq!(g.player_name_input, "");
    g.handle_name_input(InputKey::Char('Z'));
    g.handle_name_input(InputKey::Escape);
    assert_eq!(g.state, GameState::MainMenu);
    assert_eq!(g.player_name_input, "Z"); // cancel keeps the buffer
}

#[test]
fn name_buffer_caps_at_twenty() {
    let mut g = Game::new();
    g.state = GameState::NameInput;
    for _ in 0..30 {
        g.handle_name_input(InputKey::Char('X'));
    }
    assert_eq!(g.player_name_input.len(), 20);
}

#[test]
fn menu_clock_accumulates_and_resets() {
    let mut g = Game::new();
    g.update(10_000, Vec::new(), None);
    g.update(5_000, Vec::new(), None);
    assert_eq!(g.menu_time, 15_000);
    assert_eq!(g.last_api_sync, 15_000);
    g.state = GameState::GameOver;
    g.update(16, Vec::new(), Some(InputKey::Space));
    assert_eq!(g.menu_time, 0);
}
