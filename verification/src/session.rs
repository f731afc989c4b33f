//! The session controller: the finite state machine owning the game's
//! current mode, the authoritative score table and the single in-flight
//! sync guard. Each control-loop tick first applies every pending worker
//! message in arrival order, then runs the active state's logic. The
//! controller never blocks: remote work is requested through returned
//! `SyncAction` values and its outcome comes back as `ApiMessage`s.

use vstd::prelude::*;

use crate::highscores::{
    best_after, cap_entries, clone_best, clone_scores, insert_sorted, HighScore, Leaderboard,
    MAX_ENTRIES,
};
use crate::scoring::{
    calculate_level_score_bonus, calculate_total_score_with_bonuses, spec_cumulative_bonus,
    spec_level_bonus,
};

verus! {

/// Milliseconds of idling on the main menu between two leaderboard syncs.
pub const SYNC_INTERVAL_MS: u32 = 30000;

/// How long the level-complete banner stays up, in milliseconds.
pub const LEVEL_COMPLETE_MS: u32 = 2500;

/// Longest player name accepted during name entry.
pub const MAX_NAME_LEN: usize = 20;

/// Highest level the session arithmetic is specified for.
pub const MAX_LEVEL: u32 = 1000000;

/// Which screen/mode of the session is active. Exactly one at a time.
#[derive(Clone, Copy, PartialEq, Eq, Structural, Debug)]
pub enum GameState {
    MainMenu,
    Playing,
    LevelComplete,
    GameOver,
    NameInput,
    ViewingLeaderboard,
}

/// What a sync worker reports back through the channel.
pub enum ApiMessage {
    /// A replacement table to adopt (the worker's merge result, or the
    /// untouched snapshot when the fetch failed).
    LeaderboardSynced(Leaderboard),
    /// Whether a remote submission succeeded; advisory only.
    ScoreSubmitted(bool),
}

/// Remote work the controller asks its driver to run on a worker.
pub enum SyncAction {
    /// Fetch the remote leaderboard and merge it into a snapshot.
    FetchLeaderboard,
    /// Submit this record remotely (it is already in the local table).
    SubmitScore(HighScore),
}

/// A key press, as the session logic sees it.
#[derive(Clone, Copy, PartialEq, Eq, Structural, Debug)]
pub enum InputKey {
    Space,
    Enter,
    Backspace,
    Escape,
    Char(char),
}

/// The session controller's whole state.
pub struct Game {
    pub state: GameState,
    pub score: u32,
    pub level: u32,
    pub checks_completed: u32,
    pub checks_required: u32,
    pub leaderboard: Leaderboard,
    pub player_name_input: String,
    pub is_new_high_score: bool,
    /// The in-flight guard: true while exactly one fetch-and-merge is out.
    pub api_loading: bool,
    /// Milliseconds since the last sync attempt.
    pub last_api_sync: u32,
    /// Milliseconds spent on the main menu since the last reset.
    pub menu_time: u32,
    /// Milliseconds the level-complete banner still has to run.
    pub level_complete_timer: u32,
}

/// `a + b` capped at the largest `u32`.
pub open spec fn sat_add_spec(a: u32, b: u32) -> u32 {
    if a + b <= u32::MAX {
        (a + b) as u32
    } else {
        u32::MAX
    }
}

fn sat_add(a: u32, b: u32) -> (r: u32)
    ensures
        r == sat_add_spec(a, b),
{
    if a <= u32::MAX - b {
        a + b
    } else {
        u32::MAX
    }
}

/// The two tables agree (same entries, same personal best).
pub open spec fn same_lb(a: Game, b: Game) -> bool {
    &&& b.leaderboard.scores@ == a.leaderboard.scores@
    &&& b.leaderboard.local_best == a.leaderboard.local_best
}

/// The run-related fields agree.
pub open spec fn same_run(a: Game, b: Game) -> bool {
    &&& b.score == a.score
    &&& b.level == a.level
    &&& b.checks_completed == a.checks_completed
    &&& b.checks_required == a.checks_required
    &&& b.is_new_high_score == a.is_new_high_score
}

/// The name-entry buffers agree.
pub open spec fn same_buffer(a: Game, b: Game) -> bool {
    b.player_name_input@ == a.player_name_input@
}

/// The sync guard and its timer agree.
pub open spec fn same_sync(a: Game, b: Game) -> bool {
    &&& b.api_loading == a.api_loading
    &&& b.last_api_sync == a.last_api_sync
}

/// The two timers agree.
pub open spec fn same_timers(a: Game, b: Game) -> bool {
    &&& b.menu_time == a.menu_time
    &&& b.level_complete_timer == a.level_complete_timer
}

/// Nothing observable changed.
pub open spec fn unchanged(a: Game, b: Game) -> bool {
    &&& b.state == a.state
    &&& same_run(a, b)
    &&& same_lb(a, b)
    &&& same_buffer(a, b)
    &&& same_sync(a, b)
    &&& same_timers(a, b)
}

impl Game {
    /// The controller's invariant: a well-formed table, a level within the
    /// specified range with its matching checks quota, and a name buffer
    /// within the length cap.
    pub open spec fn wf(&self) -> bool {
        &&& self.leaderboard.wf()
        &&& 1 <= self.level <= MAX_LEVEL
        &&& self.checks_required == 5 + (self.level - 1) * 3
        &&& self.player_name_input@.len() <= MAX_NAME_LEN
    }
}

/// The better of two optional personal bests; on a tie the first is kept,
/// so an adopted table never lowers the session's own best.
pub open spec fn better_best(a: Option<HighScore>, b: Option<HighScore>) -> Option<HighScore> {
    match b {
        None => a,
        Some(nb) => match a {
            None => b,
            Some(ob) => if nb.score > ob.score {
                b
            } else {
                a
            },
        },
    }
}

/// The table entries after applying `msgs` in order to a table holding
/// `pre`: each `LeaderboardSynced` replaces them wholesale, so the last one
/// wins.
pub open spec fn synced_scores(pre: Seq<HighScore>, msgs: Seq<ApiMessage>) -> Seq<HighScore>
    decreases msgs.len(),
{
    if msgs.len() == 0 {
        pre
    } else {
        match msgs.last() {
            ApiMessage::LeaderboardSynced(lb) => lb.scores@,
            ApiMessage::ScoreSubmitted(_) => synced_scores(pre, msgs.drop_last()),
        }
    }
}

/// The personal best after applying `msgs` in order: an adopted table's
/// best is taken only when it strictly beats the current one, so the best
/// never goes down.
pub open spec fn synced_best(pre: Option<HighScore>, msgs: Seq<ApiMessage>) -> Option<HighScore>
    decreases msgs.len(),
{
    if msgs.len() == 0 {
        pre
    } else {
        match msgs.last() {
            ApiMessage::LeaderboardSynced(lb) => better_best(
                synced_best(pre, msgs.drop_last()),
                lb.local_best,
            ),
            ApiMessage::ScoreSubmitted(_) => synced_best(pre, msgs.drop_last()),
        }
    }
}

/// Whether any message carries a replacement table (each one clears the
/// in-flight guard).
pub open spec fn any_synced(msgs: Seq<ApiMessage>) -> bool {
    exists|i: int| 0 <= i < msgs.len() && msgs[i] is LeaderboardSynced
}

/// Every table carried by `msgs` is well-formed.
pub open spec fn wf_messages(msgs: Seq<ApiMessage>) -> bool {
    forall|i: int|
        0 <= i < msgs.len() ==> match #[trigger] msgs[i] {
            ApiMessage::LeaderboardSynced(lb) => lb.wf(),
            ApiMessage::ScoreSubmitted(_) => true,
        }
}

/// What draining the message queue does: the table follows the last
/// adopted replacement, the personal best only ever rises, the guard
/// clears exactly when some sync completed, and nothing else moves.
pub open spec fn drained(pre: Game, post: Game, msgs: Seq<ApiMessage>) -> bool {
    &&& post.leaderboard.scores@ == synced_scores(pre.leaderboard.scores@, msgs)
    &&& post.leaderboard.local_best == synced_best(pre.leaderboard.local_best, msgs)
    &&& post.api_loading == (pre.api_loading && !any_synced(msgs))
    &&& post.state == pre.state
    &&& same_run(pre, post)
    &&& same_buffer(pre, post)
    &&& same_timers(pre, post)
    &&& post.last_api_sync == pre.last_api_sync
}

/// Relies on `String::push`: appends exactly the given character.
#[verifier::external_body]
fn push_char(s: &mut String, c: char)
    ensures
        final(s)@ == old(s)@.push(c),
{
    s.push(c);
}

/// Relies on `String::pop`: removes and returns the last character, or
/// leaves an empty string alone.
#[verifier::external_body]
fn pop_char(s: &mut String) -> (r: Option<char>)
    ensures
        old(s)@.len() == 0 ==> final(s)@ == old(s)@ && r is None,
        old(s)@.len() > 0 ==> final(s)@ == old(s)@.drop_last() && r == Some(old(s)@.last()),
{
    s.pop()
}

/// How many spaces `s` starts with.
pub open spec fn leading_spaces(s: Seq<char>) -> int
    decreases s.len(),
{
    if s.len() == 0 {
        0
    } else if s[0] == ' ' {
        1 + leading_spaces(s.drop_first())
    } else {
        0
    }
}

/// How many spaces `s` ends with.
pub open spec fn trailing_spaces(s: Seq<char>) -> int
    decreases s.len(),
{
    if s.len() == 0 {
        0
    } else if s.last() == ' ' {
        1 + trailing_spaces(s.drop_last())
    } else {
        0
    }
}

/// `s` with its leading and trailing spaces removed.
pub open spec fn trimmed(s: Seq<char>) -> Seq<char> {
    if leading_spaces(s) == s.len() {
        Seq::empty()
    } else {
        s.subrange(leading_spaces(s), s.len() - trailing_spaces(s))
    }
}

/// `leading_spaces` is exactly the index of the first non-space.
proof fn lemma_leading_spaces_is(s: Seq<char>, a: int)
    requires
        0 <= a <= s.len(),
        forall|k: int| 0 <= k < a ==> s[k] == ' ',
        a < s.len() ==> s[a] != ' ',
    ensures
        leading_spaces(s) == a,
    decreases s.len(),
{
    if s.len() > 0 && a > 0 {
        let t = s.drop_first();
        assert(forall|k: int| 0 <= k < t.len() ==> t[k] == s[k + 1]);
        lemma_leading_spaces_is(t, a - 1);
    }
}

/// `trailing_spaces` is exactly the distance from the one-past-last
/// non-space to the end.
proof fn lemma_trailing_spaces_is(s: Seq<char>, b: int)
    requires
        0 <= b <= s.len(),
        forall|k: int| b <= k < s.len() ==> s[k] == ' ',
        b > 0 ==> s[b - 1] != ' ',
    ensures
        trailing_spaces(s) == s.len() - b,
    decreases s.len(),
{
    if s.len() > 0 && b < s.len() {
        let t = s.drop_last();
        assert(forall|k: int| 0 <= k < t.len() ==> t[k] == s[k]);
        lemma_trailing_spaces_is(t, b);
    }
}

/// `s` with leading and trailing spaces removed, by scanning in from both
/// ends.
fn trim_spaces(s: &str) -> (r: &str)
    ensures
        r@ == trimmed(s@),
{
    let n = s.unicode_len();
    let mut a: usize = 0;
    while a < n && s.get_char(a) == ' '
        invariant
            a <= n,
            n == s@.len(),
            forall|k: int| 0 <= k < a ==> s@[k] == ' ',
        decreases n - a,
    {
        a += 1;
    }
    proof {
        lemma_leading_spaces_is(s@, a as int);
    }
    if a == n {
        let empty = "";
        proof {
            reveal_strlit("");
            assert(empty@ =~= trimmed(s@));
        }
        return empty;
    }
    let mut b: usize = n;
    while b > a && s.get_char(b - 1) == ' '
        invariant
            a <= b <= n,
            n == s@.len(),
            a < n,
            s@[a as int] != ' ',
            forall|k: int| b <= k < n ==> s@[k] == ' ',
        decreases b,
    {
        b -= 1;
    }
    proof {
        assert(b > 0 ==> s@[b - 1] != ' ') by {
            if b == a {
            }
        }
        assert(b > a) by {
            if b == a {
                assert(s@[a as int] == ' ');
            }
        }
        lemma_trailing_spaces_is(s@, b as int);
    }
    s.substring_char(a, b)
}

/// One character entered during name input: appended while the buffer is
/// under its cap, ignored once full; nothing else moves.
pub open spec fn appended_char(pre: Game, post: Game, c: char) -> bool {
    &&& post.player_name_input@ == (if pre.player_name_input@.len() < MAX_NAME_LEN {
        pre.player_name_input@.push(c)
    } else {
        pre.player_name_input@
    })
    &&& post.state == pre.state
    &&& same_run(pre, post)
    &&& same_lb(pre, post)
    &&& same_sync(pre, post)
    &&& same_timers(pre, post)
}

/// What one key does on the name-entry screen. Enter with a name that is
/// non-empty once trimmed submits it: the record (carrying the run's score
/// and level) enters the local table immediately, the buffer clears, the
/// session returns to the menu, and the record is handed out for remote
/// submission. Enter on a blank name does nothing; Escape cancels back to
/// the menu keeping the buffer; Backspace deletes; Space and printable
/// characters append while the buffer is under its 20-character cap.
pub open spec fn name_input_step(
    pre: Game,
    post: Game,
    key: InputKey,
    act: Option<SyncAction>,
) -> bool {
    match key {
        InputKey::Enter => if trimmed(pre.player_name_input@).len() > 0 {
            act matches Some(SyncAction::SubmitScore(h)) && {
                &&& h.name@ == trimmed(pre.player_name_input@)
                &&& h.score == pre.score
                &&& h.level == pre.level
                &&& post.leaderboard.scores@ == cap_entries(
                    insert_sorted(pre.leaderboard.scores@, h),
                )
                &&& post.leaderboard.local_best == best_after(pre.leaderboard.local_best, h)
                &&& post.player_name_input@.len() == 0
                &&& post.state is MainMenu
                &&& post.menu_time == 0
                &&& same_run(pre, post)
                &&& same_sync(pre, post)
                &&& post.level_complete_timer == pre.level_complete_timer
            }
        } else {
            unchanged(pre, post) && act is None
        },
        InputKey::Backspace => {
            &&& act is None
            &&& post.player_name_input@ == (if pre.player_name_input@.len() > 0 {
                pre.player_name_input@.drop_last()
            } else {
                pre.player_name_input@
            })
            &&& post.state == pre.state
            &&& same_run(pre, post)
            &&& same_lb(pre, post)
            &&& same_sync(pre, post)
            &&& same_timers(pre, post)
        },
        InputKey::Escape => act is None && resetted(pre, post),
        InputKey::Space => act is None && appended_char(pre, post, ' '),
        InputKey::Char(c) => act is None && appended_char(pre, post, c),
    }
}

/// Exactly the screen changed; every other observable stayed.
pub open spec fn moved_to(pre: Game, post: Game, st: GameState) -> bool {
    &&& post.state == st
    &&& same_run(pre, post)
    &&& same_lb(pre, post)
    &&& same_buffer(pre, post)
    &&& same_sync(pre, post)
    &&& same_timers(pre, post)
}

/// One tick of the state machine proper, after the message queue was
/// drained. `dt` is the tick's duration in milliseconds, `key` the at most
/// one key pressed, `act` the remote work requested of the driver.
///
/// On the menu the clocks advance; 30 idle seconds since the last sync
/// attempt trigger a fetch dispatch (guarded), Space starts a run and `L`
/// opens the leaderboard. While playing the tick itself changes nothing —
/// gameplay outcomes are reported through `handle_collision`,
/// `handle_item_passed` and `check_level_completion`. The level-complete
/// banner counts its timer down and returns to play. On game over, Space
/// leads to name entry exactly when the run set a new high score and back
/// to the menu otherwise, `L` to the leaderboard. Name entry follows
/// `name_input_step`. The leaderboard view returns to the menu on Space or
/// Escape.
pub open spec fn session_step(
    pre: Game,
    post: Game,
    dt: u32,
    key: Option<InputKey>,
    act: Option<SyncAction>,
) -> bool {
    match pre.state {
        GameState::MainMenu => {
            let mt = sat_add_spec(pre.menu_time, dt);
            let la = sat_add_spec(pre.last_api_sync, dt);
            let fire = la > SYNC_INTERVAL_MS && !pre.api_loading;
            &&& act == (if fire {
                Some(SyncAction::FetchLeaderboard)
            } else {
                None::<SyncAction>
            })
            &&& post.api_loading == (pre.api_loading || fire)
            &&& post.last_api_sync == (if fire {
                0u32
            } else {
                la
            })
            &&& post.menu_time == mt
            &&& same_lb(pre, post)
            &&& same_buffer(pre, post)
            &&& (match key {
                Some(InputKey::Space) => {
                    &&& post.state is Playing
                    &&& post.score == 0
                    &&& post.level == 1
                    &&& post.checks_completed == 0
                    &&& post.checks_required == 5
                    &&& !post.is_new_high_score
                    &&& post.level_complete_timer == 0
                },
                Some(InputKey::Char(c)) => {
                    &&& post.state == (if c == 'L' {
                        GameState::ViewingLeaderboard
                    } else {
                        GameState::MainMenu
                    })
                    &&& same_run(pre, post)
                    &&& post.level_complete_timer == pre.level_complete_timer
                },
                _ => {
                    &&& post.state is MainMenu
                    &&& same_run(pre, post)
                    &&& post.level_complete_timer == pre.level_complete_timer
                },
            })
        },
        GameState::Playing => act is None && unchanged(pre, post),
        GameState::LevelComplete => {
            let nt = if pre.level_complete_timer > dt {
                (pre.level_complete_timer - dt) as u32
            } else {
                0u32
            };
            &&& act is None
            &&& post.level_complete_timer == nt
            &&& post.state == (if nt == 0 {
                GameState::Playing
            } else {
                GameState::LevelComplete
            })
            &&& same_run(pre, post)
            &&& same_lb(pre, post)
            &&& same_buffer(pre, post)
            &&& same_sync(pre, post)
            &&& post.menu_time == pre.menu_time
        },
        GameState::GameOver => {
            &&& act is None
            &&& (match key {
                Some(InputKey::Space) => if pre.is_new_high_score {
                    moved_to(pre, post, GameState::NameInput)
                } else {
                    resetted(pre, post)
                },
                Some(InputKey::Char(c)) => if c == 'L' {
                    moved_to(pre, post, GameState::ViewingLeaderboard)
                } else {
                    unchanged(pre, post)
                },
                _ => unchanged(pre, post),
            })
        },
        GameState::NameInput => match key {
            Some(k) => name_input_step(pre, post, k, act),
            None => act is None && unchanged(pre, post),
        },
        GameState::ViewingLeaderboard => {
            &&& act is None
            &&& (match key {
                Some(InputKey::Space) => moved_to(pre, post, GameState::MainMenu),
                Some(InputKey::Escape) => moved_to(pre, post, GameState::MainMenu),
                _ => unchanged(pre, post),
            })
        },
    }
}

/// What starting a run does: gameplay fields go back to their initial
/// values and play begins; the table, the sync state, the menu clock and
/// the name buffer stay as they were.
pub open spec fn started(pre: Game, post: Game) -> bool {
    &&& post.state is Playing
    &&& post.score == 0
    &&& post.level == 1
    &&& post.checks_completed == 0
    &&& post.checks_required == 5
    &&& !post.is_new_high_score
    &&& post.level_complete_timer == 0
    &&& same_lb(pre, post)
    &&& same_buffer(pre, post)
    &&& same_sync(pre, post)
    &&& post.menu_time == pre.menu_time
}

/// What returning to the menu does: only the mode and the menu clock move.
pub open spec fn resetted(pre: Game, post: Game) -> bool {
    &&& post.state is MainMenu
    &&& post.menu_time == 0
    &&& same_run(pre, post)
    &&& same_lb(pre, post)
    &&& same_buffer(pre, post)
    &&& same_sync(pre, post)
    &&& post.level_complete_timer == pre.level_complete_timer
}

/// The final score a run ends with: its base score plus every completed
/// level's bonus plus 2 points per check of the unfinished level.
pub open spec fn game_over_total(g: Game) -> int {
    g.score + spec_cumulative_bonus(g.level as int) + 2 * g.checks_completed
}

/// What ending a run does: the final score is computed with all bonuses,
/// then measured against the table to decide whether name entry is owed,
/// and the session shows the game-over screen.
pub open spec fn game_over_rel(pre: Game, post: Game) -> bool {
    &&& post.state is GameOver
    &&& post.score == game_over_total(pre)
    &&& post.is_new_high_score == (pre.leaderboard.scores@.len() < MAX_ENTRIES
        || game_over_total(pre) > pre.leaderboard.scores@[pre.leaderboard.scores@.len()
            - 1].score)
    &&& post.level == pre.level
    &&& post.checks_completed == pre.checks_completed
    &&& post.checks_required == pre.checks_required
    &&& same_lb(pre, post)
    &&& same_buffer(pre, post)
    &&& same_sync(pre, post)
    &&& same_timers(pre, post)
}

/// What a fetch dispatch does: a no-op while one is already in flight,
/// otherwise it raises the guard and restarts the sync clock.
pub open spec fn sync_dispatch(pre: Game, post: Game, fired: bool) -> bool {
    if pre.api_loading {
        &&& !fired
        &&& unchanged(pre, post)
    } else {
        &&& fired
        &&& post.api_loading
        &&& post.last_api_sync == 0
        &&& post.state == pre.state
        &&& same_run(pre, post)
        &&& same_lb(pre, post)
        &&& same_buffer(pre, post)
        &&& post.menu_time == pre.menu_time
        &&& post.level_complete_timer == pre.level_complete_timer
    }
}

/// Dispatching a second fetch-and-merge while one is in flight is a no-op:
/// the first dispatch raises the guard, and under a raised guard a
/// dispatch changes nothing and fires no worker.
pub proof fn lemma_second_dispatch_noop(s0: Game, s1: Game, s2: Game, f1: bool, f2: bool)
    requires
        !s0.api_loading,
        sync_dispatch(s0, s1, f1),
        sync_dispatch(s1, s2, f2),
    ensures
        f1,
        !f2,
        unchanged(s1, s2),
{
}

/// The guard clears exactly once per completed operation: draining a queue
/// that contains the operation's reply lowers it, and exactly one
/// subsequent dispatch then fires (raising it again).
pub proof fn lemma_guard_clears_once(s1: Game, s2: Game, msgs: Seq<ApiMessage>, s3: Game, f: bool)
    requires
        s1.api_loading,
        drained(s1, s2, msgs),
        any_synced(msgs),
        sync_dispatch(s2, s3, f),
    ensures
        !s2.api_loading,
        f,
        s3.api_loading,
{
}

impl Game {
    /// A fresh session: main menu, empty table, nothing in flight. The
    /// driver dispatches the startup sync right after construction.
    pub fn new() -> (g: Game)
        ensures
            g.wf(),
            g.state is MainMenu,
            g.score == 0,
            g.level == 1,
            g.checks_completed == 0,
            g.checks_required == 5,
            g.leaderboard.scores@.len() == 0,
            g.leaderboard.local_best is None,
            g.player_name_input@.len() == 0,
            !g.is_new_high_score,
            !g.api_loading,
            g.last_api_sync == 0,
            g.menu_time == 0,
            g.level_complete_timer == 0,
    {
        Game {
            state: GameState::MainMenu,
            score: 0,
            level: 1,
            checks_completed: 0,
            checks_required: 5,
            leaderboard: Leaderboard::new(),
            player_name_input: String::new(),
            is_new_high_score: false,
            api_loading: false,
            last_api_sync: 0,
            menu_time: 0,
            level_complete_timer: 0,
        }
    }

    /// Begins a run from the menu or another screen: all gameplay fields
    /// back to their starting values.
    pub fn start_game(&mut self)
        requires
            old(self).wf(),
        ensures
            final(self).wf(),
            started(*old(self), *final(self)),
    {
        self.score = 0;
        self.level = 1;
        self.checks_completed = 0;
        self.checks_required = 5;
        self.is_new_high_score = false;
        self.level_complete_timer = 0;
        self.state = GameState::Playing;
    }

    /// Returns to the main menu, restarting the menu clock; the run's
    /// numbers and the table stay for the menu to show.
    pub fn reset_game(&mut self)
        requires
            old(self).wf(),
        ensures
            final(self).wf(),
            resetted(*old(self), *final(self)),
    {
        self.menu_time = 0;
        self.state = GameState::MainMenu;
    }

    /// Ends the run: the final score with all bonuses replaces the base
    /// score, the table decides whether this is a new high score, and the
    /// game-over screen takes over.
    pub fn game_over(&mut self)
        requires
            old(self).wf(),
            game_over_total(*old(self)) <= u32::MAX,
        ensures
            final(self).wf(),
            game_over_rel(*old(self), *final(self)),
    {
        let final_score = calculate_total_score_with_bonuses(
            self.score,
            self.level,
            self.checks_completed,
        );
        self.score = final_score;
        self.is_new_high_score = self.leaderboard.is_high_score(self.score);
        self.state = GameState::GameOver;
    }

    /// The outcome of running into an item: a good one is worth 10 points
    /// and one completed check; a bad one ends the run.
    pub fn handle_collision(&mut self, is_good: bool)
        requires
            old(self).wf(),
            is_good ==> old(self).score + 10 <= u32::MAX && old(self).checks_completed + 1
                <= u32::MAX,
            !is_good ==> game_over_total(*old(self)) <= u32::MAX,
        ensures
            final(self).wf(),
            is_good ==> {
                &&& final(self).score == old(self).score + 10
                &&& final(self).checks_completed == old(self).checks_completed + 1
                &&& final(self).state == old(self).state
                &&& final(self).level == old(self).level
                &&& final(self).checks_required == old(self).checks_required
                &&& final(self).is_new_high_score == old(self).is_new_high_score
                &&& same_lb(*old(self), *final(self))
                &&& same_buffer(*old(self), *final(self))
                &&& same_sync(*old(self), *final(self))
                &&& same_timers(*old(self), *final(self))
            },
            !is_good ==> game_over_rel(*old(self), *final(self)),
    {
        if is_good {
            self.score = self.score + 10;
            self.checks_completed = self.checks_completed + 1;
        } else {
            self.game_over();
        }
    }

    /// The outcome of an item scrolling past without contact: dodging a bad
    /// one is worth 5 points and one completed check; a good one passing by
    /// is simply a missed chance.
    pub fn handle_item_passed(&mut self, was_good: bool)
        requires
            old(self).wf(),
            !was_good ==> old(self).score + 5 <= u32::MAX && old(self).checks_completed + 1
                <= u32::MAX,
        ensures
            final(self).wf(),
            was_good ==> unchanged(*old(self), *final(self)),
            !was_good ==> {
                &&& final(self).score == old(self).score + 5
                &&& final(self).checks_completed == old(self).checks_completed + 1
                &&& final(self).state == old(self).state
                &&& final(self).level == old(self).level
                &&& final(self).checks_required == old(self).checks_required
                &&& final(self).is_new_high_score == old(self).is_new_high_score
                &&& same_lb(*old(self), *final(self))
                &&& same_buffer(*old(self), *final(self))
                &&& same_sync(*old(self), *final(self))
                &&& same_timers(*old(self), *final(self))
            },
    {
        if !was_good {
            self.score = self.score + 5;
            self.checks_completed = self.checks_completed + 1;
        }
    }

    /// When the level's quota of checks is met, awards the completion
    /// bonus, advances to the next level with its larger quota, and shows
    /// the level-complete banner; otherwise does nothing.
    pub fn check_level_completion(&mut self)
        requires
            old(self).wf(),
            old(self).checks_completed >= old(self).checks_required ==> {
                &&& old(self).score + spec_level_bonus(old(self).level as int) <= u32::MAX
                &&& old(self).level < MAX_LEVEL
            },
        ensures
            final(self).wf(),
            old(self).checks_completed < old(self).checks_required ==> unchanged(
                *old(self),
                *final(self),
            ),
            old(self).checks_completed >= old(self).checks_required ==> {
                &&& final(self).score == old(self).score + spec_level_bonus(
                    old(self).level as int,
                )
                &&& final(self).level == old(self).level + 1
                &&& final(self).checks_completed == 0
                &&& final(self).checks_required == 5 + (old(self).level) * 3
                &&& final(self).state is LevelComplete
                &&& final(self).level_complete_timer == LEVEL_COMPLETE_MS
                &&& final(self).is_new_high_score == old(self).is_new_high_score
                &&& same_lb(*old(self), *final(self))
                &&& same_buffer(*old(self), *final(self))
                &&& same_sync(*old(self), *final(self))
                &&& final(self).menu_time == old(self).menu_time
            },
    {
        if self.checks_completed >= self.checks_required {
            let bonus = calculate_level_score_bonus(self.level);
            self.score = self.score + bonus;
            self.level = self.level + 1;
            self.checks_completed = 0;
            self.checks_required = 5 + (self.level - 1) * 3;
            self.level_complete_timer = LEVEL_COMPLETE_MS;
            self.state = GameState::LevelComplete;
        }
    }

    /// Asks for a fetch-and-merge worker, unless one is already in flight:
    /// the single in-flight guard makes a second dispatch a no-op. The
    /// caller runs the worker only when `true` comes back.
    pub fn sync_leaderboard_with_api(&mut self) -> (dispatched: bool)
        requires
            old(self).wf(),
        ensures
            final(self).wf(),
            sync_dispatch(*old(self), *final(self), dispatched),
    {
        if self.api_loading {
            return false;
        }
        self.api_loading = true;
        self.last_api_sync = 0;
        true
    }

    /// Records a submitted score in the local table at once — remote
    /// submission is advisory and never a precondition for local
    /// persistence. The caller then dispatches the submit worker, which is
    /// not subject to the fetch guard.
    pub fn submit_score_to_api(&mut self, high_score: HighScore)
        requires
            old(self).wf(),
        ensures
            final(self).wf(),
            final(self).leaderboard.scores@ == cap_entries(
                insert_sorted(old(self).leaderboard.scores@, high_score),
            ),
            final(self).leaderboard.local_best == best_after(
                old(self).leaderboard.local_best,
                high_score,
            ),
            final(self).state == old(self).state,
            same_run(*old(self), *final(self)),
            same_buffer(*old(self), *final(self)),
            same_sync(*old(self), *final(self)),
            same_timers(*old(self), *final(self)),
    {
        self.leaderboard.add_score(high_score);
    }

    /// One control-loop tick: drains the given worker messages in arrival
    /// order first, then runs the active state's logic on the at most one
    /// key pressed. Returns the remote work (a fetch or a submission) the
    /// driver must hand to a worker, if any.
    pub fn update(&mut self, dt_ms: u32, messages: Vec<ApiMessage>, key: Option<InputKey>) -> (act:
        Option<SyncAction>)
        requires
            old(self).wf(),
            wf_messages(messages@),
        ensures
            final(self).wf(),
            exists|mid: Game|
                #[trigger] drained(*old(self), mid, messages@) && session_step(
                    mid,
                    *final(self),
                    dt_ms,
                    key,
                    act,
                ),
    {
        self.process_api_messages(messages);
        let ghost mid = *self;
        let mut action: Option<SyncAction> = None;
        match self.state {
            GameState::MainMenu => {
                self.menu_time = sat_add(self.menu_time, dt_ms);
                self.last_api_sync = sat_add(self.last_api_sync, dt_ms);
                if self.last_api_sync > SYNC_INTERVAL_MS && !self.api_loading {
                    let _ = self.sync_leaderboard_with_api();
                    action = Some(SyncAction::FetchLeaderboard);
                }
                match key {
                    Some(InputKey::Space) => {
                        self.start_game();
                    },
                    Some(InputKey::Char(c)) => {
                        if c == 'L' {
                            self.state = GameState::ViewingLeaderboard;
                        }
                    },
                    _ => {},
                }
            },
            GameState::Playing => {},
            GameState::LevelComplete => {
                if self.level_complete_timer > dt_ms {
                    self.level_complete_timer = self.level_complete_timer - dt_ms;
                } else {
                    self.level_complete_timer = 0;
                    self.state = GameState::Playing;
                }
            },
            GameState::GameOver => {
                match key {
                    Some(InputKey::Space) => {
                        if self.is_new_high_score {
                            self.state = GameState::NameInput;
                        } else {
                            self.reset_game();
                        }
                    },
                    Some(InputKey::Char(c)) => {
                        if c == 'L' {
                            self.state = GameState::ViewingLeaderboard;
                        }
                    },
                    _ => {},
                }
            },
            GameState::NameInput => {
                if let Some(k) = key {
                    action = self.handle_name_input(k);
                }
            },
            GameState::ViewingLeaderboard => {
                match key {
                    Some(InputKey::Space) => {
                        self.state = GameState::MainMenu;
                    },
                    Some(InputKey::Escape) => {
                        self.state = GameState::MainMenu;
                    },
                    _ => {},
                }
            },
        }
        proof {
            assert(drained(*old(self), mid, messages@));
            assert(session_step(mid, *self, dt_ms, key, action));
        }
        action
    }

    /// Handles one key on the name-entry screen; see `name_input_step` for
    /// what each key does. Returns the record to hand to a submit worker
    /// when Enter confirmed a non-blank name.
    pub fn handle_name_input(&mut self, key: InputKey) -> (act: Option<SyncAction>)
        requires
            old(self).wf(),
        ensures
            final(self).wf(),
            name_input_step(*old(self), *final(self), key, act),
    {
        match key {
            InputKey::Enter => {
                let name = trim_spaces(self.player_name_input.as_str()).to_owned();
                if name.as_str().unicode_len() == 0 {
                    return None;
                }
                let record = HighScore::new(name, self.score, self.level);
                self.submit_score_to_api(record.clone());
                self.player_name_input = String::new();
                self.reset_game();
                Some(SyncAction::SubmitScore(record))
            },
            InputKey::Backspace => {
                let _ = pop_char(&mut self.player_name_input);
                None
            },
            InputKey::Escape => {
                self.reset_game();
                None
            },
            InputKey::Space => {
                if self.player_name_input.as_str().unicode_len() < MAX_NAME_LEN {
                    push_char(&mut self.player_name_input, ' ');
                }
                None
            },
            InputKey::Char(c) => {
                if self.player_name_input.as_str().unicode_len() < MAX_NAME_LEN {
                    push_char(&mut self.player_name_input, c);
                }
                None
            },
        }
    }

    /// Applies every pending worker message, in arrival order, exactly once
    /// per tick and before any state logic runs. A replacement table is
    /// adopted wholesale except for the personal best, which is never
    /// lowered; each adopted table also clears the in-flight guard.
    pub fn process_api_messages(&mut self, messages: Vec<ApiMessage>)
        requires
            old(self).wf(),
            wf_messages(messages@),
        ensures
            final(self).wf(),
            drained(*old(self), *final(self), messages@),
    {
        let mut i: usize = 0;
        while i < messages.len()
            invariant
                i <= messages@.len(),
                wf_messages(messages@),
                self.wf(),
                self.leaderboard.scores@ == synced_scores(
                    old(self).leaderboard.scores@,
                    messages@.take(i as int),
                ),
                self.leaderboard.local_best == synced_best(
                    old(self).leaderboard.local_best,
                    messages@.take(i as int),
                ),
                self.api_loading == (old(self).api_loading && !any_synced(
                    messages@.take(i as int),
                )),
                self.state == old(self).state,
                same_run(*old(self), *self),
                same_buffer(*old(self), *self),
                same_timers(*old(self), *self),
                self.last_api_sync == old(self).last_api_sync,
            decreases messages@.len() - i,
        {
            let ghost taken = messages@.take(i as int);
            let ghost taken_next = messages@.take(i as int + 1);
            proof {
                assert(taken_next =~= taken.push(messages@[i as int]));
                assert(taken_next.drop_last() =~= taken);
                if any_synced(taken) {
                    let w = choose|w: int| 0 <= w < taken.len() && taken[w] is LeaderboardSynced;
                    assert(taken_next[w] is LeaderboardSynced);
                }
            }
            match &messages[i] {
                ApiMessage::LeaderboardSynced(lb) => {
                    let adopt_best = match (&lb.local_best, &self.leaderboard.local_best) {
                        (Some(nb), Some(ob)) => nb.score > ob.score,
                        (Some(_), None) => true,
                        (None, _) => false,
                    };
                    if adopt_best {
                        self.leaderboard.local_best = clone_best(&lb.local_best);
                    }
                    self.leaderboard.scores = clone_scores(&lb.scores);
                    self.api_loading = false;
                    proof {
                        assert(taken_next[i as int] is LeaderboardSynced);
                        assert(any_synced(taken_next));
                    }
                },
                ApiMessage::ScoreSubmitted(_) => {
                    proof {
                        if any_synced(taken_next) {
                            let w = choose|w: int|
                                0 <= w < taken_next.len() && taken_next[w] is LeaderboardSynced;
                            assert(taken[w] is LeaderboardSynced);
                            assert(any_synced(taken));
                        }
                    }
                },
            }
            i += 1;
        }
        proof {
            assert(messages@.take(messages@.len() as int) =~= messages@);
        }
    }
}

} // verus!

