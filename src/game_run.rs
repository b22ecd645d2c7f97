//! A run through a list of levels, and how a finished level is reported.
use crate::enemy::EnemyClass;
use crate::level::LevelStats;
use vstd::prelude::*;

verus! {

/// How far the player got with a level.
#[derive(Clone, Copy, Debug, PartialEq, Eq, Structural)]
pub enum LevelStatus {
    Unplayed,
    Tried,
    Completed,
}

/// Which list of levels a run plays.
#[derive(Clone, Copy, Debug, PartialEq, Eq, Structural)]
pub enum GameRunMode {
    Training,
    Game,
    SingleLevel,
}

/// A run: which level is being played, and the status of each level. The host keeps the
/// level definitions, in the same order.
pub struct GameRun {
    index: usize,
    level_statuses: Vec<LevelStatus>,
    mode: GameRunMode,
}

impl GameRun {
    /// Position of the level being played.
    pub closed spec fn index_spec(&self) -> nat {
        self.index as nat
    }

    /// Status of every level of the run.
    pub closed spec fn statuses_spec(&self) -> Seq<LevelStatus> {
        self.level_statuses@
    }

    /// The run's mode.
    pub closed spec fn mode_spec(&self) -> GameRunMode {
        self.mode
    }

    /// The level being played is one of the run's levels.
    pub open spec fn wf(&self) -> bool {
        self.index_spec() < self.statuses_spec().len()
    }

    fn with_levels(level_count: usize, mode: GameRunMode) -> (r: Self)
        requires
            level_count > 0,
        ensures
            r.wf(),
            r.index_spec() == 0,
            r.statuses_spec() == Seq::new(level_count as nat, |i: int| LevelStatus::Unplayed),
            r.mode_spec() == mode,
    {
        let mut level_statuses: Vec<LevelStatus> = Vec::new();
        let mut i: usize = 0;
        while i < level_count
            invariant
                i <= level_count,
                level_statuses@ == Seq::new(i as nat, |k: int| LevelStatus::Unplayed),
            decreases level_count - i,
        {
            level_statuses.push(LevelStatus::Unplayed);
            i = i + 1;
            assert(level_statuses@ =~= Seq::new(i as nat, |k: int| LevelStatus::Unplayed));
        }
        GameRun { index: 0, level_statuses, mode }
    }

    /// A run through the `level_count` levels of the game, none played yet.
    pub fn new_game(level_count: usize) -> (r: Self)
        requires
            level_count > 0,
        ensures
            r.wf(),
            r.index_spec() == 0,
            r.statuses_spec() == Seq::new(level_count as nat, |i: int| LevelStatus::Unplayed),
            r.mode_spec() == GameRunMode::Game,
    {
        Self::with_levels(level_count, GameRunMode::Game)
    }

    /// A run through the `level_count` training levels, none played yet.
    pub fn new_training(level_count: usize) -> (r: Self)
        requires
            level_count > 0,
        ensures
            r.wf(),
            r.index_spec() == 0,
            r.statuses_spec() == Seq::new(level_count as nat, |i: int| LevelStatus::Unplayed),
            r.mode_spec() == GameRunMode::Training,
    {
        Self::with_levels(level_count, GameRunMode::Training)
    }

    /// A run of one level.
    pub fn new_single_level() -> (r: Self)
        ensures
            r.wf(),
            r.index_spec() == 0,
            r.statuses_spec() == seq![LevelStatus::Unplayed],
            r.mode_spec() == GameRunMode::SingleLevel,
    {
        let r = Self::with_levels(1, GameRunMode::SingleLevel);
        assert(r.statuses_spec() =~= seq![LevelStatus::Unplayed]);
        r
    }

    /// The run's mode.
    pub fn mode(&self) -> (r: GameRunMode)
        ensures
            r == self.mode_spec(),
    {
        self.mode
    }

    /// Moves on to the next level; fails, changing nothing, when the current level is the last.
    pub fn advance_current_level(&mut self) -> (r: Result<(), String>)
        ensures
            final(self).statuses_spec() == old(self).statuses_spec(),
            final(self).mode_spec() == old(self).mode_spec(),
            old(self).index_spec() + 1 < old(self).statuses_spec().len() ==> {
                &&& r is Ok
                &&& final(self).index_spec() == old(self).index_spec() + 1
            },
            old(self).index_spec() + 1 >= old(self).statuses_spec().len() ==> {
                &&& r matches Err(e) && e@ == "No more levels to advance to."@
                &&& final(self).index_spec() == old(self).index_spec()
            },
    {
        if self.has_more_levels() {
            let n = self.level_statuses.len();
            assert(self.index < n);
            self.index = self.index + 1;
            Ok(())
        } else {
            proof {
                reveal_strlit("No more levels to advance to.");
            }
            Err("No more levels to advance to.".to_owned())
        }
    }

    /// Whether a level follows the current one.
    pub fn has_more_levels(&self) -> (r: bool)
        ensures
            r == (self.index_spec() + 1 < self.statuses_spec().len()),
    {
        self.index < self.level_statuses.len() && self.index + 1 < self.level_statuses.len()
    }

    /// Records how the current level went.
    pub fn set_current_level_status(&mut self, level_status: LevelStatus)
        requires
            old(self).wf(),
        ensures
            final(self).wf(),
            final(self).index_spec() == old(self).index_spec(),
            final(self).mode_spec() == old(self).mode_spec(),
            final(self).statuses_spec() == old(self).statuses_spec().update(
                old(self).index_spec() as int,
                level_status,
            ),
    {
        self.level_statuses.set(self.index, level_status);
    }

    /// Position of the current level.
    pub fn current_level_index(&self) -> (r: usize)
        ensures
            r == self.index_spec(),
    {
        self.index
    }

    /// Number of levels in the run.
    pub fn total_level_count(&self) -> (r: usize)
        ensures
            r == self.statuses_spec().len(),
    {
        self.level_statuses.len()
    }

    /// Status of level `i`, if the run has such a level.
    pub fn level_status(&self, i: usize) -> (r: Option<LevelStatus>)
        ensures
            r == (if i < self.statuses_spec().len() {
                Some(self.statuses_spec()[i as int])
            } else {
                None::<LevelStatus>
            }),
    {
        if i < self.level_statuses.len() {
            Some(self.level_statuses[i])
        } else {
            None
        }
    }
}

/// What comes after a finished level.
#[derive(Clone, Copy, Debug, PartialEq, Eq, Structural)]
pub enum NextLevelStatus {
    MoreLevels,
    GameComplete,
    SingleLevelRun,
}

impl NextLevelStatus {
    /// A single-level run ends with its level; otherwise more levels follow or the run is done.
    pub fn of_run(game_run: &GameRun) -> (r: Self)
        ensures
            r == (if game_run.mode_spec() == GameRunMode::SingleLevel {
                NextLevelStatus::SingleLevelRun
            } else if game_run.index_spec() + 1 < game_run.statuses_spec().len() {
                NextLevelStatus::MoreLevels
            } else {
                NextLevelStatus::GameComplete
            }),
    {
        if game_run.mode() == GameRunMode::SingleLevel {
            NextLevelStatus::SingleLevelRun
        } else if game_run.has_more_levels() {
            NextLevelStatus::MoreLevels
        } else {
            NextLevelStatus::GameComplete
        }
    }
}

/// How a level ended, as the results screen tells it.
#[derive(Clone, Copy, Debug, PartialEq, Eq, Structural)]
pub enum LevelCompletionStatus {
    Error,
    LostEnemiesDestroyed,
    LostEnemiesRemaining,
    Survived,
}

/// Sum of the six counts of a class list as a wide integer.
fn wide_total(stats: &crate::enemy::EnemyCounts) -> (r: u64)
    ensures
        r == stats.total_of(),
{
    proof {
        stats.lemma_count_bound(EnemyClass::Base);
        stats.lemma_count_bound(EnemyClass::Shadow);
        stats.lemma_count_bound(EnemyClass::DefenderOne);
        stats.lemma_count_bound(EnemyClass::DefenderTwo);
        stats.lemma_count_bound(EnemyClass::DefenderThree);
        stats.lemma_count_bound(EnemyClass::Land);
    }
    stats.count(&EnemyClass::Base) as u64 + stats.count(&EnemyClass::Shadow) as u64 + stats.count(
        &EnemyClass::DefenderOne,
    ) as u64 + stats.count(&EnemyClass::DefenderTwo) as u64 + stats.count(
        &EnemyClass::DefenderThree,
    ) as u64 + stats.count(&EnemyClass::Land) as u64
}

impl LevelCompletionStatus {
    /// A won level survived; a level without outcome is an error; a lost level is told apart
    /// by whether every enemy but the walls was destroyed.
    pub fn of_stats(level_stats: &LevelStats) -> (r: Self)
        ensures
            r == (match level_stats.success {
                Some(true) => LevelCompletionStatus::Survived,
                None => LevelCompletionStatus::Error,
                Some(false) => if level_stats.enemy_counts.total_of()
                    == level_stats.original_enemy_counts.total_of() {
                    LevelCompletionStatus::LostEnemiesDestroyed
                } else {
                    LevelCompletionStatus::LostEnemiesRemaining
                },
            }),
    {
        match level_stats.success {
            Some(true) => LevelCompletionStatus::Survived,
            None => LevelCompletionStatus::Error,
            Some(false) => {
                if wide_total(&level_stats.enemy_counts) == wide_total(
                    &level_stats.original_enemy_counts,
                ) {
                    LevelCompletionStatus::LostEnemiesDestroyed
                } else {
                    LevelCompletionStatus::LostEnemiesRemaining
                }
            },
        }
    }
}

} // verus!
