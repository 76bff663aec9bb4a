//! The options of the commands, and what they settle before any work
//! begins.

use vstd::prelude::*;

use crate::download::DEFAULT_CONCURRENCY;
use crate::error::Error;
use crate::game::{
    available_game_spec, get_available_game, get_specific_game, specific_game_spec, Game,
    Ownership,
};
use crate::sync::SyncConfig;

verus! {

/// Update the TruckersMP mod files.
#[derive(Debug, Clone, Copy, PartialEq, Eq, Structural)]
pub struct Update {
    /// The game to be updated.
    pub game: Option<Game>,
    /// Whether to clean the mod files directory before updating.
    pub clean: bool,
    /// Whether to not verify the mod files after updating them.
    pub skip_verify: bool,
    /// Whether to not retry failed downloads.
    pub no_retry: bool,
    /// The number of retries to do before giving up on downloading a file.
    pub retry_count: u32,
}

/// Run the TruckersMP mod for the optionally specified game.
#[derive(Debug, Clone, Copy, PartialEq, Eq, Structural)]
pub struct RunGame {
    /// The game to be played.
    pub game: Option<Game>,
    /// Whether to not verify the mod files before running the game.
    pub skip_verify: bool,
}

impl Default for Update {
    fn default() -> (update: Update)
        ensures
            update == (Update {
                game: None,
                clean: false,
                skip_verify: false,
                no_retry: false,
                retry_count: 0,
            }),
    {
        Update { game: None, clean: false, skip_verify: false, no_retry: false, retry_count: 0 }
    }
}

/// The game to work on: the one that was asked for, if it can be used, and
/// otherwise the first one that is installed.
pub open spec fn selected_game_spec(requested: Option<Game>, ets2: Ownership, ats: Ownership)
    -> Result<Game, Error> {
    match requested {
        Some(Game::ETS2) => specific_game_spec(Game::ETS2, ets2),
        Some(Game::ATS) => specific_game_spec(Game::ATS, ats),
        None => available_game_spec(ets2, ats),
    }
}

/// Settles the game to work on from what the user asked for and from what
/// Steam reports about the two games.
pub fn select_game(requested: Option<Game>, ets2: Ownership, ats: Ownership) -> (game: Result<
    Game,
    Error,
>)
    ensures
        game == selected_game_spec(requested, ets2, ats),
{
    match requested {
        Some(Game::ETS2) => get_specific_game(Game::ETS2, ets2),
        Some(Game::ATS) => get_specific_game(Game::ATS, ats),
        None => get_available_game(ets2, ats),
    }
}

impl Update {
    /// The values that steer the synchronisation run of this command.
    pub open spec fn sync_config_spec(self) -> SyncConfig {
        SyncConfig {
            clean: self.clean,
            retry_enabled: !self.no_retry,
            retry_count: self.retry_count,
            concurrency_limit: DEFAULT_CONCURRENCY,
        }
    }

    pub fn sync_config(&self) -> (config: SyncConfig)
        ensures
            config == self.sync_config_spec(),
    {
        SyncConfig {
            clean: self.clean,
            retry_enabled: !self.no_retry,
            retry_count: self.retry_count,
            concurrency_limit: DEFAULT_CONCURRENCY,
        }
    }
}

impl RunGame {
    /// The update to run before the game is launched: none when the user
    /// asked not to verify, and otherwise one of the game with every other
    /// option at its default.
    pub open spec fn update_spec(self, game: Game) -> Option<Update> {
        if self.skip_verify {
            None
        } else {
            Some(
                Update {
                    game: Some(game),
                    clean: false,
                    skip_verify: false,
                    no_retry: false,
                    retry_count: 0,
                },
            )
        }
    }

    pub fn update(&self, game: Game) -> (update: Option<Update>)
        ensures
            update == self.update_spec(game),
    {
        if self.skip_verify {
            None
        } else {
            let defaults = Update::default();
            Some(Update { game: Some(game), ..defaults })
        }
    }
}

} // verus!
