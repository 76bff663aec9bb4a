//! The supported games and the choice among them.

use vstd::prelude::*;
use vstd::string::*;

use crate::error::Error;
use crate::text::{dir_prefix, dir_prefix_of};

verus! {

/// The two games that the mod supports.
#[derive(Debug, Clone, Copy, PartialEq, Eq, Structural)]
pub enum Game {
    ETS2,
    ATS,
}

/// What Steam reports about one game: whether the account owns it and
/// whether it is installed on this machine.
#[derive(Debug, Clone, Copy, PartialEq, Eq, Structural)]
pub struct Ownership {
    pub subscribed: bool,
    pub installed: bool,
}

/// The games that are both owned and installed.
#[derive(Debug, Clone, Copy, PartialEq, Eq, Structural)]
pub struct AvailableGames {
    pub ets2: bool,
    pub ats: bool,
}

impl Ownership {
    /// Owned, but not present on this machine.
    pub open spec fn awaits_install(self) -> bool {
        self.subscribed && !self.installed
    }

    /// Owned and present on this machine.
    pub open spec fn playable(self) -> bool {
        self.subscribed && self.installed
    }
}

impl Game {
    pub open spec fn exe_spec(self) -> Seq<char> {
        match self {
            Game::ETS2 => "eurotrucks2.exe"@,
            Game::ATS => "amtrucks.exe"@,
        }
    }

    pub open spec fn dll_spec(self) -> Seq<char> {
        match self {
            Game::ETS2 => "core_ets2mp.dll"@,
            Game::ATS => "core_atsmp.dll"@,
        }
    }

    pub open spec fn name_spec(self) -> Seq<char> {
        match self {
            Game::ETS2 => "ETS2"@,
            Game::ATS => "ATS"@,
        }
    }

    pub open spec fn app_id_spec(self) -> u32 {
        match self {
            Game::ETS2 => 227300,
            Game::ATS => 270880,
        }
    }

    /// File name of the game's executable.
    pub fn exe(&self) -> (name: &'static str)
        ensures
            name@ == self.exe_spec(),
    {
        match self {
            Game::ETS2 => "eurotrucks2.exe",
            Game::ATS => "amtrucks.exe",
        }
    }

    /// File name of the mod library that belongs to the game.
    pub fn dll(&self) -> (name: &'static str)
        ensures
            name@ == self.dll_spec(),
    {
        match self {
            Game::ETS2 => "core_ets2mp.dll",
            Game::ATS => "core_atsmp.dll",
        }
    }

    /// Short name of the game, as shown to the user.
    pub fn name(&self) -> (name: &'static str)
        ensures
            name@ == self.name_spec(),
    {
        match self {
            Game::ETS2 => "ETS2",
            Game::ATS => "ATS",
        }
    }

    /// The game's application id on Steam.
    pub fn app_id(&self) -> (id: u32)
        ensures
            id == self.app_id_spec(),
    {
        match self {
            Game::ETS2 => 227300,
            Game::ATS => 270880,
        }
    }
}

/// Which games can be played, given what Steam reports about each.
pub open spec fn games_spec(ets2: Ownership, ats: Ownership) -> Result<AvailableGames, Error> {
    if ets2.awaits_install() && ats.awaits_install() {
        Err(Error::GamesNotInstalled)
    } else {
        Ok(AvailableGames { ets2: ets2.playable(), ats: ats.playable() })
    }
}

/// The game to use when the user named none: ETS2 before ATS.
pub open spec fn available_game_spec(ets2: Ownership, ats: Ownership) -> Result<Game, Error> {
    if ets2.playable() {
        Ok(Game::ETS2)
    } else if ats.playable() {
        Ok(Game::ATS)
    } else {
        Err(Error::GamesNotInstalled)
    }
}

/// Whether the game that the user named can be used.
pub open spec fn specific_game_spec(game: Game, owned: Ownership) -> Result<Game, Error> {
    if !owned.subscribed {
        Err(Error::SpecificGameNotOwned(game))
    } else if !owned.installed {
        Err(Error::SpecificGameNotInstalled(game))
    } else {
        Ok(game)
    }
}

/// Collects the playable games; fails when both games are owned and neither
/// is installed.
pub fn get_games(ets2: Ownership, ats: Ownership) -> (games: Result<AvailableGames, Error>)
    ensures
        games == games_spec(ets2, ats),
{
    let mut result = AvailableGames { ets2: false, ats: false };
    let mut counter: u8 = 0;
    if ets2.subscribed {
        if ets2.installed {
            result.ets2 = true;
        } else {
            counter += 1;
        }
    }
    if ats.subscribed {
        if ats.installed {
            result.ats = true;
        } else {
            counter += 1;
        }
    }
    if counter == 2 {
        return Err(Error::GamesNotInstalled);
    }
    Ok(result)
}

/// Picks the game to work on when the user named none.
pub fn get_available_game(ets2: Ownership, ats: Ownership) -> (game: Result<Game, Error>)
    ensures
        game == available_game_spec(ets2, ats),
{
    match get_games(ets2, ats) {
        Ok(available) => {
            if available.ets2 {
                Ok(Game::ETS2)
            } else if available.ats {
                Ok(Game::ATS)
            } else {
                Err(Error::GamesNotInstalled)
            }
        },
        Err(e) => Err(e),
    }
}

/// Accepts the game that the user named if it is owned and installed.
pub fn get_specific_game(game: Game, owned: Ownership) -> (checked: Result<Game, Error>)
    ensures
        checked == specific_game_spec(game, owned),
{
    if owned.subscribed {
        if !owned.installed {
            return Err(Error::SpecificGameNotInstalled(game));
        }
        return Ok(game);
    }
    Err(Error::SpecificGameNotOwned(game))
}

/// Where the executable of a game lies below the directory it is
/// installed in.
pub open spec fn game_path_spec(install_dir: Seq<char>, game: Game) -> Seq<char> {
    dir_prefix(install_dir) + "bin/win_x64/"@ + game.exe_spec()
}

/// The path of the executable of a game that is installed in `install_dir`.
pub fn get_game_path(install_dir: &str, game: Game) -> (path: String)
    ensures
        path@ == game_path_spec(install_dir@, game),
{
    dir_prefix_of(install_dir).concat("bin/win_x64/").concat(game.exe())
}

} // verus!
