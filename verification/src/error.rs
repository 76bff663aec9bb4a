//! The errors of this library.

use vstd::prelude::*;
use vstd::string::*;

use crate::game::Game;

verus! {

/// Everything that can end an operation of this library.
#[derive(Debug, Clone, Copy, PartialEq, Eq, Structural)]
pub enum Error {
    /// The requested game is owned but not installed.
    SpecificGameNotInstalled(Game),
    /// The requested game is not owned on Steam.
    SpecificGameNotOwned(Game),
    /// Neither game is installed.
    GamesNotInstalled,
    /// The remote manifest violates its schema.
    MalformedManifest,
    /// At least one fetch of a batch failed in transport or while writing.
    TransportError,
    /// A local file exists but could not be read.
    VerificationIOError,
    /// Files are still missing or corrupted and no retry is left.
    RetryBudgetExhausted,
    /// The admission gate could not hand out a permit.
    ConcurrencyAdmissionFailure,
    /// The TruckersMP API answered with its error flag set.
    TruckersMPError,
}

impl Error {
    /// The text shown to the user for this error.
    pub open spec fn message_spec(self) -> Seq<char> {
        match self {
            Error::SpecificGameNotInstalled(game) => game.name_spec()
                + " is not installed! How do you expect to play it!?"@,
            Error::SpecificGameNotOwned(game) => "Seems like you don't own "@ + game.name_spec()
                + " on steam"@,
            Error::GamesNotInstalled => "Neither ETS2 nor ATS are installed"@,
            Error::MalformedManifest => "The mod file manifest is malformed"@,
            Error::TransportError => "Some mod files could not be downloaded"@,
            Error::VerificationIOError => "A mod file exists but could not be read"@,
            Error::RetryBudgetExhausted => "Some mod files are still missing or corrupted"@,
            Error::ConcurrencyAdmissionFailure =>
                "Somehow we failed to acquire a semaphore ticket to work on download jobs"@,
            Error::TruckersMPError => "The TruckersMP API reported an error"@,
        }
    }

    pub fn message(&self) -> (text: String)
        ensures
            text@ == self.message_spec(),
    {
        match self {
            Error::SpecificGameNotInstalled(game) => String::from_str(game.name()).concat(
                " is not installed! How do you expect to play it!?",
            ),
            Error::SpecificGameNotOwned(game) => String::from_str(
                "Seems like you don't own ",
            ).concat(game.name()).concat(" on steam"),
            Error::GamesNotInstalled => String::from_str("Neither ETS2 nor ATS are installed"),
            Error::MalformedManifest => String::from_str("The mod file manifest is malformed"),
            Error::TransportError => String::from_str("Some mod files could not be downloaded"),
            Error::VerificationIOError => String::from_str(
                "A mod file exists but could not be read",
            ),
            Error::RetryBudgetExhausted => String::from_str(
                "Some mod files are still missing or corrupted",
            ),
            Error::ConcurrencyAdmissionFailure => String::from_str(
                "Somehow we failed to acquire a semaphore ticket to work on download jobs",
            ),
            Error::TruckersMPError => String::from_str("The TruckersMP API reported an error"),
        }
    }
}

} // verus!
