//! The lifecycle status of a game.

use vstd::prelude::*;
use crate::text::str_equal;

verus! {

/// Where a game stands: gathering players, trading, or scored.
#[derive(Debug, Clone, Copy, PartialEq, Eq, Structural)]
pub enum GameStatus {
    Lobby,
    Active,
    Finished,
}

/// The status's name, as the database stores it.
pub open spec fn status_name(s: GameStatus) -> Seq<char> {
    match s {
        GameStatus::Lobby => "lobby"@,
        GameStatus::Active => "active"@,
        GameStatus::Finished => "finished"@,
    }
}

/// The status with the given name, if any.
pub open spec fn status_named(name: Seq<char>) -> Option<GameStatus> {
    if name == "lobby"@ {
        Some(GameStatus::Lobby)
    } else if name == "active"@ {
        Some(GameStatus::Active)
    } else if name == "finished"@ {
        Some(GameStatus::Finished)
    } else {
        None
    }
}

impl GameStatus {
    pub fn as_str(&self) -> (r: &'static str)
        ensures
            r@ == status_name(*self),
    {
        match self {
            GameStatus::Lobby => "lobby",
            GameStatus::Active => "active",
            GameStatus::Finished => "finished",
        }
    }

    pub fn from_str(s: &str) -> (r: Option<Self>)
        ensures
            r == status_named(s@),
    {
        if str_equal(s, "lobby") {
            Some(GameStatus::Lobby)
        } else if str_equal(s, "active") {
            Some(GameStatus::Active)
        } else if str_equal(s, "finished") {
            Some(GameStatus::Finished)
        } else {
            None
        }
    }
}

/// Parsing a status's name gives the status back, and only a status's name parses.
pub proof fn lemma_status_name_round_trip(s: GameStatus, name: Seq<char>)
    ensures
        status_named(status_name(s)) == Some(s),
        status_named(name) == Some(s) ==> name == status_name(s),
{
    reveal_strlit("lobby");
    reveal_strlit("active");
    reveal_strlit("finished");
    assert("lobby"@[0] == 'l' && "active"@[0] == 'a' && "finished"@[0] == 'f');
}

} // verus!
