//! What a player is doing, as the client reports it.

use vstd::prelude::*;

verus! {

/// A player's current activity.
#[derive(Debug, Clone, Copy, PartialEq, Eq)]
pub enum UserAction {
    Idle,
    Afk,
    Playing,
    Editing,
    Modding,
    Multiplayer,
    Watching,
    Unknown,
    Testing,
    Submitting,
    Paused,
    Lobby,
    Multiplaying,
    OsuDirect,
}

impl UserAction {
    /// The byte that stands for the activity on the wire.
    pub open spec fn code(self) -> u8 {
        match self {
            UserAction::Idle => 0,
            UserAction::Afk => 1,
            UserAction::Playing => 2,
            UserAction::Editing => 3,
            UserAction::Modding => 4,
            UserAction::Multiplayer => 5,
            UserAction::Watching => 6,
            UserAction::Unknown => 7,
            UserAction::Testing => 8,
            UserAction::Submitting => 9,
            UserAction::Paused => 10,
            UserAction::Lobby => 11,
            UserAction::Multiplaying => 12,
            UserAction::OsuDirect => 13,
        }
    }

    /// The activity that a byte stands for. A byte that stands for none
    /// reads as `Unknown`, so every byte decodes.
    pub open spec fn of_code(repr: u8) -> UserAction {
        if repr == 0 {
            UserAction::Idle
        } else if repr == 1 {
            UserAction::Afk
        } else if repr == 2 {
            UserAction::Playing
        } else if repr == 3 {
            UserAction::Editing
        } else if repr == 4 {
            UserAction::Modding
        } else if repr == 5 {
            UserAction::Multiplayer
        } else if repr == 6 {
            UserAction::Watching
        } else if repr == 8 {
            UserAction::Testing
        } else if repr == 9 {
            UserAction::Submitting
        } else if repr == 10 {
            UserAction::Paused
        } else if repr == 11 {
            UserAction::Lobby
        } else if repr == 12 {
            UserAction::Multiplaying
        } else if repr == 13 {
            UserAction::OsuDirect
        } else {
            UserAction::Unknown
        }
    }

    /// The byte that stands for the activity on the wire.
    pub fn as_u8(&self) -> (code: u8)
        ensures
            code == self.code(),
    {
        match self {
            UserAction::Idle => 0,
            UserAction::Afk => 1,
            UserAction::Playing => 2,
            UserAction::Editing => 3,
            UserAction::Modding => 4,
            UserAction::Multiplayer => 5,
            UserAction::Watching => 6,
            UserAction::Unknown => 7,
            UserAction::Testing => 8,
            UserAction::Submitting => 9,
            UserAction::Paused => 10,
            UserAction::Lobby => 11,
            UserAction::Multiplaying => 12,
            UserAction::OsuDirect => 13,
        }
    }

    /// The activity that a byte stands for, `Unknown` for a byte that stands
    /// for none.
    pub fn from_u8(repr: u8) -> (action: UserAction)
        ensures
            action == UserAction::of_code(repr),
    {
        match repr {
            0 => UserAction::Idle,
            1 => UserAction::Afk,
            2 => UserAction::Playing,
            3 => UserAction::Editing,
            4 => UserAction::Modding,
            5 => UserAction::Multiplayer,
            6 => UserAction::Watching,
            8 => UserAction::Testing,
            9 => UserAction::Submitting,
            10 => UserAction::Paused,
            11 => UserAction::Lobby,
            12 => UserAction::Multiplaying,
            13 => UserAction::OsuDirect,
            _ => UserAction::Unknown,
        }
    }

    /// Whether this is the probe that the client sends when it opens the
    /// in-game beatmap browser.
    pub fn is_osu_direct(&self) -> (b: bool)
        ensures
            b == (*self == UserAction::OsuDirect),
    {
        match self {
            UserAction::OsuDirect => true,
            _ => false,
        }
    }
}

/// Every activity is the one that its own byte stands for.
pub proof fn lemma_action_round_trip(action: UserAction)
    ensures
        UserAction::of_code(action.code()) == action,
{
}

} // verus!
