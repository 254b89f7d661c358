use vstd::prelude::*;
use crate::util::text::owned;

verus! {

/// The game mode of a player-controlled entity.
#[derive(Clone, Copy, PartialEq, Eq, Debug, Structural)]
pub enum GameMode {
    /// Collides, and may fly when flying is enabled.
    Creative { fly_enabled: bool },
    /// Always flies, never collides.
    Spectator,
}

/// Whether the mode flies: spectators always do, creative players when
/// flying is enabled.
pub open spec fn flying(m: GameMode) -> bool {
    match m {
        GameMode::Spectator => true,
        GameMode::Creative { fly_enabled } => fly_enabled,
    }
}

/// The name of a mode as shown to the player.
pub open spec fn mode_name(m: GameMode) -> Seq<char> {
    match m {
        GameMode::Spectator => "Spectateur"@,
        GameMode::Creative { fly_enabled } => if fly_enabled { "Créatif (Vol)"@ } else { "Créatif"@ },
    }
}

impl GameMode {
    /// Whether the mode flies (see `flying`).
    pub fn is_flying(&self) -> (b: bool)
        ensures
            b == flying(*self),
    {
        match self {
            GameMode::Spectator => true,
            GameMode::Creative { fly_enabled } => *fly_enabled,
        }
    }

    /// Whether the entity collides: all but spectators do.
    pub fn has_collisions(&self) -> (b: bool)
        ensures
            b == !(*self is Spectator),
    {
        match self {
            GameMode::Spectator => false,
            _ => true,
        }
    }

    /// Switches flying in creative mode; a spectator is unchanged.
    pub fn toggle_fly(&mut self)
        ensures
            *final(self) == match *old(self) {
                GameMode::Creative { fly_enabled } => GameMode::Creative { fly_enabled: !fly_enabled },
                GameMode::Spectator => GameMode::Spectator,
            },
    {
        match self {
            GameMode::Creative { fly_enabled } => {
                *self = GameMode::Creative { fly_enabled: !*fly_enabled };
            },
            GameMode::Spectator => {},
        }
    }

    /// Sets flying in creative mode; a spectator is unchanged.
    pub fn set_fly(&mut self, enabled: bool)
        ensures
            *final(self) == match *old(self) {
                GameMode::Creative { .. } => GameMode::Creative { fly_enabled: enabled },
                GameMode::Spectator => GameMode::Spectator,
            },
    {
        match self {
            GameMode::Creative { .. } => {
                *self = GameMode::Creative { fly_enabled: enabled };
            },
            GameMode::Spectator => {},
        }
    }

    /// The name of the mode (see `mode_name`).
    pub fn name(&self) -> (s: &'static str)
        ensures
            s@ == mode_name(*self),
    {
        match self {
            GameMode::Spectator => "Spectateur",
            GameMode::Creative { fly_enabled } => if *fly_enabled { "Créatif (Vol)" } else { "Créatif" },
        }
    }
}

impl Default for GameMode {
    /// Creative, flying.
    fn default() -> (m: GameMode)
        ensures
            m == (GameMode::Creative { fly_enabled: true }),
    {
        GameMode::Creative { fly_enabled: true }
    }
}

/// Toggling flying twice gives back the mode; a spectator always flies and
/// never collides whatever is toggled.
pub proof fn law_toggle_fly_involution(m: GameMode)
    ensures
        ({
            let once = match m {
                GameMode::Creative { fly_enabled } => GameMode::Creative { fly_enabled: !fly_enabled },
                GameMode::Spectator => GameMode::Spectator,
            };
            let twice = match once {
                GameMode::Creative { fly_enabled } => GameMode::Creative { fly_enabled: !fly_enabled },
                GameMode::Spectator => GameMode::Spectator,
            };
            &&& twice == m
            &&& (m is Creative ==> flying(once) != flying(m))
            &&& (m is Spectator ==> once is Spectator && flying(once))
        }),
{
}

/// The name of an entity, for debugging.
pub struct Name(pub String);

impl Name {
    /// A name holding `s`.
    pub fn new(s: &str) -> (n: Name)
        ensures
            n.0@ == s@,
    {
        Name(owned(s))
    }
}

} // verus!
