use vstd::prelude::*;
use crate::util::text::{str_eq, owned};

verus! {

/// An action of the game that keys or mouse buttons can be bound to.
#[derive(Debug, Clone, Copy, PartialEq, Eq, Hash, Structural)]
pub enum GameAction {
    MoveForward,
    MoveBackward,
    MoveLeft,
    MoveRight,
    MoveUp,
    MoveDown,
    LookUp,
    LookDown,
    LookLeft,
    LookRight,
    BreakBlock,
    PlaceBlock,
    PickBlock,
    NextBlockType,
    PreviousBlockType,
    ToggleMouseCapture,
    ReleaseMouse,
    IncreaseSpeed,
    DecreaseSpeed,
    ToggleDebugUI,
    OpenChat,
    ToggleFly,
    CycleGameMode,
    ToggleChunkBorders,
    OpenSettings,
}

/// Number of game actions.
pub const ACTION_COUNT: usize = 25;

/// Position of an action in the canonical order.
pub open spec fn action_index(a: GameAction) -> int {
    match a {
        GameAction::MoveForward => 0,
        GameAction::MoveBackward => 1,
        GameAction::MoveLeft => 2,
        GameAction::MoveRight => 3,
        GameAction::MoveUp => 4,
        GameAction::MoveDown => 5,
        GameAction::LookUp => 6,
        GameAction::LookDown => 7,
        GameAction::LookLeft => 8,
        GameAction::LookRight => 9,
        GameAction::BreakBlock => 10,
        GameAction::PlaceBlock => 11,
        GameAction::PickBlock => 12,
        GameAction::NextBlockType => 13,
        GameAction::PreviousBlockType => 14,
        GameAction::ToggleMouseCapture => 15,
        GameAction::ReleaseMouse => 16,
        GameAction::IncreaseSpeed => 17,
        GameAction::DecreaseSpeed => 18,
        GameAction::ToggleDebugUI => 19,
        GameAction::OpenChat => 20,
        GameAction::ToggleFly => 21,
        GameAction::CycleGameMode => 22,
        GameAction::ToggleChunkBorders => 23,
        GameAction::OpenSettings => 24,
    }
}

/// The action at a position of the canonical order.
pub open spec fn action_at(i: int) -> GameAction {
    if i == 0 {
        GameAction::MoveForward
    } else if i == 1 {
        GameAction::MoveBackward
    } else if i == 2 {
        GameAction::MoveLeft
    } else if i == 3 {
        GameAction::MoveRight
    } else if i == 4 {
        GameAction::MoveUp
    } else if i == 5 {
        GameAction::MoveDown
    } else if i == 6 {
        GameAction::LookUp
    } else if i == 7 {
        GameAction::LookDown
    } else if i == 8 {
        GameAction::LookLeft
    } else if i == 9 {
        GameAction::LookRight
    } else if i == 10 {
        GameAction::BreakBlock
    } else if i == 11 {
        GameAction::PlaceBlock
    } else if i == 12 {
        GameAction::PickBlock
    } else if i == 13 {
        GameAction::NextBlockType
    } else if i == 14 {
        GameAction::PreviousBlockType
    } else if i == 15 {
        GameAction::ToggleMouseCapture
    } else if i == 16 {
        GameAction::ReleaseMouse
    } else if i == 17 {
        GameAction::IncreaseSpeed
    } else if i == 18 {
        GameAction::DecreaseSpeed
    } else if i == 19 {
        GameAction::ToggleDebugUI
    } else if i == 20 {
        GameAction::OpenChat
    } else if i == 21 {
        GameAction::ToggleFly
    } else if i == 22 {
        GameAction::CycleGameMode
    } else if i == 23 {
        GameAction::ToggleChunkBorders
    } else {
        GameAction::OpenSettings
    }
}

/// The action's name as `{:?}` prints it.
pub open spec fn action_name(a: GameAction) -> Seq<char> {
    match a {
        GameAction::MoveForward => "MoveForward"@,
        GameAction::MoveBackward => "MoveBackward"@,
        GameAction::MoveLeft => "MoveLeft"@,
        GameAction::MoveRight => "MoveRight"@,
        GameAction::MoveUp => "MoveUp"@,
        GameAction::MoveDown => "MoveDown"@,
        GameAction::LookUp => "LookUp"@,
        GameAction::LookDown => "LookDown"@,
        GameAction::LookLeft => "LookLeft"@,
        GameAction::LookRight => "LookRight"@,
        GameAction::BreakBlock => "BreakBlock"@,
        GameAction::PlaceBlock => "PlaceBlock"@,
        GameAction::PickBlock => "PickBlock"@,
        GameAction::NextBlockType => "NextBlockType"@,
        GameAction::PreviousBlockType => "PreviousBlockType"@,
        GameAction::ToggleMouseCapture => "ToggleMouseCapture"@,
        GameAction::ReleaseMouse => "ReleaseMouse"@,
        GameAction::IncreaseSpeed => "IncreaseSpeed"@,
        GameAction::DecreaseSpeed => "DecreaseSpeed"@,
        GameAction::ToggleDebugUI => "ToggleDebugUI"@,
        GameAction::OpenChat => "OpenChat"@,
        GameAction::ToggleFly => "ToggleFly"@,
        GameAction::CycleGameMode => "CycleGameMode"@,
        GameAction::ToggleChunkBorders => "ToggleChunkBorders"@,
        GameAction::OpenSettings => "OpenSettings"@,
    }
}

/// The action's label in the settings menu.
pub open spec fn action_label(a: GameAction) -> Seq<char> {
    match a {
        GameAction::MoveForward => "Avancer"@,
        GameAction::MoveBackward => "Reculer"@,
        GameAction::MoveLeft => "Gauche"@,
        GameAction::MoveRight => "Droite"@,
        GameAction::MoveUp => "Monter"@,
        GameAction::MoveDown => "Descendre"@,
        GameAction::LookUp => "Regarder en haut"@,
        GameAction::LookDown => "Regarder en bas"@,
        GameAction::LookLeft => "Regarder à gauche"@,
        GameAction::LookRight => "Regarder à droite"@,
        GameAction::BreakBlock => "Casser un bloc"@,
        GameAction::PlaceBlock => "Placer un bloc"@,
        GameAction::PickBlock => "Prendre un bloc"@,
        GameAction::NextBlockType => "Bloc suivant"@,
        GameAction::PreviousBlockType => "Bloc précédent"@,
        GameAction::ToggleMouseCapture => "Capturer souris"@,
        GameAction::ReleaseMouse => "Libérer souris"@,
        GameAction::IncreaseSpeed => "Augmenter vitesse"@,
        GameAction::DecreaseSpeed => "Diminuer vitesse"@,
        GameAction::ToggleDebugUI => "Interface debug"@,
        GameAction::OpenChat => "Ouvrir chat"@,
        GameAction::ToggleFly => "Mode vol"@,
        GameAction::CycleGameMode => "Changer mode"@,
        GameAction::ToggleChunkBorders => "Bordures chunks"@,
        GameAction::OpenSettings => "Paramètres"@,
    }
}

/// Length, first, fifth and last character of a name: enough to tell the
/// action names apart.
spec fn name_signature(s: Seq<char>) -> (nat, char, char, char) {
    (s.len(), s[0], s[4], s[s.len() - 1])
}

spec fn signature_of(a: GameAction) -> (nat, char, char, char) {
    match a {
        GameAction::MoveForward => (11nat, 'M', 'F', 'd'),
        GameAction::MoveBackward => (12nat, 'M', 'B', 'd'),
        GameAction::MoveLeft => (8nat, 'M', 'L', 't'),
        GameAction::MoveRight => (9nat, 'M', 'R', 't'),
        GameAction::MoveUp => (6nat, 'M', 'U', 'p'),
        GameAction::MoveDown => (8nat, 'M', 'D', 'n'),
        GameAction::LookUp => (6nat, 'L', 'U', 'p'),
        GameAction::LookDown => (8nat, 'L', 'D', 'n'),
        GameAction::LookLeft => (8nat, 'L', 'L', 't'),
        GameAction::LookRight => (9nat, 'L', 'R', 't'),
        GameAction::BreakBlock => (10nat, 'B', 'k', 'k'),
        GameAction::PlaceBlock => (10nat, 'P', 'e', 'k'),
        GameAction::PickBlock => (9nat, 'P', 'B', 'k'),
        GameAction::NextBlockType => (13nat, 'N', 'B', 'e'),
        GameAction::PreviousBlockType => (17nat, 'P', 'i', 'e'),
        GameAction::ToggleMouseCapture => (18nat, 'T', 'l', 'e'),
        GameAction::ReleaseMouse => (12nat, 'R', 'a', 'e'),
        GameAction::IncreaseSpeed => (13nat, 'I', 'e', 'd'),
        GameAction::DecreaseSpeed => (13nat, 'D', 'e', 'd'),
        GameAction::ToggleDebugUI => (13nat, 'T', 'l', 'I'),
        GameAction::OpenChat => (8nat, 'O', 'C', 't'),
        GameAction::ToggleFly => (9nat, 'T', 'l', 'y'),
        GameAction::CycleGameMode => (13nat, 'C', 'e', 'e'),
        GameAction::ToggleChunkBorders => (18nat, 'T', 'l', 's'),
        GameAction::OpenSettings => (12nat, 'O', 'S', 's'),
    }
}

proof fn lemma_name_signature(a: GameAction)
    ensures
        name_signature(action_name(a)) == signature_of(a),
{
    match a {
        GameAction::MoveForward => {
            reveal_strlit("MoveForward");
        },
        GameAction::MoveBackward => {
            reveal_strlit("MoveBackward");
        },
        GameAction::MoveLeft => {
            reveal_strlit("MoveLeft");
        },
        GameAction::MoveRight => {
            reveal_strlit("MoveRight");
        },
        GameAction::MoveUp => {
            reveal_strlit("MoveUp");
        },
        GameAction::MoveDown => {
            reveal_strlit("MoveDown");
        },
        GameAction::LookUp => {
            reveal_strlit("LookUp");
        },
        GameAction::LookDown => {
            reveal_strlit("LookDown");
        },
        GameAction::LookLeft => {
            reveal_strlit("LookLeft");
        },
        GameAction::LookRight => {
            reveal_strlit("LookRight");
        },
        GameAction::BreakBlock => {
            reveal_strlit("BreakBlock");
        },
        GameAction::PlaceBlock => {
            reveal_strlit("PlaceBlock");
        },
        GameAction::PickBlock => {
            reveal_strlit("PickBlock");
        },
        GameAction::NextBlockType => {
            reveal_strlit("NextBlockType");
        },
        GameAction::PreviousBlockType => {
            reveal_strlit("PreviousBlockType");
        },
        GameAction::ToggleMouseCapture => {
            reveal_strlit("ToggleMouseCapture");
        },
        GameAction::ReleaseMouse => {
            reveal_strlit("ReleaseMouse");
        },
        GameAction::IncreaseSpeed => {
            reveal_strlit("IncreaseSpeed");
        },
        GameAction::DecreaseSpeed => {
            reveal_strlit("DecreaseSpeed");
        },
        GameAction::ToggleDebugUI => {
            reveal_strlit("ToggleDebugUI");
        },
        GameAction::OpenChat => {
            reveal_strlit("OpenChat");
        },
        GameAction::ToggleFly => {
            reveal_strlit("ToggleFly");
        },
        GameAction::CycleGameMode => {
            reveal_strlit("CycleGameMode");
        },
        GameAction::ToggleChunkBorders => {
            reveal_strlit("ToggleChunkBorders");
        },
        GameAction::OpenSettings => {
            reveal_strlit("OpenSettings");
        },
    }
}

/// No two actions share a name.
pub proof fn lemma_action_name_injective(a: GameAction, b: GameAction)
    ensures
        action_name(a) == action_name(b) ==> a == b,
{
    lemma_name_signature(a);
    lemma_name_signature(b);
}

pub proof fn lemma_action_index(a: GameAction)
    ensures
        0 <= action_index(a) < ACTION_COUNT,
        action_at(action_index(a)) == a,
{
}

pub proof fn lemma_action_at(i: int)
    requires
        0 <= i < ACTION_COUNT,
    ensures
        action_index(action_at(i)) == i,
{
}

impl GameAction {
    /// Every action, in the canonical order.
    pub const ALL: [GameAction; 25] = [
        GameAction::MoveForward,
        GameAction::MoveBackward,
        GameAction::MoveLeft,
        GameAction::MoveRight,
        GameAction::MoveUp,
        GameAction::MoveDown,
        GameAction::LookUp,
        GameAction::LookDown,
        GameAction::LookLeft,
        GameAction::LookRight,
        GameAction::BreakBlock,
        GameAction::PlaceBlock,
        GameAction::PickBlock,
        GameAction::NextBlockType,
        GameAction::PreviousBlockType,
        GameAction::ToggleMouseCapture,
        GameAction::ReleaseMouse,
        GameAction::IncreaseSpeed,
        GameAction::DecreaseSpeed,
        GameAction::ToggleDebugUI,
        GameAction::OpenChat,
        GameAction::ToggleFly,
        GameAction::CycleGameMode,
        GameAction::ToggleChunkBorders,
        GameAction::OpenSettings,
    ];

    /// Position of the action in the canonical order.
    pub fn index(self) -> (i: usize)
        ensures
            i == action_index(self),
            i < ACTION_COUNT,
    {
        match self {
            GameAction::MoveForward => 0,
            GameAction::MoveBackward => 1,
            GameAction::MoveLeft => 2,
            GameAction::MoveRight => 3,
            GameAction::MoveUp => 4,
            GameAction::MoveDown => 5,
            GameAction::LookUp => 6,
            GameAction::LookDown => 7,
            GameAction::LookLeft => 8,
            GameAction::LookRight => 9,
            GameAction::BreakBlock => 10,
            GameAction::PlaceBlock => 11,
            GameAction::PickBlock => 12,
            GameAction::NextBlockType => 13,
            GameAction::PreviousBlockType => 14,
            GameAction::ToggleMouseCapture => 15,
            GameAction::ReleaseMouse => 16,
            GameAction::IncreaseSpeed => 17,
            GameAction::DecreaseSpeed => 18,
            GameAction::ToggleDebugUI => 19,
            GameAction::OpenChat => 20,
            GameAction::ToggleFly => 21,
            GameAction::CycleGameMode => 22,
            GameAction::ToggleChunkBorders => 23,
            GameAction::OpenSettings => 24,
        }
    }

    /// The action at a position of the canonical order.
    pub fn from_index(i: usize) -> (a: GameAction)
        requires
            i < ACTION_COUNT,
        ensures
            a == action_at(i as int),
            action_index(a) == i,
    {
        if i == 0 {
            GameAction::MoveForward
        } else if i == 1 {
            GameAction::MoveBackward
        } else if i == 2 {
            GameAction::MoveLeft
        } else if i == 3 {
            GameAction::MoveRight
        } else if i == 4 {
            GameAction::MoveUp
        } else if i == 5 {
            GameAction::MoveDown
        } else if i == 6 {
            GameAction::LookUp
        } else if i == 7 {
            GameAction::LookDown
        } else if i == 8 {
            GameAction::LookLeft
        } else if i == 9 {
            GameAction::LookRight
        } else if i == 10 {
            GameAction::BreakBlock
        } else if i == 11 {
            GameAction::PlaceBlock
        } else if i == 12 {
            GameAction::PickBlock
        } else if i == 13 {
            GameAction::NextBlockType
        } else if i == 14 {
            GameAction::PreviousBlockType
        } else if i == 15 {
            GameAction::ToggleMouseCapture
        } else if i == 16 {
            GameAction::ReleaseMouse
        } else if i == 17 {
            GameAction::IncreaseSpeed
        } else if i == 18 {
            GameAction::DecreaseSpeed
        } else if i == 19 {
            GameAction::ToggleDebugUI
        } else if i == 20 {
            GameAction::OpenChat
        } else if i == 21 {
            GameAction::ToggleFly
        } else if i == 22 {
            GameAction::CycleGameMode
        } else if i == 23 {
            GameAction::ToggleChunkBorders
        } else {
            GameAction::OpenSettings
        }
    }

    /// The action's name as `{:?}` prints it.
    pub fn name(self) -> (s: &'static str)
        ensures
            s@ == action_name(self),
    {
        match self {
            GameAction::MoveForward => "MoveForward",
            GameAction::MoveBackward => "MoveBackward",
            GameAction::MoveLeft => "MoveLeft",
            GameAction::MoveRight => "MoveRight",
            GameAction::MoveUp => "MoveUp",
            GameAction::MoveDown => "MoveDown",
            GameAction::LookUp => "LookUp",
            GameAction::LookDown => "LookDown",
            GameAction::LookLeft => "LookLeft",
            GameAction::LookRight => "LookRight",
            GameAction::BreakBlock => "BreakBlock",
            GameAction::PlaceBlock => "PlaceBlock",
            GameAction::PickBlock => "PickBlock",
            GameAction::NextBlockType => "NextBlockType",
            GameAction::PreviousBlockType => "PreviousBlockType",
            GameAction::ToggleMouseCapture => "ToggleMouseCapture",
            GameAction::ReleaseMouse => "ReleaseMouse",
            GameAction::IncreaseSpeed => "IncreaseSpeed",
            GameAction::DecreaseSpeed => "DecreaseSpeed",
            GameAction::ToggleDebugUI => "ToggleDebugUI",
            GameAction::OpenChat => "OpenChat",
            GameAction::ToggleFly => "ToggleFly",
            GameAction::CycleGameMode => "CycleGameMode",
            GameAction::ToggleChunkBorders => "ToggleChunkBorders",
            GameAction::OpenSettings => "OpenSettings",
        }
    }

    /// The action whose name is `s`, if any.
    pub fn from_name(s: &str) -> (r: Option<GameAction>)
        ensures
            match r {
                Some(a) => s@ == action_name(a),
                None => forall|a: GameAction| s@ != action_name(a),
            },
    {
        let mut i: usize = 0;
        while i < ACTION_COUNT
            invariant
                i <= ACTION_COUNT,
                forall|j: int| 0 <= j < i ==> s@ != action_name(#[trigger] action_at(j)),
            decreases ACTION_COUNT - i,
        {
            let a = GameAction::from_index(i);
            if str_eq(s, a.name()) {
                return Some(a);
            }
            i = i + 1;
        }
        proof {
            assert forall|a: GameAction| s@ != action_name(a) by {
                lemma_action_index(a);
                assert(s@ != action_name(action_at(action_index(a))));
            }
        }
        None
    }
}

/// The action's label in the settings menu.
pub fn format_action_name(action: GameAction) -> (s: String)
    ensures
        s@ == action_label(action),
{
    owned(label_str(action))
}

fn label_str(action: GameAction) -> (s: &'static str)
    ensures
        s@ == action_label(action),
{
    match action {
        GameAction::MoveForward => "Avancer",
        GameAction::MoveBackward => "Reculer",
        GameAction::MoveLeft => "Gauche",
        GameAction::MoveRight => "Droite",
        GameAction::MoveUp => "Monter",
        GameAction::MoveDown => "Descendre",
        GameAction::LookUp => "Regarder en haut",
        GameAction::LookDown => "Regarder en bas",
        GameAction::LookLeft => "Regarder à gauche",
        GameAction::LookRight => "Regarder à droite",
        GameAction::BreakBlock => "Casser un bloc",
        GameAction::PlaceBlock => "Placer un bloc",
        GameAction::PickBlock => "Prendre un bloc",
        GameAction::NextBlockType => "Bloc suivant",
        GameAction::PreviousBlockType => "Bloc précédent",
        GameAction::ToggleMouseCapture => "Capturer souris",
        GameAction::ReleaseMouse => "Libérer souris",
        GameAction::IncreaseSpeed => "Augmenter vitesse",
        GameAction::DecreaseSpeed => "Diminuer vitesse",
        GameAction::ToggleDebugUI => "Interface debug",
        GameAction::OpenChat => "Ouvrir chat",
        GameAction::ToggleFly => "Mode vol",
        GameAction::CycleGameMode => "Changer mode",
        GameAction::ToggleChunkBorders => "Bordures chunks",
        GameAction::OpenSettings => "Paramètres",
    }
}

} // verus!
