use vstd::prelude::*;
use crate::entities::game_mode::{GameMode, mode_name};
use crate::util::text::{owned, join, str_eq, to_lowercase, str_lowercase, split_words, whitespace_words};

verus! {

/// A coordinate of a teleport command: a number, or `~` followed by an
/// optional number for a position relative to the current one.
pub struct CoordArg {
    /// Whether the coordinate began with `~`.
    pub relative: bool,
    /// The number's text: the whole argument, or what follows the `~`
    /// (possibly empty).
    pub number: String,
    /// The argument as typed.
    pub text: String,
}

/// What a chat command asks for.
pub enum CommandResult {
    /// Done; the message to show.
    Success(String),
    /// Refused; the message to show.
    Error(String),
    /// Teleport to the coordinates (none of them relative).
    Teleport(CoordArg, CoordArg, CoordArg),
    /// Teleport with at least one coordinate relative to the current
    /// position.
    TeleportRelative(CoordArg, CoordArg, CoordArg),
    /// Nothing to do.
    NoOp,
    /// Empty the chat history.
    ClearChat,
    /// Change the game mode.
    SetGameMode(GameMode),
    /// Switch flying.
    ToggleFly,
    /// Show the current position.
    ShowPosition,
    /// Teleport, once the numbers of the three coordinates are checked (see
    /// `resolve_teleport`).
    CheckCoordinates(CoordArg, CoordArg, CoordArg),
}

/// A coordinate argument as plain values: relative, number text, text.
pub open spec fn coord_view(c: CoordArg) -> (bool, Seq<char>, Seq<char>) {
    (c.relative, c.number@, c.text@)
}

/// How an argument splits: a leading `~` marks it relative and the rest is
/// its number; otherwise the whole argument is the number.
pub open spec fn coord_of(arg: Seq<char>) -> (bool, Seq<char>, Seq<char>) {
    if arg.len() > 0 && arg[0] == '~' {
        (true, arg.subrange(1, arg.len() as int), arg)
    } else {
        (false, arg, arg)
    }
}

/// Whether a coordinate needs its number checked: all but a bare `~` do.
pub open spec fn needs_number(c: (bool, Seq<char>, Seq<char>)) -> bool {
    !(c.0 && c.1.len() == 0)
}

/// The text shown by `/help`.
pub open spec fn help_text() -> Seq<char> {
    "
§cCommandes disponibles:

§6/tp <x> <y> <z>§r - Téléporte aux coordonnées absolues
§6/tp ~<x> ~<y> ~<z>§r - Téléporte relativement (ex: /tp ~ ~5 ~)
§6/pos§r - Affiche votre position actuelle
§6/gamemode <creative|spectator>§r - Change le mode de jeu
§6/gm <c|s>§r - Raccourci pour gamemode
§6/fly§r - Toggle le mode vol (créatif seulement)
§6/clear§r - Efface l'historique du chat
§6/help§r - Affiche cette aide

§7Exemples:§r
/tp 100 64 200
/tp ~ ~10 ~ (monte de 10 blocs)
/tp ~5 ~ ~ (avance de 5 blocs)
/gamemode creative
/gm spectator
/fly
"@
}

/// A command's outcome as plain values: a tag and its payload. Tags: 0
/// success (message), 1 error (message), 2 teleport, 3 relative teleport
/// (the three coordinates), 4 nothing, 5 clear, 6 game mode, 7 fly,
/// 8 position, 9 coordinates to check.
pub type ResultView = (u8, Seq<char>, Seq<(bool, Seq<char>, Seq<char>)>, Option<GameMode>);

/// The plain values of a command's outcome.
pub open spec fn result_view(r: CommandResult) -> ResultView {
    match r {
        CommandResult::Success(m) => (0u8, m@, Seq::empty(), None),
        CommandResult::Error(m) => (1u8, m@, Seq::empty(), None),
        CommandResult::Teleport(x, y, z) => (2u8, Seq::empty(), seq![coord_view(x), coord_view(y), coord_view(z)], None),
        CommandResult::TeleportRelative(x, y, z) =>
            (3u8, Seq::empty(), seq![coord_view(x), coord_view(y), coord_view(z)], None),
        CommandResult::NoOp => (4u8, Seq::empty(), Seq::empty(), None),
        CommandResult::ClearChat => (5u8, Seq::empty(), Seq::empty(), None),
        CommandResult::SetGameMode(m) => (6u8, Seq::empty(), Seq::empty(), Some(m)),
        CommandResult::ToggleFly => (7u8, Seq::empty(), Seq::empty(), None),
        CommandResult::ShowPosition => (8u8, Seq::empty(), Seq::empty(), None),
        CommandResult::CheckCoordinates(x, y, z) =>
            (9u8, Seq::empty(), seq![coord_view(x), coord_view(y), coord_view(z)], None),
    }
}

/// An error outcome.
pub open spec fn error_view(m: Seq<char>) -> ResultView {
    (1u8, m, Seq::empty(), None)
}

/// The outcome of `/tp` with its words: a usage error with fewer than
/// three coordinates, else the three coordinates to check.
pub open spec fn tp_outcome(parts: Seq<Seq<char>>) -> ResultView {
    if parts.len() < 4 {
        error_view("Usage: /tp <x> <y> <z> ou /tp ~<x> ~<y> ~<z>"@)
    } else {
        (9u8, Seq::empty(), seq![coord_of(parts[1]), coord_of(parts[2]), coord_of(parts[3])], None)
    }
}

/// The outcome of a teleport once each number is known to read or not:
/// the first coordinate whose number is needed and does not read is an
/// error; otherwise a teleport, relative when any coordinate is.
pub open spec fn teleport_outcome(c: Seq<(bool, Seq<char>, Seq<char>)>, ok: Seq<bool>) -> ResultView {
    if needs_number(c[0]) && !ok[0] {
        error_view("Coordonnée X invalide: "@ + c[0].2)
    } else if needs_number(c[1]) && !ok[1] {
        error_view("Coordonnée Y invalide: "@ + c[1].2)
    } else if needs_number(c[2]) && !ok[2] {
        error_view("Coordonnée Z invalide: "@ + c[2].2)
    } else {
        (if c[0].0 || c[1].0 || c[2].0 { 3u8 } else { 2u8 }, Seq::empty(), c, None)
    }
}

/// The outcome of `/gamemode` or `/gm` with its words.
pub open spec fn gamemode_outcome(parts: Seq<Seq<char>>) -> ResultView {
    if parts.len() < 2 {
        error_view("Usage: /gamemode <creative|spectator> ou /gm <c|s>"@)
    } else {
        let m = str_lowercase(parts[1]);
        if m == "creative"@ || m == "c"@ {
            (6u8, Seq::empty(), Seq::empty(), Some(GameMode::Creative { fly_enabled: true }))
        } else if m == "spectator"@ || m == "s"@ {
            (6u8, Seq::empty(), Seq::empty(), Some(GameMode::Spectator))
        } else {
            error_view("Mode inconnu: "@ + parts[1] + ". Modes disponibles: creative, spectator"@)
        }
    }
}

/// The outcome of a command line: its first word, lower-cased, names the
/// command; the other words are its arguments.
pub open spec fn command_outcome(command: Seq<char>) -> ResultView {
    let parts = whitespace_words(command);
    if parts.len() == 0 {
        error_view("Commande vide"@)
    } else {
        let cmd = str_lowercase(parts[0]);
        if cmd == "/tp"@ {
            tp_outcome(parts)
        } else if cmd == "/help"@ {
            (0u8, help_text(), Seq::empty(), None)
        } else if cmd == "/clear"@ {
            (5u8, Seq::empty(), Seq::empty(), None)
        } else if cmd == "/pos"@ {
            (8u8, Seq::empty(), Seq::empty(), None)
        } else if cmd == "/gamemode"@ || cmd == "/gm"@ {
            gamemode_outcome(parts)
        } else if cmd == "/fly"@ {
            (7u8, Seq::empty(), Seq::empty(), None)
        } else {
            error_view("Commande inconnue: "@ + cmd + ". Tapez /help"@)
        }
    }
}

/// Splits one coordinate argument (see `coord_of`).
pub fn parse_coord(arg: &str) -> (c: CoordArg)
    ensures
        coord_view(c) == coord_of(arg@),
{
    let n = arg.unicode_len();
    if n > 0 && arg.get_char(0) == '~' {
        CoordArg { relative: true, number: owned(arg.substring_char(1, n)), text: owned(arg) }
    } else {
        CoordArg { relative: false, number: owned(arg), text: owned(arg) }
    }
}

fn error(m: String) -> (r: CommandResult)
    ensures
        result_view(r) == error_view(m@),
{
    CommandResult::Error(m)
}

/// `/tp` with its words (see `tp_outcome`).
pub fn handle_tp(parts: &Vec<String>) -> (r: CommandResult)
    ensures
        result_view(r) == tp_outcome(parts@.map_values(|w: String| w@)),
{
    let ghost pv = parts@.map_values(|w: String| w@);
    if parts.len() < 4 {
        return error(owned("Usage: /tp <x> <y> <z> ou /tp ~<x> ~<y> ~<z>"));
    }
    assert(pv[1] == parts@[1]@ && pv[2] == parts@[2]@ && pv[3] == parts@[3]@);
    let x = parse_coord(parts[1].as_str());
    let y = parse_coord(parts[2].as_str());
    let z = parse_coord(parts[3].as_str());
    CommandResult::CheckCoordinates(x, y, z)
}

/// Finishes a teleport once the caller has read each coordinate's number
/// (`ok` tells which numbers read; see `teleport_outcome`).
pub fn resolve_teleport(x: CoordArg, y: CoordArg, z: CoordArg, ok: [bool; 3]) -> (r: CommandResult)
    ensures
        result_view(r) == teleport_outcome(seq![coord_view(x), coord_view(y), coord_view(z)], ok@),
{
    let ghost c = seq![coord_view(x), coord_view(y), coord_view(z)];
    let x_needs = !(x.relative && x.number.as_str().unicode_len() == 0);
    let y_needs = !(y.relative && y.number.as_str().unicode_len() == 0);
    let z_needs = !(z.relative && z.number.as_str().unicode_len() == 0);
    if x_needs && !ok[0] {
        return error(join("Coordonnée X invalide: ", x.text.as_str()));
    }
    if y_needs && !ok[1] {
        return error(join("Coordonnée Y invalide: ", y.text.as_str()));
    }
    if z_needs && !ok[2] {
        return error(join("Coordonnée Z invalide: ", z.text.as_str()));
    }
    if x.relative || y.relative || z.relative {
        CommandResult::TeleportRelative(x, y, z)
    } else {
        CommandResult::Teleport(x, y, z)
    }
}

/// `/help`: the list of commands.
pub fn handle_help() -> (r: CommandResult)
    ensures
        result_view(r) == (0u8, help_text(), Seq::<(bool, Seq<char>, Seq<char>)>::empty(), None::<GameMode>),
{
    CommandResult::Success(owned("
§cCommandes disponibles:

§6/tp <x> <y> <z>§r - Téléporte aux coordonnées absolues
§6/tp ~<x> ~<y> ~<z>§r - Téléporte relativement (ex: /tp ~ ~5 ~)
§6/pos§r - Affiche votre position actuelle
§6/gamemode <creative|spectator>§r - Change le mode de jeu
§6/gm <c|s>§r - Raccourci pour gamemode
§6/fly§r - Toggle le mode vol (créatif seulement)
§6/clear§r - Efface l'historique du chat
§6/help§r - Affiche cette aide

§7Exemples:§r
/tp 100 64 200
/tp ~ ~10 ~ (monte de 10 blocs)
/tp ~5 ~ ~ (avance de 5 blocs)
/gamemode creative
/gm spectator
/fly
"))
}

/// `/gamemode` or `/gm` with its words (see `gamemode_outcome`).
pub fn handle_gamemode(parts: &Vec<String>) -> (r: CommandResult)
    ensures
        result_view(r) == gamemode_outcome(parts@.map_values(|w: String| w@)),
{
    let ghost pv = parts@.map_values(|w: String| w@);
    if parts.len() < 2 {
        return error(owned("Usage: /gamemode <creative|spectator> ou /gm <c|s>"));
    }
    assert(pv[1] == parts@[1]@);
    let m = to_lowercase(parts[1].as_str());
    if str_eq(m.as_str(), "creative") || str_eq(m.as_str(), "c") {
        CommandResult::SetGameMode(GameMode::Creative { fly_enabled: true })
    } else if str_eq(m.as_str(), "spectator") || str_eq(m.as_str(), "s") {
        CommandResult::SetGameMode(GameMode::Spectator)
    } else {
        let head = join("Mode inconnu: ", parts[1].as_str());
        error(join(head.as_str(), ". Modes disponibles: creative, spectator"))
    }
}

/// Reads and runs a chat command (see `command_outcome`); positions are
/// applied by the caller.
pub fn execute_command(command: &str) -> (r: CommandResult)
    ensures
        result_view(r) == command_outcome(command@),
{
    let parts = split_words(command);
    let ghost pv = parts@.map_values(|w: String| w@);
    if parts.len() == 0 {
        return error(owned("Commande vide"));
    }
    assert(pv[0] == parts@[0]@);
    let cmd = to_lowercase(parts[0].as_str());
    let c = cmd.as_str();
    if str_eq(c, "/tp") {
        handle_tp(&parts)
    } else if str_eq(c, "/help") {
        handle_help()
    } else if str_eq(c, "/clear") {
        CommandResult::ClearChat
    } else if str_eq(c, "/pos") {
        CommandResult::ShowPosition
    } else if str_eq(c, "/gamemode") || str_eq(c, "/gm") {
        handle_gamemode(&parts)
    } else if str_eq(c, "/fly") {
        CommandResult::ToggleFly
    } else {
        let head = join("Commande inconnue: ", c);
        error(join(head.as_str(), ". Tapez /help"))
    }
}


/// `/gamemode` (or `/gm`) with a mode word: "creative" or "c" in any case
/// sets creative mode with flying on, "spectator" or "s" sets spectator
/// mode, any other word is refused, and without a word the usage is shown.
/// Extra words are ignored.
pub proof fn law_gamemode_words(command: Seq<char>)
    ensures
        ({
            let parts = whitespace_words(command);
            let named = parts.len() >= 1 && (str_lowercase(parts[0]) == "/gamemode"@ || str_lowercase(parts[0]) == "/gm"@);
            let mode = if parts.len() >= 2 { str_lowercase(parts[1]) } else { Seq::empty() };
            &&& named && parts.len() >= 2 && (mode == "creative"@ || mode == "c"@)
                ==> command_outcome(command) == (6u8, Seq::<char>::empty(), Seq::<(bool, Seq<char>, Seq<char>)>::empty(),
                    Some(GameMode::Creative { fly_enabled: true }))
            &&& named && parts.len() >= 2 && (mode == "spectator"@ || mode == "s"@)
                ==> command_outcome(command) == (6u8, Seq::<char>::empty(), Seq::<(bool, Seq<char>, Seq<char>)>::empty(),
                    Some(GameMode::Spectator))
            &&& named && parts.len() >= 2 && !(mode == "creative"@ || mode == "c"@ || mode == "spectator"@ || mode == "s"@)
                ==> command_outcome(command).0 == 1u8
            &&& named && parts.len() < 2 ==> command_outcome(command).0 == 1u8
        }),
{
    reveal_strlit("/tp");
    reveal_strlit("/help");
    reveal_strlit("/clear");
    reveal_strlit("/pos");
    reveal_strlit("/gamemode");
    reveal_strlit("/gm");
    reveal_strlit("creative");
    reveal_strlit("c");
    reveal_strlit("spectator");
    reveal_strlit("s");
    assert("/gm"@[1] != "/tp"@[1] && "/gm"@[1] != "/help"@[1] && "/gm"@[1] != "/clear"@[1] && "/gm"@[1] != "/pos"@[1]);
    assert("/gamemode"@[1] != "/tp"@[1] && "/gamemode"@[1] != "/help"@[1] && "/gamemode"@[1] != "/clear"@[1]
        && "/gamemode"@[1] != "/pos"@[1]);
    assert("s"@[0] != "c"@[0] && "s"@[0] != "creative"@[0] && "spectator"@[0] != "c"@[0]
        && "spectator"@[0] != "creative"@[0]);
}

/// The chat line that reports a refused command.
pub fn error_line(msg: &str) -> (s: String)
    ensures
        s@ == "§cErreur: "@ + msg@,
{
    join("§cErreur: ", msg)
}

/// The chat line shown after the history is cleared.
pub fn cleared_line() -> (s: String)
    ensures
        s@ == "Chat effacé"@,
{
    owned("Chat effacé")
}

/// The chat lines shown after the game mode changes: the new mode's name,
/// and for a spectator a reminder that it flies without collisions.
pub fn game_mode_lines(mode: GameMode) -> (lines: Vec<String>)
    ensures
        lines@.map_values(|l: String| l@) == if mode is Spectator {
            seq!["§aMode de jeu changé: "@ + mode_name(mode), "§7Mode spectateur: vol activé, collisions désactivées"@]
        } else {
            seq!["§aMode de jeu changé: "@ + mode_name(mode)]
        },
{
    let mut lines: Vec<String> = Vec::new();
    lines.push(join("§aMode de jeu changé: ", mode.name()));
    match mode {
        GameMode::Spectator => {
            lines.push(owned("§7Mode spectateur: vol activé, collisions désactivées"));
        },
        _ => {},
    }
    assert(lines@.map_values(|l: String| l@) =~= if mode is Spectator {
        seq!["§aMode de jeu changé: "@ + mode_name(mode), "§7Mode spectateur: vol activé, collisions désactivées"@]
    } else {
        seq!["§aMode de jeu changé: "@ + mode_name(mode)]
    });
    lines
}

/// What `/fly` does to the player's mode: nothing without a player; a
/// spectator is refused; in creative mode flying switches and the line says
/// whether it is now on or off.
pub fn toggle_fly_outcome(current: Option<GameMode>) -> (r: (Option<GameMode>, Option<String>))
    ensures
        match current {
            None => r.0 is None && r.1 is None,
            Some(GameMode::Spectator) => r.0 == Some(GameMode::Spectator)
                && (r.1 matches Some(l) && l@ == "§cImpossible de toggle le fly en mode spectateur!"@),
            Some(GameMode::Creative { fly_enabled }) => r.0 == Some(GameMode::Creative { fly_enabled: !fly_enabled })
                && (r.1 matches Some(l) && l@ == "§aMode vol "@ + if !fly_enabled { "activé"@ } else { "désactivé"@ }),
        },
{
    match current {
        None => (None, None),
        Some(GameMode::Spectator) => (
            Some(GameMode::Spectator),
            Some(owned("§cImpossible de toggle le fly en mode spectateur!")),
        ),
        Some(GameMode::Creative { fly_enabled }) => {
            let mut m = GameMode::Creative { fly_enabled };
            m.toggle_fly();
            let status = if m.is_flying() { "activé" } else { "désactivé" };
            (Some(m), Some(join("§aMode vol ", status)))
        },
    }
}

} // verus!
