use vstd::prelude::*;
use crate::drawbacks::DrawbackId;

verus! {

/// Who plays a side and under which handicap.
pub struct PlayerSettings {
    pub is_ai: bool,
    pub drawback: DrawbackSetting,
}

/// A handicap named by its display name or by its index; the name wins when both are given.
pub struct DrawbackSetting {
    pub name: Option<String>,
    pub index: Option<u16>,
}

/// Budgets and limits of the computer player's search.
#[derive(Clone, Copy, Debug, PartialEq, Eq, Structural)]
pub struct AiSettings {
    pub iteration_limit: u32,
    pub time_limit_ms: u32,
    pub depth_limit: u8,
    pub check_quietness: bool,
    pub quiescence_depth: u8,
}

/// The game's configuration: both players and the search settings.
pub struct GameConfig {
    pub white_player: PlayerSettings,
    pub black_player: PlayerSettings,
    pub ai_settings: AiSettings,
}

/// The handicap with display name `name`, if any.
pub open spec fn drawback_named(name: Seq<char>) -> Option<DrawbackId> {
    if name == "No Castling"@ {
        Some(DrawbackId::NoCastling)
    } else if name == "Pawns Advance One"@ {
        Some(DrawbackId::PawnPushOneOnly)
    } else if name == "Random File Blocked"@ {
        Some(DrawbackId::BlockRandomFile)
    } else {
        None
    }
}

/// The handicap with index `index`, if any.
pub open spec fn drawback_indexed(index: u16) -> Option<DrawbackId> {
    if index == 1 {
        Some(DrawbackId::NoCastling)
    } else if index == 2 {
        Some(DrawbackId::PawnPushOneOnly)
    } else if index == 3 {
        Some(DrawbackId::BlockRandomFile)
    } else {
        None
    }
}

/// The handicap a setting selects: by name if a name is given, else by index;
/// an unknown name or index, or neither, selects no handicap.
pub open spec fn resolved_drawback(name: Option<Seq<char>>, index: Option<u16>) -> DrawbackId {
    match name {
        Some(n) => match drawback_named(n) {
            Some(d) => d,
            None => DrawbackId::NoDrawback,
        },
        None => match index {
            Some(i) => match drawback_indexed(i) {
                Some(d) => d,
                None => DrawbackId::NoDrawback,
            },
            None => DrawbackId::NoDrawback,
        },
    }
}

impl DrawbackSetting {
    pub open spec fn name_view(&self) -> Option<Seq<char>> {
        match self.name {
            Some(n) => Some(n@),
            None => None,
        }
    }
}

fn settings(iteration_limit: u32, time_limit_ms: u32, depth_limit: u8, check_quietness: bool, quiescence_depth: u8) -> (r: AiSettings)
    ensures
        r == (AiSettings { iteration_limit, time_limit_ms, depth_limit, check_quietness, quiescence_depth }),
{
    AiSettings { iteration_limit, time_limit_ms, depth_limit, check_quietness, quiescence_depth }
}

fn player(is_ai: bool) -> (r: PlayerSettings)
    ensures
        r.is_ai == is_ai,
        r.drawback.name.is_none(),
        r.drawback.index.is_none(),
{
    PlayerSettings { is_ai, drawback: DrawbackSetting { name: None, index: None } }
}

impl GameConfig {
    pub open spec fn plain(&self, white_ai: bool, black_ai: bool, s: AiSettings) -> bool {
        &&& self.white_player.is_ai == white_ai
        &&& self.black_player.is_ai == black_ai
        &&& self.white_player.drawback.name.is_none()
        &&& self.white_player.drawback.index.is_none()
        &&& self.black_player.drawback.name.is_none()
        &&& self.black_player.drawback.index.is_none()
        &&& self.ai_settings == s
    }

    /// The handicap a setting selects.
    pub fn resolve_drawback_id(&self, setting: &DrawbackSetting) -> (r: DrawbackId)
        ensures
            r == resolved_drawback(setting.name_view(), setting.index),
    {
        match &setting.name {
            Some(name) => {
                let no_castling = "No Castling".to_owned();
                let pawns = "Pawns Advance One".to_owned();
                let random_file = "Random File Blocked".to_owned();
                proof {
                    reveal_strlit("No Castling");
                    reveal_strlit("Pawns Advance One");
                    reveal_strlit("Random File Blocked");
                }
                if *name == no_castling {
                    DrawbackId::NoCastling
                } else if *name == pawns {
                    DrawbackId::PawnPushOneOnly
                } else if *name == random_file {
                    DrawbackId::BlockRandomFile
                } else {
                    DrawbackId::NoDrawback
                }
            },
            None => match setting.index {
                Some(1) => DrawbackId::NoCastling,
                Some(2) => DrawbackId::PawnPushOneOnly,
                Some(3) => DrawbackId::BlockRandomFile,
                _ => DrawbackId::NoDrawback,
            },
        }
    }
}

impl Default for GameConfig {
    /// White human, black computer, no handicaps, a deep search of three seconds.
    fn default() -> (r: GameConfig)
        ensures
            r.plain(false, true, AiSettings { iteration_limit: 10000000, time_limit_ms: 3000, depth_limit: 24, check_quietness: true, quiescence_depth: 20 }),
    {
        GameConfig { white_player: player(false), black_player: player(true), ai_settings: settings(10000000, 3000, 24, true, 20) }
    }
}

/// White human, black computer.
pub fn human_vs_ai() -> (r: GameConfig)
    ensures
        r.plain(false, true, AiSettings { iteration_limit: 1000000, time_limit_ms: 3000, depth_limit: 18, check_quietness: true, quiescence_depth: 16 }),
{
    GameConfig { white_player: player(false), black_player: player(true), ai_settings: settings(1000000, 3000, 18, true, 16) }
}

/// White computer, black human.
pub fn ai_vs_human() -> (r: GameConfig)
    ensures
        r.plain(true, false, AiSettings { iteration_limit: 1000000, time_limit_ms: 3000, depth_limit: 18, check_quietness: true, quiescence_depth: 16 }),
{
    GameConfig { white_player: player(true), black_player: player(false), ai_settings: settings(1000000, 3000, 18, true, 16) }
}

/// Both sides computer, with the largest budgets.
pub fn max_power_ai() -> (r: GameConfig)
    ensures
        r.plain(true, true, AiSettings { iteration_limit: 10000000, time_limit_ms: 3000, depth_limit: 24, check_quietness: true, quiescence_depth: 20 }),
{
    GameConfig { white_player: player(true), black_player: player(true), ai_settings: settings(10000000, 3000, 24, true, 20) }
}

/// Both sides computer, with quick searches.
pub fn ai_vs_ai() -> (r: GameConfig)
    ensures
        r.plain(true, true, AiSettings { iteration_limit: 500000, time_limit_ms: 2000, depth_limit: 12, check_quietness: true, quiescence_depth: 8 }),
{
    GameConfig { white_player: player(true), black_player: player(true), ai_settings: settings(500000, 2000, 12, true, 8) }
}

/// White human, black computer with a shallow search.
pub fn easy_ai() -> (r: GameConfig)
    ensures
        r.plain(false, true, AiSettings { iteration_limit: 200000, time_limit_ms: 1500, depth_limit: 8, check_quietness: false, quiescence_depth: 4 }),
{
    GameConfig { white_player: player(false), black_player: player(true), ai_settings: settings(200000, 1500, 8, false, 4) }
}

/// White human, black computer with a long, deep search.
pub fn strong_ai() -> (r: GameConfig)
    ensures
        r.plain(false, true, AiSettings { iteration_limit: 2000000, time_limit_ms: 5000, depth_limit: 24, check_quietness: true, quiescence_depth: 20 }),
{
    GameConfig { white_player: player(false), black_player: player(true), ai_settings: settings(2000000, 5000, 24, true, 20) }
}

/// White human, black computer with a balanced search.
pub fn smart_ai() -> (r: GameConfig)
    ensures
        r.plain(false, true, AiSettings { iteration_limit: 1500000, time_limit_ms: 3000, depth_limit: 20, check_quietness: true, quiescence_depth: 18 }),
{
    GameConfig { white_player: player(false), black_player: player(true), ai_settings: settings(1500000, 3000, 20, true, 18) }
}

} // verus!
