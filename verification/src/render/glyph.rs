//! The text glyphs of map cells and the names of game modes, as the
//! console view shows them.

use vstd::prelude::*;
use crate::data::map::TileType;

verus! {

/// The glyph of a map cell: a diamond for a cell with a unit, else a
/// glyph for its terrain.
pub open spec fn tile_glyph(t: TileType, has_unit: bool) -> Seq<char> {
    if has_unit {
        seq!['◆']
    } else {
        match t {
            TileType::Empty => seq!['·'],
            TileType::City => seq!['城'],
            TileType::Plain => seq!['·'],
            TileType::Forest => seq!['林'],
            TileType::Mountain => seq!['山'],
            TileType::River => seq!['～'],
            TileType::Bridge => seq!['≡'],
            TileType::Coast => seq!['～'],
            TileType::Sea => seq!['～'],
            TileType::Fortress => seq!['堡'],
            TileType::Barrier => seq!['■'],
            TileType::Special1 => seq!['？'],
            TileType::Barrier2 => seq!['■'],
            TileType::Barrier3 => seq!['■'],
            TileType::Developed => seq!['田'],
            TileType::Road => seq!['─'],
        }
    }
}

/// The glyph of a map cell (see `tile_glyph`).
pub fn tile_char(tile_type: TileType, has_unit: bool) -> (r: &'static str)
    ensures
        r@ == tile_glyph(tile_type, has_unit),
{
    if has_unit {
        proof {
            reveal_strlit("◆");
        }
        return "◆";
    }
    match tile_type {
        TileType::Empty => {
            proof {
                reveal_strlit("·");
            }
            "·"
        },
        TileType::City => {
            proof {
                reveal_strlit("城");
            }
            "城"
        },
        TileType::Plain => {
            proof {
                reveal_strlit("·");
            }
            "·"
        },
        TileType::Forest => {
            proof {
                reveal_strlit("林");
            }
            "林"
        },
        TileType::Mountain => {
            proof {
                reveal_strlit("山");
            }
            "山"
        },
        TileType::River => {
            proof {
                reveal_strlit("～");
            }
            "～"
        },
        TileType::Bridge => {
            proof {
                reveal_strlit("≡");
            }
            "≡"
        },
        TileType::Coast => {
            proof {
                reveal_strlit("～");
            }
            "～"
        },
        TileType::Sea => {
            proof {
                reveal_strlit("～");
            }
            "～"
        },
        TileType::Fortress => {
            proof {
                reveal_strlit("堡");
            }
            "堡"
        },
        TileType::Barrier => {
            proof {
                reveal_strlit("■");
            }
            "■"
        },
        TileType::Special1 => {
            proof {
                reveal_strlit("？");
            }
            "？"
        },
        TileType::Barrier2 => {
            proof {
                reveal_strlit("■");
            }
            "■"
        },
        TileType::Barrier3 => {
            proof {
                reveal_strlit("■");
            }
            "■"
        },
        TileType::Developed => {
            proof {
                reveal_strlit("田");
            }
            "田"
        },
        TileType::Road => {
            proof {
                reveal_strlit("─");
            }
            "─"
        },
    }
}

/// The name of a game mode: 0 is strategy, 3 and 4 the two battle
/// modes; any other mode is unknown.
pub open spec fn mode_name(game_mode: u8) -> Seq<char> {
    if game_mode == 0 {
        seq!['战', '略']
    } else if game_mode == 3 {
        seq!['战', '斗', 'A']
    } else if game_mode == 4 {
        seq!['战', '斗', 'B']
    } else {
        seq!['未', '知']
    }
}

/// The name of a game mode (see `mode_name`).
pub fn game_mode_name(game_mode: u8) -> (r: &'static str)
    ensures
        r@ == mode_name(game_mode),
{
    match game_mode {
        0 => {
            proof {
                reveal_strlit("战略");
            }
            "战略"
        },
        3 => {
            proof {
                reveal_strlit("战斗A");
            }
            "战斗A"
        },
        4 => {
            proof {
                reveal_strlit("战斗B");
            }
            "战斗B"
        },
        _ => {
            proof {
                reveal_strlit("未知");
            }
            "未知"
        },
    }
}

} // verus!
