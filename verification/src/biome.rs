//! Biomes: the terrain cover of a cell, decided from its elevation and its
//! moisture by twelve ordered rules, and the colour of each biome.

use vstd::prelude::*;

verus! {

/// The terrain cover of a cell.
#[derive(Clone, Copy, Debug, PartialEq, Eq, Structural)]
pub enum Biomes {
    Grass,
    DeepWater,
    Water,
    Dirt,
    Sand,
    WetSand,
    DarkForest,
    HighDarkForest,
    LightForest,
    Mountain,
    HighMountain,
    Snow,
}

/// A colour: red, green and blue.
#[derive(Clone, Copy, Debug, PartialEq, Eq, Structural)]
pub struct Color {
    pub r: u8,
    pub g: u8,
    pub b: u8,
}

/// Number of rules. The last one applies to every cell.
pub const RULE_COUNT: u8 = 12;

/// Whether the condition of rule `rule` holds of a cell with the elevation
/// `e` and the moisture `m`, both in millionths. Rules are numbered from one.
pub open spec fn rule_applies(rule: int, e: int, m: int) -> bool {
    if rule == 1 {
        e < 390_000
    } else if rule == 2 {
        e < 420_000
    } else if rule == 3 {
        e < 460_000 && m < 570_000
    } else if rule == 4 {
        e < 470_000 && m < 600_000
    } else if rule == 5 {
        e < 470_000 && m >= 600_000
    } else if rule == 6 {
        e > 540_000 && m < 430_000 && e < 620_000
    } else if rule == 7 {
        e < 620_000 && m >= 580_000
    } else if rule == 8 {
        e < 620_000 && m >= 490_000
    } else if rule == 9 {
        e >= 790_000
    } else if rule == 10 {
        e >= 740_000
    } else if rule == 11 {
        e >= 680_000 && m >= 100_000
    } else {
        rule == 12
    }
}

/// The biome that rule `rule` assigns.
pub open spec fn rule_biome(rule: int) -> Biomes {
    if rule == 1 {
        Biomes::DeepWater
    } else if rule == 2 {
        Biomes::Water
    } else if rule == 3 {
        Biomes::Sand
    } else if rule == 4 {
        Biomes::WetSand
    } else if rule == 5 {
        Biomes::Dirt
    } else if rule == 6 {
        Biomes::Grass
    } else if rule == 7 {
        Biomes::HighDarkForest
    } else if rule == 8 {
        Biomes::DarkForest
    } else if rule == 9 {
        Biomes::Snow
    } else if rule == 10 {
        Biomes::HighMountain
    } else if rule == 11 {
        Biomes::Mountain
    } else {
        Biomes::LightForest
    }
}

/// The first rule, counting from `rule`, whose condition holds.
pub open spec fn first_rule_from(rule: int, e: int, m: int) -> int
    decreases RULE_COUNT - rule,
{
    if rule >= RULE_COUNT || rule_applies(rule, e, m) {
        rule
    } else {
        first_rule_from(rule + 1, e, m)
    }
}

/// The rule that decides the cell: the first one whose condition holds.
pub open spec fn winning_rule(e: int, m: int) -> int {
    first_rule_from(1, e, m)
}

/// The biome of a cell with the elevation `e` and the moisture `m`.
pub open spec fn biome_of(e: int, m: int) -> Biomes {
    rule_biome(winning_rule(e, m))
}

/// The colour of each biome.
pub open spec fn biome_color(biome: Biomes) -> Color {
    match biome {
        Biomes::Grass => Color { r: 120, g: 157, b: 80 },
        Biomes::Water => Color { r: 9, g: 82, b: 198 },
        Biomes::DeepWater => Color { r: 0, g: 62, b: 178 },
        Biomes::Dirt => Color { r: 114, g: 98, b: 49 },
        Biomes::Sand => Color { r: 194, g: 178, b: 128 },
        Biomes::WetSand => Color { r: 164, g: 148, b: 99 },
        Biomes::DarkForest => Color { r: 60, g: 97, b: 20 },
        Biomes::HighDarkForest => Color { r: 40, g: 77, b: 0 },
        Biomes::LightForest => Color { r: 85, g: 122, b: 45 },
        Biomes::Mountain => Color { r: 140, g: 142, b: 123 },
        Biomes::HighMountain => Color { r: 160, g: 162, b: 143 },
        Biomes::Snow => Color { r: 235, g: 235, b: 235 },
    }
}

/// Every cell is decided by exactly one rule: its condition holds, no
/// earlier condition does, and the last rule catches what is left.
pub proof fn lemma_first_match_wins(e: int, m: int)
    ensures
        1 <= winning_rule(e, m) <= RULE_COUNT,
        rule_applies(winning_rule(e, m), e, m),
        forall|rule: int| 1 <= rule < winning_rule(e, m) ==> !rule_applies(rule, e, m),
        forall|rule: int|
            1 <= rule <= RULE_COUNT && rule_applies(rule, e, m) && (forall|earlier: int|
                1 <= earlier < rule ==> !rule_applies(earlier, e, m)) ==> rule == winning_rule(
                e,
                m,
            ),
{
    reveal_with_fuel(first_rule_from, 13);
}

/// The biome of a cell, by the first rule that applies:
///
/// 1. elevation below 0.39: deep water;
/// 2. elevation below 0.42: water;
/// 3. elevation below 0.46 and moisture below 0.57: sand;
/// 4. elevation below 0.47 and moisture below 0.60: wet sand;
/// 5. elevation below 0.47 and moisture at least 0.60: dirt;
/// 6. elevation above 0.54 and below 0.62, moisture below 0.43: grass;
/// 7. elevation below 0.62 and moisture at least 0.58: high dark forest;
/// 8. elevation below 0.62 and moisture at least 0.49: dark forest;
/// 9. elevation at least 0.79: snow;
/// 10. elevation at least 0.74: high mountain;
/// 11. elevation at least 0.68 and moisture at least 0.10: mountain;
/// 12. anything else: light forest.
pub fn classify(elevation: i32, moisture: i32) -> (biome: Biomes)
    ensures
        biome == biome_of(elevation as int, moisture as int),
{
    proof {
        reveal_with_fuel(first_rule_from, 13);
    }
    let a = elevation;
    let b = moisture;
    if a < 390_000 {
        Biomes::DeepWater
    } else if a < 420_000 {
        Biomes::Water
    } else if a < 460_000 && b < 570_000 {
        Biomes::Sand
    } else if a < 470_000 && b < 600_000 {
        Biomes::WetSand
    } else if a < 470_000 && b >= 600_000 {
        Biomes::Dirt
    } else if a > 540_000 && b < 430_000 && a < 620_000 {
        Biomes::Grass
    } else if a < 620_000 && b >= 580_000 {
        Biomes::HighDarkForest
    } else if a < 620_000 && b >= 490_000 {
        Biomes::DarkForest
    } else if a >= 790_000 {
        Biomes::Snow
    } else if a >= 740_000 {
        Biomes::HighMountain
    } else if a >= 680_000 && b >= 100_000 {
        Biomes::Mountain
    } else {
        Biomes::LightForest
    }
}

/// The colour of a biome.
pub fn get_biome_color(biome: Biomes) -> (color: Color)
    ensures
        color == biome_color(biome),
{
    match biome {
        Biomes::Grass => Color { r: 120, g: 157, b: 80 },
        Biomes::Water => Color { r: 9, g: 82, b: 198 },
        Biomes::DeepWater => Color { r: 0, g: 62, b: 178 },
        Biomes::Dirt => Color { r: 114, g: 98, b: 49 },
        Biomes::Sand => Color { r: 194, g: 178, b: 128 },
        Biomes::WetSand => Color { r: 164, g: 148, b: 99 },
        Biomes::DarkForest => Color { r: 60, g: 97, b: 20 },
        Biomes::HighDarkForest => Color { r: 40, g: 77, b: 0 },
        Biomes::LightForest => Color { r: 85, g: 122, b: 45 },
        Biomes::Mountain => Color { r: 140, g: 142, b: 123 },
        Biomes::HighMountain => Color { r: 160, g: 162, b: 143 },
        Biomes::Snow => Color { r: 235, g: 235, b: 235 },
    }
}

/// The three channels of a colour, red first.
pub fn color_to_array(color: Color) -> (channels: [u8; 3])
    ensures
        channels[0] == color.r,
        channels[1] == color.g,
        channels[2] == color.b,
{
    [color.r, color.g, color.b]
}

} // verus!
