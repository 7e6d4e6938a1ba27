//! Colors the simulation hands to the rendering collaborator, as plain
//! 8-bit RGB triples.

use vstd::prelude::*;

verus! {

/// An 8-bit RGB color; conversion to the renderer's own format is the
/// renderer's business.
#[derive(Clone, Copy, Debug, PartialEq, Eq, Structural)]
pub struct Rgb {
    pub r: u8,
    pub g: u8,
    pub b: u8,
}

/// The clear color of the scene.
pub fn rgb_clear_color() -> (c: Rgb)
    ensures
        c == (Rgb { r: 16, g: 16, b: 16 }),
{
    Rgb { r: 16, g: 16, b: 16 }
}

/// White: the player, projectiles and most one-shot effects.
pub fn rgb_color_player() -> (c: Rgb)
    ensures
        c == (Rgb { r: 255, g: 255, b: 255 }),
{
    Rgb { r: 255, g: 255, b: 255 }
}

/// Cyan: boost pickups and the boosted trail.
pub fn rgb_color_boost() -> (c: Rgb)
    ensures
        c == (Rgb { r: 76, g: 195, b: 217 }),
{
    Rgb { r: 76, g: 195, b: 217 }
}

/// Amber: the ordinary engine trail.
pub fn rgb_color_trail() -> (c: Rgb)
    ensures
        c == (Rgb { r: 255, g: 198, b: 93 }),
{
    Rgb { r: 255, g: 198, b: 93 }
}

/// Red-orange: death effects and the late dead-projectile frame.
pub fn rgb_color_death() -> (c: Rgb)
    ensures
        c == (Rgb { r: 241, g: 103, b: 69 }),
{
    Rgb { r: 241, g: 103, b: 69 }
}

/// Green: ammunition pickups and their capture burst.
pub fn rgb_color_ammo_pickup() -> (c: Rgb)
    ensures
        c == (Rgb { r: 123, g: 200, b: 164 }),
{
    Rgb { r: 123, g: 200, b: 164 }
}

} // verus!
