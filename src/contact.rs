//! What a collision in the arena does to scores and ships. The host detects
//! the collisions and applies the outcome.
use vstd::prelude::*;

verus! {

#[derive(Debug, Copy, Clone, Eq, PartialEq, Structural)]
pub enum AsteroidSize {
    Big,
    Medium,
    Small,
}

/// Which explosion a collision shows.
#[derive(Debug, Copy, Clone, Eq, PartialEq, Structural)]
pub enum ExplosionKind {
    ShipDead,
    ShipContact,
    LaserOnAsteroid,
}

/// The damage an asteroid deals to a ship it hits.
#[derive(Debug, Copy, Clone, Eq, PartialEq, Structural)]
pub struct Damage {
    pub value: u32,
}

impl AsteroidSize {
    /// Points for shooting an asteroid: smaller ones are worth more.
    pub open spec fn spec_points(self) -> u32 {
        match self {
            AsteroidSize::Small => 40,
            AsteroidSize::Medium => 20,
            AsteroidSize::Big => 10,
        }
    }

    pub fn points(&self) -> (r: u32)
        ensures
            r == self.spec_points(),
    {
        match self {
            AsteroidSize::Small => 40,
            AsteroidSize::Medium => 20,
            AsteroidSize::Big => 10,
        }
    }
}

/// The score after a laser destroys an asteroid: unchanged while no score
/// is kept, else raised by the asteroid's points (saturating).
pub fn laser_on_asteroid(score: Option<u32>, size: AsteroidSize) -> (r: Option<u32>)
    ensures
        match score {
            Some(s) => r == Some(s.saturating_add(size.spec_points())),
            None => r is None,
        },
{
    match score {
        Some(s) => Some(s.saturating_add(size.points())),
        None => None,
    }
}

/// A ship hit by an asteroid: its remaining life (never below zero) and the
/// explosion shown, which is the ship's death when no life is left.
pub fn ship_on_asteroid(life: u32, damage: &Damage) -> (r: (u32, ExplosionKind))
    ensures
        r.0 == if life >= damage.value {
            (life - damage.value) as u32
        } else {
            0u32
        },
        r.1 == if r.0 == 0 {
            ExplosionKind::ShipDead
        } else {
            ExplosionKind::ShipContact
        },
{
    let left = life.saturating_sub(damage.value);
    if left == 0 {
        (left, ExplosionKind::ShipDead)
    } else {
        (left, ExplosionKind::ShipContact)
    }
}

} // verus!
