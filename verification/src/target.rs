//! Targets on the battlefield and the geometry of a blast.
//!
//! Lengths and temperatures are fixed-point numbers with three decimal
//! places: a position of `1_500` is one and a half units from the origin, a
//! temperature of `36_500` is 36.5 degrees.

use vstd::prelude::*;

verus! {

/// Health a target is restored to when time is rewound.
pub const FULL_HEALTH: i32 = 100;

/// Reach of every explosion: five units.
pub const BLAST_RADIUS: i32 = 5_000;

/// Something the stand can act on.
#[derive(Debug)]
pub struct Target {
    pub id: u32,
    pub name: String,
    pub position: (i32, i32, i32),
    pub health: i32,
    /// What the heat-seeking bomb homes in on.
    pub temperature: i32,
    pub is_alive: bool,
}

/// Square of the Euclidean distance between two points.
pub open spec fn distance_squared(a: (i32, i32, i32), b: (i32, i32, i32)) -> int {
    (a.0 - b.0) * (a.0 - b.0) + (a.1 - b.1) * (a.1 - b.1) + (a.2 - b.2) * (a.2 - b.2)
}

/// Whether `a` lies no farther than `radius` from `b`, the boundary included.
pub open spec fn within_radius(a: (i32, i32, i32), b: (i32, i32, i32), radius: i32) -> bool {
    0 <= radius && distance_squared(a, b) <= radius * radius
}

/// The square of a number is bounded by the square of a bound on its size.
proof fn lemma_square_bounded(x: int, bound: int)
    requires
        -bound <= x <= bound,
    ensures
        0 <= x * x <= bound * bound,
{
    assert(0 <= x * x <= bound * bound) by (nonlinear_arith)
        requires
            -bound <= x <= bound,
    ;
}

/// Decides [`within_radius`].
pub fn is_within_radius(a: (i32, i32, i32), b: (i32, i32, i32), radius: i32) -> (near: bool)
    ensures
        near == within_radius(a, b, radius),
{
    if radius < 0 {
        return false;
    }
    let dx: i128 = a.0 as i128 - b.0 as i128;
    let dy: i128 = a.1 as i128 - b.1 as i128;
    let dz: i128 = a.2 as i128 - b.2 as i128;
    let r: i128 = radius as i128;
    proof {
        lemma_square_bounded(dx as int, 0x1_0000_0000);
        lemma_square_bounded(dy as int, 0x1_0000_0000);
        lemma_square_bounded(dz as int, 0x1_0000_0000);
        lemma_square_bounded(r as int, 0x1_0000_0000);
    }
    dx * dx + dy * dy + dz * dz <= r * r
}

impl Clone for Target {
    fn clone(&self) -> (copy: Self)
        ensures
            copy == *self,
    {
        Target {
            id: self.id,
            name: self.name.clone(),
            position: self.position,
            health: self.health,
            temperature: self.temperature,
            is_alive: self.is_alive,
        }
    }
}

impl Target {
    /// Alive exactly when some health is left.
    pub open spec fn consistent(self) -> bool {
        self.is_alive == (self.health > 0)
    }

    /// The target after a bomb on it went off.
    pub open spec fn destroyed(self) -> Target {
        Target { health: 0, is_alive: false, ..self }
    }

    /// The target after time was rewound for it.
    pub open spec fn revived(self) -> Target {
        Target { health: FULL_HEALTH, is_alive: true, ..self }
    }
}

} // verus!
