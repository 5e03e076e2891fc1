//! The static scene: a floor and four walls around a square room.
use vstd::prelude::*;
use crate::fixed::Vec3;

verus! {

/// Half the room's width, in millimetres: walls stand at x and z = ±50 m.
pub const ROOM_HALF: i64 = 50_000;

/// A box-shaped static surface: its centre and half extents, in millimetres.
#[derive(Clone, Copy, Debug, PartialEq, Eq, Structural)]
pub struct Wall {
    pub center: Vec3,
    pub half_extents: Vec3,
}

pub open spec fn room_surfaces() -> Seq<Wall> {
    let near = (-ROOM_HALF) as i64;
    let below = (-10_000) as i64;
    seq![
        Wall { center: Vec3 { x: 0, y: below, z: 0 }, half_extents: Vec3 { x: 100_000, y: 10_000, z: 100_000 } },
        Wall { center: Vec3 { x: 0, y: 0, z: ROOM_HALF }, half_extents: Vec3 { x: 100_000, y: 75_000, z: 1_000 } },
        Wall { center: Vec3 { x: 0, y: 0, z: near }, half_extents: Vec3 { x: 100_000, y: 75_000, z: 1_000 } },
        Wall { center: Vec3 { x: ROOM_HALF, y: 0, z: 0 }, half_extents: Vec3 { x: 1_000, y: 75_000, z: 100_000 } },
        Wall { center: Vec3 { x: near, y: 0, z: 0 }, half_extents: Vec3 { x: 1_000, y: 75_000, z: 100_000 } },
    ]
}

/// The floor, whose top face is the plane y = 0, and the four walls.
pub fn spawn_solid_surfaces() -> (r: Vec<Wall>)
    ensures
        r@ == room_surfaces(),
{
    let near: i64 = -ROOM_HALF;
    let r = vec![
        Wall { center: Vec3 { x: 0, y: -10_000, z: 0 }, half_extents: Vec3 { x: 100_000, y: 10_000, z: 100_000 } },
        Wall { center: Vec3 { x: 0, y: 0, z: ROOM_HALF }, half_extents: Vec3 { x: 100_000, y: 75_000, z: 1_000 } },
        Wall { center: Vec3 { x: 0, y: 0, z: near }, half_extents: Vec3 { x: 100_000, y: 75_000, z: 1_000 } },
        Wall { center: Vec3 { x: ROOM_HALF, y: 0, z: 0 }, half_extents: Vec3 { x: 1_000, y: 75_000, z: 100_000 } },
        Wall { center: Vec3 { x: near, y: 0, z: 0 }, half_extents: Vec3 { x: 1_000, y: 75_000, z: 100_000 } },
    ];
    assert(r@ =~= room_surfaces());
    r
}

} // verus!
