//! Fragment generation: the cloud of bodies that replaces the projectile at
//! detonation.
use vstd::prelude::*;
use crate::fixed::{in_range, Vec3, FIXED_MAX};
use crate::grenade::{GrenadeData, Velocity};
use crate::settings::SimSettings;

verus! {

/// Largest magnitude of a random offset component, in thousandths: offsets
/// are drawn from [-0.5, 0.5].
pub const OFFSET_MAX: i64 = 500;

/// One fragment as it is handed to the physics engine.
#[derive(Clone, Copy, Debug, PartialEq, Eq, Structural)]
pub struct Fragment {
    pub position: Vec3,
    pub velocity: Velocity,
}

pub open spec fn offset_ok(o: Vec3) -> bool {
    &&& -OFFSET_MAX <= o.x <= OFFSET_MAX
    &&& -OFFSET_MAX <= o.y <= OFFSET_MAX
    &&& -OFFSET_MAX <= o.z <= OFFSET_MAX
}

/// `e * o` for two fixed-point values, rounded toward zero.
pub open spec fn scaled(e: int, o: int) -> int {
    let p = e * o;
    if p >= 0 {
        p / 1000
    } else {
        -((-p) / 1000)
    }
}

pub open spec fn at_least_zero(v: int) -> int {
    if v < 0 {
        0
    } else {
        v
    }
}

/// The fragment that the offset `o` gives: velocity `linvel + explosion_vel
/// * o`, the captured angular velocity, position `location + o` with y
/// raised to the floor where it would lie below it. x and z are not
/// clamped: the walls keep the fragments in the room.
pub open spec fn fragment_from(data: GrenadeData, explosion_vel: i64, o: Vec3) -> Fragment {
    let p = data.last_location;
    let v = data.last_vel.linvel;
    Fragment {
        position: Vec3 {
            x: (p.x + o.x) as i64,
            y: at_least_zero(p.y + o.y) as i64,
            z: (p.z + o.z) as i64,
        },
        velocity: Velocity {
            linvel: Vec3 {
                x: (v.x + scaled(explosion_vel as int, o.x as int)) as i64,
                y: (v.y + scaled(explosion_vel as int, o.y as int)) as i64,
                z: (v.z + scaled(explosion_vel as int, o.z as int)) as i64,
            },
            angvel: data.last_vel.angvel,
        },
    }
}

/// A fragment that some offset within range gives.
pub open spec fn is_fragment_of(f: Fragment, data: GrenadeData, explosion_vel: i64) -> bool {
    exists|o: Vec3| offset_ok(o) && f == #[trigger] fragment_from(data, explosion_vel, o)
}

/// What a detonation captured is within the bounds the library works in.
pub open spec fn captured_wf(data: GrenadeData) -> bool {
    data.last_location.wf() && data.last_vel.wf()
}

fn scale(e: i64, o: i64) -> (r: i64)
    requires
        in_range(e as int),
        -OFFSET_MAX <= o <= OFFSET_MAX,
    ensures
        r == scaled(e as int, o as int),
        -FIXED_MAX <= r <= FIXED_MAX,
{
    proof {
        lemma_scaled_bounds(e as int, o as int);
    }
    let p = e * o;
    if p >= 0 {
        p / 1000
    } else {
        -((-p) / 1000)
    }
}

/// The fragment that the offset `o` gives (see `fragment_from`).
pub fn fragment_at(data: &GrenadeData, explosion_vel: i64, o: Vec3) -> (r: Fragment)
    requires
        captured_wf(*data),
        in_range(explosion_vel as int),
        offset_ok(o),
    ensures
        r == fragment_from(*data, explosion_vel, o),
        r.position.y >= 0,
{
    let p = data.last_location;
    let v = data.last_vel.linvel;
    Fragment {
        position: Vec3 {
            x: p.x + o.x,
            y: if p.y + o.y < 0 {
                0
            } else {
                p.y + o.y
            },
            z: p.z + o.z,
        },
        velocity: Velocity {
            linvel: Vec3 {
                x: v.x + scale(explosion_vel, o.x),
                y: v.y + scale(explosion_vel, o.y),
                z: v.z + scale(explosion_vel, o.z),
            },
            angvel: data.last_vel.angvel,
        },
    }
}

/// Relies on rand::thread_rng and rand::Rng::gen_range: a value drawn from
/// the inclusive range `lo..=hi`, which must not be empty.
#[verifier::external_body]
fn random_in(lo: i64, hi: i64) -> (r: i64)
    requires
        lo <= hi,
    ensures
        lo <= r <= hi,
{
    rand::Rng::gen_range(&mut rand::thread_rng(), lo..=hi)
}

/// The fragments of a detonation: `fragment_count` of them, each from its
/// own random offset within [-0.5, 0.5] on each axis.
pub fn generate_fragments(data: &GrenadeData, settings: &SimSettings) -> (r: Vec<Fragment>)
    requires
        captured_wf(*data),
        settings@.wf(),
    ensures
        r@.len() == settings.fragment_count,
        forall|i: int| 0 <= i < r@.len() ==> is_fragment_of(#[trigger] r@[i], *data, settings.explosion_vel),
        forall|i: int| 0 <= i < r@.len() ==> (#[trigger] r@[i]).position.y >= 0,
{
    let n = settings.fragment_count;
    let mut r: Vec<Fragment> = Vec::new();
    let mut k: u32 = 0;
    while k < n
        invariant
            k <= n,
            n == settings.fragment_count,
            captured_wf(*data),
            settings@.wf(),
            r@.len() == k,
            forall|i: int| 0 <= i < r@.len() ==> is_fragment_of(#[trigger] r@[i], *data, settings.explosion_vel),
            forall|i: int| 0 <= i < r@.len() ==> (#[trigger] r@[i]).position.y >= 0,
        decreases n - k,
    {
        let o = Vec3 {
            x: random_in(-OFFSET_MAX, OFFSET_MAX),
            y: random_in(-OFFSET_MAX, OFFSET_MAX),
            z: random_in(-OFFSET_MAX, OFFSET_MAX),
        };
        let f = fragment_at(data, settings.explosion_vel, o);
        assert(is_fragment_of(f, *data, settings.explosion_vel));
        r.push(f);
        k = k + 1;
    }
    r
}

proof fn lemma_scaled_bounds(e: int, o: int)
    requires
        -FIXED_MAX <= e <= FIXED_MAX,
        -OFFSET_MAX <= o <= OFFSET_MAX,
    ensures
        -OFFSET_MAX * FIXED_MAX <= e * o <= OFFSET_MAX * FIXED_MAX,
        -FIXED_MAX <= scaled(e, o) <= FIXED_MAX,
{
    assert(-500 * FIXED_MAX <= e * o <= 500 * FIXED_MAX) by (nonlinear_arith)
        requires
            -FIXED_MAX <= e <= FIXED_MAX,
            -500 <= o <= 500,
    ;
}

/// A generated fragment moves at the captured linear velocity plus
/// `explosion_vel` times an offset whose components lie in [-0.5, 0.5]
/// (rounded toward zero), keeps the captured angular velocity, and starts
/// at the captured position moved by that offset, raised to the floor where
/// it would lie below it.
pub proof fn lemma_fragment_velocity(f: Fragment, data: GrenadeData, explosion_vel: i64)
    requires
        is_fragment_of(f, data, explosion_vel),
        captured_wf(data),
        in_range(explosion_vel as int),
    ensures
        exists|o: Vec3|
            #![trigger fragment_from(data, explosion_vel, o)]
            {
                &&& offset_ok(o)
                &&& f.velocity.linvel.x == data.last_vel.linvel.x + scaled(explosion_vel as int, o.x as int)
                &&& f.velocity.linvel.y == data.last_vel.linvel.y + scaled(explosion_vel as int, o.y as int)
                &&& f.velocity.linvel.z == data.last_vel.linvel.z + scaled(explosion_vel as int, o.z as int)
                &&& f.velocity.angvel == data.last_vel.angvel
                &&& f.position.x == data.last_location.x + o.x
                &&& f.position.y == at_least_zero(data.last_location.y + o.y)
                &&& f.position.z == data.last_location.z + o.z
                &&& f.position.y >= 0
            },
{
    let o = choose|o: Vec3| offset_ok(o) && f == #[trigger] fragment_from(data, explosion_vel, o);
    lemma_scaled_bounds(explosion_vel as int, o.x as int);
    lemma_scaled_bounds(explosion_vel as int, o.y as int);
    lemma_scaled_bounds(explosion_vel as int, o.z as int);
    assert(f == fragment_from(data, explosion_vel, o));
}

} // verus!
