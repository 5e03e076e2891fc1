//! The projectile: how it is spawned, its fuse, and what is captured of it
//! when it detonates.
use vstd::prelude::*;
use crate::fixed::Vec3;
use crate::settings::SimSettings;

verus! {

/// Linear and angular velocity, in thousandths per second.
#[derive(Clone, Copy, Debug, PartialEq, Eq, Structural)]
pub struct Velocity {
    pub linvel: Vec3,
    pub angvel: Vec3,
}

impl Velocity {
    pub open spec fn wf(&self) -> bool {
        self.linvel.wf() && self.angvel.wf()
    }
}

/// Position and velocity of a body as the physics engine reports them.
#[derive(Clone, Copy, Debug, PartialEq, Eq, Structural)]
pub struct Kinematics {
    pub position: Vec3,
    pub velocity: Velocity,
}

impl Kinematics {
    pub open spec fn wf(&self) -> bool {
        self.position.wf() && self.velocity.wf()
    }
}

/// The projectile as it is handed to the physics engine.
#[derive(Clone, Copy, Debug, PartialEq, Eq, Structural)]
pub struct Grenade {
    pub position: Vec3,
    pub velocity: Velocity,
    pub friction: i64,
    pub restitution: i64,
}

/// The projectile of a run: position `(0, initial_height, 0)`, the
/// configured velocities, friction and restitution.
pub fn spawn_grenade(settings: &SimSettings) -> (r: Grenade)
    ensures
        r.position == (Vec3 { x: 0, y: settings.initial_height, z: 0 }),
        r.velocity == (Velocity { linvel: settings.lin_vel, angvel: settings.ang_vel }),
        r.friction == settings.friction,
        r.restitution == settings.restitution,
{
    Grenade {
        position: Vec3 { x: 0, y: settings.initial_height, z: 0 },
        velocity: Velocity { linvel: settings.lin_vel, angvel: settings.ang_vel },
        friction: settings.friction,
        restitution: settings.restitution,
    }
}

/// What the run knows of its projectile: the engine's handles of the
/// projectile and the camera, whether the projectile is live, and the pose
/// and velocity captured at detonation.
#[derive(Clone, Copy, Debug, PartialEq, Eq, Structural)]
pub struct GrenadeData {
    pub grenade: u64,
    pub camera: u64,
    pub grenade_spawned: bool,
    pub last_location: Vec3,
    pub last_vel: Velocity,
}

/// A one-shot countdown in milliseconds.
#[derive(Clone, Copy, Debug, PartialEq, Eq, Structural)]
pub struct GrenadeTimer {
    pub duration: u64,
    pub elapsed: u64,
    pub finished: bool,
}

impl GrenadeTimer {
    /// Whether advancing by `dt` ends the countdown now.
    pub open spec fn fires(self, dt: u64) -> bool {
        !self.finished && self.elapsed + dt >= self.duration
    }

    /// The countdown after advancing by `dt`; time stops at `duration`.
    pub open spec fn ticked(self, dt: u64) -> GrenadeTimer {
        if self.finished {
            self
        } else if self.elapsed + dt >= self.duration {
            GrenadeTimer { duration: self.duration, elapsed: self.duration, finished: true }
        } else {
            GrenadeTimer { duration: self.duration, elapsed: (self.elapsed + dt) as u64, finished: false }
        }
    }

    /// A countdown of `duration` milliseconds that has not started.
    pub fn new(duration: u64) -> (r: GrenadeTimer)
        ensures
            r == (GrenadeTimer { duration, elapsed: 0, finished: false }),
    {
        GrenadeTimer { duration, elapsed: 0, finished: false }
    }

    /// Advances by `dt`; true exactly when this call ends the countdown.
    pub fn tick(&mut self, dt: u64) -> (fired: bool)
        ensures
            fired == old(self).fires(dt),
            *final(self) == old(self).ticked(dt),
    {
        if self.finished {
            return false;
        }
        if dt >= self.duration || self.elapsed >= self.duration - dt {
            self.elapsed = self.duration;
            self.finished = true;
            true
        } else {
            self.elapsed = self.elapsed + dt;
            false
        }
    }
}

} // verus!
