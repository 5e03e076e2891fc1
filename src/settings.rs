//! The configuration of one run.
use vstd::prelude::*;
use crate::fixed::{in_range, Vec3};

verus! {

/// Settings of one run, in thousandths of their units: seconds for
/// `fuse_time`, metres for `initial_height`, metres per second for the
/// velocities.
pub struct SimSettings {
    pub fuse_time: i64,
    pub lin_vel: Vec3,
    pub ang_vel: Vec3,
    pub friction: i64,
    pub restitution: i64,
    pub initial_height: i64,
    pub fragment_count: u32,
    pub explosion_vel: i64,
    pub csv_location: String,
}

/// What a `SimSettings` holds, with the output path as characters.
pub struct SettingsView {
    pub fuse_time: i64,
    pub lin_vel: Vec3,
    pub ang_vel: Vec3,
    pub friction: i64,
    pub restitution: i64,
    pub initial_height: i64,
    pub fragment_count: u32,
    pub explosion_vel: i64,
    pub csv_location: Seq<char>,
}

impl View for SimSettings {
    type V = SettingsView;

    open spec fn view(&self) -> SettingsView {
        SettingsView {
            fuse_time: self.fuse_time,
            lin_vel: self.lin_vel,
            ang_vel: self.ang_vel,
            friction: self.friction,
            restitution: self.restitution,
            initial_height: self.initial_height,
            fragment_count: self.fragment_count,
            explosion_vel: self.explosion_vel,
            csv_location: self.csv_location@,
        }
    }
}

impl SettingsView {
    /// A usable configuration: a positive fuse, non-negative coefficients,
    /// at least one fragment, every quantity within `FIXED_MAX`.
    pub open spec fn wf(&self) -> bool {
        &&& 0 < self.fuse_time
        &&& in_range(self.fuse_time as int)
        &&& self.lin_vel.wf()
        &&& self.ang_vel.wf()
        &&& 0 <= self.friction
        &&& in_range(self.friction as int)
        &&& 0 <= self.restitution
        &&& in_range(self.restitution as int)
        &&& in_range(self.initial_height as int)
        &&& self.fragment_count >= 1
        &&& in_range(self.explosion_vel as int)
    }
}

/// The built-in configuration.
pub open spec fn default_view() -> SettingsView {
    SettingsView {
        fuse_time: 5000,
        lin_vel: Vec3 { x: 7000, y: 2000, z: 7000 },
        ang_vel: Vec3 { x: 1000, y: 2000, z: 1000 },
        friction: 10000,
        restitution: 900,
        initial_height: 5000,
        fragment_count: 10,
        explosion_vel: 480000,
        csv_location: "data.csv"@,
    }
}

impl SimSettings {
    /// The built-in configuration: fuse 5 s, friction 10, restitution 0.9,
    /// height 5 m, 10 fragments, explosion velocity 480 m/s, linear velocity
    /// <7,2,7>, angular velocity <1,2,1>, output `data.csv`.
    pub fn defaults() -> (r: SimSettings)
        ensures
            r@ == default_view(),
            r@.wf(),
    {
        SimSettings {
            fuse_time: 5000,
            lin_vel: Vec3 { x: 7000, y: 2000, z: 7000 },
            ang_vel: Vec3 { x: 1000, y: 2000, z: 1000 },
            friction: 10000,
            restitution: 900,
            initial_height: 5000,
            fragment_count: 10,
            explosion_vel: 480000,
            csv_location: String::from_str("data.csv"),
        }
    }
}

} // verus!
