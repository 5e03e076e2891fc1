//! The run of one simulation: the two-phase state machine, the registry of
//! the engine's entities, and teardown.
use vstd::prelude::*;
use crate::fragment::{captured_wf, generate_fragments, is_fragment_of, Fragment};
use crate::grenade::{GrenadeData, GrenadeTimer, Kinematics, Velocity};
use crate::fixed::Vec3;
use crate::settings::{SettingsView, SimSettings};

verus! {

/// The phase of a run.
#[derive(Clone, Copy, Debug, PartialEq, Eq, Hash, Structural)]
pub enum GrenadeState {
    Grenade,
    Fragment,
}

/// Whether the application shows its menu or runs a simulation.
#[derive(Clone, Copy, Debug, PartialEq, Eq, Hash, Structural)]
pub enum AppState {
    MainMenu,
    LiveSim,
}

/// The state of a run. Entities are the physics engine's handles.
pub struct Simulation {
    pub settings: SimSettings,
    pub state: GrenadeState,
    pub data: GrenadeData,
    pub timer: GrenadeTimer,
    pub fragments: Vec<u64>,
    pub walls: Vec<u64>,
    pub camera_spawned: bool,
}

pub struct SimView {
    pub settings: SettingsView,
    pub state: GrenadeState,
    pub data: GrenadeData,
    pub timer: GrenadeTimer,
    pub fragments: Seq<u64>,
    pub walls: Seq<u64>,
    pub camera_spawned: bool,
}

impl View for Simulation {
    type V = SimView;

    open spec fn view(&self) -> SimView {
        SimView {
            settings: self.settings@,
            state: self.state,
            data: self.data,
            timer: self.timer,
            fragments: self.fragments@,
            walls: self.walls@,
            camera_spawned: self.camera_spawned,
        }
    }
}

/// What the host does after a tick: delete the projectile, create the
/// fragments, start a fresh telemetry file, and write a telemetry row.
pub struct TickOutcome {
    pub despawn: Option<u64>,
    pub spawn: Vec<Fragment>,
    pub reset_log: bool,
    pub record: bool,
}

impl SimView {
    /// Usable settings, a fuse of `fuse_time` that has ended exactly when
    /// its time is up, a capture within bounds, no live projectile in the
    /// fragment phase, and no fragment before it.
    pub open spec fn wf(self) -> bool {
        &&& self.settings.wf()
        &&& self.timer.duration == self.settings.fuse_time
        &&& self.timer.finished == (self.timer.elapsed >= self.timer.duration)
        &&& captured_wf(self.data)
        &&& self.state == GrenadeState::Fragment ==> !self.data.grenade_spawned
        &&& self.state == GrenadeState::Grenade ==> self.fragments.len() == 0
    }

    /// Every entity that the run owns.
    pub open spec fn live(self) -> Seq<u64> {
        (if self.data.grenade_spawned { seq![self.data.grenade] } else { Seq::empty() })
            + self.fragments + self.walls + (if self.camera_spawned {
            seq![self.data.camera]
        } else {
            Seq::empty()
        })
    }
}

/// Whether a tick of `dt` milliseconds detonates the projectile: the fuse
/// ends now, the projectile is live, and the engine reports it.
pub open spec fn detonates(s: SimView, dt: u64, current: Option<Kinematics>) -> bool {
    s.data.grenade_spawned && current is Some && s.timer.fires(dt)
}

/// The state after a tick of `dt` milliseconds, where `current` is what the
/// engine reports of the projectile, if it has one.
pub open spec fn after_tick(s: SimView, dt: u64, current: Option<Kinematics>) -> SimView {
    let t = s.timer.ticked(dt);
    match current {
        Some(k) => if detonates(s, dt, current) {
            SimView {
                timer: t,
                state: GrenadeState::Fragment,
                data: GrenadeData {
                    grenade_spawned: false,
                    last_location: k.position,
                    last_vel: k.velocity,
                    ..s.data
                },
                ..s
            }
        } else {
            SimView { timer: t, ..s }
        },
        None => SimView { timer: t, ..s },
    }
}

impl Simulation {
    /// A fresh run in the projectile phase, with the engine's handles of the
    /// projectile, the camera and the static surfaces.
    pub fn start(settings: SimSettings, grenade: u64, camera: u64, walls: Vec<u64>) -> (r: Simulation)
        requires
            settings@.wf(),
        ensures
            r@.wf(),
            r@.settings == settings@,
            r@.state == GrenadeState::Grenade,
            r@.data.grenade == grenade,
            r@.data.camera == camera,
            r@.data.grenade_spawned,
            r@.data.last_location == (Vec3 { x: 0, y: 0, z: 0 }),
            r@.data.last_vel.linvel == (Vec3 { x: 0, y: 0, z: 0 }),
            r@.data.last_vel.angvel == (Vec3 { x: 0, y: 0, z: 0 }),
            r@.timer == (GrenadeTimer { duration: settings.fuse_time as u64, elapsed: 0, finished: false }),
            r@.fragments.len() == 0,
            r@.walls == walls@,
            r@.camera_spawned,
    {
        let duration = settings.fuse_time as u64;
        Simulation {
            settings,
            state: GrenadeState::Grenade,
            data: GrenadeData {
                grenade,
                camera,
                grenade_spawned: true,
                last_location: Vec3::zero(),
                last_vel: Velocity { linvel: Vec3::zero(), angvel: Vec3::zero() },
            },
            timer: GrenadeTimer::new(duration),
            fragments: Vec::new(),
            walls,
            camera_spawned: true,
        }
    }

    /// Advances the fuse by `dt`. On detonation, captures the projectile's
    /// pose and velocity, enters the fragment phase and returns the
    /// projectile's handle for deletion; otherwise changes nothing else and
    /// returns `None`.
    pub fn explode_grenade(&mut self, dt: u64, current: Option<Kinematics>) -> (r: Option<u64>)
        requires
            old(self)@.wf(),
            current matches Some(k) ==> k.wf(),
        ensures
            final(self)@ == after_tick(old(self)@, dt, current),
            final(self)@.wf(),
            r == (if detonates(old(self)@, dt, current) { Some(old(self).data.grenade) } else { None }),
    {
        let fired = self.timer.tick(dt);
        if fired && self.data.grenade_spawned {
            if let Some(k) = current {
                self.data.last_location = k.position;
                self.data.last_vel = k.velocity;
                self.data.grenade_spawned = false;
                self.state = GrenadeState::Fragment;
                return Some(self.data.grenade);
            }
        }
        None
    }

    /// One tick of the run: the fuse, then on detonation the fragments
    /// (`fragment_count` of them, from the captured kinematics); a telemetry
    /// row is due on every tick that starts in the fragment phase.
    pub fn tick(&mut self, dt: u64, current: Option<Kinematics>) -> (r: TickOutcome)
        requires
            old(self)@.wf(),
            current matches Some(k) ==> k.wf(),
        ensures
            final(self)@ == after_tick(old(self)@, dt, current),
            final(self)@.wf(),
            r.despawn == (if detonates(old(self)@, dt, current) { Some(old(self).data.grenade) } else { None }),
            r.reset_log == detonates(old(self)@, dt, current),
            r.spawn@.len() == (if detonates(old(self)@, dt, current) { old(self).settings.fragment_count as int } else { 0 }),
            forall|i: int| 0 <= i < r.spawn@.len() ==> is_fragment_of(#[trigger] r.spawn@[i], final(self).data, final(self).settings.explosion_vel),
            forall|i: int| 0 <= i < r.spawn@.len() ==> (#[trigger] r.spawn@[i]).position.y >= 0,
            r.record == (old(self).state == GrenadeState::Fragment),
    {
        let record = self.state == GrenadeState::Fragment;
        let despawn = self.explode_grenade(dt, current);
        let spawn = if despawn.is_some() {
            generate_fragments(&self.data, &self.settings)
        } else {
            Vec::new()
        };
        TickOutcome { despawn, spawn, reset_log: despawn.is_some(), record }
    }

    /// Records the handles of the fragments that the engine created.
    pub fn register_fragments(&mut self, ids: Vec<u64>)
        requires
            old(self)@.wf(),
            old(self).state == GrenadeState::Fragment,
        ensures
            final(self)@ == (SimView { fragments: old(self)@.fragments + ids@, ..old(self)@ }),
            final(self)@.wf(),
    {
        let mut ids = ids;
        self.fragments.append(&mut ids);
    }

    /// Forgets every fragment and returns their handles for deletion.
    pub fn clean_fragments(&mut self) -> (r: Vec<u64>)
        ensures
            r@ == old(self)@.fragments,
            final(self)@ == (SimView { fragments: Seq::empty(), ..old(self)@ }),
    {
        let mut r: Vec<u64> = Vec::new();
        std::mem::swap(&mut r, &mut self.fragments);
        r
    }

    /// Ends the run: returns every entity it owns for deletion, owns none
    /// afterwards, and is back in the projectile phase.
    pub fn cleanup(&mut self) -> (r: Vec<u64>)
        requires
            old(self)@.wf(),
        ensures
            r@ == old(self)@.live(),
            final(self)@.live() == Seq::<u64>::empty(),
            final(self)@.state == GrenadeState::Grenade,
            final(self)@.fragments.len() == 0,
            final(self)@.wf(),
    {
        let mut r: Vec<u64> = Vec::new();
        if self.data.grenade_spawned {
            r.push(self.data.grenade);
        }
        let mut frags = self.clean_fragments();
        r.append(&mut frags);
        let mut walls: Vec<u64> = Vec::new();
        std::mem::swap(&mut walls, &mut self.walls);
        r.append(&mut walls);
        if self.camera_spawned {
            r.push(self.data.camera);
        }
        self.data.grenade_spawned = false;
        self.camera_spawned = false;
        self.state = GrenadeState::Grenade;
        assert(r@ =~= old(self)@.live());
        assert(final(self)@.live() =~= Seq::<u64>::empty());
        r
    }
}

/// The application state after a tick in which the quit key was or was not
/// pressed: a running simulation returns to the menu on the key.
pub fn back_to_main_menu_controls(app: AppState, quit_pressed: bool) -> (r: AppState)
    ensures
        r == (if app == AppState::LiveSim && quit_pressed { AppState::MainMenu } else { app }),
{
    if app == AppState::LiveSim && quit_pressed {
        AppState::MainMenu
    } else {
        app
    }
}

/// The state after each of `ticks`, in order: a duration in milliseconds
/// and what the engine reports of the projectile.
pub open spec fn run(s: SimView, ticks: Seq<(u64, Option<Kinematics>)>) -> SimView
    decreases ticks.len(),
{
    if ticks.len() == 0 {
        s
    } else {
        run(after_tick(s, ticks[0].0, ticks[0].1), ticks.skip(1))
    }
}

/// How many of `ticks` detonate the projectile.
pub open spec fn detonation_count(s: SimView, ticks: Seq<(u64, Option<Kinematics>)>) -> nat
    decreases ticks.len(),
{
    if ticks.len() == 0 {
        0
    } else {
        (if detonates(s, ticks[0].0, ticks[0].1) { 1nat } else { 0nat }) + detonation_count(
            after_tick(s, ticks[0].0, ticks[0].1),
            ticks.skip(1),
        )
    }
}

/// How many of `ticks` write a telemetry row.
pub open spec fn rows_written(s: SimView, ticks: Seq<(u64, Option<Kinematics>)>) -> nat
    decreases ticks.len(),
{
    if ticks.len() == 0 {
        0
    } else {
        (if s.state == GrenadeState::Fragment { 1nat } else { 0nat }) + rows_written(
            after_tick(s, ticks[0].0, ticks[0].1),
            ticks.skip(1),
        )
    }
}

/// Milliseconds that `ticks` last in all.
pub open spec fn total_time(ticks: Seq<(u64, Option<Kinematics>)>) -> nat
    decreases ticks.len(),
{
    if ticks.len() == 0 {
        0
    } else {
        ticks[0].0 as nat + total_time(ticks.skip(1))
    }
}

/// Once the projectile is gone, a firing fuse captures nothing: the tick
/// detonates nothing, and the capture and the phase stay as they were.
pub proof fn lemma_no_second_capture(s: SimView, dt: u64, current: Option<Kinematics>)
    requires
        !s.data.grenade_spawned,
    ensures
        !detonates(s, dt, current),
        after_tick(s, dt, current).data == s.data,
        after_tick(s, dt, current).state == s.state,
        after_tick(s, dt, current).fragments == s.fragments,
{
}

proof fn lemma_gone_stays_gone(s: SimView, ticks: Seq<(u64, Option<Kinematics>)>)
    requires
        !s.data.grenade_spawned,
    ensures
        detonation_count(s, ticks) == 0,
    decreases ticks.len(),
{
    if ticks.len() > 0 {
        lemma_no_second_capture(s, ticks[0].0, ticks[0].1);
        lemma_gone_stays_gone(after_tick(s, ticks[0].0, ticks[0].1), ticks.skip(1));
    }
}

/// Over any sequence of ticks a run detonates at most once, and, in a run
/// whose projectile is live and whose fuse has not ended, exactly once
/// when the engine reports the projectile on every tick and the ticks last
/// as long as the fuse has left. A detonating tick spawns `fragment_count`
/// fragments (see `Simulation::tick`), which a usable configuration keeps
/// at one or more.
pub proof fn lemma_single_detonation(s: SimView, ticks: Seq<(u64, Option<Kinematics>)>)
    ensures
        detonation_count(s, ticks) <= 1,
        s.data.grenade_spawned && !s.timer.finished && s.timer.elapsed < s.timer.duration
            && (forall|i: int| 0 <= i < ticks.len() ==> (#[trigger] ticks[i]).1 is Some)
            && total_time(ticks) >= s.timer.duration - s.timer.elapsed
            ==> detonation_count(s, ticks) == 1,
        run(s, ticks).settings == s.settings,
    decreases ticks.len(),
{
    if ticks.len() > 0 {
        let (dt, current) = ticks[0];
        let next = after_tick(s, dt, current);
        let rest = ticks.skip(1);
        lemma_single_detonation(next, rest);
        if detonates(s, dt, current) {
            lemma_gone_stays_gone(next, rest);
        }
        if forall|i: int| 0 <= i < ticks.len() ==> (#[trigger] ticks[i]).1 is Some {
            assert forall|i: int| 0 <= i < rest.len() implies (#[trigger] rest[i]).1 is Some by {
                assert(rest[i] == ticks[i + 1]);
            }
        }
    }
}

/// Every tick that starts in the fragment phase writes one row, and the
/// phase lasts until teardown: from there, `T` ticks write `T` rows.
pub proof fn lemma_rows_in_fragment_phase(s: SimView, ticks: Seq<(u64, Option<Kinematics>)>)
    requires
        s.state == GrenadeState::Fragment,
    ensures
        rows_written(s, ticks) == ticks.len(),
        run(s, ticks).state == GrenadeState::Fragment,
    decreases ticks.len(),
{
    if ticks.len() > 0 {
        lemma_rows_in_fragment_phase(after_tick(s, ticks[0].0, ticks[0].1), ticks.skip(1));
    }
}

} // verus!
