use grenade_sim::fixed::Vec3;
use grenade_sim::fragment::{fragment_at, generate_fragments, Fragment, OFFSET_MAX};
use grenade_sim::grenade::{spawn_grenade, GrenadeData, GrenadeTimer, Kinematics, Velocity};
use grenade_sim::scene::{spawn_solid_surfaces, ROOM_HALF};
use grenade_sim::settings::SimSettings;
use grenade_sim::sim::{back_to_main_menu_controls, AppState, GrenadeState, Simulation};
use grenade_sim::telemetry::{fragment_text, telemetry_fields, write_fragment_data};

fn projectile(x: i64, y: i64, z: i64) -> Kinematics {
    Kinematics {
        position: Vec3::new(x, y, z),
        velocity: Velocity { linvel: Vec3::new(1000, -2000, 3000), angvel: Vec3::new(100, 200, 300) },
    }
}

fn captured(x: i64, y: i64, z: i64) -> GrenadeData {
    let k = projectile(x, y, z);
    GrenadeData { grenade: 1, camera: 2, grenade_spawned: false, last_location: k.position, last_vel: k.velocity }
}

fn started() -> Simulation {
    Simulation::start(SimSettings::defaults(), 1, 2, vec![10, 11, 12, 13, 14])
}

/// Ticks of 16 ms until the run detonates; returns the elapsed time and the outcome's fragments.
fn run_until_detonation(sim: &mut Simulation) -> (u64, Vec<Fragment>) {
    let mut elapsed: u64 = 0;
    loop {
        let out = sim.tick(16, Some(projectile(0, 3000, 0)));
        elapsed += 16;
        if out.despawn.is_some() {
            assert_eq!(out.despawn, Some(1));
            assert!(out.reset_log);
            return (elapsed, out.spawn);
        }
        assert!(out.spawn.is_empty());
        assert!(elapsed < 10_000);
    }
}

#[test]
fn default_run_detonates_with_ten_fragments() {
    let mut sim = started();
    let (elapsed, spawn) = run_until_detonation(&mut sim);
    assert!(elapsed >= 5000);
    assert_eq!(elapsed, 5008);
    assert_eq!(sim.state, GrenadeState::Fragment);
    assert_eq!(spawn.len(), 10);
    sim.register_fragments((100..110).collect());
    assert_eq!(sim.fragments.len(), 10);
}

#[test]
fn fuse_fires_on_the_tick_that_reaches_it() {
    let mut sim = started();
    assert!(sim.tick(4999, Some(projectile(0, 3000, 0))).despawn.is_none());
    let out = sim.tick(1, Some(projectile(0, 3000, 0)));
    assert_eq!(out.despawn, Some(1));
    assert_eq!(out.spawn.len(), 10);
    assert!(!out.record);
}

#[test]
fn detonation_happens_once() {
    let mut sim = started();
    run_until_detonation(&mut sim);
    sim.register_fragments((100..110).collect());
    for _ in 0..100 {
        let out = sim.tick(16, Some(projectile(0, 3000, 0)));
        assert!(out.despawn.is_none());
        assert!(out.spawn.is_empty());
        assert!(!out.reset_log);
        assert!(out.record);
    }
    assert_eq!(sim.fragments.len(), 10);
}

#[test]
fn second_firing_captures_nothing() {
    let mut sim = started();
    run_until_detonation(&mut sim);
    let data = sim.data;
    assert_eq!(data.last_location, Vec3::new(0, 3000, 0));
    assert_eq!(data.last_vel.linvel, Vec3::new(1000, -2000, 3000));
    assert!(!data.grenade_spawned);
    assert_eq!(sim.explode_grenade(10_000, Some(projectile(5, 5, 5))), None);
    assert_eq!(sim.data, data);
    assert_eq!(sim.state, GrenadeState::Fragment);
}

#[test]
fn fuse_without_projectile_does_nothing() {
    let mut sim = started();
    let out = sim.tick(6000, None);
    assert!(out.despawn.is_none());
    assert!(out.spawn.is_empty());
    assert_eq!(sim.state, GrenadeState::Grenade);
    let out = sim.tick(16, Some(projectile(0, 0, 0)));
    assert!(out.despawn.is_none());
    assert_eq!(sim.state, GrenadeState::Grenade);
}

#[test]
fn exit_during_fragment_phase_clears_everything() {
    let mut sim = started();
    run_until_detonation(&mut sim);
    sim.register_fragments((100..110).collect());
    let removed = sim.cleanup();
    let mut expected: Vec<u64> = (100..110).collect();
    expected.extend([10, 11, 12, 13, 14, 2]);
    assert_eq!(removed, expected);
    assert!(sim.fragments.is_empty());
    assert!(sim.walls.is_empty());
    assert_eq!(sim.state, GrenadeState::Grenade);
    assert!(sim.cleanup().is_empty());
}

#[test]
fn exit_before_detonation_removes_projectile() {
    let mut sim = started();
    sim.tick(100, Some(projectile(0, 3000, 0)));
    assert_eq!(sim.cleanup(), vec![1, 10, 11, 12, 13, 14, 2]);
    assert!(sim.cleanup().is_empty());
}

#[test]
fn fresh_run_has_empty_capture() {
    let sim = started();
    assert_eq!(sim.data.last_location, Vec3::zero());
    assert_eq!(sim.data.last_vel, Velocity { linvel: Vec3::zero(), angvel: Vec3::zero() });
    assert!(sim.data.grenade_spawned);
    assert_eq!(sim.timer, GrenadeTimer::new(5000));
}

#[test]
fn clean_fragments_returns_handles() {
    let mut sim = started();
    run_until_detonation(&mut sim);
    sim.register_fragments(vec![7, 8]);
    assert_eq!(sim.clean_fragments(), vec![7, 8]);
    assert!(sim.fragments.is_empty());
}

#[test]
fn fragment_formula() {
    let data = captured(1000, 2000, 3000);
    let f = fragment_at(&data, 480_000, Vec3::new(500, -250, 1));
    assert_eq!(f.position, Vec3::new(1500, 1750, 3001));
    assert_eq!(f.velocity.linvel, Vec3::new(1000 + 240_000, -2000 - 120_000, 3000 + 480));
    assert_eq!(f.velocity.angvel, Vec3::new(100, 200, 300));
}

#[test]
fn fragment_velocity_rounds_toward_zero() {
    let data = captured(0, 0, 0);
    let f = fragment_at(&data, 1_999, Vec3::new(1, -1, 0));
    assert_eq!(f.velocity.linvel, Vec3::new(1000 + 1, -2000 - 1, 3000));
}

#[test]
fn fragments_never_below_floor() {
    let data = captured(60_000, 100, -60_000);
    let f = fragment_at(&data, 480_000, Vec3::new(0, -500, 0));
    assert_eq!(f.position, Vec3::new(60_000, 0, -60_000));
    let f = fragment_at(&data, 480_000, Vec3::new(-500, 500, 500));
    assert_eq!(f.position, Vec3::new(59_500, 600, -59_500));
}

#[test]
fn generated_fragments_within_offsets() {
    let settings = SimSettings::defaults();
    let data = captured(0, 200, 0);
    let frags = generate_fragments(&data, &settings);
    assert_eq!(frags.len(), 10);
    let e = settings.explosion_vel;
    for f in &frags {
        assert!(f.position.y >= 0);
        let ox = f.position.x;
        let oz = f.position.z - 0;
        assert!(ox.abs() <= OFFSET_MAX && oz.abs() <= OFFSET_MAX);
        assert_eq!(f.velocity.linvel.x, 1000 + e * ox / 1000);
        assert_eq!(f.velocity.linvel.z, 3000 + e * oz / 1000);
        let dvy = f.velocity.linvel.y + 2000;
        assert!(dvy.abs() <= e * OFFSET_MAX / 1000);
        assert_eq!(f.velocity.angvel, Vec3::new(100, 200, 300));
    }
}

#[test]
fn generated_fragments_differ() {
    let mut settings = SimSettings::defaults();
    settings.fragment_count = 50;
    let frags = generate_fragments(&captured(0, 1000, 0), &settings);
    assert_eq!(frags.len(), 50);
    assert!(frags.iter().any(|f| *f != frags[0]));
}

#[test]
fn fragment_field_text() {
    let k = Kinematics {
        position: Vec3::new(1500, -250, 0),
        velocity: Velocity { linvel: Vec3::new(-480_000, 12, 1_000_001), angvel: Vec3::zero() },
    };
    let t = String::from_utf8(fragment_text(&k)).unwrap();
    assert_eq!(t, "XPos:1.5|Ypos:-0.25|Zpos:0|Xvel:-480|Yvel:0.012|Zvel:1000.001");
}

#[test]
fn telemetry_row_text() {
    let k = Kinematics {
        position: Vec3::new(1000, 2000, 3000),
        velocity: Velocity { linvel: Vec3::new(-1, 0, 5), angvel: Vec3::zero() },
    };
    let row = write_fragment_data(16, &vec![k, k]);
    let f = "XPos:1|Ypos:2|Zpos:3|Xvel:-0.001|Yvel:0|Zvel:0.005";
    assert_eq!(String::from_utf8(row).unwrap(), format!("16,{},{}\n", f, f));
}

#[test]
fn telemetry_row_whole_numbers() {
    let k = Kinematics {
        position: Vec3::new(1000, 2000, 3000),
        velocity: Velocity { linvel: Vec3::new(4000, 5000, 6000), angvel: Vec3::zero() },
    };
    let row = write_fragment_data(16, &vec![k]);
    assert_eq!(String::from_utf8(row).unwrap(), "16,XPos:1|Ypos:2|Zpos:3|Xvel:4|Yvel:5|Zvel:6\n");
}

#[test]
fn telemetry_decimals_drop_trailing_zeros() {
    let k = Kinematics {
        position: Vec3::new(1500, -250, 105),
        velocity: Velocity { linvel: Vec3::new(-1010, 120, -5), angvel: Vec3::zero() },
    };
    let t = String::from_utf8(fragment_text(&k)).unwrap();
    assert_eq!(t, "XPos:1.5|Ypos:-0.25|Zpos:0.105|Xvel:-1.01|Yvel:0.12|Zvel:-0.005");
}

#[test]
fn telemetry_row_without_fragments() {
    let row = write_fragment_data(0, &vec![]);
    assert_eq!(row, b"0\n".to_vec());
}

#[test]
fn telemetry_row_has_one_field_per_fragment() {
    let frags: Vec<Kinematics> = (0..10).map(|i| projectile(i * 1000, 0, -i)).collect();
    let fields = telemetry_fields(33, &frags);
    assert_eq!(fields.len(), 11);
    assert_eq!(fields[0], b"33".to_vec());
    let row = String::from_utf8(write_fragment_data(33, &frags)).unwrap();
    assert_eq!(row.matches(',').count(), 10);
    assert_eq!(row.matches('\n').count(), 1);
    assert_eq!(row.trim_end().split(',').count(), 11);
}

#[test]
fn rows_per_fragment_tick() {
    let mut sim = started();
    run_until_detonation(&mut sim);
    let mut rows = 0;
    for _ in 0..25 {
        if sim.tick(16, None).record {
            rows += 1;
        }
    }
    assert_eq!(rows, 25);
}

#[test]
fn projectile_spawn_description() {
    let s = SimSettings::defaults();
    let g = spawn_grenade(&s);
    assert_eq!(g.position, Vec3::new(0, 5000, 0));
    assert_eq!(g.velocity.linvel, Vec3::new(7000, 2000, 7000));
    assert_eq!(g.velocity.angvel, Vec3::new(1000, 2000, 1000));
    assert_eq!(g.friction, 10000);
    assert_eq!(g.restitution, 900);
}

#[test]
fn timer_is_single_shot() {
    let mut t = GrenadeTimer::new(100);
    assert!(!t.tick(60));
    assert!(t.tick(60));
    assert_eq!(t.elapsed, 100);
    assert!(!t.tick(60));
    assert!(t.finished);
}

#[test]
fn room_has_floor_and_four_walls() {
    let walls = spawn_solid_surfaces();
    assert_eq!(walls.len(), 5);
    assert_eq!(walls[0].center, Vec3::new(0, -10_000, 0));
    assert_eq!(walls[0].center.y + walls[0].half_extents.y, 0);
    assert_eq!(walls[3].center, Vec3::new(ROOM_HALF, 0, 0));
}

#[test]
fn quit_key_returns_to_menu() {
    assert_eq!(back_to_main_menu_controls(AppState::LiveSim, true), AppState::MainMenu);
    assert_eq!(back_to_main_menu_controls(AppState::LiveSim, false), AppState::LiveSim);
    assert_eq!(back_to_main_menu_controls(AppState::MainMenu, true), AppState::MainMenu);
}
