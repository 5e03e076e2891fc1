use grenade_sim::config::{config_path, lookup_key, parse_vec3, update_sim_settings, ConfigKey};
use grenade_sim::fixed::{parse_count, parse_fixed, Vec3};
use grenade_sim::settings::SimSettings;
use grenade_sim::text::chars_of;

fn fixed(s: &str) -> Option<i64> {
    let v = chars_of(s);
    parse_fixed(&v, 0, v.len())
}

fn count(s: &str) -> Option<u32> {
    let v = chars_of(s);
    parse_count(&v, 0, v.len())
}

fn assert_defaults(s: &SimSettings) {
    assert_eq!(s.fuse_time, 5000);
    assert_eq!(s.friction, 10000);
    assert_eq!(s.restitution, 900);
    assert_eq!(s.initial_height, 5000);
    assert_eq!(s.fragment_count, 10);
    assert_eq!(s.explosion_vel, 480000);
    assert_eq!(s.csv_location, "data.csv");
    assert_eq!(s.lin_vel, Vec3::new(7000, 2000, 7000));
    assert_eq!(s.ang_vel, Vec3::new(1000, 2000, 1000));
}

#[test]
fn missing_file_gives_defaults() {
    assert_defaults(&update_sim_settings(None));
}

#[test]
fn empty_file_gives_defaults() {
    assert_defaults(&update_sim_settings(Some("")));
}

#[test]
fn invalid_fragment_count_keeps_default() {
    let s = update_sim_settings(Some("fragment_count:abc"));
    assert_eq!(s.fragment_count, 10);
    assert_defaults(&s);
}

#[test]
fn wrong_arity_vector_keeps_default() {
    let s = update_sim_settings(Some("lin_vel:<1,2>"));
    assert_eq!(s.lin_vel, Vec3::new(7000, 2000, 7000));
    assert_defaults(&s);
}

#[test]
fn full_configuration() {
    let text = "fuse_time: 2.5\nFRICTION:0.5\nrestitution:0.25\ninitial_height:12\n\
                fragment_count: 40\nexplosion_vel:100.125\ncsv_location: out/run.csv \n\
                lin_vel:<1, -2.5, 3>\nAng_Vel: <0,0,-1>\n";
    let s = update_sim_settings(Some(text));
    assert_eq!(s.fuse_time, 2500);
    assert_eq!(s.friction, 500);
    assert_eq!(s.restitution, 250);
    assert_eq!(s.initial_height, 12000);
    assert_eq!(s.fragment_count, 40);
    assert_eq!(s.explosion_vel, 100125);
    assert_eq!(s.csv_location, "out/run.csv");
    assert_eq!(s.lin_vel, Vec3::new(1000, -2500, 3000));
    assert_eq!(s.ang_vel, Vec3::new(0, 0, -1000));
}

#[test]
fn exponent_values() {
    let s = update_sim_settings(Some("explosion_vel:4.8e2\nlin_vel:<7e0,2,1e1>\nfuse_time:5e-1"));
    assert_eq!(s.explosion_vel, 480_000);
    assert_eq!(s.lin_vel, Vec3::new(7000, 2000, 10_000));
    assert_eq!(s.fuse_time, 500);
}

#[test]
fn last_valid_assignment_wins() {
    let s = update_sim_settings(Some("fuse_time:3\nfuse_time:x\nfuse_time:4\nfuse_time:-1\n"));
    assert_eq!(s.fuse_time, 4000);
}

#[test]
fn out_of_range_values_are_refused() {
    let s = update_sim_settings(Some("fuse_time:0\nfriction:-1\nrestitution:-0.5\nfragment_count:0"));
    assert_defaults(&s);
}

#[test]
fn unknown_keys_and_lines_without_colon_are_ignored() {
    let s = update_sim_settings(Some("colour:red\njust words\n\r\nfragment_count:7\r\n"));
    assert_eq!(s.fragment_count, 7);
    assert_eq!(s.fuse_time, 5000);
}

#[test]
fn malformed_vector_component_rejects_vector() {
    let s = update_sim_settings(Some("ang_vel:<1,x,3>\nlin_vel:<1,2,3,4>"));
    assert_eq!(s.ang_vel, Vec3::new(1000, 2000, 1000));
    assert_eq!(s.lin_vel, Vec3::new(7000, 2000, 7000));
}

#[test]
fn value_stops_at_second_colon() {
    let s = update_sim_settings(Some("csv_location:C:/data.csv"));
    assert_eq!(s.csv_location, "C");
}

#[test]
fn fixed_point_numbers() {
    assert_eq!(fixed("5"), Some(5000));
    assert_eq!(fixed("-12.5"), Some(-12500));
    assert_eq!(fixed("+0.0015"), Some(1));
    assert_eq!(fixed(".5"), Some(500));
    assert_eq!(fixed("7."), Some(7000));
    assert_eq!(fixed("1000000000000"), Some(1_000_000_000_000_000));
    assert_eq!(fixed("1000000000001"), None);
    assert_eq!(fixed("1e5"), Some(100_000_000));
    assert_eq!(fixed("1.5e3"), Some(1_500_000));
    assert_eq!(fixed("-2.5E+1"), Some(-25_000));
    assert_eq!(fixed("2E-3"), Some(2));
    assert_eq!(fixed("1e-4"), Some(0));
    assert_eq!(fixed("1234.5e-2"), Some(12_345));
    assert_eq!(fixed("1e12"), Some(1_000_000_000_000_000));
    assert_eq!(fixed("1e13"), None);
    assert_eq!(fixed("0e100"), Some(0));
    assert_eq!(fixed("1e101"), None);
    assert_eq!(fixed("1e"), None);
    assert_eq!(fixed("e5"), None);
    assert_eq!(fixed("1e2.5"), None);
    assert_eq!(fixed(""), None);
    assert_eq!(fixed("."), None);
    assert_eq!(fixed("-"), None);
    assert_eq!(fixed("1.2.3"), None);
    assert_eq!(fixed("abc"), None);
}

#[test]
fn counts() {
    assert_eq!(count("10"), Some(10));
    assert_eq!(count("+3"), Some(3));
    assert_eq!(count("4294967295"), Some(u32::MAX));
    assert_eq!(count("4294967296"), None);
    assert_eq!(count("0"), None);
    assert_eq!(count("-1"), None);
    assert_eq!(count("abc"), None);
    assert_eq!(count(""), None);
}

#[test]
fn vectors() {
    let v = chars_of("<1,2,3>");
    assert_eq!(parse_vec3(&v, 0, v.len()), Some(Vec3::new(1000, 2000, 3000)));
    let v = chars_of("4, 5.5 ,6");
    assert_eq!(parse_vec3(&v, 0, v.len()), Some(Vec3::new(4000, 5500, 6000)));
    let v = chars_of("<1e3,-2,3E-1>");
    assert_eq!(parse_vec3(&v, 0, v.len()), Some(Vec3::new(1_000_000, -2000, 300)));
    let v = chars_of("<1,2>");
    assert_eq!(parse_vec3(&v, 0, v.len()), None);
}

#[test]
fn keys_ignore_case() {
    assert_eq!(lookup_key(&chars_of("Fuse_Time")), Some(ConfigKey::FuseTime));
    assert_eq!(lookup_key(&chars_of("LIN_VEL")), Some(ConfigKey::LinVel));
    assert_eq!(lookup_key(&chars_of(" fuse_time")), None);
    assert_eq!(lookup_key(&chars_of("density")), None);
}

#[test]
fn configuration_path_flag() {
    let args = vec!["sim".to_string(), "-c".to_string(), "my.txt".to_string()];
    assert_eq!(config_path(&args), "my.txt");
    let args = vec!["sim".to_string(), "-x".to_string(), "my.txt".to_string()];
    assert_eq!(config_path(&args), "config.txt");
    let args = vec!["sim".to_string()];
    assert_eq!(config_path(&args), "config.txt");
}
