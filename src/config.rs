//! Reading a configuration text of `key:value` lines into `SimSettings`.
use vstd::prelude::*;
use crate::fixed::{parse_count, parse_count_spec, parse_fixed, parse_fixed_spec, Vec3};
use crate::settings::{default_view, SettingsView, SimSettings};
use crate::text::{ascii_lower, chars_of, copy_range, eq_ignore_case, find_char, index_of, lemma_index_of_bounds, trim, trim_bounds};

verus! {

/// The keys that a configuration line may set.
#[derive(Clone, Copy, Debug, PartialEq, Eq, Structural)]
pub enum ConfigKey {
    FuseTime,
    Friction,
    Restitution,
    InitialHeight,
    FragmentCount,
    ExplosionVel,
    CsvLocation,
    LinVel,
    AngVel,
}

pub open spec fn key_name(k: ConfigKey) -> Seq<char> {
    match k {
        ConfigKey::FuseTime => seq!['f', 'u', 's', 'e', '_', 't', 'i', 'm', 'e'],
        ConfigKey::Friction => seq!['f', 'r', 'i', 'c', 't', 'i', 'o', 'n'],
        ConfigKey::Restitution => seq!['r', 'e', 's', 't', 'i', 't', 'u', 't', 'i', 'o', 'n'],
        ConfigKey::InitialHeight => seq!['i', 'n', 'i', 't', 'i', 'a', 'l', '_', 'h', 'e', 'i', 'g', 'h', 't'],
        ConfigKey::FragmentCount => seq!['f', 'r', 'a', 'g', 'm', 'e', 'n', 't', '_', 'c', 'o', 'u', 'n', 't'],
        ConfigKey::ExplosionVel => seq!['e', 'x', 'p', 'l', 'o', 's', 'i', 'o', 'n', '_', 'v', 'e', 'l'],
        ConfigKey::CsvLocation => seq!['c', 's', 'v', '_', 'l', 'o', 'c', 'a', 't', 'i', 'o', 'n'],
        ConfigKey::LinVel => seq!['l', 'i', 'n', '_', 'v', 'e', 'l'],
        ConfigKey::AngVel => seq!['a', 'n', 'g', '_', 'v', 'e', 'l'],
    }
}

/// The key that `key` names, ignoring ASCII case.
pub open spec fn key_of(key: Seq<char>) -> Option<ConfigKey> {
    let l = ascii_lower(key);
    if l == key_name(ConfigKey::FuseTime) {
        Some(ConfigKey::FuseTime)
    } else if l == key_name(ConfigKey::Friction) {
        Some(ConfigKey::Friction)
    } else if l == key_name(ConfigKey::Restitution) {
        Some(ConfigKey::Restitution)
    } else if l == key_name(ConfigKey::InitialHeight) {
        Some(ConfigKey::InitialHeight)
    } else if l == key_name(ConfigKey::FragmentCount) {
        Some(ConfigKey::FragmentCount)
    } else if l == key_name(ConfigKey::ExplosionVel) {
        Some(ConfigKey::ExplosionVel)
    } else if l == key_name(ConfigKey::CsvLocation) {
        Some(ConfigKey::CsvLocation)
    } else if l == key_name(ConfigKey::LinVel) {
        Some(ConfigKey::LinVel)
    } else if l == key_name(ConfigKey::AngVel) {
        Some(ConfigKey::AngVel)
    } else {
        None
    }
}

/// `s` without any `<` or `>`.
pub open spec fn strip_brackets(s: Seq<char>) -> Seq<char>
    decreases s.len(),
{
    if s.len() == 0 {
        s
    } else if s.last() == '<' || s.last() == '>' {
        strip_brackets(s.drop_last())
    } else {
        strip_brackets(s.drop_last()).push(s.last())
    }
}

/// A vector written `<x,y,z>`: brackets anywhere are ignored, and there must
/// be exactly three comma-separated numbers.
pub open spec fn parse_vec3_spec(value: Seq<char>) -> Option<Vec3> {
    let t = strip_brackets(value);
    let i = index_of(t, ',');
    let rest = t.skip(i + 1);
    let j = index_of(rest, ',');
    let third = rest.skip(j + 1);
    if i < 0 || j < 0 || index_of(third, ',') >= 0 {
        None
    } else {
        match (
            parse_fixed_spec(trim(t.take(i))),
            parse_fixed_spec(trim(rest.take(j))),
            parse_fixed_spec(trim(third)),
        ) {
            (Some(x), Some(y), Some(z)) => Some(Vec3 { x: x as i64, y: y as i64, z: z as i64 }),
            _ => None,
        }
    }
}

/// The text after the first `:` of a line, up to the next `:`, trimmed.
pub open spec fn line_value(line: Seq<char>) -> Seq<char> {
    let rest = line.skip(index_of(line, ':') + 1);
    let e = index_of(rest, ':');
    trim(if e < 0 { rest } else { rest.take(e) })
}

/// The settings after one line. A line without `:`, with an unknown key, or
/// with a value that is malformed or out of its field's range leaves every
/// field as it was.
pub open spec fn apply_line(st: SettingsView, line: Seq<char>) -> SettingsView {
    let c = index_of(line, ':');
    let v = line_value(line);
    if c < 0 {
        st
    } else {
        match key_of(line.take(c)) {
            Some(ConfigKey::FuseTime) => match parse_fixed_spec(v) {
                Some(x) => if x > 0 { SettingsView { fuse_time: x as i64, ..st } } else { st },
                None => st,
            },
            Some(ConfigKey::Friction) => match parse_fixed_spec(v) {
                Some(x) => if x >= 0 { SettingsView { friction: x as i64, ..st } } else { st },
                None => st,
            },
            Some(ConfigKey::Restitution) => match parse_fixed_spec(v) {
                Some(x) => if x >= 0 { SettingsView { restitution: x as i64, ..st } } else { st },
                None => st,
            },
            Some(ConfigKey::InitialHeight) => match parse_fixed_spec(v) {
                Some(x) => SettingsView { initial_height: x as i64, ..st },
                None => st,
            },
            Some(ConfigKey::FragmentCount) => match parse_count_spec(v) {
                Some(n) => SettingsView { fragment_count: n as u32, ..st },
                None => st,
            },
            Some(ConfigKey::ExplosionVel) => match parse_fixed_spec(v) {
                Some(x) => SettingsView { explosion_vel: x as i64, ..st },
                None => st,
            },
            Some(ConfigKey::CsvLocation) => SettingsView { csv_location: v, ..st },
            Some(ConfigKey::LinVel) => match parse_vec3_spec(v) {
                Some(w) => SettingsView { lin_vel: w, ..st },
                None => st,
            },
            Some(ConfigKey::AngVel) => match parse_vec3_spec(v) {
                Some(w) => SettingsView { ang_vel: w, ..st },
                None => st,
            },
            None => st,
        }
    }
}

/// The settings after every line of `text`, in order; lines end at `\n`.
pub open spec fn apply_text(st: SettingsView, text: Seq<char>) -> SettingsView
    decreases text.len(),
    via apply_text_decreases
{
    let i = index_of(text, '\n');
    if i < 0 {
        apply_line(st, text)
    } else {
        apply_text(apply_line(st, text.take(i)), text.skip(i + 1))
    }
}

#[via_fn]
proof fn apply_text_decreases(st: SettingsView, text: Seq<char>) {
    lemma_index_of_bounds(text, '\n');
}

/// The settings of a run: the built-in ones where no configuration could be
/// read, else those after every line of it.
pub open spec fn settings_spec(contents: Option<Seq<char>>) -> SettingsView {
    match contents {
        Some(t) => apply_text(default_view(), t),
        None => default_view(),
    }
}

fn key_word(k: ConfigKey) -> (r: Vec<char>)
    ensures
        r@ == key_name(k),
{
    match k {
        ConfigKey::FuseTime => vec!['f', 'u', 's', 'e', '_', 't', 'i', 'm', 'e'],
        ConfigKey::Friction => vec!['f', 'r', 'i', 'c', 't', 'i', 'o', 'n'],
        ConfigKey::Restitution => vec!['r', 'e', 's', 't', 'i', 't', 'u', 't', 'i', 'o', 'n'],
        ConfigKey::InitialHeight => vec!['i', 'n', 'i', 't', 'i', 'a', 'l', '_', 'h', 'e', 'i', 'g', 'h', 't'],
        ConfigKey::FragmentCount => vec!['f', 'r', 'a', 'g', 'm', 'e', 'n', 't', '_', 'c', 'o', 'u', 'n', 't'],
        ConfigKey::ExplosionVel => vec!['e', 'x', 'p', 'l', 'o', 's', 'i', 'o', 'n', '_', 'v', 'e', 'l'],
        ConfigKey::CsvLocation => vec!['c', 's', 'v', '_', 'l', 'o', 'c', 'a', 't', 'i', 'o', 'n'],
        ConfigKey::LinVel => vec!['l', 'i', 'n', '_', 'v', 'e', 'l'],
        ConfigKey::AngVel => vec!['a', 'n', 'g', '_', 'v', 'e', 'l'],
    }
}

/// The key that `key` names (see `key_of`).
pub fn lookup_key(key: &Vec<char>) -> (r: Option<ConfigKey>)
    ensures
        r == key_of(key@),
{
    if eq_ignore_case(key, &key_word(ConfigKey::FuseTime)) {
        Some(ConfigKey::FuseTime)
    } else if eq_ignore_case(key, &key_word(ConfigKey::Friction)) {
        Some(ConfigKey::Friction)
    } else if eq_ignore_case(key, &key_word(ConfigKey::Restitution)) {
        Some(ConfigKey::Restitution)
    } else if eq_ignore_case(key, &key_word(ConfigKey::InitialHeight)) {
        Some(ConfigKey::InitialHeight)
    } else if eq_ignore_case(key, &key_word(ConfigKey::FragmentCount)) {
        Some(ConfigKey::FragmentCount)
    } else if eq_ignore_case(key, &key_word(ConfigKey::ExplosionVel)) {
        Some(ConfigKey::ExplosionVel)
    } else if eq_ignore_case(key, &key_word(ConfigKey::CsvLocation)) {
        Some(ConfigKey::CsvLocation)
    } else if eq_ignore_case(key, &key_word(ConfigKey::LinVel)) {
        Some(ConfigKey::LinVel)
    } else if eq_ignore_case(key, &key_word(ConfigKey::AngVel)) {
        Some(ConfigKey::AngVel)
    } else {
        None
    }
}

fn strip_brackets_range(v: &Vec<char>, from: usize, to: usize) -> (r: Vec<char>)
    requires
        from <= to <= v@.len(),
    ensures
        r@ == strip_brackets(v@.subrange(from as int, to as int)),
{
    let mut r: Vec<char> = Vec::new();
    let mut i: usize = from;
    while i < to
        invariant
            from <= i <= to <= v@.len(),
            r@ == strip_brackets(v@.subrange(from as int, i as int)),
        decreases to - i,
    {
        let c = v[i];
        proof {
            assert(v@.subrange(from as int, i + 1).drop_last() =~= v@.subrange(from as int, i as int));
        }
        if c != '<' && c != '>' {
            r.push(c);
        }
        i = i + 1;
    }
    r
}

/// Reads `v[from..to]` as a vector (see `parse_vec3_spec`).
pub fn parse_vec3(v: &Vec<char>, from: usize, to: usize) -> (r: Option<Vec3>)
    requires
        from <= to <= v@.len(),
    ensures
        r == parse_vec3_spec(v@.subrange(from as int, to as int)),
{
    let t = strip_brackets_range(v, from, to);
    let n = t.len();
    let i = match find_char(&t, 0, n, ',') {
        Some(i) => i,
        None => {
            assert(t@.subrange(0, n as int) =~= t@);
            return None;
        },
    };
    let j = match find_char(&t, i + 1, n, ',') {
        Some(j) => j,
        None => {
            assert(t@.subrange(0, n as int) =~= t@);
            assert(t@.subrange(i + 1, n as int) =~= t@.skip(i + 1));
            return None;
        },
    };
    let ghost rest = t@.skip(i + 1);
    proof {
        assert(t@.subrange(0, n as int) =~= t@);
        assert(t@.subrange(i + 1, n as int) =~= rest);
        assert(t@.subrange(j + 1, n as int) =~= rest.skip(j - i));
        assert(t@.subrange(0, i as int) =~= t@.take(i as int));
        assert(t@.subrange(i + 1, j as int) =~= rest.take(j - i - 1));
    }
    if find_char(&t, j + 1, n, ',').is_some() {
        return None;
    }
    let (a0, a1) = trim_bounds(&t, 0, i);
    let (b0, b1) = trim_bounds(&t, i + 1, j);
    let (c0, c1) = trim_bounds(&t, j + 1, n);
    let x = parse_fixed(&t, a0, a1);
    let y = parse_fixed(&t, b0, b1);
    let z = parse_fixed(&t, c0, c1);
    match (x, y, z) {
        (Some(x), Some(y), Some(z)) => Some(Vec3 { x, y, z }),
        _ => None,
    }
}

/// Applies the line `text[from..to]` to `st` (see `apply_line`).
pub fn apply_config_line(st: &mut SimSettings, text: &str, v: &Vec<char>, from: usize, to: usize)
    requires
        v@ == text@,
        from <= to <= v@.len(),
    ensures
        final(st)@ == apply_line(old(st)@, v@.subrange(from as int, to as int)),
{
    let ghost line = v@.subrange(from as int, to as int);
    let c = match find_char(v, from, to, ':') {
        Some(c) => c,
        None => return,
    };
    let e = match find_char(v, c + 1, to, ':') {
        Some(e) => e,
        None => to,
    };
    let (a, b) = trim_bounds(v, c + 1, e);
    proof {
        let rest = line.skip(c - from + 1);
        assert(v@.subrange(c + 1, to as int) =~= rest);
        if index_of(rest, ':') >= 0 {
            assert(v@.subrange(c + 1, e as int) =~= rest.take(index_of(rest, ':')));
        }
        assert(v@.subrange(a as int, b as int) == line_value(line));
        assert(v@.subrange(from as int, c as int) =~= line.take(c - from));
    }
    let key = copy_range(v, from, c);
    match lookup_key(&key) {
        Some(ConfigKey::FuseTime) => {
            if let Some(x) = parse_fixed(v, a, b) {
                if x > 0 {
                    st.fuse_time = x;
                }
            }
        },
        Some(ConfigKey::Friction) => {
            if let Some(x) = parse_fixed(v, a, b) {
                if x >= 0 {
                    st.friction = x;
                }
            }
        },
        Some(ConfigKey::Restitution) => {
            if let Some(x) = parse_fixed(v, a, b) {
                if x >= 0 {
                    st.restitution = x;
                }
            }
        },
        Some(ConfigKey::InitialHeight) => {
            if let Some(x) = parse_fixed(v, a, b) {
                st.initial_height = x;
            }
        },
        Some(ConfigKey::FragmentCount) => {
            if let Some(n) = parse_count(v, a, b) {
                st.fragment_count = n;
            }
        },
        Some(ConfigKey::ExplosionVel) => {
            if let Some(x) = parse_fixed(v, a, b) {
                st.explosion_vel = x;
            }
        },
        Some(ConfigKey::CsvLocation) => {
            st.csv_location = text.substring_char(a, b).to_owned();
        },
        Some(ConfigKey::LinVel) => {
            if let Some(w) = parse_vec3(v, a, b) {
                st.lin_vel = w;
            }
        },
        Some(ConfigKey::AngVel) => {
            if let Some(w) = parse_vec3(v, a, b) {
                st.ang_vel = w;
            }
        },
        None => {},
    }
}

/// Every line keeps a usable configuration usable.
pub proof fn lemma_apply_line_wf(st: SettingsView, line: Seq<char>)
    requires
        st.wf(),
    ensures
        apply_line(st, line).wf(),
{
}

/// A whole text keeps a usable configuration usable.
pub proof fn lemma_apply_text_wf(st: SettingsView, text: Seq<char>)
    requires
        st.wf(),
    ensures
        apply_text(st, text).wf(),
    decreases text.len(),
{
    lemma_index_of_bounds(text, '\n');
    let i = index_of(text, '\n');
    lemma_apply_line_wf(st, text);
    if i >= 0 {
        lemma_apply_line_wf(st, text.take(i));
        lemma_apply_text_wf(apply_line(st, text.take(i)), text.skip(i + 1));
    }
}

/// The settings of a run from the configuration text, or `None` where none
/// could be read: the built-in settings, then each line in order.
pub fn update_sim_settings(contents: Option<&str>) -> (r: SimSettings)
    ensures
        r@ == settings_spec(
            match contents {
                Some(t) => Some(t@),
                None => None,
            },
        ),
        r@.wf(),
{
    let mut st = SimSettings::defaults();
    if contents.is_none() {
        return st;
    }
    let text = contents.unwrap();
    let v = chars_of(text);
    let n = v.len();
    let mut start: usize = 0;
    proof {
        assert(v@.skip(0) =~= v@);
        lemma_apply_text_wf(default_view(), v@);
    }
    loop
        invariant
            contents == Some(text),
            v@ == text@,
            n == v@.len(),
            start <= n,
            st@.wf(),
            apply_text(st@, v@.skip(start as int)) == apply_text(default_view(), v@),
        decreases n - start,
    {
        let ghost rest = v@.skip(start as int);
        let ghost before = st@;
        match find_char(&v, start, n, '\n') {
            Some(e) => {
                proof {
                    assert(v@.subrange(start as int, n as int) =~= rest);
                    assert(v@.subrange(start as int, e as int) =~= rest.take(e - start));
                    assert(v@.skip(e + 1) =~= rest.skip(e - start + 1));
                    lemma_apply_line_wf(before, rest.take(e - start));
                }
                apply_config_line(&mut st, text, &v, start, e);
                start = e + 1;
            },
            None => {
                proof {
                    assert(v@.subrange(start as int, n as int) =~= rest);
                    assert(apply_text(before, rest) == apply_line(before, rest));
                    lemma_apply_line_wf(before, rest);
                }
                apply_config_line(&mut st, text, &v, start, n);
                return st;
            },
        }
    }
}

/// The configuration path: the argument after a leading `-c` flag, else
/// `config.txt`. `args` holds the program name first.
pub fn config_path(args: &Vec<String>) -> (r: String)
    ensures
        r@ == (if args@.len() >= 3 && args@[1]@ == seq!['-', 'c'] {
            args@[2]@
        } else {
            "config.txt"@
        }),
{
    if args.len() >= 3 {
        let flag = chars_of(args[1].as_str());
        if flag.len() == 2 && flag[0] == '-' && flag[1] == 'c' {
            assert(flag@ =~= seq!['-', 'c']);
            return args[2].clone();
        }
        assert(flag@ != seq!['-', 'c']);
    }
    String::from_str("config.txt")
}

} // verus!
