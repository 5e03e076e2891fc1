//! Telemetry rows: one per tick of the fragment phase, the tick's duration
//! in milliseconds followed by one field per fragment.
use vstd::prelude::*;
use crate::fixed::abs;
use crate::grenade::Kinematics;

verus! {

pub open spec fn digit_byte(d: int) -> u8 {
    (d + 48) as u8
}

/// Decimal digits of `n`, most significant first.
pub open spec fn nat_text(n: nat) -> Seq<u8>
    decreases n,
{
    if n < 10 {
        seq![digit_byte(n as int)]
    } else {
        nat_text(n / 10).push(digit_byte((n % 10) as int))
    }
}

/// The decimals of `f` thousandths (`f < 1000`): nothing for none, else a
/// point and the digits without trailing zeros.
pub open spec fn frac_text(f: int) -> Seq<u8> {
    if f == 0 {
        Seq::empty()
    } else if f % 100 == 0 {
        seq![('.' as u8), digit_byte(f / 100)]
    } else if f % 10 == 0 {
        seq![('.' as u8), digit_byte(f / 100), digit_byte((f / 10) % 10)]
    } else {
        seq![('.' as u8), digit_byte(f / 100), digit_byte((f / 10) % 10), digit_byte(f % 10)]
    }
}

/// A fixed-point value written in units as a float prints: `-1.25`, `3`,
/// `0.005`.
pub open spec fn fixed_text(v: int) -> Seq<u8> {
    let m = abs(v);
    let sign = if v < 0 { seq![('-' as u8)] } else { Seq::<u8>::empty() };
    sign + nat_text((m / 1000) as nat) + frac_text(m % 1000)
}

/// The labels of a fragment field, in order.
pub open spec fn label_text(i: int) -> Seq<u8> {
    if i == 0 {
        seq![('X' as u8), ('P' as u8), ('o' as u8), ('s' as u8), (':' as u8)]
    } else if i == 1 {
        seq![('|' as u8), ('Y' as u8), ('p' as u8), ('o' as u8), ('s' as u8), (':' as u8)]
    } else if i == 2 {
        seq![('|' as u8), ('Z' as u8), ('p' as u8), ('o' as u8), ('s' as u8), (':' as u8)]
    } else if i == 3 {
        seq![('|' as u8), ('X' as u8), ('v' as u8), ('e' as u8), ('l' as u8), (':' as u8)]
    } else if i == 4 {
        seq![('|' as u8), ('Y' as u8), ('v' as u8), ('e' as u8), ('l' as u8), (':' as u8)]
    } else {
        seq![('|' as u8), ('Z' as u8), ('v' as u8), ('e' as u8), ('l' as u8), (':' as u8)]
    }
}

/// One fragment's field:
/// `XPos:<x>|Ypos:<y>|Zpos:<z>|Xvel:<vx>|Yvel:<vy>|Zvel:<vz>`.
pub open spec fn fragment_field(k: Kinematics) -> Seq<u8> {
    label_text(0) + fixed_text(k.position.x as int) + label_text(1) + fixed_text(k.position.y as int)
        + label_text(2) + fixed_text(k.position.z as int) + label_text(3) + fixed_text(
        k.velocity.linvel.x as int,
    ) + label_text(4) + fixed_text(k.velocity.linvel.y as int) + label_text(5) + fixed_text(
        k.velocity.linvel.z as int,
    )
}

/// The fields of one row: the tick's milliseconds, then each fragment.
pub open spec fn row_fields(dt_ms: u64, fragments: Seq<Kinematics>) -> Seq<Seq<u8>> {
    seq![nat_text(dt_ms as nat)] + fragments.map_values(|k: Kinematics| fragment_field(k))
}

/// `fs` separated by commas.
pub open spec fn join_fields(fs: Seq<Seq<u8>>) -> Seq<u8>
    decreases fs.len(),
{
    if fs.len() == 0 {
        Seq::empty()
    } else if fs.len() == 1 {
        fs[0]
    } else {
        join_fields(fs.drop_last()) + seq![(',' as u8)] + fs.last()
    }
}

/// One row as it stands in the telemetry file.
pub open spec fn row_text(dt_ms: u64, fragments: Seq<Kinematics>) -> Seq<u8> {
    join_fields(row_fields(dt_ms, fragments)).push(('\n' as u8))
}

/// A byte that a CSV field can hold without quoting.
pub open spec fn plain_byte(b: u8) -> bool {
    b != (',' as u8) && b != ('"' as u8) && b != ('\r' as u8) && b != ('\n' as u8)
}

pub open spec fn plain(s: Seq<u8>) -> bool {
    forall|i: int| 0 <= i < s.len() ==> plain_byte(#[trigger] s[i])
}

pub open spec fn fields_view(fs: Seq<Vec<u8>>) -> Seq<Seq<u8>> {
    fs.map_values(|f: Vec<u8>| f@)
}

/// Relies on csv::Writer::write_record and Writer::into_inner over an
/// in-memory buffer: with the default settings, fields that need no quoting
/// are written as they are, separated by `,`, with `\n` after the last; a
/// record is never empty when its first field is not. Neither call fails
/// here: the first record sets the field count, and writing into a `Vec`
/// cannot fail.
#[verifier::external_body]
fn csv_record(fields: &Vec<Vec<u8>>) -> (r: Option<Vec<u8>>)
    requires
        fields@.len() >= 1,
        fields@[0]@.len() >= 1,
        forall|i: int| 0 <= i < fields@.len() ==> plain(#[trigger] fields@[i]@),
    ensures
        r is Some,
        r matches Some(b) ==> b@ == join_fields(fields_view(fields@)).push(('\n' as u8)),
{
    let mut w = csv::Writer::from_writer(Vec::new());
    match w.write_record(fields) {
        Ok(()) => w.into_inner().ok(),
        Err(_) => None,
    }
}

proof fn lemma_nat_text(n: nat)
    ensures
        plain(nat_text(n)),
        nat_text(n).len() >= 1,
    decreases n,
{
    if n >= 10 {
        lemma_nat_text(n / 10);
    }
}

proof fn lemma_plain_concat(a: Seq<u8>, b: Seq<u8>)
    requires
        plain(a),
        plain(b),
    ensures
        plain(a + b),
{
    assert forall|i: int| 0 <= i < (a + b).len() implies plain_byte(#[trigger] (a + b)[i]) by {
        if i < a.len() {
            assert((a + b)[i] == a[i]);
        } else {
            assert((a + b)[i] == b[i - a.len()]);
        }
    }
}

proof fn lemma_fixed_text(v: int)
    ensures
        plain(fixed_text(v)),
{
    let m = abs(v);
    lemma_nat_text((m / 1000) as nat);
    let sign = if v < 0 { seq![('-' as u8)] } else { Seq::<u8>::empty() };
    let f = m % 1000;
    assert(plain(sign));
    assert(plain(frac_text(f)));
    lemma_plain_concat(sign, nat_text((m / 1000) as nat));
    lemma_plain_concat(sign + nat_text((m / 1000) as nat), frac_text(f));
}

proof fn lemma_fragment_field(k: Kinematics)
    ensures
        plain(fragment_field(k)),
{
    lemma_fixed_text(k.position.x as int);
    lemma_fixed_text(k.position.y as int);
    lemma_fixed_text(k.position.z as int);
    lemma_fixed_text(k.velocity.linvel.x as int);
    lemma_fixed_text(k.velocity.linvel.y as int);
    lemma_fixed_text(k.velocity.linvel.z as int);
    assert forall|j: int| 0 <= j < 6 implies plain(#[trigger] label_text(j)) by {}
    let mut acc = label_text(0);
    let parts = seq![
        fixed_text(k.position.x as int), label_text(1), fixed_text(k.position.y as int),
        label_text(2), fixed_text(k.position.z as int), label_text(3),
        fixed_text(k.velocity.linvel.x as int), label_text(4), fixed_text(k.velocity.linvel.y as int),
        label_text(5), fixed_text(k.velocity.linvel.z as int),
    ];
    lemma_plain_concat(acc, parts[0]);
    acc = acc + parts[0];
    lemma_plain_concat(acc, parts[1]);
    acc = acc + parts[1];
    lemma_plain_concat(acc, parts[2]);
    acc = acc + parts[2];
    lemma_plain_concat(acc, parts[3]);
    acc = acc + parts[3];
    lemma_plain_concat(acc, parts[4]);
    acc = acc + parts[4];
    lemma_plain_concat(acc, parts[5]);
    acc = acc + parts[5];
    lemma_plain_concat(acc, parts[6]);
    acc = acc + parts[6];
    lemma_plain_concat(acc, parts[7]);
    acc = acc + parts[7];
    lemma_plain_concat(acc, parts[8]);
    acc = acc + parts[8];
    lemma_plain_concat(acc, parts[9]);
    acc = acc + parts[9];
    lemma_plain_concat(acc, parts[10]);
    acc = acc + parts[10];
    assert(acc == fragment_field(k));
}

fn push_all(out: &mut Vec<u8>, s: &Vec<u8>)
    ensures
        final(out)@ == old(out)@ + s@,
{
    let mut i: usize = 0;
    while i < s.len()
        invariant
            i <= s@.len(),
            out@ == old(out)@ + s@.take(i as int),
        decreases s@.len() - i,
    {
        out.push(s[i]);
        i = i + 1;
        assert(out@ =~= old(out)@ + s@.take(i as int));
    }
    assert(s@.take(s@.len() as int) =~= s@);
}

/// Appends the decimal digits of `n`.
fn push_nat(out: &mut Vec<u8>, n: u64)
    ensures
        final(out)@ == old(out)@ + nat_text(n as nat),
    decreases n,
{
    if n >= 10 {
        push_nat(out, n / 10);
    }
    out.push(((n % 10) as u8) + 48);
    assert(final(out)@ =~= old(out)@ + nat_text(n as nat));
}

/// Appends `fixed_text(v)`.
fn push_fixed(out: &mut Vec<u8>, v: i64)
    ensures
        final(out)@ == old(out)@ + fixed_text(v as int),
{
    let m: u64 = if v < 0 {
        ((-(v + 1)) as u64) + 1
    } else {
        v as u64
    };
    assert(m == abs(v as int));
    if v < 0 {
        out.push(('-' as u8));
    }
    push_nat(out, m / 1000);
    let f = m % 1000;
    if f != 0 {
        out.push(('.' as u8));
        out.push(((f / 100) as u8) + 48);
        if f % 100 != 0 {
            out.push((((f / 10) % 10) as u8) + 48);
            if f % 10 != 0 {
                out.push(((f % 10) as u8) + 48);
            }
        }
    }
    assert(final(out)@ =~= old(out)@ + fixed_text(v as int));
}

fn label(i: u8) -> (r: Vec<u8>)
    requires
        i < 6,
    ensures
        r@ == label_text(i as int),
{
    if i == 0 {
        vec![('X' as u8), ('P' as u8), ('o' as u8), ('s' as u8), (':' as u8)]
    } else if i == 1 {
        vec![('|' as u8), ('Y' as u8), ('p' as u8), ('o' as u8), ('s' as u8), (':' as u8)]
    } else if i == 2 {
        vec![('|' as u8), ('Z' as u8), ('p' as u8), ('o' as u8), ('s' as u8), (':' as u8)]
    } else if i == 3 {
        vec![('|' as u8), ('X' as u8), ('v' as u8), ('e' as u8), ('l' as u8), (':' as u8)]
    } else if i == 4 {
        vec![('|' as u8), ('Y' as u8), ('v' as u8), ('e' as u8), ('l' as u8), (':' as u8)]
    } else {
        vec![('|' as u8), ('Z' as u8), ('v' as u8), ('e' as u8), ('l' as u8), (':' as u8)]
    }
}

/// The field of one fragment (see `fragment_field`).
pub fn fragment_text(k: &Kinematics) -> (r: Vec<u8>)
    ensures
        r@ == fragment_field(*k),
{
    let mut out: Vec<u8> = Vec::new();
    push_all(&mut out, &label(0));
    push_fixed(&mut out, k.position.x);
    push_all(&mut out, &label(1));
    push_fixed(&mut out, k.position.y);
    push_all(&mut out, &label(2));
    push_fixed(&mut out, k.position.z);
    push_all(&mut out, &label(3));
    push_fixed(&mut out, k.velocity.linvel.x);
    push_all(&mut out, &label(4));
    push_fixed(&mut out, k.velocity.linvel.y);
    push_all(&mut out, &label(5));
    push_fixed(&mut out, k.velocity.linvel.z);
    assert(out@ =~= fragment_field(*k));
    out
}

proof fn lemma_fields_view_push(fs: Seq<Vec<u8>>, f: Vec<u8>)
    ensures
        fields_view(fs.push(f)) == fields_view(fs).push(f@),
{
    assert(fields_view(fs.push(f)) =~= fields_view(fs).push(f@));
}

proof fn lemma_row_fields_step(dt_ms: u64, fragments: Seq<Kinematics>, i: int)
    requires
        0 <= i < fragments.len(),
    ensures
        row_fields(dt_ms, fragments.take(i + 1)) == row_fields(dt_ms, fragments.take(i)).push(
            fragment_field(fragments[i]),
        ),
{
    let a = fragments.take(i + 1).map_values(|k: Kinematics| fragment_field(k));
    let b = fragments.take(i).map_values(|k: Kinematics| fragment_field(k));
    assert(a =~= b.push(fragment_field(fragments[i])));
    assert(row_fields(dt_ms, fragments.take(i + 1)) =~= row_fields(dt_ms, fragments.take(i)).push(
        fragment_field(fragments[i]),
    ));
}

/// The fields of one row (see `row_fields`).
pub fn telemetry_fields(dt_ms: u64, fragments: &Vec<Kinematics>) -> (r: Vec<Vec<u8>>)
    ensures
        fields_view(r@) == row_fields(dt_ms, fragments@),
{
    let mut first: Vec<u8> = Vec::new();
    push_nat(&mut first, dt_ms);
    let mut r: Vec<Vec<u8>> = vec![first];
    let mut i: usize = 0;
    while i < fragments.len()
        invariant
            i <= fragments@.len(),
            fields_view(r@) == row_fields(dt_ms, fragments@.take(i as int)),
        decreases fragments@.len() - i,
    {
        let f = fragment_text(&fragments[i]);
        let ghost before = r@;
        r.push(f);
        proof {
            lemma_fields_view_push(before, f);
            lemma_row_fields_step(dt_ms, fragments@, i as int);
        }
        i = i + 1;
    }
    assert(fragments@.take(fragments@.len() as int) =~= fragments@);
    r
}

/// Every field of a row can stand unquoted, and the first is not empty.
pub proof fn lemma_row_fields_plain(dt_ms: u64, fragments: Seq<Kinematics>)
    ensures
        row_fields(dt_ms, fragments).len() == fragments.len() + 1,
        row_fields(dt_ms, fragments)[0].len() >= 1,
        forall|i: int| 0 <= i < row_fields(dt_ms, fragments).len() ==> plain(#[trigger] row_fields(dt_ms, fragments)[i]),
{
    lemma_nat_text(dt_ms as nat);
    assert forall|i: int| 0 <= i < row_fields(dt_ms, fragments).len() implies plain(#[trigger] row_fields(dt_ms, fragments)[i]) by {
        if i > 0 {
            lemma_fragment_field(fragments[i - 1]);
        }
    }
}

/// The telemetry row of one tick: `dt_ms`, then the position and velocity
/// of each fragment, as one CSV record.
pub fn write_fragment_data(dt_ms: u64, fragments: &Vec<Kinematics>) -> (r: Vec<u8>)
    ensures
        r@ == row_text(dt_ms, fragments@),
{
    let fields = telemetry_fields(dt_ms, fragments);
    proof {
        lemma_row_fields_plain(dt_ms, fragments@);
        assert forall|i: int| 0 <= i < fields@.len() implies plain(#[trigger] fields@[i]@) by {
            assert(fields_view(fields@)[i] == fields@[i]@);
        }
        assert(fields_view(fields@)[0] == fields@[0]@);
    }
    match csv_record(&fields) {
        Some(row) => row,
        None => Vec::new(),
    }
}

/// How many times `b` occurs in `s`.
pub open spec fn count_byte(s: Seq<u8>, b: u8) -> nat
    decreases s.len(),
{
    if s.len() == 0 {
        0
    } else {
        count_byte(s.drop_last(), b) + (if s.last() == b { 1nat } else { 0nat })
    }
}

proof fn lemma_count_concat(a: Seq<u8>, b: Seq<u8>, x: u8)
    ensures
        count_byte(a + b, x) == count_byte(a, x) + count_byte(b, x),
    decreases b.len(),
{
    if b.len() == 0 {
        assert(a + b =~= a);
    } else {
        lemma_count_concat(a, b.drop_last(), x);
        assert((a + b).drop_last() =~= a + b.drop_last());
    }
}

proof fn lemma_count_plain(s: Seq<u8>, x: u8)
    requires
        plain(s),
        !plain_byte(x),
    ensures
        count_byte(s, x) == 0,
    decreases s.len(),
{
    if s.len() > 0 {
        assert(plain_byte(s[s.len() - 1]));
        lemma_count_plain(s.drop_last(), x);
    }
}

proof fn lemma_join_count(fs: Seq<Seq<u8>>)
    requires
        fs.len() >= 1,
        forall|i: int| 0 <= i < fs.len() ==> plain(#[trigger] fs[i]),
    ensures
        count_byte(join_fields(fs), (',' as u8)) == fs.len() - 1,
        count_byte(join_fields(fs), ('\n' as u8)) == 0,
    decreases fs.len(),
{
    if fs.len() == 1 {
        lemma_count_plain(fs[0], (',' as u8));
        lemma_count_plain(fs[0], ('\n' as u8));
    } else {
        let init = fs.drop_last();
        assert forall|i: int| 0 <= i < init.len() implies plain(#[trigger] init[i]) by {
            assert(init[i] == fs[i]);
        }
        lemma_join_count(init);
        let comma = seq![(',' as u8)];
        assert(plain(fs[fs.len() - 1]));
        lemma_count_plain(fs.last(), (',' as u8));
        lemma_count_plain(fs.last(), ('\n' as u8));
        lemma_count_concat(join_fields(init), comma, (',' as u8));
        lemma_count_concat(join_fields(init), comma, ('\n' as u8));
        lemma_count_concat(join_fields(init) + comma, fs.last(), (',' as u8));
        lemma_count_concat(join_fields(init) + comma, fs.last(), ('\n' as u8));
        assert(comma.drop_last() =~= Seq::<u8>::empty());
        assert(count_byte(Seq::<u8>::empty(), (',' as u8)) == 0);
        assert(count_byte(Seq::<u8>::empty(), ('\n' as u8)) == 0);
        assert(count_byte(comma, (',' as u8)) == 1);
        assert(count_byte(comma, ('\n' as u8)) == 0);
    }
}

/// A row holds one field for the tick's duration and one per fragment: as
/// many commas as fragments, no field with a comma, quote or line break in
/// it, and a single line end, at its close.
pub proof fn lemma_row_field_count(dt_ms: u64, fragments: Seq<Kinematics>)
    ensures
        count_byte(row_text(dt_ms, fragments), (',' as u8)) == fragments.len(),
        count_byte(row_text(dt_ms, fragments), ('\n' as u8)) == 1,
        row_text(dt_ms, fragments).last() == ('\n' as u8),
        forall|i: int| 0 <= i < row_fields(dt_ms, fragments).len() ==> plain(#[trigger] row_fields(dt_ms, fragments)[i]),
{
    lemma_row_fields_plain(dt_ms, fragments);
    let j = join_fields(row_fields(dt_ms, fragments));
    lemma_join_count(row_fields(dt_ms, fragments));
    assert(row_text(dt_ms, fragments).drop_last() =~= j);
}

} // verus!
