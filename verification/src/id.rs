//! # Naming a scan
//!
//! A name a person can read aloud, write down, and type back. Crockford base32,
//! which is the alphabet the engine names a journal in, so the two read alike.
//!
//! The name is a millisecond and a counter, most significant first, so names
//! sort into the order the scans started. That ordering is worth more than
//! unguessability here: a name is not a capability.

use vstd::prelude::*;

use crate::text::push_char;

verus! {

/// How many names one millisecond can hold before the counter wraps into it.
pub const PER_MILLISECOND: u64 = 65536;

/// How many characters every name has.
pub const NAME_WIDTH: usize = 13;

/// The byte Crockford base32 writes digit `d` as: `0`-`9`, then the letters
/// without `I`, `L`, `O` and `U`, so nothing reads as a digit and nothing spells
/// anything.
pub open spec fn crockford(d: int) -> u8 {
    if d < 10 {
        (48 + d) as u8
    } else if d < 18 {
        (65 + (d - 10)) as u8
    } else if d < 20 {
        (74 + (d - 18)) as u8
    } else if d < 22 {
        (77 + (d - 20)) as u8
    } else if d < 27 {
        (80 + (d - 22)) as u8
    } else {
        (86 + (d - 27)) as u8
    }
}

/// The digits of `value`, `width` of them, most significant first.
pub open spec fn name_bytes(value: nat, width: nat) -> Seq<u8>
    decreases width,
{
    if width == 0 {
        Seq::empty()
    } else {
        name_bytes(value / 32, (width - 1) as nat).push(crockford((value % 32) as int))
    }
}

/// The name of `value`: its thirteen digits, as characters.
pub open spec fn name_chars(value: nat) -> Seq<char> {
    name_bytes(value, 13).map_values(|b: u8| b as char)
}

/// What a number is named after: the millisecond in the high bits and the
/// counter, taken modulo [`PER_MILLISECOND`], in the low ones, wrapping as
/// unsigned arithmetic wraps.
pub open spec fn name_value(millis: u64, counter: u64) -> u64 {
    vstd::wrapping::u64_specs::wrapping_add(
        vstd::wrapping::u64_specs::wrapping_mul(millis, 65536),
        counter % 65536,
    )
}

/// `a` sorts strictly before `b`, byte by byte, as strings compare.
pub open spec fn sorts_before(a: Seq<u8>, b: Seq<u8>) -> bool {
    ||| exists|i: int|
        0 <= i < a.len() && i < b.len() && a.take(i) == b.take(i) && a[i] < b[i]
    ||| a.len() < b.len() && a == b.take(a.len() as int)
}

/// The byte digit `d` is written as.
pub fn digit(d: u64) -> (r: u8)
    requires
        d < 32,
    ensures
        r == crockford(d as int),
{
    if d < 10 {
        (48 + d) as u8
    } else if d < 18 {
        (65 + (d - 10)) as u8
    } else if d < 20 {
        (74 + (d - 18)) as u8
    } else if d < 22 {
        (77 + (d - 20)) as u8
    } else if d < 27 {
        (80 + (d - 22)) as u8
    } else {
        (86 + (d - 27)) as u8
    }
}

/// The last `width` digits of `value`, most significant first.
fn digits(value: u64, width: usize) -> (r: String)
    ensures
        r@ == name_bytes(value as nat, width as nat).map_values(|b: u8| b as char),
    decreases width,
{
    if width == 0 {
        let out = String::new();
        assert(out@ =~= name_bytes(value as nat, 0).map_values(|b: u8| b as char));
        out
    } else {
        let mut out = digits(value / 32, width - 1);
        let d = digit(value % 32);
        push_char(&mut out, d as char);
        proof {
            let before = name_bytes((value / 32) as nat, (width - 1) as nat);
            assert(name_bytes(value as nat, width as nat) == before.push(d));
            assert(before.push(d).map_values(|b: u8| b as char) =~= before.map_values(
                |b: u8| b as char,
            ).push(d as char));
        }
        out
    }
}

/// Thirteen characters, most significant first, zero padded so every name is
/// the same width and they sort as the numbers they are.
pub fn encode(value: u64) -> (r: String)
    ensures
        r@ == name_chars(value as nat),
{
    digits(value, NAME_WIDTH)
}

/// Every name is as wide as it was asked to be.
pub proof fn lemma_name_width(value: nat, width: nat)
    ensures
        name_bytes(value, width).len() == width,
    decreases width,
{
    if width > 0 {
        lemma_name_width(value / 32, (width - 1) as nat);
    }
}

/// Every character of a name is one of the alphabet's.
pub proof fn lemma_name_alphabet(value: nat, width: nat)
    ensures
        forall|i: int|
            0 <= i < name_bytes(value, width).len() ==> exists|d: int|
                0 <= d < 32 && #[trigger] name_bytes(value, width)[i] == crockford(d),
    decreases width,
{
    if width > 0 {
        lemma_name_alphabet(value / 32, (width - 1) as nat);
        let before = name_bytes(value / 32, (width - 1) as nat);
        let d = (value % 32) as int;
        assert forall|i: int| 0 <= i < name_bytes(value, width).len() implies exists|e: int|
            0 <= e < 32 && #[trigger] name_bytes(value, width)[i] == crockford(e) by {
            if i < before.len() {
                assert(name_bytes(value, width)[i] == before[i]);
            } else {
                assert(name_bytes(value, width)[i] == crockford(d));
            }
        }
    }
}

/// A smaller number gets a name that sorts first, as long as both fit the
/// width.
pub proof fn lemma_names_sort_as_numbers(x: nat, y: nat, width: nat)
    requires
        x < y,
        y < vstd::arithmetic::power::pow(32, width),
    ensures
        sorts_before(name_bytes(x, width), name_bytes(y, width)),
    decreases width,
{
    vstd::arithmetic::power::lemma_pow_positive(32, width);
    if width == 0 {
        assert(vstd::arithmetic::power::pow(32, 0) == 1) by {
            vstd::arithmetic::power::lemma_pow0(32);
        }
    } else {
        let w = (width - 1) as nat;
        lemma_name_width(x / 32, w);
        lemma_name_width(y / 32, w);
        let px = name_bytes(x / 32, w);
        let py = name_bytes(y / 32, w);
        let dx = crockford((x % 32) as int);
        let dy = crockford((y % 32) as int);
        assert(name_bytes(x, width) == px.push(dx));
        assert(name_bytes(y, width) == py.push(dy));
        assert(vstd::arithmetic::power::pow(32, width) == 32 * vstd::arithmetic::power::pow(
            32,
            w,
        )) by {
            vstd::arithmetic::power::lemma_pow_adds(32, 1, w);
            vstd::arithmetic::power::lemma_pow1(32);
        }
        assert(x / 32 <= y / 32) by (nonlinear_arith)
            requires
                x < y,
        ;
        assert(y / 32 < vstd::arithmetic::power::pow(32, w)) by (nonlinear_arith)
            requires
                y < 32 * vstd::arithmetic::power::pow(32, w),
        ;
        if x / 32 < y / 32 {
            lemma_names_sort_as_numbers(x / 32, y / 32, w);
            let i = choose|i: int|
                0 <= i < px.len() && i < py.len() && px.take(i) == py.take(i) && px[i] < py[i];
            assert(px.push(dx).take(i) =~= px.take(i));
            assert(py.push(dy).take(i) =~= py.take(i));
            assert(px.push(dx)[i] == px[i]);
            assert(py.push(dy)[i] == py[i]);
        } else {
            assert(x % 32 < y % 32) by (nonlinear_arith)
                requires
                    x < y,
                    x / 32 == y / 32,
            ;
            let i = w as int;
            assert(px.push(dx).take(i) =~= px);
            assert(py.push(dy).take(i) =~= py);
        }
    }
}

/// Two different numbers have two different names.
pub proof fn lemma_names_are_distinct(x: u64, y: u64)
    requires
        x != y,
    ensures
        name_chars(x as nat) != name_chars(y as nat),
{
    let (lo, hi) = if x < y { (x as nat, y as nat) } else { (y as nat, x as nat) };
    assert(vstd::arithmetic::power::pow(32, 13) == 0x2_0000_0000_0000_0000) by {
        vstd::arithmetic::power::lemma_pow_adds(32, 1, 12);
        reveal_with_fuel(vstd::arithmetic::power::pow, 14);
    }
    lemma_names_sort_as_numbers(lo, hi, 13);
    lemma_name_width(lo, 13);
    lemma_name_width(hi, 13);
    let a = name_bytes(lo, 13);
    let b = name_bytes(hi, 13);
    let i = choose|i: int| 0 <= i < a.len() && i < b.len() && a.take(i) == b.take(i) && a[i] < b[i];
    assert(name_chars(lo)[i] == a[i] as char);
    assert(name_chars(hi)[i] == b[i] as char);
    assert((a[i] as char) != (b[i] as char));
}


/// Tells apart two scans started in the same millisecond.
///
/// The daemon holds one and mints every name from it, so two names minted in
/// one millisecond differ in the counter.
#[derive(Debug, Default)]
pub struct Minter {
    counter: u64,
}

impl Minter {
    /// How many names this minter has handed out, wrapping as `u64` wraps.
    pub closed spec fn count(&self) -> u64 {
        self.counter
    }

    /// A minter that has handed out nothing.
    pub fn new() -> (r: Minter)
        ensures
            r.count() == 0,
    {
        Minter { counter: 0 }
    }
}

/// The name of the scan started in millisecond `millis` with `counter` names
/// already handed out.
pub fn name_at(millis: u64, counter: u64) -> (r: String)
    ensures
        r@ == name_chars(name_value(millis, counter) as nat),
{
    encode(millis.wrapping_mul(PER_MILLISECOND).wrapping_add(counter % PER_MILLISECOND))
}

/// The low sixteen bits of a name's value are its count's, whatever the
/// millisecond.
proof fn lemma_count_in_low_bits(millis: u64, counter: u64)
    ensures
        name_value(millis, counter) % 65536 == counter % 65536,
{
    let m = millis as int;
    let k = m / 0x1_0000_0000_0000;
    let q = m % 0x1_0000_0000_0000;
    assert(m == 0x1_0000_0000_0000 * k + q && 0 <= q < 0x1_0000_0000_0000);
    assert(m * 65536 == 0x1_0000_0000_0000_0000 * k + 65536 * q) by (nonlinear_arith)
        requires
            m == 0x1_0000_0000_0000 * k + q,
    ;
    assert(0 <= 65536 * q <= 0xffff_ffff_ffff_0000) by (nonlinear_arith)
        requires
            0 <= q < 0x1_0000_0000_0000,
    ;
    vstd::arithmetic::div_mod::lemma_mod_multiples_vanish(k, 65536 * q, 0x1_0000_0000_0000_0000);
    vstd::arithmetic::div_mod::lemma_small_mod((65536 * q) as nat, 0x1_0000_0000_0000_0000);
    let high = vstd::wrapping::u64_specs::wrapping_mul(millis, 65536);
    assert(high == 65536 * q);
    let low = counter % 65536;
    assert(high + low <= u64::MAX);
    vstd::arithmetic::div_mod::lemma_mod_multiples_vanish(q, low as int, 65536);
    vstd::arithmetic::div_mod::lemma_small_mod(low as nat, 65536);
}

/// One minter never hands out a name twice while its counts stay apart:
/// two names whose counts differ modulo 65,536, which any two of fewer than
/// 65,536 successive mints do, are different names whatever the clock read
/// for each.
pub proof fn lemma_one_minter_never_repeats(m1: u64, c1: u64, m2: u64, c2: u64)
    requires
        c1 % 65536 != c2 % 65536,
    ensures
        name_chars(name_value(m1, c1) as nat) != name_chars(name_value(m2, c2) as nat),
{
    lemma_count_in_low_bits(m1, c1);
    lemma_count_in_low_bits(m2, c2);
    lemma_names_are_distinct(name_value(m1, c1), name_value(m2, c2));
}

/// A reading of the machine's clock, as std holds it.
#[verifier::external_type_specification]
#[verifier::external_body]
pub struct ExSystemTime(std::time::SystemTime);

/// `SystemTime::now` from std, which reads the machine's clock: nothing is
/// promised of what it returns.
#[verifier::external_body]
fn clock_reading() -> std::time::SystemTime {
    std::time::SystemTime::now()
}

/// `SystemTime::duration_since` from std, measured from the Unix epoch: the
/// time since it, or `None` for a reading before it. What the duration is
/// depends on the reading, which nothing here describes, so nothing is
/// promised of it.
#[verifier::external_body]
fn since_epoch(reading: &std::time::SystemTime) -> Option<std::time::Duration> {
    reading.duration_since(std::time::UNIX_EPOCH).ok()
}

/// `Duration::as_millis` from std: the whole milliseconds of a duration,
/// which nothing here describes, so nothing is promised of the number.
#[verifier::external_body]
fn whole_millis(since: &std::time::Duration) -> u128 {
    since.as_millis()
}

/// Milliseconds since the Unix epoch, cut to 64 bits, or zero for a clock
/// set before it.
fn now_millis() -> u64 {
    match since_epoch(&clock_reading()) {
        Some(since) => {
            let millis = whole_millis(&since);
            #[verifier::truncate]
            (millis as u64)
        },
        None => 0,
    }
}

/// A name for a scan, unique on this host for as long as anybody is looking.
///
/// Whatever millisecond the clock reads, the name is that millisecond and this
/// minter's count, and the count moves on by one.
pub fn mint(minter: &mut Minter) -> (r: String)
    ensures
        exists|millis: u64| r@ == name_chars(name_value(millis, old(minter).count()) as nat),
        final(minter).count() == vstd::wrapping::u64_specs::wrapping_add(old(minter).count(), 1),
{
    let millis = now_millis();
    let name = name_at(millis, minter.counter);
    minter.counter = minter.counter.wrapping_add(1);
    name
}

/// Names sort into the order the scans started: a later millisecond, or the
/// same millisecond and a later count within it, sorts after.
///
/// Holds while the millisecond fits the forty-eight bits above the counter,
/// which the clock does until the year 10889.
pub proof fn lemma_later_names_sort_after(m1: u64, c1: u64, m2: u64, c2: u64)
    requires
        m1 < 0x1_0000_0000_0000,
        m2 < 0x1_0000_0000_0000,
        m1 < m2 || (m1 == m2 && c1 % 65536 < c2 % 65536),
    ensures
        sorts_before(name_bytes(name_value(m1, c1) as nat, 13), name_bytes(name_value(m2, c2) as nat, 13)),
{
    assert(m1 * 65536 + c1 % 65536 < 0x1_0000_0000_0000_0000) by (nonlinear_arith)
        requires m1 < 0x1_0000_0000_0000;
    assert(m2 * 65536 + c2 % 65536 < 0x1_0000_0000_0000_0000) by (nonlinear_arith)
        requires m2 < 0x1_0000_0000_0000;
    assert(name_value(m1, c1) == m1 * 65536 + c1 % 65536);
    assert(name_value(m2, c2) == m2 * 65536 + c2 % 65536);
    assert(m1 * 65536 + c1 % 65536 < m2 * 65536 + c2 % 65536) by (nonlinear_arith)
        requires
            m1 < m2 || (m1 == m2 && c1 % 65536 < c2 % 65536),
    ;
    assert(vstd::arithmetic::power::pow(32, 13) == 0x2_0000_0000_0000_0000) by {
        reveal_with_fuel(vstd::arithmetic::power::pow, 14);
    }
    lemma_names_sort_as_numbers(name_value(m1, c1) as nat, name_value(m2, c2) as nat, 13);
}

} // verus!
