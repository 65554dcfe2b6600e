//! # Addresses written as a person reads them
//!
//! IPv4 in dotted decimal. IPv6 the way Rust's own `Ipv6Addr` writes it:
//! eight groups of lower-case hexadecimal without leading zeros, the longest
//! run of two or more zero groups (the first, where two are as long) written
//! as `::`, and an IPv4-mapped address as `::ffff:` and its IPv4 address.

use vstd::prelude::*;

use crate::text::{decimal, decimal_text, push_char};

verus! {

/// An IPv4 address in dotted decimal, as `Ipv4Addr` writes it.
pub open spec fn dotted(a: u32) -> Seq<char> {
    decimal((a / 16777216) as nat) + "."@ + decimal(((a / 65536) % 256) as nat) + "."@ + decimal(
        ((a / 256) % 256) as nat,
    ) + "."@ + decimal((a % 256) as nat)
}

/// An IPv4 address in dotted decimal.
pub fn dotted_text(a: u32) -> (r: String)
    ensures
        r@ == dotted(a),
{
    let mut out = decimal_text((a / 16777216) as u128);
    out.append(".");
    out.append(decimal_text(((a / 65536) % 256) as u128).as_str());
    out.append(".");
    out.append(decimal_text(((a / 256) % 256) as u128).as_str());
    out.append(".");
    out.append(decimal_text((a % 256) as u128).as_str());
    out
}

/// The `k`th of the eight 16-bit groups of an IPv6 address, the first the
/// most significant.
pub open spec fn group(a: u128, k: int) -> u16 {
    ((a >> ((112 - 16 * k) as u128)) & 0xffff) as u16
}

/// The eight groups of an IPv6 address, in order.
pub open spec fn groups(a: u128) -> Seq<u16> {
    Seq::new(8, |k: int| group(a, k))
}

/// Whether an IPv6 address is an IPv4 address mapped into IPv6:
/// `::ffff:a.b.c.d`.
pub open spec fn mapped(a: u128) -> bool {
    group(a, 0) == 0 && group(a, 1) == 0 && group(a, 2) == 0 && group(a, 3) == 0 && group(a, 4) == 0
        && group(a, 5) == 0xffff
}

/// The character a hexadecimal digit is written as, in lower case.
pub open spec fn hex_digit(d: nat) -> char {
    if d < 10 {
        ((48 + d) as u8) as char
    } else {
        ((87 + d) as u8) as char
    }
}

/// A number written in lower-case hexadecimal, without leading zeros.
pub open spec fn hex(n: nat) -> Seq<char>
    decreases n,
{
    if n < 16 {
        seq![hex_digit(n)]
    } else {
        hex(n / 16).push(hex_digit(n % 16))
    }
}

/// Groups written in hexadecimal, with a colon between each and the next.
pub open spec fn colon_joined(gs: Seq<u16>) -> Seq<char>
    decreases gs.len(),
{
    if gs.len() == 0 {
        Seq::empty()
    } else if gs.len() == 1 {
        hex(gs[0] as nat)
    } else {
        colon_joined(gs.drop_last()) + ":"@ + hex(gs.last() as nat)
    }
}

/// The longest run of zero groups from position `i` on, given the run that
/// reaches `i` and the longest seen before it, each as start and length: the
/// first of the longest, where two are as long.
pub open spec fn zero_run(gs: Seq<u16>, i: int, current: (int, int), longest: (int, int)) -> (int, int)
    decreases gs.len() - i,
{
    if i >= gs.len() || i < 0 {
        longest
    } else if gs[i] == 0 {
        let now = if current.1 == 0 {
            (i, 1int)
        } else {
            (current.0, current.1 + 1)
        };
        zero_run(gs, i + 1, now, if now.1 > longest.1 {
            now
        } else {
            longest
        })
    } else {
        zero_run(gs, i + 1, (0, 0), longest)
    }
}

/// An IPv6 address as `Ipv6Addr` writes it.
pub open spec fn v6_written(a: u128) -> Seq<char> {
    if mapped(a) {
        "::ffff:"@ + dotted((a & 0xffff_ffff) as u32)
    } else {
        let gs = groups(a);
        let run = zero_run(gs, 0, (0, 0), (0, 0));
        if run.1 > 1 {
            colon_joined(gs.subrange(0, run.0)) + "::"@ + colon_joined(gs.subrange(run.0 + run.1, 8))
        } else {
            colon_joined(gs)
        }
    }
}

/// A number in lower-case hexadecimal.
fn hex_text(n: u16) -> (r: String)
    ensures
        r@ == hex(n as nat),
    decreases n,
{
    if n < 16 {
        let mut out = String::new();
        push_char(&mut out, digit_of(n));
        out
    } else {
        let mut out = hex_text(n / 16);
        push_char(&mut out, digit_of(n % 16));
        out
    }
}

/// The character a hexadecimal digit is written as.
fn digit_of(d: u16) -> (r: char)
    requires
        d < 16,
    ensures
        r == hex_digit(d as nat),
{
    if d < 10 {
        ((48 + d) as u8) as char
    } else {
        ((87 + d) as u8) as char
    }
}

/// The groups `from` up to `to` of an address, written in hexadecimal with a
/// colon between each and the next.
fn joined_groups(gs: &Vec<u16>, from: usize, to: usize) -> (r: String)
    requires
        from <= to <= gs@.len(),
    ensures
        r@ == colon_joined(gs@.subrange(from as int, to as int)),
{
    let mut out = String::new();
    let mut i: usize = from;
    assert(gs@.subrange(from as int, from as int) =~= Seq::<u16>::empty());
    while i < to
        invariant
            from <= i <= to <= gs@.len(),
            out@ == colon_joined(gs@.subrange(from as int, i as int)),
        decreases to - i,
    {
        let ghost before = gs@.subrange(from as int, i as int);
        let ghost after = gs@.subrange(from as int, i + 1);
        assert(after.drop_last() =~= before);
        if i > from {
            out.append(":");
        }
        let piece = hex_text(gs[i]);
        out.append(piece.as_str());
        proof {
            reveal_strlit(":");
            if i == from {
                assert(after.len() == 1);
                assert(before.len() == 0);
            }
        }
        i = i + 1;
    }
    out
}

/// An IPv6 address, as `Ipv6Addr` writes it.
pub fn v6_text(a: u128) -> (r: String)
    ensures
        r@ == v6_written(a),
{
    let mut gs: Vec<u16> = Vec::new();
    let mut k: usize = 0;
    while k < 8
        invariant
            k <= 8,
            gs@.len() == k,
            forall|j: int| 0 <= j < k ==> #[trigger] gs@[j] == group(a, j),
        decreases 8 - k,
    {
        gs.push(((a >> ((112 - 16 * k) as u128)) & 0xffff) as u16);
        k = k + 1;
    }
    assert(gs@ =~= groups(a));
    if gs[0] == 0 && gs[1] == 0 && gs[2] == 0 && gs[3] == 0 && gs[4] == 0 && gs[5] == 0xffff {
        let mut out = String::from_str("::ffff:");
        out.append(dotted_text((a & 0xffff_ffff) as u32).as_str());
        return out;
    }
    let mut current: (usize, usize) = (0, 0);
    let mut longest: (usize, usize) = (0, 0);
    let mut i: usize = 0;
    while i < 8
        invariant
            gs@ == groups(a),
            i <= 8,
            current.0 <= i,
            current.1 <= i,
            current.0 + current.1 <= i,
            longest.0 + longest.1 <= 8,
            zero_run(gs@, i as int, (current.0 as int, current.1 as int), (longest.0 as int, longest.1 as int))
                == zero_run(gs@, 0, (0, 0), (0, 0)),
        decreases 8 - i,
    {
        if gs[i] == 0 {
            if current.1 == 0 {
                current = (i, 1);
            } else {
                current = (current.0, current.1 + 1);
            }
            if current.1 > longest.1 {
                longest = current;
            }
        } else {
            current = (0, 0);
        }
        i = i + 1;
    }
    if longest.1 > 1 {
        let mut out = joined_groups(&gs, 0, longest.0);
        out.append("::");
        out.append(joined_groups(&gs, longest.0 + longest.1, 8).as_str());
        out
    } else {
        assert(gs@.subrange(0, 8) =~= gs@);
        joined_groups(&gs, 0, 8)
    }
}

} // verus!
