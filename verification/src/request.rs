//! # Reading a request on the wire as the engine's own
//!
//! A start request is the wire form of the engine's own scan request, field
//! for field, so most of reading one is moving fields across. What is decided
//! here is what the wire can say that the engine cannot take: a level given as
//! a number the schema does not name, an IP protocol number that does not fit
//! in a byte, an address to send from that is no address, and a scan with
//! nothing to scan.

use vstd::prelude::*;

use crate::error::Error;
use crate::schema::{
    DetectionClassName, OsDetectionName, ScanEffortName, ScanKind, ServiceDetectionName,
};
use crate::text::{decimal, decimal_text, joined};

verus! {

/// How many ports a request that named none asks about.
///
/// The same figure `zond scan` falls back to, so a request that says nothing
/// about ports gets the scan somebody would have got by typing the command.
pub const DEFAULT_TOP_PORTS: usize = 1000;

/// A value the schema stores as a number.
pub trait Numbered: Sized {
    /// The value `n` stands for, where it stands for one.
    spec fn numbered_as(n: i32) -> Option<Self>;

    /// The value `n` stands for, or `None` for a number the schema does not
    /// name.
    fn read_number(n: i32) -> (r: Option<Self>)
        ensures
            r == Self::numbered_as(n),
    ;
}

impl Numbered for ServiceDetectionName {
    open spec fn numbered_as(n: i32) -> Option<Self> {
        ServiceDetectionName::numbered(n)
    }

    fn read_number(n: i32) -> (r: Option<Self>) {
        ServiceDetectionName::from_number(n)
    }
}

impl Numbered for OsDetectionName {
    open spec fn numbered_as(n: i32) -> Option<Self> {
        OsDetectionName::numbered(n)
    }

    fn read_number(n: i32) -> (r: Option<Self>) {
        OsDetectionName::from_number(n)
    }
}

impl Numbered for DetectionClassName {
    open spec fn numbered_as(n: i32) -> Option<Self> {
        DetectionClassName::numbered(n)
    }

    fn read_number(n: i32) -> (r: Option<Self>) {
        DetectionClassName::from_number(n)
    }
}

impl Numbered for ScanEffortName {
    open spec fn numbered_as(n: i32) -> Option<Self> {
        ScanEffortName::numbered(n)
    }

    fn read_number(n: i32) -> (r: Option<Self>) {
        ScanEffortName::from_number(n)
    }
}

/// The schema's name for a field, where the field was set at all and to a
/// number the schema names.
pub fn named<T: Numbered>(raw: Option<i32>) -> (r: Option<T>)
    ensures
        r == match raw {
            Some(n) => T::numbered_as(n),
            None => None,
        },
{
    match raw {
        Some(n) => T::read_number(n),
        None => None,
    }
}

/// Whether every number in `numbers` fits in a byte.
pub open spec fn all_bytes(numbers: Seq<u32>) -> bool {
    forall|i: int| 0 <= i < numbers.len() ==> numbers[i] <= 255
}

/// Whether every value of `values` is smaller than the one after it, which is
/// a set written down in order.
pub open spec fn strictly_ascending(values: Seq<u8>) -> bool {
    forall|i: int, j: int| 0 <= i < j < values.len() ==> values[i] < values[j]
}

/// The words an IP protocol number that is not one is refused with.
pub open spec fn not_a_protocol(n: u32) -> Seq<char> {
    decimal(n as nat) + " is not an IP protocol number"@
}

/// Adds `p` to a set written down in ascending order, where it is not already
/// there.
#[verifier::spinoff_prover]
fn insert_ascending(values: &mut Vec<u8>, p: u8)
    requires
        strictly_ascending(old(values)@),
    ensures
        strictly_ascending(final(values)@),
        forall|x: u8| final(values)@.contains(x) <==> (old(values)@.contains(x) || x == p),
{
    let n = values.len();
    let mut i: usize = 0;
    while i < n && values[i] < p
        invariant
            n == values@.len(),
            values@ == old(values)@,
            i <= n,
            forall|j: int| 0 <= j < i ==> values@[j] < p,
        decreases n - i,
    {
        i = i + 1;
    }
    if i < n && values[i] == p {
        assert(values@.contains(p)) by {
            assert(values@[i as int] == p);
        }
        return;
    }
    let ghost before = values@;
    values.insert(i, p);
    assert(values@ == before.insert(i as int, p));
    assert forall|a: int, b: int| 0 <= a < b < values@.len() implies values@[a] < values@[b] by {
        if b < i {
        } else if b == i {
            assert(values@[a] == before[a]);
        } else if a < i {
            assert(values@[b] == before[b - 1]);
            assert(before[a] < p);
            assert(before[i as int] > p);
            if b - 1 > i {
                assert(before[i as int] < before[b - 1]);
            }
        } else if a == i {
            assert(values@[b] == before[b - 1]);
            assert(before[i as int] > p);
            if b - 1 > i {
                assert(before[i as int] < before[b - 1]);
            }
        } else {
            assert(values@[a] == before[a - 1]);
            assert(values@[b] == before[b - 1]);
        }
    }
    assert forall|x: u8| values@.contains(x) <==> (before.contains(x) || x == p) by {
        if values@.contains(x) {
            let k = choose|k: int| 0 <= k < values@.len() && values@[k] == x;
            if k < i {
                assert(before[k] == x);
                assert(before.contains(x));
            } else if k > i {
                assert(before[k - 1] == x);
                assert(before.contains(x));
            } else {
                assert(x == p);
            }
        }
        if before.contains(x) {
            let k = choose|k: int| 0 <= k < before.len() && before[k] == x;
            if k < i {
                assert(values@[k] == x);
            } else {
                assert(values@[k + 1] == x);
            }
        }
        if x == p {
            assert(values@[i as int] == x);
        }
    }
    assert(before == old(values)@);
    assert(forall|x: u8| #[trigger] values@.contains(x) <==> (old(values)@.contains(x) || x == p));
}

/// The IP protocols a request names, read as the engine takes them: a set of
/// bytes.
///
/// Naming none leaves the engine's own choice standing. A number that does not
/// fit in a byte is refused by name, the first such the request gave.
pub fn ip_protocols(numbers: &Vec<u32>) -> (r: Result<Option<Vec<u8>>, Error>)
    ensures
        r is Err <==> !all_bytes(numbers@),
        r matches Ok(None) <==> numbers@.len() == 0,
        r matches Ok(Some(set)) ==> {
            &&& strictly_ascending(set@)
            &&& forall|x: u8| set@.contains(x) <==> numbers@.contains(x as u32)
        },
        r matches Err(e) ==> exists|i: int|
            {
                &&& 0 <= i < numbers@.len()
                &&& numbers@[i] > 255
                &&& all_bytes(numbers@.take(i))
                &&& e.code_text() == "request.bad_ip_protocol"@
                &&& e.message_text() == not_a_protocol(numbers@[i])
            },
{
    if numbers.len() == 0 {
        return Ok(None);
    }
    let mut set: Vec<u8> = Vec::new();
    let mut i: usize = 0;
    while i < numbers.len()
        invariant
            i <= numbers@.len(),
            all_bytes(numbers@.take(i as int)),
            strictly_ascending(set@),
            forall|x: u8| set@.contains(x) <==> numbers@.take(i as int).contains(x as u32),
        decreases numbers@.len() - i,
    {
        let n = numbers[i];
        if n > 255 {
            let mut message = decimal_text(n as u128);
            message.append(" is not an IP protocol number");
            proof {
                reveal_strlit(" is not an IP protocol number");
            }
            let e = Error::new("request.bad_ip_protocol", message);
            assert(!all_bytes(numbers@)) by {
                assert(numbers@[i as int] > 255);
            }
            return Err(e);
        }
        let ghost before = set@;
        insert_ascending(&mut set, n as u8);
        proof {
            let taken = numbers@.take(i as int + 1);
            assert(taken == numbers@.take(i as int).push(n));
            assert forall|x: u8| set@.contains(x) <==> taken.contains(x as u32) by {
                if taken.contains(x as u32) {
                    let k = choose|k: int| 0 <= k < taken.len() && taken[k] == x as u32;
                    if k < i {
                        assert(numbers@.take(i as int)[k] == x as u32);
                    }
                }
                if numbers@.take(i as int).contains(x as u32) {
                    let k = choose|k: int| 0 <= k < i && numbers@.take(i as int)[k] == x as u32;
                    assert(taken[k] == x as u32);
                }
                if x == n as u8 {
                    assert(taken[i as int] == x as u32);
                }
            }
        }
        i = i + 1;
    }
    assert(numbers@.take(i as int) == numbers@);
    Ok(Some(set))
}

/// The refusal of an address a request asked to send from that is no address.
pub fn unreadable_source(address: &str) -> (r: Error)
    ensures
        r.code_text() == "request.bad_send_source"@,
        r.message_text() == address@ + " is not an address to send from"@,
{
    let message = joined(address, " is not an address to send from");
    Error::new("request.bad_send_source", message)
}

/// Refuses a scan that was given nothing to scan, before a packet leaves.
pub fn targets_given(targets: &Vec<String>) -> (r: Result<(), Error>)
    ensures
        r is Err <==> targets@.len() == 0,
        r matches Err(e) ==> {
            &&& e.code_text() == "request.no_targets"@
            &&& e.message_text() == "a scan has to be given something to scan"@
        },
{
    if targets.len() == 0 {
        let e = Error::new("request.no_targets", String::from_str("a scan has to be given something to scan"));
        Err(e)
    } else {
        Ok(())
    }
}

/// Refuses a request that was given nothing to work on, before a packet
/// leaves: a port scan or a sweep with no targets, or a listen with no link to
/// listen on.
///
/// A listener asks nothing of anybody, so targets are not what it is short of,
/// and saying so would send somebody looking in the wrong place.
pub fn work_given(kind: ScanKind, targets: &Vec<String>, links: &Vec<String>) -> (r: Result<(), Error>)
    ensures
        r is Err <==> match kind {
            ScanKind::Listen => links@.len() == 0,
            _ => targets@.len() == 0,
        },
        r matches Err(e) ==> match kind {
            ScanKind::Listen => e.code_text() == "request.no_links"@ && e.message_text()
                == "a listen has to be given a link to listen on"@,
            _ => e.code_text() == "request.no_targets"@ && e.message_text()
                == "a scan has to be given something to scan"@,
        },
{
    match kind {
        ScanKind::Listen => if links.len() == 0 {
            Err(Error::new("request.no_links", String::from_str("a listen has to be given a link to listen on")))
        } else {
            Ok(())
        },
        _ => targets_given(targets),
    }
}

/// The word a record of what was asked for names a kind of scan by.
pub fn kind_word(kind: ScanKind) -> (r: &'static str)
    ensures
        r@ == match kind {
            ScanKind::PortScan => "port_scan"@,
            ScanKind::Discovery => "discovery"@,
            ScanKind::Listen => "listen"@,
        },
{
    match kind {
        ScanKind::PortScan => "port_scan",
        ScanKind::Discovery => "discovery",
        ScanKind::Listen => "listen",
    }
}

} // verus!
