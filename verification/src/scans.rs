//! # What is said about a scan, running or recorded
//!
//! A running scan is the engine's: its progress and its handle are read as
//! they stand, and what a client is told is built here from what was read. A
//! scan that is over is read back out of its record, which keeps the hosts it
//! found rather than the order they arrived in, so it answers with one entry
//! per host and then where the scan stands.
//!
//! The records a daemon keeps are listed newest first, because the scan
//! somebody is looking for is almost always the one they just ran.

use vstd::prelude::*;

use crate::convert::{stage, stage_spec, stop_cause, stop_cause_spec};
use crate::engine::{Stage, StopCause};
use crate::error::Error;
use crate::events::EventLog;
use crate::text::same_text;
use crate::schema::{Event, EventBody, HostChanged, ScanProgress, ScanState, StageName};

verus! {

/// How many records a listing that named no limit holds.
///
/// Enough that a person looking for one they ran this week finds it, and few
/// enough that a daemon with years of records does not answer with all of them.
pub const DEFAULT_LISTING: usize = 100;

/// How far along a scan is, in the schema's terms: the stage, and each count
/// where the engine has one.
pub open spec fn progress_spec(
    at: Stage,
    counted: Option<(u64, u64)>,
    overall: Option<(u64, u64)>,
) -> ScanProgress {
    ScanProgress {
        stage: stage_spec(at).number_spec(),
        stage_done: match counted {
            Some(c) => Some(c.0),
            None => None,
        },
        stage_total: match counted {
            Some(c) => Some(c.1),
            None => None,
        },
        overall_done: match overall {
            Some(c) => Some(c.0),
            None => None,
        },
        overall_total: match overall {
            Some(c) => Some(c.1),
            None => None,
        },
    }
}

/// How far along a scan is, from the stage it is in and the engine's counts
/// of the stage and of the whole, each as done and total where it has them.
pub fn progress_of(at: Stage, counted: Option<(u64, u64)>, overall: Option<(u64, u64)>) -> (r: ScanProgress)
    ensures
        r == progress_spec(at, counted, overall),
{
    let (stage_done, stage_total) = match counted {
        Some((done, total)) => (Some(done), Some(total)),
        None => (None, None),
    };
    let (overall_done, overall_total) = match overall {
        Some((done, total)) => (Some(done), Some(total)),
        None => (None, None),
    };
    ScanProgress { stage: stage(at).number(), stage_done, stage_total, overall_done, overall_total }
}

/// Where a running scan has got to, as one answer.
///
/// Running until its log is closed; a cause only once it is not, which is
/// `completed` where nothing stopped it; and the number of the last thing it
/// said.
pub fn scan_state(id: &str, log: &EventLog, stopped: Option<StopCause>, progress: ScanProgress) -> (r: ScanState)
    ensures
        r.scan_id@ == id@,
        r.running == !log.is_over(),
        r.cause == if log.is_over() {
            Some(stop_cause_spec(stopped).number_spec())
        } else {
            None::<i32>
        },
        r.progress == Some(progress),
        r.seq == log.events().len(),
{
    let running = !log.is_closed();
    let cause = if running {
        None
    } else {
        Some(stop_cause(stopped).number())
    };
    ScanState {
        scan_id: String::from_str(id),
        running,
        cause,
        progress: Some(progress),
        seq: log.watermark(),
    }
}

/// Where a scan read back off its record stands: at the last stage, with no
/// counts, since the record keeps what was found rather than how far each
/// stage got.
pub open spec fn recorded_progress() -> ScanProgress {
    ScanProgress {
        stage: StageName::Finishing.number_spec(),
        stage_done: None,
        stage_total: None,
        overall_done: None,
        overall_total: None,
    }
}

/// Where a scan read back off its record stands.
pub fn finishing_progress() -> (r: ScanProgress)
    ensures
        r == recorded_progress(),
{
    ScanProgress {
        stage: StageName::Finishing.number(),
        stage_done: None,
        stage_total: None,
        overall_done: None,
        overall_total: None,
    }
}

/// The hosts of a record as entries: one for each host that could be written
/// down (`Some`), in the record's order, numbered by its place in the record,
/// so a host that could not be written down leaves its number unused.
pub open spec fn recorded_hosts(hosts: Seq<Option<HostChanged>>) -> Seq<Event>
    decreases hosts.len(),
{
    if hosts.len() == 0 {
        Seq::empty()
    } else {
        let before = recorded_hosts(hosts.drop_last());
        match hosts.last() {
            Some(host) => before.push(
                Event { seq: hosts.len() as u64, body: Some(EventBody::Host(host)) },
            ),
            None => before,
        }
    }
}

/// Every host a record holds as it stands, and where the scan is: the hosts
/// as `recorded_hosts` numbers them, then the recorded progress, numbered
/// with the record's length, which is where a follower of the record has
/// read up to.
pub fn recorded_events(hosts: Vec<Option<HostChanged>>) -> (r: Vec<Event>)
    requires
        hosts@.len() < u64::MAX,
    ensures
        r@ == recorded_hosts(hosts@).push(
            Event { seq: hosts@.len() as u64, body: Some(EventBody::Progress(recorded_progress())) },
        ),
{
    let ghost all = hosts@;
    let mut out: Vec<Event> = Vec::new();
    let mut i: u64 = 0;
    for host in it: hosts
        invariant
            it.seq() == all,
            i == it.index(),
            it.index() <= all.len(),
            all.len() < u64::MAX,
            out@ == recorded_hosts(all.take(it.index() as int)),
    {
        proof {
            assert(all.take(i + 1).drop_last() =~= all.take(i as int));
            assert(all.take(i + 1).last() == host);
        }
        i = i + 1;
        match host {
            Some(host) => out.push(Event { seq: i, body: Some(EventBody::Host(host)) }),
            None => {},
        }
    }
    proof {
        assert(all.take(all.len() as int) =~= all);
    }
    out.push(Event { seq: i, body: Some(EventBody::Progress(finishing_progress())) });
    out
}

/// Where a scan read back off its record got to.
///
/// Not running. No cause, since the record keeps what the scan found rather
/// than why it stopped, and saying nothing is better than guessing at
/// `completed`. At the last stage, with no counts, and at the number of
/// hosts the record could write down.
pub fn recorded_state(id: &str, hosts: u64) -> (r: ScanState)
    ensures
        r.scan_id@ == id@,
        !r.running,
        r.cause is None,
        r.progress == Some(recorded_progress()),
        r.seq == hosts,
{
    ScanState {
        scan_id: String::from_str(id),
        running: false,
        cause: None,
        progress: Some(finishing_progress()),
        seq: hosts,
    }
}

/// Which of the records a daemon keeps is the one named `id`: the first
/// whose name it is, or the refusal of a name no scan answers to.
pub fn record_named(names: &Vec<String>, id: &str) -> (r: Result<usize, Error>)
    ensures
        r matches Ok(i) ==> i < names@.len() && names@[i as int]@ == id@ && forall|j: int|
            0 <= j < i ==> (#[trigger] names@[j])@ != id@,
        r is Err <==> forall|j: int| 0 <= j < names@.len() ==> (#[trigger] names@[j])@ != id@,
        r matches Err(e) ==> e.code_text() == "scan.unknown"@ && e.message_text()
            == "no scan is named "@ + id@,
{
    let mut i: usize = 0;
    while i < names.len()
        invariant
            i <= names@.len(),
            forall|j: int| 0 <= j < i ==> (#[trigger] names@[j])@ != id@,
        decreases names@.len() - i,
    {
        if same_text(names[i].as_str(), id) {
            return Ok(i);
        }
        i = i + 1;
    }
    Err(Error::no_such_scan(id))
}

/// How many targets a record planned, where that fits the schema's field:
/// absent rather than clamped where the plan will not fit, since a clamped
/// figure would describe a plan no run finishes.
pub fn planned(total: u128) -> (r: Option<u64>)
    ensures
        r == if total <= u64::MAX {
            Some(total as u64)
        } else {
            None::<u64>
        },
{
    if total <= u64::MAX as u128 {
        Some(total as u64)
    } else {
        None
    }
}

/// How many a record has settled, where that fits the schema's field.
pub fn settled(count: Option<u128>) -> (r: Option<u64>)
    ensures
        r == match count {
            Some(n) => if n <= u64::MAX {
                Some(n as u64)
            } else {
                None::<u64>
            },
            None => None::<u64>,
        },
{
    match count {
        Some(n) => planned(n),
        None => None,
    }
}

/// How many records a listing holds: the limit asked for, or the default where
/// none was asked for or the limit asked for was zero.
pub open spec fn listing_limit_spec(limit: Option<u32>) -> nat {
    match limit {
        Some(n) => if n == 0 {
            DEFAULT_LISTING as nat
        } else {
            n as nat
        },
        None => DEFAULT_LISTING as nat,
    }
}

/// How many records a listing holds.
pub fn listing_limit(limit: Option<u32>) -> (r: usize)
    ensures
        r == listing_limit_spec(limit),
{
    match limit {
        Some(0) | None => DEFAULT_LISTING,
        Some(n) => n as usize,
    }
}

/// Whether the record at `a` is listed before the one at `b`: it was made
/// later, or at the same moment and it came first.
pub open spec fn listed_before(created: Seq<u128>, a: int, b: int) -> bool {
    created[a] > created[b] || (created[a] == created[b] && a < b)
}

/// A listing of records made at `created`: at most `limit` of them, each
/// once, newest first, and none left out that is newer than one put in.
pub open spec fn newest_first_order(created: Seq<u128>, limit: nat, order: Seq<usize>) -> bool {
    &&& order.len() == if created.len() < limit {
        created.len()
    } else {
        limit
    }
    &&& forall|i: int| 0 <= i < order.len() ==> (#[trigger] order[i]) < created.len()
    &&& forall|i: int, j: int|
        0 <= i < j < order.len() ==> listed_before(created, #[trigger] order[i] as int, #[trigger] order[j] as int)
    &&& forall|x: int, i: int|
        #![trigger listed_before(created, order[i] as int, x)]
        0 <= x < created.len() && !order.contains(x as usize) && 0 <= i < order.len()
            ==> listed_before(created, order[i] as int, x)
}

/// Which records a listing holds, and in what order: the positions of the
/// records made at `created`, newest first, as many as the limit allows.
///
/// Records made at the same moment keep the order they were found in.
pub fn newest_first(created: &Vec<u128>, limit: Option<u32>) -> (r: Vec<usize>)
    ensures
        newest_first_order(created@, listing_limit_spec(limit), r@),
{
    let n = created.len();
    let mut order: Vec<usize> = Vec::new();
    let mut x: usize = 0;
    while x < n
        invariant
            n == created@.len(),
            x <= n,
            order@.len() == x,
            forall|i: int| 0 <= i < order@.len() ==> (#[trigger] order@[i]) < x,
            forall|i: int, j: int|
                0 <= i < j < order@.len() ==> listed_before(created@, #[trigger] order@[i] as int, #[trigger] order@[j] as int),
            forall|y: usize| y < x ==> #[trigger] order@.contains(y),
        decreases n - x,
    {
        let mut p: usize = 0;
        while p < order.len() && created[order[p]] >= created[x]
            invariant
                n == created@.len(),
                x < n,
                p <= order@.len(),
                forall|i: int| 0 <= i < order@.len() ==> (#[trigger] order@[i]) < x,
                forall|i: int| 0 <= i < p ==> created@[#[trigger] order@[i] as int] >= created@[x as int],
            decreases order@.len() - p,
        {
            p = p + 1;
        }
        let ghost before = order@;
        order.insert(p, x);
        proof {
            assert(order@ == before.insert(p as int, x));
            assert forall|i: int, j: int| 0 <= i < j < order@.len() implies listed_before(
                created@,
                #[trigger] order@[i] as int,
                #[trigger] order@[j] as int,
            ) by {
                if j < p {
                } else if j == p {
                    assert(order@[i] == before[i]);
                    assert(created@[before[i] as int] >= created@[x as int]);
                } else if i < p {
                    assert(order@[j] == before[j - 1]);
                } else if i == p {
                    assert(order@[j] == before[j - 1]);
                    assert(created@[x as int] > created@[before[p as int] as int]);
                    if j - 1 > p {
                        assert(listed_before(created@, before[p as int] as int, before[j - 1] as int));
                    }
                } else {
                    assert(order@[i] == before[i - 1]);
                    assert(order@[j] == before[j - 1]);
                }
            }
            assert forall|y: usize| y < x + 1 implies #[trigger] order@.contains(y) by {
                if y == x {
                    assert(order@[p as int] == x);
                } else {
                    assert(before.contains(y));
                    let k = choose|k: int| 0 <= k < before.len() && before[k] == y;
                    if k < p {
                        assert(order@[k] == y);
                    } else {
                        assert(order@[k + 1] == y);
                    }
                }
            }
            assert forall|i: int| 0 <= i < order@.len() implies (#[trigger] order@[i]) < x + 1 by {
                if i < p {
                    assert(order@[i] == before[i]);
                } else if i > p {
                    assert(order@[i] == before[i - 1]);
                }
            }
        }
        x = x + 1;
    }
    let lim = listing_limit(limit);
    let mut listed: Vec<usize> = Vec::new();
    let mut i: usize = 0;
    while i < order.len() && i < lim
        invariant
            n == created@.len(),
            order@.len() == n,
            i <= n,
            i <= lim,
            listed@ == order@.take(i as int),
        decreases n - i,
    {
        listed.push(order[i]);
        assert(order@.take(i + 1) =~= order@.take(i as int).push(order@[i as int]));
        i = i + 1;
    }
    proof {
        assert forall|y: int, k: int|
            #![trigger listed_before(created@, listed@[k] as int, y)]
            0 <= y < n && !listed@.contains(y as usize) && 0 <= k < listed@.len() implies listed_before(
            created@,
            listed@[k] as int,
            y,
        ) by {
            assert(order@.contains(y as usize));
            let m = choose|m: int| 0 <= m < order@.len() && order@[m] == y as usize;
            if m < i {
                assert(listed@[m] == y as usize);
            }
            assert(listed@[k] == order@[k]);
        }
        assert forall|a: int, b: int| 0 <= a < b < listed@.len() implies listed_before(
            created@,
            #[trigger] listed@[a] as int,
            #[trigger] listed@[b] as int,
        ) by {
            assert(listed@[a] == order@[a]);
            assert(listed@[b] == order@[b]);
        }
        assert forall|a: int| 0 <= a < listed@.len() implies (#[trigger] listed@[a]) < n by {
            assert(listed@[a] == order@[a]);
        }
    }
    listed
}

/// The newest record leads a listing, and a listing never holds more than was
/// asked for.
pub proof fn lemma_the_newest_leads(created: Seq<u128>, limit: Option<u32>, order: Seq<usize>, x: usize)
    requires
        newest_first_order(created, listing_limit_spec(limit), order),
        x < created.len(),
    ensures
        order.len() <= listing_limit_spec(limit),
        order.len() > 0 ==> created[order[0] as int] >= created[x as int],
{
    if order.len() > 0 && x != order[0] {
        if order.contains(x) {
            let k = choose|k: int| 0 <= k < order.len() && order[k] == x;
            assert(k != 0);
            assert(listed_before(created, order[0] as int, order[k] as int));
        } else {
            assert(listed_before(created, order[0] as int, x as int));
        }
    }
}

} // verus!
