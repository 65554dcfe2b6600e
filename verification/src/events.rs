//! # Everything one scan has said, numbered
//!
//! Exactly one reader per scan appends to this log, and a client reads it from
//! a cursor. Numbered from one, so a cursor of zero means everything; a host is
//! appended only when its document actually changed, which matters because a
//! port scan announces the same host again every time one of its ports
//! settles.
//!
//! The log itself is plain data. Whoever shares it between the reader and the
//! clients puts it behind a lock and wakes the clients when it grows.

use vstd::prelude::*;

use std::collections::HashMap;

use crate::convert::{stop_cause, stop_cause_spec};
use crate::engine::StopCause;
use crate::schema::{
    Event, EventBody, Finished, HostChanged, ScanProgress, ScannerFailed, StageChanged, StageName,
    StopCauseName,
};
use crate::text::same_text;

verus! {

broadcast use vstd::std_specs::hash::group_hash_axioms;

/// FNV-1a over `bytes`: the offset basis, then for each byte an exclusive or
/// and a multiplication by the FNV prime, wrapping.
pub open spec fn fnv(bytes: Seq<u8>) -> u64
    decreases bytes.len(),
{
    if bytes.len() == 0 {
        0xcbf2_9ce4_8422_2325
    } else {
        vstd::wrapping::u64_specs::wrapping_mul(
            fnv(bytes.drop_last()) ^ (bytes.last() as u64),
            0x0000_0100_0000_01b3,
        )
    }
}

/// The bytes a piece of text is written in.
pub open spec fn text_bytes(text: Seq<char>) -> Seq<u8> {
    vstd::utf8::encode_utf8(text)
}

/// FNV-1a, which is enough to answer "is this the same document as last time".
///
/// Nothing here is a security decision: the worst a collision costs is one
/// host update a client does not receive, and the next change to that host
/// sends the whole of its current state anyway.
pub fn hash(text: &str) -> (r: u64)
    ensures
        r == fnv(text_bytes(text@)),
{
    let bytes = text.as_bytes();
    let mut digest: u64 = 0xcbf2_9ce4_8422_2325;
    let mut i: usize = 0;
    assert(bytes@.take(0) =~= Seq::<u8>::empty());
    while i < bytes.len()
        invariant
            bytes@ == text_bytes(text@),
            i <= bytes@.len(),
            digest == fnv(bytes@.take(i as int)),
        decreases bytes@.len() - i,
    {
        assert(bytes@.take(i + 1).drop_last() =~= bytes@.take(i as int));
        digest = (digest ^ (bytes[i] as u64)).wrapping_mul(0x0000_0100_0000_01b3);
        i = i + 1;
    }
    assert(bytes@.take(bytes@.len() as int) =~= bytes@);
    digest
}

/// A copy of an event, the same in every field.
pub fn copy_event(event: &Event) -> (r: Event)
    ensures
        r == *event,
{
    let body = match &event.body {
        None => None,
        Some(EventBody::Host(host)) => Some(
            EventBody::Host(
                HostChanged { address: host.address.clone(), document: host.document.clone() },
            ),
        ),
        Some(EventBody::Stage(stage)) => Some(EventBody::Stage(*stage)),
        Some(EventBody::Progress(progress)) => Some(EventBody::Progress(*progress)),
        Some(EventBody::Failure(failure)) => Some(
            EventBody::Failure(
                ScannerFailed {
                    scanner: failure.scanner.clone(),
                    reason: failure.reason.clone(),
                },
            ),
        ),
        Some(EventBody::Finished(finished)) => Some(EventBody::Finished(*finished)),
    };
    Event { seq: event.seq, body }
}

/// Everything one scan has said, numbered from one.
pub struct EventLog {
    entries: Vec<Event>,
    /// The document last written down for each address, hashed, in buckets
    /// by the hash of the address.
    ///
    /// Hashed rather than kept, because the point of holding it is to answer
    /// whether the host changed and a hash answers that in eight bytes where
    /// the document itself can run to kilobytes per host.
    seen: HashMap<u64, Vec<(String, u64)>>,
    /// Set once the scan is over and nothing further will be appended.
    closed: bool,
}

impl EventLog {
    /// What the log holds, in order.
    pub closed spec fn events(&self) -> Seq<Event> {
        self.entries@
    }

    /// Whether the scan is over.
    pub closed spec fn is_over(&self) -> bool {
        self.closed
    }

    /// The digest of the document last written down for `address`, if any.
    pub closed spec fn remembered(&self, address: Seq<char>) -> Option<u64> {
        remembered_in(self.seen@, address)
    }

    /// Every entry carries its own position, counted from one; every bucket
    /// holds only addresses that hash to it, each once.
    #[verifier::type_invariant]
    closed spec fn well_formed(&self) -> bool {
        &&& forall|i: int| 0 <= i < self.entries@.len() ==> (#[trigger] self.entries@[i]).seq == i + 1
        &&& forall|k: u64| #[trigger]
            self.seen@.contains_key(k) ==> bucket_ok(self.seen@[k]@, k)
    }

    /// A log with nothing in it, for a scan that has said nothing yet.
    pub fn new() -> (r: EventLog)
        ensures
            r.events() == Seq::<Event>::empty(),
            !r.is_over(),
            forall|a: Seq<char>| #[trigger] r.remembered(a) is None,
    {
        EventLog { entries: Vec::new(), seen: HashMap::new(), closed: false }
    }

    /// How many entries there are, which is the number of the last one.
    pub fn watermark(&self) -> (r: u64)
        ensures
            r == self.events().len(),
            numbered(self.events()),
    {
        proof {
            use_type_invariant(self);
        }
        self.entries.len() as u64
    }

    /// Appends one entry, numbered one past the last, to a scan that is not
    /// over: once it is, nothing more is appended.
    pub fn push(&mut self, body: EventBody)
        requires
            !old(self).is_over(),
            old(self).events().len() < u64::MAX,
        ensures
            final(self).events() == old(self).events().push(
                Event { seq: (old(self).events().len() + 1) as u64, body: Some(body) },
            ),
            final(self).is_over() == old(self).is_over(),
            forall|a: Seq<char>| #[trigger] final(self).remembered(a) == old(self).remembered(a),
            numbered(final(self).events()),
    {
        proof {
            use_type_invariant(&*self);
        }
        let mut entries: Vec<Event> = Vec::new();
        std::mem::swap(&mut entries, &mut self.entries);
        let seq = entries.len() as u64 + 1;
        entries.push(Event { seq, body: Some(body) });
        std::mem::swap(&mut entries, &mut self.entries);
        proof {
            use_type_invariant(&*self);
        }
    }

    /// Everything after `cursor`, in order: the entries numbered above it.
    pub fn after(&self, cursor: u64) -> (r: Vec<Event>)
        ensures
            r@ == self.events().skip(
                if cursor < self.events().len() {
                    cursor as int
                } else {
                    self.events().len() as int
                },
            ),
            forall|i: int| 0 <= i < r@.len() ==> (#[trigger] r@[i]).seq > cursor,
            numbered(self.events()),
    {
        proof {
            use_type_invariant(self);
        }
        let n = self.entries.len();
        let mut i: usize = if cursor < n as u64 {
            cursor as usize
        } else {
            n
        };
        let start = i;
        let mut out: Vec<Event> = Vec::new();
        while i < n
            invariant
                n == self.entries@.len(),
                start <= i <= n,
                start == (if cursor < n { cursor as int } else { n as int }),
                out@ == self.entries@.subrange(start as int, i as int),
                forall|k: int| 0 <= k < self.entries@.len() ==> (#[trigger] self.entries@[k]).seq
                    == k + 1,
            decreases n - i,
        {
            out.push(copy_event(&self.entries[i]));
            assert(self.entries@.subrange(start as int, i + 1) =~= self.entries@.subrange(
                start as int,
                i as int,
            ).push(self.entries@[i as int]));
            i = i + 1;
        }
        assert(self.entries@.subrange(start as int, n as int) =~= self.entries@.skip(start as int));
        out
    }

    /// Says that nothing further will be appended.
    pub fn close(&mut self)
        ensures
            final(self).is_over(),
            final(self).events() == old(self).events(),
            forall|a: Seq<char>| #[trigger] final(self).remembered(a) == old(self).remembered(a),
    {
        proof {
            use_type_invariant(&*self);
        }
        self.closed = true;
    }

    /// Whether the scan is over.
    pub fn is_closed(&self) -> (r: bool)
        ensures
            r == self.is_over(),
    {
        self.closed
    }

    /// Whether this host has anything new to say, and remembers the answer.
    ///
    /// True unless the document last written down for `address` is the one
    /// given now, by its hash; either way that hash is what is remembered
    /// afterwards.
    #[verifier::rlimit(40)]
    pub fn changed(&mut self, address: &str, document: &str) -> (r: bool)
        ensures
            r == (old(self).remembered(address@) != Some(fnv(text_bytes(document@)))),
            final(self).remembered(address@) == Some(fnv(text_bytes(document@))),
            forall|a: Seq<char>|
                a != address@ ==> #[trigger] final(self).remembered(a) == old(self).remembered(a),
            final(self).events() == old(self).events(),
            final(self).is_over() == old(self).is_over(),
    {
        proof {
            use_type_invariant(&*self);
        }
        let digest = hash(document);
        let key = hash(address);
        let ghost old_seen = self.seen@;
        let mut seen: HashMap<u64, Vec<(String, u64)>> = HashMap::new();
        std::mem::swap(&mut seen, &mut self.seen);
        let mut bucket: Vec<(String, u64)> = match seen.remove(&key) {
            Some(b) => b,
            None => Vec::new(),
        };
        proof {
            if old_seen.contains_key(key) {
                assert(bucket == old_seen[key]);
            }
            assert(bucket_ok(bucket@, key));
        }
        let mut found: Option<usize> = None;
        let mut i: usize = 0;
        while i < bucket.len()
            invariant_except_break
                found is None,
            invariant
                i <= bucket@.len(),
                forall|j: int| 0 <= j < i ==> (#[trigger] bucket@[j]).0@ != address@,
            ensures
                found matches Some(f) ==> f < bucket@.len() && bucket@[f as int].0@ == address@,
                found is None ==> forall|j: int|
                    0 <= j < bucket@.len() ==> (#[trigger] bucket@[j]).0@ != address@,
            decreases bucket@.len() - i,
        {
            if same_text(bucket[i].0.as_str(), address) {
                found = Some(i);
                break;
            }
            i = i + 1;
        }
        let ghost before = bucket@;
        let was = match found {
            Some(f) => {
                let previous = bucket[f].1;
                bucket.set(f, (String::from_str(address), digest));
                assert(bucket@ =~= before.update(f as int, (bucket@[f as int].0, digest)));
                previous != digest
            },
            None => {
                bucket.push((String::from_str(address), digest));
                assert(bucket@.take(before.len() as int) =~= before);
                true
            },
        };
        proof {
            lemma_bucket_update(before, bucket@, key, address@, digest, found);
        }
        seen.insert(key, bucket);
        proof {
            lemma_remembered_after_update(
                old_seen,
                seen@,
                key,
                before,
                bucket@,
                address@,
                digest,
                found,
            );
        }
        std::mem::swap(&mut seen, &mut self.seen);
        was
    }
}


/// What the engine said about a scan, as the one reader hands it over: the
/// notice, with whatever the reader looked up to go with it.
pub enum Notice {
    /// A host changed. Its address, and its whole current document where the
    /// store still had the host and it could be written out.
    HostUpdated { address: String, document: Option<String> },
    /// The scan moved to another stage, and where it stands now.
    StageChanged { stage: StageName, progress: ScanProgress },
    /// One of the engine's scanners gave up.
    ScannerFailed { scanner: String, reason: String },
    /// Anything else, such as a notice that notices were dropped: the hosts it
    /// named are in the store, and the next thing that touches one writes its
    /// whole current state down.
    Other,
}

/// The address a notice is about, where it is about one host's document.
pub open spec fn notice_address(notice: Notice) -> Option<Seq<char>> {
    match notice {
        Notice::HostUpdated { address, document: Some(_) } => Some(address@),
        _ => None,
    }
}

/// What is remembered for `address` once `notice` has been heard: the new
/// document's digest where the notice gives one for that address, and what
/// was remembered before otherwise.
pub open spec fn remembers(remembered: Option<u64>, address: Seq<char>, notice: Notice) -> Option<u64> {
    if notice_address(notice) == Some(address) {
        match notice {
            Notice::HostUpdated { address: _, document: Some(document) } => Some(fnv(text_bytes(document@))),
            _ => remembered,
        }
    } else {
        remembered
    }
}

/// What is remembered for `address` once every notice of `notices` has been
/// heard, in order.
pub open spec fn memory_after(remembered: Option<u64>, address: Seq<char>, notices: Seq<Notice>) -> Option<u64>
    decreases notices.len(),
{
    if notices.len() == 0 {
        remembered
    } else {
        remembers(memory_after(remembered, address, notices.drop_last()), address, notices.last())
    }
}

/// The entry numbered one past the end of `events`.
pub open spec fn next_entry(events: Seq<Event>, body: EventBody) -> Event {
    Event { seq: (events.len() + 1) as u64, body: Some(body) }
}

/// The log's entries after one notice, given what was remembered for the host
/// it names: a host only where its document changed, a stage together with
/// where the scan now stands, a failure as it was reported, and nothing else.
pub open spec fn heard_events(events: Seq<Event>, remembered: Option<u64>, notice: Notice) -> Seq<Event> {
    match notice {
        Notice::HostUpdated { address, document: Some(document) } => if remembered != Some(
            fnv(text_bytes(document@)),
        ) {
            events.push(next_entry(events, EventBody::Host(HostChanged { address, document })))
        } else {
            events
        },
        Notice::HostUpdated { address: _, document: None } => events,
        Notice::StageChanged { stage, progress } => {
            let staged = events.push(
                next_entry(events, EventBody::Stage(StageChanged { stage: stage.number_spec() })),
            );
            staged.push(next_entry(staged, EventBody::Progress(progress)))
        },
        Notice::ScannerFailed { scanner, reason } => events.push(
            next_entry(events, EventBody::Failure(ScannerFailed { scanner, reason })),
        ),
        Notice::Other => events,
    }
}

impl EventLog {
    /// Writes down what one notice says.
    ///
    /// A host is appended only where its document changed since it was last
    /// written down, and the document is remembered either way; a stage is
    /// followed by where the scan now stands; a failure is appended as it was
    /// reported; anything else appends nothing.
    ///
    /// The log needs room only for what the notice appends: a host repeating
    /// the document it last gave is heard by a log of any length.
    pub fn heard(&mut self, notice: Notice)
        requires
            !old(self).is_over(),
            heard_events(
                old(self).events(),
                match notice_address(notice) {
                    Some(a) => old(self).remembered(a),
                    None => None,
                },
                notice,
            ).len() <= u64::MAX,
        ensures
            final(self).events() == heard_events(
                old(self).events(),
                match notice_address(notice) {
                    Some(a) => old(self).remembered(a),
                    None => None,
                },
                notice,
            ),
            final(self).is_over() == old(self).is_over(),
            notice matches Notice::HostUpdated { address, document: Some(document) }
                ==> final(self).remembered(address@) == Some(fnv(text_bytes(document@))),
            forall|a: Seq<char>|
                notice_address(notice) != Some(a)
                    ==> #[trigger] final(self).remembered(a) == old(self).remembered(a),
            forall|a: Seq<char>| #[trigger] final(self).remembered(a) == remembers(old(self).remembered(a), a, notice),
            numbered(final(self).events()),
    {
        let ghost before = self.events();
        match notice {
            Notice::HostUpdated { address, document: Some(document) } => {
                if self.changed(address.as_str(), document.as_str()) {
                    self.push(EventBody::Host(HostChanged { address, document }));
                } else {
                    self.watermark();
                }
            },
            Notice::HostUpdated { address: _, document: None } => {
                self.watermark();
            },
            Notice::StageChanged { stage, progress } => {
                self.push(EventBody::Stage(StageChanged { stage: stage.number() }));
                self.push(EventBody::Progress(progress));
            },
            Notice::ScannerFailed { scanner, reason } => {
                self.push(EventBody::Failure(ScannerFailed { scanner, reason }));
            },
            Notice::Other => {
                self.watermark();
            },
        }
    }

    /// Writes down that the scan is over, and why, as the last thing it says.
    pub fn ended(&mut self, cause: StopCauseName)
        requires
            !old(self).is_over(),
            old(self).events().len() < u64::MAX,
        ensures
            final(self).events() == old(self).events().push(
                next_entry(old(self).events(), EventBody::Finished(Finished { cause: cause.number_spec() })),
            ),
            final(self).is_over(),
            forall|a: Seq<char>| #[trigger] final(self).remembered(a) == old(self).remembered(a),
            numbered(final(self).events()),
    {
        self.push(EventBody::Finished(Finished { cause: cause.number() }));
        self.close();
        self.watermark();
    }

    /// Everything after `cursor`, or `None` where there is nothing yet and the
    /// scan is still going, which is the one answer a follower waits on.
    ///
    /// Empty only when the scan is over and the cursor has reached the end,
    /// which is how a follower knows to stop asking.
    pub fn ready(&self, cursor: u64) -> (r: Option<Vec<Event>>)
        ensures
            r is None <==> (cursor >= self.events().len() && !self.is_over()),
            r matches Some(entries) ==> entries@ == self.events().skip(
                if cursor < self.events().len() {
                    cursor as int
                } else {
                    self.events().len() as int
                },
            ),
            r matches Some(entries) ==> (entries@.len() == 0 <==> cursor >= self.events().len()),
    {
        let entries = self.after(cursor);
        if entries.len() > 0 || self.closed {
            Some(entries)
        } else {
            None
        }
    }
}

/// Why a scan ended, once its task is over: the engine's own cause where the
/// task ran to its end, which is `completed` where it names none, and aborted
/// where the task itself failed.
pub fn ending_cause(ran_to_end: bool, stopped: Option<StopCause>) -> (r: StopCauseName)
    ensures
        r == if ran_to_end {
            stop_cause_spec(stopped)
        } else {
            StopCauseName::Aborted
        },
{
    if ran_to_end {
        stop_cause(stopped)
    } else {
        StopCauseName::Aborted
    }
}

/// A host announced twice with the same document is written down once: the
/// second notice finds the document it left remembered and adds nothing, so
/// `EventLog::heard` asks no room of the log to hear it.
pub proof fn lemma_a_host_said_twice_is_written_once(
    events: Seq<Event>,
    remembered: Option<u64>,
    address: String,
    document: String,
)
    ensures
        ({
            let notice = Notice::HostUpdated { address, document: Some(document) };
            let once = heard_events(events, remembered, notice);
            heard_events(once, Some(fnv(text_bytes(document@))), notice) == once
        }),
{
}

/// Once a host has been written down with a document, it is not written down
/// again for that same document however many notices about other hosts, or
/// about none, were heard in between: a host is logged again only when its
/// document has changed.
pub proof fn lemma_an_unchanged_host_is_not_written_again(
    events: Seq<Event>,
    remembered: Option<u64>,
    address: String,
    document: String,
    between: Seq<Notice>,
)
    requires
        forall|i: int| 0 <= i < between.len() ==> notice_address(#[trigger] between[i]) != Some(address@),
    ensures
        ({
            let notice = Notice::HostUpdated { address, document: Some(document) };
            heard_events(events, memory_after(remembered, address@, seq![notice] + between), notice) == events
        }),
{
    let notice = Notice::HostUpdated { address, document: Some(document) };
    lemma_memory_survives(remembered, address@, notice, fnv(text_bytes(document@)), between);
}

/// The digest a notice leaves for a host outlasts notices that are not about it.
proof fn lemma_memory_survives(remembered: Option<u64>, address: Seq<char>, first: Notice, digest: u64, between: Seq<Notice>)
    requires
        remembers(remembered, address, first) == Some(digest),
        forall|i: int| 0 <= i < between.len() ==> notice_address(#[trigger] between[i]) != Some(address),
    ensures
        memory_after(remembered, address, seq![first] + between) == Some(digest),
    decreases between.len(),
{
    let all = seq![first] + between;
    if between.len() == 0 {
        assert(all.drop_last() =~= Seq::<Notice>::empty());
        assert(memory_after(remembered, address, all.drop_last()) == remembered);
        assert(all.last() == first);
    } else {
        let shorter = between.drop_last();
        assert forall|i: int| 0 <= i < shorter.len() implies notice_address(#[trigger] shorter[i]) != Some(address) by {
            assert(shorter[i] == between[i]);
        }
        lemma_memory_survives(remembered, address, first, digest, shorter);
        assert(all.drop_last() =~= seq![first] + shorter);
        assert(all.last() == between[between.len() - 1]);
        assert(notice_address(between[between.len() - 1]) != Some(address));
    }
}

/// What the log says is always numbered from one, whatever it hears: hearing
/// a notice only ever appends, each entry numbered one past the last.
pub proof fn lemma_hearing_only_appends(events: Seq<Event>, remembered: Option<u64>, notice: Notice)
    requires
        numbered(events),
        heard_events(events, remembered, notice).len() <= u64::MAX,
    ensures
        numbered(heard_events(events, remembered, notice)),
        heard_events(events, remembered, notice).take(events.len() as int) == events,
        heard_events(events, remembered, notice).len() <= events.len() + 2,
{
    let after = heard_events(events, remembered, notice);
    assert(after.take(events.len() as int) =~= events);
    assert forall|i: int| 0 <= i < after.len() implies (#[trigger] after[i]).seq == i + 1 by {
        if i < events.len() {
            assert(after[i] == events[i]);
        }
    }
}

/// Every entry carries its own position, counted from one.
pub open spec fn numbered(events: Seq<Event>) -> bool {
    forall|i: int| 0 <= i < events.len() ==> (#[trigger] events[i]).seq == i + 1
}

/// A follower that reads from a cursor, and later resumes from the number of
/// the last entry it read, has read everything after the cursor exactly once
/// and in order, whatever was appended in between.
pub proof fn lemma_resuming_misses_nothing(read: Seq<Event>, more: Seq<Event>, cursor: nat)
    requires
        numbered(read + more),
        cursor < read.len(),
    ensures
        read.skip(cursor as int).last().seq == read.len(),
        read.skip(cursor as int) + (read + more).skip(read.len() as int) == (read + more).skip(
            cursor as int,
        ),
{
    assert((read + more)[read.len() - 1] == read[read.len() - 1]);
    assert(read.skip(cursor as int) + (read + more).skip(read.len() as int) =~= (read + more).skip(
        cursor as int,
    ));
}

/// Every host as it now stands and then where the scan is, all numbered with
/// the log's current mark: they describe the scan as of one moment, and a
/// client resuming from that mark has missed nothing.
pub fn caught_up(hosts: &Vec<HostChanged>, progress: ScanProgress, seq: u64) -> (r: Vec<Event>)
    ensures
        r@.len() == hosts@.len() + 1,
        forall|i: int| 0 <= i < r@.len() ==> (#[trigger] r@[i]).seq == seq,
        forall|i: int|
            0 <= i < hosts@.len() ==> (#[trigger] r@[i]).body == Some(EventBody::Host(hosts@[i])),
        r@.last().body == Some(EventBody::Progress(progress)),
{
    let mut out: Vec<Event> = Vec::new();
    let n = hosts.len();
    let mut i: usize = 0;
    while i < n
        invariant
            n == hosts@.len(),
            i <= n,
            out@.len() == i,
            forall|k: int| 0 <= k < out@.len() ==> (#[trigger] out@[k]).seq == seq,
            forall|k: int|
                0 <= k < out@.len() ==> (#[trigger] out@[k]).body == Some(EventBody::Host(hosts@[k])),
        decreases n - i,
    {
        let host = &hosts[i];
        let copy = HostChanged { address: host.address.clone(), document: host.document.clone() };
        out.push(Event { seq, body: Some(EventBody::Host(copy)) });
        i = i + 1;
    }
    out.push(Event { seq, body: Some(EventBody::Progress(progress)) });
    out
}

/// A bucket holds only addresses that hash to its key, each once.
pub open spec fn bucket_ok(bucket: Seq<(String, u64)>, key: u64) -> bool {
    &&& forall|i: int| 0 <= i < bucket.len() ==> fnv(text_bytes((#[trigger] bucket[i]).0@)) == key
    &&& forall|i: int, j: int|
        0 <= i < j < bucket.len() ==> (#[trigger] bucket[i]).0@ != (#[trigger] bucket[j]).0@
}

/// Writing `digest` for `address` into a bucket that either held it at
/// `found` or did not hold it keeps the bucket well formed.
proof fn lemma_bucket_update(
    before: Seq<(String, u64)>,
    after: Seq<(String, u64)>,
    key: u64,
    address: Seq<char>,
    digest: u64,
    found: Option<usize>,
)
    requires
        bucket_ok(before, key),
        fnv(text_bytes(address)) == key,
        found matches Some(f) ==> f < before.len() && before[f as int].0@ == address && after
            == before.update(f as int, (after[f as int].0, digest)) && after[f as int].0@ == address,
        found is None ==> (forall|j: int| 0 <= j < before.len() ==> (#[trigger] before[j]).0@ != address)
            && after.len() == before.len() + 1 && after.take(before.len() as int) == before
            && after.last().0@ == address && after.last().1 == digest,
    ensures
        bucket_ok(after, key),
{
    match found {
        Some(f) => {
            assert forall|i: int, j: int|
                0 <= i < j < after.len() implies (#[trigger] after[i]).0@ != (#[trigger] after[j]).0@ by {
                if i != f && j != f {
                    assert(after[i] == before[i] && after[j] == before[j]);
                } else if i == f {
                    assert(after[j] == before[j]);
                } else {
                    assert(after[i] == before[i]);
                }
            }
            assert forall|i: int| 0 <= i < after.len() implies fnv(text_bytes((#[trigger] after[i]).0@)) == key by {
                if i != f {
                    assert(after[i] == before[i]);
                }
            }
        },
        None => {
            assert forall|i: int| 0 <= i < before.len() implies (#[trigger] after[i]) == before[i] by {
                assert(after.take(before.len() as int)[i] == after[i]);
            }
            assert forall|i: int, j: int|
                0 <= i < j < after.len() implies (#[trigger] after[i]).0@ != (#[trigger] after[j]).0@ by {
                if j == before.len() {
                    assert(after[i] == before[i]);
                } else {
                    assert(after[i] == before[i] && after[j] == before[j]);
                }
            }
            assert forall|i: int| 0 <= i < after.len() implies fnv(text_bytes((#[trigger] after[i]).0@)) == key by {
                if i < before.len() {
                    assert(after[i] == before[i]);
                }
            }
        },
    }
}

/// The digest the buckets hold for `address`, if any.
pub open spec fn remembered_in(seen: Map<u64, Vec<(String, u64)>>, address: Seq<char>) -> Option<u64> {
    let key = fnv(text_bytes(address));
    if seen.contains_key(key) && exists|i: int|
        0 <= i < seen[key]@.len() && (#[trigger] seen[key]@[i]).0@ == address {
        let i = choose|i: int| 0 <= i < seen[key]@.len() && (#[trigger] seen[key]@[i]).0@ == address;
        Some(seen[key]@[i].1)
    } else {
        None
    }
}

/// What is remembered for each address after one bucket was rewritten: the
/// new digest for the address written, and what was there before for every
/// other.
#[verifier::spinoff_prover]
#[verifier::rlimit(30)]
proof fn lemma_remembered_after_update(
    old_seen: Map<u64, Vec<(String, u64)>>,
    new_seen: Map<u64, Vec<(String, u64)>>,
    key: u64,
    before: Seq<(String, u64)>,
    after: Seq<(String, u64)>,
    address: Seq<char>,
    digest: u64,
    found: Option<usize>,
)
    requires
        fnv(text_bytes(address)) == key,
        old_seen.contains_key(key) ==> old_seen[key]@ == before,
        !old_seen.contains_key(key) ==> before.len() == 0,
        new_seen.contains_key(key),
        new_seen[key]@ == after,
        forall|k: u64| k != key ==> #[trigger] new_seen.contains_key(k) == old_seen.contains_key(k),
        forall|k: u64| k != key && old_seen.contains_key(k) ==> #[trigger] new_seen[k] == old_seen[k],
        bucket_ok(before, key),
        bucket_ok(after, key),
        found matches Some(f) ==> f < before.len() && before[f as int].0@ == address && after
            == before.update(f as int, (after[f as int].0, digest)) && after[f as int].0@ == address,
        found is None ==> (forall|j: int| 0 <= j < before.len() ==> (#[trigger] before[j]).0@ != address)
            && after.len() == before.len() + 1 && after.take(before.len() as int) == before
            && after.last().0@ == address && after.last().1 == digest,
    ensures
        remembered_in(new_seen, address) == Some(digest),
        forall|a: Seq<char>| a != address ==> #[trigger] remembered_in(new_seen, a) == remembered_in(old_seen, a),
{
    let pos: int = match found {
        Some(f) => f as int,
        None => before.len() as int,
    };
    assert(after[pos].0@ == address && after[pos].1 == digest);
    assert(0 <= pos < new_seen[key]@.len() && new_seen[key]@[pos].0@ == address);
    let i = choose|i: int| 0 <= i < new_seen[key]@.len() && (#[trigger] new_seen[key]@[i]).0@ == address;
    if i != pos {
        if i < pos {
            assert(after[i].0@ != after[pos].0@);
        } else {
            assert(after[pos].0@ != after[i].0@);
        }
    }
    assert forall|a: Seq<char>| a != address implies #[trigger] remembered_in(new_seen, a) == remembered_in(old_seen, a) by {
        let k = fnv(text_bytes(a));
        if k != key {
            assert(new_seen.contains_key(k) == old_seen.contains_key(k));
            if old_seen.contains_key(k) {
                assert(new_seen[k] == old_seen[k]);
            }
        }
        if k == key {
            // The same positions hold `a` before and after.
            assert forall|j: int| 0 <= j < after.len() && j != pos implies #[trigger] after[j] == before[j] by {
                if found is None {
                    assert(after.take(before.len() as int)[j] == after[j]);
                }
            }
            if exists|j: int| 0 <= j < after.len() && (#[trigger] after[j]).0@ == a {
                let j = choose|j: int| 0 <= j < after.len() && (#[trigger] after[j]).0@ == a;
                assert(j != pos);
                assert(before[j].0@ == a);
                assert(old_seen.contains_key(key));
                let jo = choose|j: int| 0 <= j < old_seen[key]@.len() && (#[trigger] old_seen[key]@[j]).0@ == a;
                if jo != j {
                    if jo < j {
                        assert(before[jo].0@ != before[j].0@);
                    } else {
                        assert(before[j].0@ != before[jo].0@);
                    }
                }
            } else {
                assert forall|j: int| 0 <= j < before.len() implies (#[trigger] before[j]).0@ != a by {
                    if j != pos {
                        assert(after[j] == before[j]);
                    } else {
                        assert(before[j].0@ == address);
                    }
                }
            }
        }
    }
}

} // verus!
