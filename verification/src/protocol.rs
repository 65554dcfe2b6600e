//! # The protocol, one JSON object per line
//!
//! What is decided here is everything about a line that is not reading or
//! writing it: which lines are nothing at all, which method a request names,
//! and how far a follower has read.
//!
//! A follower passes the number of the last entry it read and is answered with
//! everything after it, so a client that went away and came back misses
//! nothing and is told nothing twice. From zero it is first handed every host
//! as it now stands.

use vstd::prelude::*;

use crate::error::Error;
use crate::events::numbered;
use crate::schema::Event;
use crate::text::same_text;

verus! {

/// What a request asks for.
#[derive(Debug, Clone, Copy, PartialEq, Eq)]
pub enum Method {
    /// A port scan, a discovery sweep or a listen, by the kind on the request.
    Start,
    /// Follow one from a cursor: what it has found, then what it finds next.
    Watch,
    /// Where it got to, as one answer.
    Get,
    /// Wind it down, keeping what it already found.
    Stop,
    /// Write a finished one down in one of the report formats.
    Export,
    /// The scans this daemon has a record of, newest first.
    List,
    /// Throw away the records nobody asked to keep.
    Prune,
    /// Continue one that stopped part way, from the plan in its record.
    Resume,
    /// What changed between two of them.
    Diff,
    /// Several folded into one report.
    Merge,
    /// What a scan would check for, without scanning.
    Detections,
}

/// The method a request's name names, where it names one.
pub open spec fn method_named(name: Seq<char>) -> Option<Method> {
    if name == "start"@ {
        Some(Method::Start)
    } else if name == "watch"@ {
        Some(Method::Watch)
    } else if name == "get"@ {
        Some(Method::Get)
    } else if name == "stop"@ {
        Some(Method::Stop)
    } else if name == "export"@ {
        Some(Method::Export)
    } else if name == "list"@ {
        Some(Method::List)
    } else if name == "prune"@ {
        Some(Method::Prune)
    } else if name == "resume"@ {
        Some(Method::Resume)
    } else if name == "diff"@ {
        Some(Method::Diff)
    } else if name == "merge"@ {
        Some(Method::Merge)
    } else if name == "detections"@ {
        Some(Method::Detections)
    } else {
        None
    }
}

/// The method a request names, or the refusal of a method this build does
/// not have, naming it.
pub fn method_of(name: &str) -> (r: Result<Method, Error>)
    ensures
        r matches Ok(m) ==> method_named(name@) == Some(m),
        r is Err <==> method_named(name@) is None,
        r matches Err(e) ==> e.code_text() == "rpc.unknown_method"@ && e.message_text()
            == "no method named "@ + name@,
{
    if same_text(name, "start") {
        Ok(Method::Start)
    } else if same_text(name, "watch") {
        Ok(Method::Watch)
    } else if same_text(name, "get") {
        Ok(Method::Get)
    } else if same_text(name, "stop") {
        Ok(Method::Stop)
    } else if same_text(name, "export") {
        Ok(Method::Export)
    } else if same_text(name, "list") {
        Ok(Method::List)
    } else if same_text(name, "prune") {
        Ok(Method::Prune)
    } else if same_text(name, "resume") {
        Ok(Method::Resume)
    } else if same_text(name, "diff") {
        Ok(Method::Diff)
    } else if same_text(name, "merge") {
        Ok(Method::Merge)
    } else if same_text(name, "detections") {
        Ok(Method::Detections)
    } else {
        Err(Error::no_such_method(name))
    }
}

/// Whether a character has the Unicode `White_Space` property, which is what
/// `char::is_whitespace` answers.
pub open spec fn white_space(c: char) -> bool {
    let n = c as u32;
    ||| 0x09 <= n <= 0x0d
    ||| n == 0x20
    ||| n == 0x85
    ||| n == 0xa0
    ||| n == 0x1680
    ||| 0x2000 <= n <= 0x200a
    ||| n == 0x2028
    ||| n == 0x2029
    ||| n == 0x202f
    ||| n == 0x205f
    ||| n == 0x3000
}

/// Whether a character has the Unicode `White_Space` property.
pub fn is_white_space(c: char) -> (r: bool)
    ensures
        r == white_space(c),
{
    let n = c as u32;
    (0x09 <= n && n <= 0x0d) || n == 0x20 || n == 0x85 || n == 0xa0 || n == 0x1680 || (0x2000 <= n
        && n <= 0x200a) || n == 0x2028 || n == 0x2029 || n == 0x202f || n == 0x205f || n == 0x3000
}

/// Whether a line holds nothing but white space, which is nothing at all
/// rather than a malformed request.
pub fn is_blank(line: &str) -> (r: bool)
    ensures
        r == forall|i: int| 0 <= i < line@.len() ==> white_space(#[trigger] line@[i]),
{
    let n = line.unicode_len();
    let mut i: usize = 0;
    while i < n
        invariant
            n == line@.len(),
            i <= n,
            forall|j: int| 0 <= j < i ==> white_space(#[trigger] line@[j]),
        decreases n - i,
    {
        if !is_white_space(line.get_char(i)) {
            return false;
        }
        i = i + 1;
    }
    true
}

/// Whether a follower starting at `cursor` is first handed every host as it
/// now stands: only one that has read nothing yet, which sees what it missed as
/// one entry per host rather than as the whole history of how each got that
/// way.
pub fn starts_with_snapshot(cursor: u64) -> (r: bool)
    ensures
        r == (cursor == 0),
{
    cursor == 0
}

/// The furthest a follower has read: its cursor, or the number of the last
/// entry it was handed where that is further.
pub open spec fn read_up_to(cursor: u64, handed: Seq<Event>) -> u64
    decreases handed.len(),
{
    if handed.len() == 0 {
        cursor
    } else {
        let before = read_up_to(cursor, handed.drop_last());
        if handed.last().seq > before {
            handed.last().seq
        } else {
            before
        }
    }
}

/// Where a follower reads from next, once it has been handed `handed`.
pub fn next_cursor(cursor: u64, handed: &Vec<Event>) -> (r: u64)
    ensures
        r == read_up_to(cursor, handed@),
        r >= cursor,
        forall|i: int| 0 <= i < handed@.len() ==> (#[trigger] handed@[i]).seq <= r,
{
    let mut at = cursor;
    let mut i: usize = 0;
    while i < handed.len()
        invariant
            i <= handed@.len(),
            at == read_up_to(cursor, handed@.take(i as int)),
            at >= cursor,
            forall|k: int| 0 <= k < i ==> (#[trigger] handed@[k]).seq <= at,
        decreases handed@.len() - i,
    {
        assert(handed@.take(i + 1).drop_last() =~= handed@.take(i as int));
        if handed[i].seq > at {
            at = handed[i].seq;
        }
        i = i + 1;
    }
    assert(handed@.take(handed@.len() as int) =~= handed@);
    at
}

/// Where a follower reads from once it has been handed the snapshot its
/// cursor asked for: the snapshot's own mark for one that started from zero,
/// so what follows is only what happened after the moment the snapshot
/// describes, and its own cursor for any other, which was handed no snapshot.
pub fn cursor_after_snapshot(from_seq: u64, snapshot: &Vec<Event>) -> (r: u64)
    ensures
        from_seq == 0 ==> r == read_up_to(0, snapshot@),
        from_seq != 0 ==> r == from_seq,
{
    if starts_with_snapshot(from_seq) {
        next_cursor(0, snapshot)
    } else {
        from_seq
    }
}

/// A snapshot whose entries all carry one mark hands a follower over at that
/// mark: reading on from it, the follower is handed only entries numbered
/// above the moment the snapshot describes.
pub proof fn lemma_a_snapshot_hands_over_at_its_mark(snapshot: Seq<Event>, mark: u64)
    requires
        snapshot.len() > 0,
        forall|i: int| 0 <= i < snapshot.len() ==> (#[trigger] snapshot[i]).seq == mark,
    ensures
        read_up_to(0, snapshot) == mark,
    decreases snapshot.len(),
{
    let before = snapshot.drop_last();
    assert(snapshot.last().seq == mark);
    if snapshot.len() > 1 {
        assert forall|i: int| 0 <= i < before.len() implies (#[trigger] before[i]).seq == mark by {
            assert(before[i] == snapshot[i]);
        }
        lemma_a_snapshot_hands_over_at_its_mark(before, mark);
    } else {
        assert(read_up_to(0, before) == 0);
    }
}

/// A follower handed everything after its cursor moves its cursor to the
/// end of what the log held, so what it is handed next starts exactly where
/// this left off: nothing missed and nothing twice.
pub proof fn lemma_a_follower_resumes_where_it_stopped(events: Seq<Event>, cursor: u64)
    requires
        numbered(events),
        cursor < events.len(),
    ensures
        read_up_to(cursor, events.skip(cursor as int)) == events.len(),
{
    let handed = events.skip(cursor as int);
    lemma_read_up_to_numbered(events, cursor, handed.len() as int);
    assert(handed.take(handed.len() as int) =~= handed);
}

/// Reading a numbered log from `cursor`, the furthest read after `k` entries
/// is the number of the `k`th.
proof fn lemma_read_up_to_numbered(events: Seq<Event>, cursor: u64, k: int)
    requires
        numbered(events),
        cursor < events.len(),
        0 <= k <= events.len() - cursor,
    ensures
        read_up_to(cursor, events.skip(cursor as int).take(k)) == cursor + k,
    decreases k,
{
    let handed = events.skip(cursor as int);
    if k > 0 {
        lemma_read_up_to_numbered(events, cursor, k - 1);
        assert(handed.take(k).drop_last() =~= handed.take(k - 1));
        assert(handed.take(k).last() == events[cursor + k - 1]);
    } else {
        assert(handed.take(0) =~= Seq::<Event>::empty());
    }
}

} // verus!
