use zond_daemon::events::{caught_up, EventLog};
use zond_daemon::protocol::{
    cursor_after_snapshot, is_blank, is_white_space, method_of, next_cursor, Method,
};
use zond_daemon::schema::{HostChanged, ScanProgress};
use zond_daemon::schema::{Event, EventBody, StageChanged};

fn entry(seq: u64) -> Event {
    Event { seq, body: Some(EventBody::Stage(StageChanged { stage: 2 })) }
}

#[test]
fn every_method_is_found_by_its_name() {
    assert_eq!(method_of("start"), Ok(Method::Start));
    assert_eq!(method_of("watch"), Ok(Method::Watch));
    assert_eq!(method_of("get"), Ok(Method::Get));
    assert_eq!(method_of("stop"), Ok(Method::Stop));
    assert_eq!(method_of("export"), Ok(Method::Export));
    assert_eq!(method_of("list"), Ok(Method::List));
    assert_eq!(method_of("prune"), Ok(Method::Prune));
    assert_eq!(method_of("resume"), Ok(Method::Resume));
    assert_eq!(method_of("diff"), Ok(Method::Diff));
    assert_eq!(method_of("merge"), Ok(Method::Merge));
    assert_eq!(method_of("detections"), Ok(Method::Detections));
}

#[test]
fn a_method_this_build_does_not_have_is_refused_by_name() {
    let refused = method_of("teleport").expect_err("nobody wrote teleport");

    assert_eq!(refused.code(), "rpc.unknown_method");
    assert!(refused.message().contains("teleport"), "{}", refused.text());
    assert!(method_of("Start").is_err(), "names are exact");
    assert!(method_of("").is_err());
}

#[test]
fn a_blank_line_is_not_an_error() {
    assert!(is_blank(""));
    assert!(is_blank("   "));
    assert!(is_blank("\t \r"));
    assert!(is_blank("\u{3000}\u{a0}"));
    assert!(!is_blank(" {} "));
    assert!(!is_blank("x"));
}

#[test]
fn white_space_is_what_rust_calls_white_space() {
    for code in 0u32..0x3100 {
        if let Some(c) = char::from_u32(code) {
            assert_eq!(is_white_space(c), c.is_whitespace(), "{code:#x}");
        }
    }
}

#[test]
fn a_follower_moves_to_the_last_entry_it_was_handed() {
    assert_eq!(next_cursor(0, &Vec::new()), 0);
    assert_eq!(next_cursor(3, &Vec::new()), 3);
    assert_eq!(next_cursor(3, &vec![entry(4), entry(5), entry(6)]), 6);
    assert_eq!(next_cursor(9, &vec![entry(4)]), 9, "never backwards");
}

#[test]
fn a_watcher_from_zero_is_handed_over_at_the_snapshot_mark() {
    let mut log = EventLog::new();
    for _ in 0..5 {
        log.push(EventBody::Stage(StageChanged { stage: 2 }));
    }
    let hosts = vec![HostChanged { address: "10.0.0.1".to_string(), document: "{}".to_string() }];
    let progress = ScanProgress { stage: 2, stage_done: None, stage_total: None, overall_done: None, overall_total: None };
    let snapshot = caught_up(&hosts, progress, log.watermark());

    let cursor = cursor_after_snapshot(0, &snapshot);

    assert_eq!(cursor, 5);
    assert!(log.after(cursor).is_empty(), "nothing from before the snapshot is handed again");
    log.push(EventBody::Stage(StageChanged { stage: 3 }));
    let next = log.after(cursor);
    assert_eq!(next.len(), 1);
    assert_eq!(next[0].seq, 6);
}

#[test]
fn a_watcher_resuming_from_a_cursor_keeps_it() {
    let snapshot = vec![entry(9)];
    assert_eq!(cursor_after_snapshot(4, &snapshot), 4);
}
