use zond_daemon::events::{caught_up, ending_cause, hash, EventLog, Notice};
use zond_daemon::schema::{
    EventBody, HostChanged, ScanProgress, StageName, StopCauseName,
};
use zond_daemon::engine::StopCause;

fn progress(stage: StageName) -> ScanProgress {
    ScanProgress {
        stage: stage.number(),
        stage_done: Some(1),
        stage_total: Some(8),
        overall_done: None,
        overall_total: None,
    }
}

#[test]
fn the_hash_is_fnv_1a() {
    assert_eq!(hash(""), 0xcbf2_9ce4_8422_2325);
    assert_eq!(hash("a"), 0xaf63_dc4c_8601_ec8c);
    assert_eq!(hash("foobar"), 0x8594_4171_f739_67e8);
}

#[test]
fn a_log_is_numbered_from_one() {
    let mut log = EventLog::new();
    assert_eq!(log.watermark(), 0);

    log.push(EventBody::Progress(progress(StageName::Ports)));
    log.push(EventBody::Progress(progress(StageName::Services)));

    assert_eq!(log.watermark(), 2);
    let all = log.after(0);
    assert_eq!(all.len(), 2);
    assert_eq!(all[0].seq, 1);
    assert_eq!(all[1].seq, 2);
}

#[test]
fn a_cursor_hands_back_only_what_came_after_it() {
    let mut log = EventLog::new();
    for _ in 0..5 {
        log.push(EventBody::Progress(progress(StageName::Ports)));
    }

    let tail = log.after(3);
    assert_eq!(tail.iter().map(|e| e.seq).collect::<Vec<_>>(), vec![4, 5]);
    assert!(log.after(5).is_empty());
    assert!(log.after(99).is_empty());
}

#[test]
fn a_host_is_written_down_only_when_it_changed() {
    let mut log = EventLog::new();

    assert!(log.changed("10.0.0.1", "{\"ports\":[]}"));
    assert!(!log.changed("10.0.0.1", "{\"ports\":[]}"), "the same document again");
    assert!(log.changed("10.0.0.2", "{\"ports\":[]}"), "another host");
    assert!(log.changed("10.0.0.1", "{\"ports\":[22]}"), "a new port");
    assert!(!log.changed("10.0.0.1", "{\"ports\":[22]}"));
}

#[test]
fn a_host_announced_twice_is_appended_once() {
    let mut log = EventLog::new();
    let host = || Notice::HostUpdated {
        address: "10.0.0.1".to_string(),
        document: Some("{\"ports\":[22]}".to_string()),
    };

    log.heard(host());
    log.heard(host());

    let all = log.after(0);
    assert_eq!(all.len(), 1, "{all:?}");
    assert_eq!(
        all[0].body,
        Some(EventBody::Host(HostChanged {
            address: "10.0.0.1".to_string(),
            document: "{\"ports\":[22]}".to_string(),
        }))
    );
}

#[test]
fn a_host_the_store_no_longer_has_appends_nothing() {
    let mut log = EventLog::new();

    log.heard(Notice::HostUpdated { address: "10.0.0.1".to_string(), document: None });
    log.heard(Notice::Other);

    assert_eq!(log.watermark(), 0);
}

#[test]
fn a_stage_is_followed_by_where_the_scan_stands() {
    let mut log = EventLog::new();

    log.heard(Notice::StageChanged { stage: StageName::Ports, progress: progress(StageName::Ports) });

    let all = log.after(0);
    assert_eq!(all.len(), 2);
    match &all[0].body {
        Some(EventBody::Stage(stage)) => assert_eq!(stage.stage, StageName::Ports.number()),
        other => panic!("{other:?}"),
    }
    assert_eq!(all[1].body, Some(EventBody::Progress(progress(StageName::Ports))));
}

#[test]
fn a_failed_scanner_is_written_down_as_reported() {
    let mut log = EventLog::new();

    log.heard(Notice::ScannerFailed { scanner: "Tcp".to_string(), reason: "no route".to_string() });

    match &log.after(0)[0].body {
        Some(EventBody::Failure(failure)) => {
            assert_eq!(failure.scanner, "Tcp");
            assert_eq!(failure.reason, "no route");
        }
        other => panic!("{other:?}"),
    }
}

#[test]
fn the_last_thing_a_scan_says_is_that_it_is_over() {
    let mut log = EventLog::new();
    log.push(EventBody::Progress(progress(StageName::Ports)));
    assert!(!log.is_closed());
    assert!(log.ready(1).is_none(), "nothing yet, and more to come");

    log.ended(StopCauseName::Completed);

    assert!(log.is_closed());
    let all = log.after(0);
    match &all.last().expect("an entry").body {
        Some(EventBody::Finished(finished)) => {
            assert_eq!(finished.cause, StopCauseName::Completed.number())
        }
        other => panic!("{other:?}"),
    }
    assert_eq!(log.ready(2), Some(Vec::new()), "over, and read to the end");
    assert_eq!(log.ready(1).map(|v| v.len()), Some(1));
}

#[test]
fn a_task_that_failed_is_an_aborted_scan() {
    assert_eq!(ending_cause(false, None), StopCauseName::Aborted);
    assert_eq!(ending_cause(true, None), StopCauseName::Completed);
    assert_eq!(ending_cause(true, Some(StopCause::TimedOut)), StopCauseName::TimedOut);
}

#[test]
fn a_late_follower_is_handed_every_host_and_then_where_the_scan_is() {
    let hosts = vec![
        HostChanged { address: "10.0.0.1".to_string(), document: "{}".to_string() },
        HostChanged { address: "10.0.0.2".to_string(), document: "{}".to_string() },
    ];

    let snapshot = caught_up(&hosts, progress(StageName::Finishing), 7);

    assert_eq!(snapshot.len(), 3);
    assert!(snapshot.iter().all(|e| e.seq == 7));
    assert_eq!(snapshot[0].body, Some(EventBody::Host(hosts[0].clone())));
    assert_eq!(snapshot[2].body, Some(EventBody::Progress(progress(StageName::Finishing))));
}
