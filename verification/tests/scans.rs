use zond_daemon::scans::{
    listing_limit, newest_first, planned, progress_of, record_named, recorded_events,
    recorded_state, scan_state, settled, DEFAULT_LISTING,
};
use zond_daemon::events::EventLog;
use zond_daemon::schema::{EventBody, HostChanged, StageName, StopCauseName};
use zond_daemon::engine::StopCause;
use zond_daemon::engine::Stage;

#[test]
fn a_listing_that_names_no_limit_holds_a_hundred() {
    assert_eq!(DEFAULT_LISTING, 100);
    assert_eq!(listing_limit(None), 100);
    assert_eq!(listing_limit(Some(0)), 100);
    assert_eq!(listing_limit(Some(1)), 1);
    assert_eq!(listing_limit(Some(500)), 500);
}

#[test]
fn the_newest_scan_is_listed_first() {
    let created = vec![10, 30, 20];

    assert_eq!(newest_first(&created, None), vec![1, 2, 0]);
    assert_eq!(newest_first(&created, Some(1)), vec![1], "a limit is a limit");
    assert_eq!(newest_first(&Vec::new(), None), Vec::<usize>::new());
}

#[test]
fn scans_started_together_keep_the_order_they_were_found_in() {
    let created = vec![5, 7, 5, 7, 1];

    assert_eq!(newest_first(&created, None), vec![1, 3, 0, 2, 4]);
    assert_eq!(newest_first(&created, Some(3)), vec![1, 3, 0]);
}

#[test]
fn a_long_listing_stops_at_the_default() {
    let created: Vec<u128> = (0..250).collect();
    let listed = newest_first(&created, None);

    assert_eq!(listed.len(), 100);
    assert_eq!(listed[0], 249);
    assert_eq!(listed[99], 150);
}

#[test]
fn progress_carries_each_count_the_engine_has() {
    let p = progress_of(Stage::Ports, Some((3, 10)), None);

    assert_eq!(p.stage, StageName::Ports.number());
    assert_eq!(p.stage_done, Some(3));
    assert_eq!(p.stage_total, Some(10));
    assert_eq!(p.overall_done, None);
    assert_eq!(p.overall_total, None);

    let q = progress_of(Stage::Services, None, Some((40, 80)));
    assert_eq!(q.stage_done, None);
    assert_eq!(q.overall_done, Some(40));
    assert_eq!(q.overall_total, Some(80));
}

#[test]
fn a_running_scan_names_no_cause() {
    let mut log = EventLog::new();
    let p = progress_of(Stage::Ports, None, None);

    let running = scan_state("0000000000001", &log, None, p);
    assert!(running.running);
    assert_eq!(running.cause, None);
    assert_eq!(running.seq, 0);
    assert_eq!(running.scan_id, "0000000000001");

    log.ended(StopCauseName::Completed);
    let over = scan_state("0000000000001", &log, None, p);
    assert!(!over.running);
    assert_eq!(over.cause, Some(StopCauseName::Completed.number()));
    assert_eq!(over.seq, 1);

    let stopped = scan_state("0000000000001", &log, Some(StopCause::Aborted), p);
    assert_eq!(stopped.cause, Some(StopCauseName::Aborted.number()));
}

#[test]
fn a_recorded_scan_answers_one_entry_per_host_then_where_it_stands() {
    let hosts = vec![
        HostChanged { address: "10.0.0.1".to_string(), document: "{}".to_string() },
        HostChanged { address: "10.0.0.2".to_string(), document: "{}".to_string() },
    ];

    let events = recorded_events(hosts.iter().cloned().map(Some).collect());

    assert_eq!(events.len(), 3);
    assert_eq!(events[0].seq, 1);
    assert_eq!(events[1].seq, 2);
    assert_eq!(events[1].body, Some(EventBody::Host(hosts[1].clone())));
    assert_eq!(events[2].seq, 2);
    match &events[2].body {
        Some(EventBody::Progress(progress)) => {
            assert_eq!(progress.stage, StageName::Finishing.number());
            assert_eq!(progress.overall_done, None);
        }
        other => panic!("the snapshot ends with where the scan stands, not {other:?}"),
    }
}

#[test]
fn a_host_the_record_could_not_write_down_leaves_its_number_unused() {
    let kept = HostChanged { address: "10.0.0.3".to_string(), document: "{}".to_string() };

    let events = recorded_events(vec![None, None, Some(kept.clone())]);

    assert_eq!(events.len(), 2);
    assert_eq!(events[0].seq, 3);
    assert_eq!(events[0].body, Some(EventBody::Host(kept)));
    assert_eq!(events[1].seq, 3);
}

#[test]
fn an_empty_record_still_says_where_the_scan_stands() {
    let events = recorded_events(Vec::new());

    assert_eq!(events.len(), 1);
    assert_eq!(events[0].seq, 0);
    assert!(matches!(events[0].body, Some(EventBody::Progress(_))));
}

#[test]
fn a_recorded_scan_is_not_running_and_guesses_no_cause() {
    let state = recorded_state("0384HF6YZY000", 4);

    assert_eq!(state.scan_id, "0384HF6YZY000");
    assert!(!state.running);
    assert_eq!(state.cause, None);
    assert_eq!(state.seq, 4);
    assert_eq!(state.progress.map(|p| p.stage), Some(StageName::Finishing.number()));
}

#[test]
fn a_plan_too_large_for_the_field_is_left_out_rather_than_clamped() {
    assert_eq!(planned(3), Some(3));
    assert_eq!(planned(u64::MAX as u128), Some(u64::MAX));
    assert_eq!(planned(u64::MAX as u128 + 1), None);
    assert_eq!(settled(Some(7)), Some(7));
    assert_eq!(settled(Some(u64::MAX as u128 + 1)), None);
    assert_eq!(settled(None), None);
}

#[test]
fn a_record_is_found_by_its_name() {
    let names = vec!["A".to_string(), "B".to_string(), "B".to_string()];

    assert_eq!(record_named(&names, "B"), Ok(1));
    let refused = record_named(&names, "C").expect_err("nobody is called C");
    assert_eq!(refused.code(), "scan.unknown");
    assert_eq!(refused.message(), "no scan is named C");
}

#[test]
fn a_name_no_scan_answers_to_is_refused() {
    let refused = record_named(&Vec::new(), "0000000000000").expect_err("nothing is recorded");

    assert_eq!(refused.code(), "scan.unknown");
    assert!(refused.message().contains("0000000000000"));
}
