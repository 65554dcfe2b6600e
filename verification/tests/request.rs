use zond_daemon::request::{ip_protocols, named, targets_given, unreadable_source, work_given};
use zond_daemon::schema::{OsDetectionName, ScanKind, ServiceDetectionName};

#[test]
fn no_protocols_named_leaves_the_engine_s_choice() {
    assert_eq!(ip_protocols(&Vec::new()), Ok(None));
}

#[test]
fn protocols_are_read_as_a_set_of_bytes() {
    assert_eq!(ip_protocols(&vec![17, 6, 1, 6]), Ok(Some(vec![1, 6, 17])));
    assert_eq!(ip_protocols(&vec![0, 255]), Ok(Some(vec![0, 255])));
}

#[test]
fn a_protocol_number_that_is_not_one_is_refused_by_name() {
    let refused = ip_protocols(&vec![6, 256, 300]).expect_err("256 is not a byte");

    assert_eq!(refused.code(), "request.bad_ip_protocol");
    assert_eq!(refused.message(), "256 is not an IP protocol number");
}

#[test]
fn an_address_to_send_from_that_is_none_is_refused_by_name() {
    let refused = unreadable_source("not-an-address");

    assert_eq!(refused.code(), "request.bad_send_source");
    assert_eq!(refused.message(), "not-an-address is not an address to send from");
}

#[test]
fn a_scan_of_nothing_is_refused_before_a_packet_leaves() {
    let refused = targets_given(&Vec::new()).expect_err("nothing to scan");

    assert_eq!(refused.code(), "request.no_targets");
    assert!(targets_given(&vec!["127.0.0.1".to_string()]).is_ok());
}

#[test]
fn a_sweep_of_nothing_is_refused() {
    let refused = work_given(ScanKind::Discovery, &Vec::new(), &vec!["eth0".to_string()])
        .expect_err("nothing to sweep");

    assert_eq!(refused.code(), "request.no_targets");
}

#[test]
fn a_listen_with_no_link_is_refused_for_the_right_reason() {
    let refused = work_given(ScanKind::Listen, &vec!["10.0.0.1".to_string()], &Vec::new())
        .expect_err("a listen on nothing");

    assert_eq!(refused.code(), "request.no_links");
    assert!(refused.message().contains("link"), "{}", refused.text());
    assert!(work_given(ScanKind::Listen, &Vec::new(), &vec!["eth0".to_string()]).is_ok());
}

#[test]
fn a_level_is_read_by_the_number_the_schema_gives_it() {
    assert_eq!(named::<ServiceDetectionName>(None), None);
    assert_eq!(named::<ServiceDetectionName>(Some(1)), Some(ServiceDetectionName::Off));
    assert_eq!(named::<OsDetectionName>(Some(0)), Some(OsDetectionName::Unspecified));
    assert_eq!(named::<OsDetectionName>(Some(42)), None);
}
