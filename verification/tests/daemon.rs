use zond_daemon::daemon::{journal_root, transport_for, Transport};

#[test]
fn a_socket_named_is_served_whatever_else_was_said() {
    assert_eq!(transport_for(true, false), Some(Transport::Socket));
    assert_eq!(transport_for(true, true), Some(Transport::Socket));
}

#[test]
fn the_pipe_is_served_only_when_asked_for() {
    assert_eq!(transport_for(false, true), Some(Transport::Pipe));
}

#[test]
fn a_daemon_told_to_serve_nothing_serves_nothing() {
    assert_eq!(transport_for(false, false), None);
}

#[test]
fn scans_are_written_where_the_operator_said() {
    assert_eq!(journal_root(false, Some("/srv/zond"), Some("/home/me")), Some("/srv/zond"));
    assert_eq!(journal_root(false, None, Some("/home/me")), Some("/home/me"));
    assert_eq!(journal_root::<&str>(false, None, None), None);
}

#[test]
fn a_daemon_told_to_keep_no_record_keeps_none() {
    assert_eq!(journal_root(true, Some("/srv/zond"), Some("/home/me")), None);
}
