use zond_daemon::error::Error;

#[test]
fn an_error_keeps_its_code_and_its_words() {
    let e = Error::new("request.no_targets", "a scan has to be given something to scan".to_string());

    assert_eq!(e.code(), "request.no_targets");
    assert_eq!(e.message(), "a scan has to be given something to scan");
    assert_eq!(e.text(), "request.no_targets: a scan has to be given something to scan");
}

#[test]
fn a_name_no_scan_answers_to_is_named() {
    let e = Error::no_such_scan("0000000000000");

    assert_eq!(e.code(), "scan.unknown");
    assert_eq!(e.message(), "no scan is named 0000000000000");
}

#[test]
fn a_method_nobody_wrote_is_named() {
    let e = Error::no_such_method("teleport");

    assert_eq!(e.code(), "rpc.unknown_method");
    assert_eq!(e.message(), "no method named teleport");
}

#[test]
fn a_frame_that_is_not_the_schema_keeps_the_reader_s_words() {
    let e = Error::malformed("expected value at line 1 column 1");

    assert_eq!(e.code(), "rpc.malformed");
    assert_eq!(e.message(), "expected value at line 1 column 1");
}

#[test]
fn an_engine_error_keeps_the_engine_s_code() {
    let e = Error::engine("ports.invalid_range", "70000 is not a port".to_string());

    assert_eq!(e.code(), "ports.invalid_range");
    assert_eq!(e.message(), "70000 is not a port");
}

#[test]
fn on_the_wire_an_error_is_its_code_and_message() {
    let wire = Error::no_such_method("teleport").to_wire();

    assert_eq!(wire.code, "rpc.unknown_method");
    assert_eq!(wire.message, "no method named teleport");
}
