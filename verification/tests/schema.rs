use zond_daemon::error::Error;
use zond_daemon::schema::{
    not_named, DetectionClassName, DiffFormat, ExportFormat, OsDetectionName, ScanEffortName, ScanKind,
    ServiceDetectionName, StageName, StopCauseName,
};

#[test]
fn a_level_travels_as_its_name() {
    assert_eq!(ServiceDetectionName::Off.as_str_name(), "SERVICE_DETECTION_OFF");
    assert_eq!(
        ServiceDetectionName::from_str_name("SERVICE_DETECTION_PROBE"),
        Some(ServiceDetectionName::Probe)
    );
    assert_eq!(StageName::Ports.as_str_name(), "STAGE_PORTS");
    assert_eq!(StopCauseName::Completed.as_str_name(), "STOP_CAUSE_COMPLETED");
    assert_eq!(ScanKind::PortScan.as_str_name(), "SCAN_KIND_PORT_SCAN");
    assert_eq!(ExportFormat::NmapXml.as_str_name(), "EXPORT_FORMAT_NMAP_XML");
}

#[test]
fn a_name_the_schema_does_not_know_is_refused_by_name() {
    assert_eq!(ServiceDetectionName::from_str_name("SERVICE_DETECTION_PARANOID"), None);
    assert_eq!(OsDetectionName::from_str_name(""), None);
    assert_eq!(StageName::from_str_name("stage_ports"), None, "names are exact");
}

#[test]
fn every_value_survives_its_name_and_its_number() {
    for n in -1..16 {
        if let Some(v) = StageName::from_number(n) {
            assert_eq!(v.number(), n);
            assert_eq!(StageName::from_str_name(v.as_str_name()), Some(v));
        }
        if let Some(v) = StopCauseName::from_number(n) {
            assert_eq!(StopCauseName::from_str_name(v.as_str_name()), Some(v));
        }
        if let Some(v) = ServiceDetectionName::from_number(n) {
            assert_eq!(ServiceDetectionName::from_str_name(v.as_str_name()), Some(v));
        }
        if let Some(v) = OsDetectionName::from_number(n) {
            assert_eq!(OsDetectionName::from_str_name(v.as_str_name()), Some(v));
        }
        if let Some(v) = DetectionClassName::from_number(n) {
            assert_eq!(DetectionClassName::from_str_name(v.as_str_name()), Some(v));
        }
        if let Some(v) = ScanEffortName::from_number(n) {
            assert_eq!(ScanEffortName::from_str_name(v.as_str_name()), Some(v));
        }
        if let Some(v) = ExportFormat::from_number(n) {
            assert_eq!(ExportFormat::from_str_name(v.as_str_name()), Some(v));
        }
        if let Some(v) = DiffFormat::from_number(n) {
            assert_eq!(DiffFormat::from_str_name(v.as_str_name()), Some(v));
        }
        if let Some(v) = ScanKind::from_number(n) {
            assert_eq!(ScanKind::from_str_name(v.as_str_name()), Some(v));
        }
    }
}

#[test]
fn the_numbers_are_the_schema_s() {
    assert_eq!(StageName::Unspecified.number(), 0);
    assert_eq!(ExportFormat::Csv.number(), 3);
    assert_eq!(DiffFormat::Html.number(), 2);
    assert_eq!(ScanKind::Listen.number(), 2);
    assert_eq!(StageName::from_number(-1), None);
}

#[test]
fn a_level_the_schema_does_not_name_is_refused() {
    let name = "SERVICE_DETECTION_PARANOID";
    assert_eq!(ServiceDetectionName::from_str_name(name), None);
    assert_eq!(ServiceDetectionName::from_number(99), None);

    let refused = Error::malformed(&not_named(name, "service detection level"));

    assert_eq!(refused.code(), "rpc.malformed");
    assert!(refused.message().contains("SERVICE_DETECTION_PARANOID"), "{}", refused.message());
    assert_eq!(refused.message(), "SERVICE_DETECTION_PARANOID is not a service detection level");
}

#[test]
fn a_class_the_schema_names_is_read_back() {
    assert_eq!(DetectionClassName::from_str_name("DETECTION_CLASS_EXPLOIT"), Some(DetectionClassName::Exploit));
}
