use zond_daemon::convert::{
    detection_class, detection_class_asked, detection_class_of, os_detection, os_detection_of,
    scan_effort, scan_effort_asked, scan_effort_of, service_detection, service_detection_asked,
    service_detection_of, stage, stop_cause,
};
use zond_daemon::schema::{
    DetectionClassName, OsDetectionName, ScanEffortName, ServiceDetectionName, StageName,
    StopCauseName,
};
use zond_daemon::engine::{DetectionClass, OsDetection, ScanEffort, ServiceDetection, Stage, StopCause};

/// Every stage the engine reports, as this library holds them.
const STAGES: [Stage; 11] = [
    Stage::Discovery,
    Stage::Ports,
    Stage::Services,
    Stage::Detections,
    Stage::Tls,
    Stage::Os,
    Stage::Traceroute,
    Stage::Filters,
    Stage::IpProtocols,
    Stage::Listening,
    Stage::Finishing,
];

const SERVICE_LEVELS: [ServiceDetection; 4] = [
    ServiceDetection::Off,
    ServiceDetection::Banner,
    ServiceDetection::Probe,
    ServiceDetection::Thorough,
];

const OS_LEVELS: [OsDetection; 4] =
    [OsDetection::Off, OsDetection::Passive, OsDetection::Active, OsDetection::Aggressive];

const CLASSES: [DetectionClass; 5] = [
    DetectionClass::Passive,
    DetectionClass::ActiveBenign,
    DetectionClass::ActiveMutating,
    DetectionClass::Exploit,
    DetectionClass::Dos,
];

const EFFORTS: [ScanEffort; 4] =
    [ScanEffort::Single, ScanEffort::Fast, ScanEffort::Balanced, ScanEffort::Thorough];

/// Every stage the engine can report has a name in the schema.
#[test]
fn every_stage_the_engine_reports_has_a_name_in_the_schema() {
    for known in STAGES {
        assert_ne!(
            stage(known),
            StageName::Unspecified,
            "the engine reports {known:?} and the schema has no name for it"
        );
    }
}

/// No two stages share a name.
#[test]
fn no_two_stages_answer_to_the_same_name() {
    let mut named: Vec<i32> = STAGES.iter().map(|s| stage(*s).number()).collect();
    let before = named.len();
    named.sort_unstable();
    named.dedup();

    assert_eq!(named.len(), before, "two stages share one name in the schema");
}

#[test]
fn every_service_detection_level_survives_the_round_trip() {
    for level in SERVICE_LEVELS.iter() {
        let named = service_detection(*level);

        assert_ne!(
            named,
            ServiceDetectionName::Unspecified,
            "the engine accepts {level:?} and the schema has no name for it"
        );
        assert_eq!(
            service_detection_of(named),
            Some(*level),
            "{level:?} came back as something else"
        );
    }
}

#[test]
fn every_os_detection_level_survives_the_round_trip() {
    for level in OS_LEVELS.iter() {
        let named = os_detection(*level);

        assert_ne!(
            named,
            OsDetectionName::Unspecified,
            "the engine accepts {level:?} and the schema has no name for it"
        );
        assert_eq!(
            os_detection_of(named),
            Some(*level),
            "{level:?} came back as something else"
        );
    }
}

#[test]
fn every_detection_class_survives_the_round_trip() {
    for class in CLASSES.iter() {
        let named = detection_class(*class);

        assert_ne!(
            named,
            DetectionClassName::Unspecified,
            "the engine accepts {class:?} and the schema has no name for it"
        );
        assert_eq!(
            detection_class_of(named),
            Some(*class),
            "{class:?} came back as something else"
        );
    }
}

#[test]
fn every_scan_effort_survives_the_round_trip() {
    for effort in EFFORTS.iter() {
        let named = scan_effort(*effort);

        assert_ne!(
            named,
            ScanEffortName::Unspecified,
            "the engine accepts {effort:?} and the schema has no name for it"
        );
        assert_eq!(
            scan_effort_of(named),
            Some(*effort),
            "{effort:?} came back as something else"
        );
    }
}

/// An unset field leaves the engine's own default standing.
#[test]
fn an_unset_level_is_not_a_level() {
    assert_eq!(service_detection_of(ServiceDetectionName::Unspecified), None);
    assert_eq!(os_detection_of(OsDetectionName::Unspecified), None);
    assert_eq!(detection_class_of(DetectionClassName::Unspecified), None);
    assert_eq!(scan_effort_of(ScanEffortName::Unspecified), None);
}

/// A scan that simply finished says so, rather than saying nothing.
#[test]
fn a_scan_that_ran_out_of_work_is_named_completed() {
    assert_eq!(stop_cause(None), StopCauseName::Completed);
    assert_eq!(stop_cause(Some(StopCause::Aborted)), StopCauseName::Aborted);
    assert_eq!(stop_cause(Some(StopCause::TimedOut)), StopCauseName::TimedOut);
}

#[test]
fn a_value_of_a_newer_engine_reaches_a_client_as_unspecified() {
    assert_eq!(stage(Stage::Unknown), StageName::Unspecified);
    assert_eq!(stop_cause(Some(StopCause::Unknown)), StopCauseName::Unspecified);
    assert_eq!(service_detection(ServiceDetection::Unknown), ServiceDetectionName::Unspecified);
    assert_eq!(os_detection(OsDetection::Unknown), OsDetectionName::Unspecified);
    assert_eq!(detection_class(DetectionClass::Unknown), DetectionClassName::Unspecified);
    assert_eq!(scan_effort(ScanEffort::Unknown), ScanEffortName::Unspecified);
}

#[test]
fn a_level_asked_for_by_number_reaches_the_engine_as_that_level() {
    assert_eq!(service_detection_asked(None), None);
    assert_eq!(
        service_detection_asked(Some(ServiceDetectionName::Off.number())),
        Some(ServiceDetection::Off)
    );
    assert_eq!(service_detection_asked(Some(0)), None, "unspecified is no level");
    assert_eq!(service_detection_asked(Some(99)), None, "nor is a number nobody named");
    assert_eq!(
        detection_class_asked(Some(DetectionClassName::ActiveBenign.number())),
        Some(DetectionClass::ActiveBenign)
    );
    assert_eq!(
        scan_effort_asked(Some(ScanEffortName::Thorough.number())),
        Some(ScanEffort::Thorough)
    );
}
