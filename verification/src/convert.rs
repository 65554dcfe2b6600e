//! # Between the engine's vocabulary and the schema's
//!
//! One function per thing both sides name, written by hand rather than derived.
//! The schema outlives any one build of the engine, and a derived mapping would
//! rename a protocol field the day somebody renamed a Rust variant.
//!
//! Every mapping is checked against the whole of the engine's vocabulary as
//! this library holds it: the laws at the end say that no engine value is left
//! without a name and no two share one, and that every level survives the trip
//! to the schema and back.

use vstd::prelude::*;

use crate::engine::{DetectionClass, OsDetection, ScanEffort, ServiceDetection, Stage, StopCause};

use crate::request::named;
use crate::schema;

verus! {

/// The schema's name for an engine stage.
pub open spec fn stage_spec(stage: Stage) -> schema::StageName {
    match stage {
        Stage::Discovery => schema::StageName::Discovery,
        Stage::Ports => schema::StageName::Ports,
        Stage::Services => schema::StageName::Services,
        Stage::Detections => schema::StageName::Detections,
        Stage::Tls => schema::StageName::Tls,
        Stage::Os => schema::StageName::Os,
        Stage::Traceroute => schema::StageName::Traceroute,
        Stage::Filters => schema::StageName::Filters,
        Stage::IpProtocols => schema::StageName::IpProtocols,
        Stage::Listening => schema::StageName::Listening,
        Stage::Finishing => schema::StageName::Finishing,
        Stage::Unknown => schema::StageName::Unspecified,
    }
}

/// The schema's name for an engine stage.
pub fn stage(known: Stage) -> (r: schema::StageName)
    ensures
        r == stage_spec(known),
{
    match known {
        Stage::Discovery => schema::StageName::Discovery,
        Stage::Ports => schema::StageName::Ports,
        Stage::Services => schema::StageName::Services,
        Stage::Detections => schema::StageName::Detections,
        Stage::Tls => schema::StageName::Tls,
        Stage::Os => schema::StageName::Os,
        Stage::Traceroute => schema::StageName::Traceroute,
        Stage::Filters => schema::StageName::Filters,
        Stage::IpProtocols => schema::StageName::IpProtocols,
        Stage::Listening => schema::StageName::Listening,
        Stage::Finishing => schema::StageName::Finishing,
        // A stage of a newer engine than this schema knows; the laws below
        // are what keep that from being how a new stage ships.
        Stage::Unknown => schema::StageName::Unspecified,
    }
}

/// The schema's name for why a scan stopped.
///
/// The engine reports nothing at all for a scan that ran out of work, since
/// there is no cause to name. The schema says so out loud instead.
pub open spec fn stop_cause_spec(cause: Option<StopCause>) -> schema::StopCauseName {
    match cause {
        None => schema::StopCauseName::Completed,
        Some(StopCause::Aborted) => schema::StopCauseName::Aborted,
        Some(StopCause::TimedOut) => schema::StopCauseName::TimedOut,
        Some(StopCause::Unknown) => schema::StopCauseName::Unspecified,
    }
}

/// The schema's name for why a scan stopped, `Completed` where the engine
/// names no cause.
pub fn stop_cause(cause: Option<StopCause>) -> (r: schema::StopCauseName)
    ensures
        r == stop_cause_spec(cause),
{
    match cause {
        None => schema::StopCauseName::Completed,
        Some(StopCause::Aborted) => schema::StopCauseName::Aborted,
        Some(StopCause::TimedOut) => schema::StopCauseName::TimedOut,
        Some(StopCause::Unknown) => schema::StopCauseName::Unspecified,
    }
}

/// The schema's name for how hard the engine looks at a service.
pub open spec fn service_detection_spec(level: ServiceDetection) -> schema::ServiceDetectionName {
    match level {
        ServiceDetection::Off => schema::ServiceDetectionName::Off,
        ServiceDetection::Banner => schema::ServiceDetectionName::Banner,
        ServiceDetection::Probe => schema::ServiceDetectionName::Probe,
        ServiceDetection::Thorough => schema::ServiceDetectionName::Thorough,
        ServiceDetection::Unknown => schema::ServiceDetectionName::Unspecified,
    }
}

/// The schema's name for how hard the engine looks at a service.
pub fn service_detection(level: ServiceDetection) -> (r: schema::ServiceDetectionName)
    ensures
        r == service_detection_spec(level),
{
    match level {
        ServiceDetection::Off => schema::ServiceDetectionName::Off,
        ServiceDetection::Banner => schema::ServiceDetectionName::Banner,
        ServiceDetection::Probe => schema::ServiceDetectionName::Probe,
        ServiceDetection::Thorough => schema::ServiceDetectionName::Thorough,
        ServiceDetection::Unknown => schema::ServiceDetectionName::Unspecified,
    }
}

/// What the engine reads the schema's name as.
pub open spec fn service_detection_of_spec(named: schema::ServiceDetectionName) -> Option<ServiceDetection> {
    match named {
        schema::ServiceDetectionName::Unspecified => None,
        schema::ServiceDetectionName::Off => Some(ServiceDetection::Off),
        schema::ServiceDetectionName::Banner => Some(ServiceDetection::Banner),
        schema::ServiceDetectionName::Probe => Some(ServiceDetection::Probe),
        schema::ServiceDetectionName::Thorough => Some(ServiceDetection::Thorough),
    }
}

/// What the engine reads the schema's name as. `None` where the field was left
/// unset, which leaves the engine's own default standing.
pub fn service_detection_of(named: schema::ServiceDetectionName) -> (r: Option<ServiceDetection>)
    ensures
        r == service_detection_of_spec(named),
{
    match named {
        schema::ServiceDetectionName::Unspecified => None,
        schema::ServiceDetectionName::Off => Some(ServiceDetection::Off),
        schema::ServiceDetectionName::Banner => Some(ServiceDetection::Banner),
        schema::ServiceDetectionName::Probe => Some(ServiceDetection::Probe),
        schema::ServiceDetectionName::Thorough => Some(ServiceDetection::Thorough),
    }
}

/// The schema's name for whether a host is asked what it runs.
pub open spec fn os_detection_spec(level: OsDetection) -> schema::OsDetectionName {
    match level {
        OsDetection::Off => schema::OsDetectionName::Off,
        OsDetection::Passive => schema::OsDetectionName::Passive,
        OsDetection::Active => schema::OsDetectionName::Active,
        OsDetection::Aggressive => schema::OsDetectionName::Aggressive,
        OsDetection::Unknown => schema::OsDetectionName::Unspecified,
    }
}

/// The schema's name for whether a host is asked what it runs.
pub fn os_detection(level: OsDetection) -> (r: schema::OsDetectionName)
    ensures
        r == os_detection_spec(level),
{
    match level {
        OsDetection::Off => schema::OsDetectionName::Off,
        OsDetection::Passive => schema::OsDetectionName::Passive,
        OsDetection::Active => schema::OsDetectionName::Active,
        OsDetection::Aggressive => schema::OsDetectionName::Aggressive,
        OsDetection::Unknown => schema::OsDetectionName::Unspecified,
    }
}

/// What the engine reads the schema's name as.
pub open spec fn os_detection_of_spec(named: schema::OsDetectionName) -> Option<OsDetection> {
    match named {
        schema::OsDetectionName::Unspecified => None,
        schema::OsDetectionName::Off => Some(OsDetection::Off),
        schema::OsDetectionName::Passive => Some(OsDetection::Passive),
        schema::OsDetectionName::Active => Some(OsDetection::Active),
        schema::OsDetectionName::Aggressive => Some(OsDetection::Aggressive),
    }
}

/// What the engine reads the schema's name as.
pub fn os_detection_of(named: schema::OsDetectionName) -> (r: Option<OsDetection>)
    ensures
        r == os_detection_of_spec(named),
{
    match named {
        schema::OsDetectionName::Unspecified => None,
        schema::OsDetectionName::Off => Some(OsDetection::Off),
        schema::OsDetectionName::Passive => Some(OsDetection::Passive),
        schema::OsDetectionName::Active => Some(OsDetection::Active),
        schema::OsDetectionName::Aggressive => Some(OsDetection::Aggressive),
    }
}

/// The schema's name for what a detection does to its target.
pub open spec fn detection_class_spec(class: DetectionClass) -> schema::DetectionClassName {
    match class {
        DetectionClass::Passive => schema::DetectionClassName::Passive,
        DetectionClass::ActiveBenign => schema::DetectionClassName::ActiveBenign,
        DetectionClass::ActiveMutating => schema::DetectionClassName::ActiveMutating,
        DetectionClass::Exploit => schema::DetectionClassName::Exploit,
        DetectionClass::Dos => schema::DetectionClassName::Dos,
        DetectionClass::Unknown => schema::DetectionClassName::Unspecified,
    }
}

/// The schema's name for what a detection does to its target.
pub fn detection_class(class: DetectionClass) -> (r: schema::DetectionClassName)
    ensures
        r == detection_class_spec(class),
{
    match class {
        DetectionClass::Passive => schema::DetectionClassName::Passive,
        DetectionClass::ActiveBenign => schema::DetectionClassName::ActiveBenign,
        DetectionClass::ActiveMutating => schema::DetectionClassName::ActiveMutating,
        DetectionClass::Exploit => schema::DetectionClassName::Exploit,
        DetectionClass::Dos => schema::DetectionClassName::Dos,
        DetectionClass::Unknown => schema::DetectionClassName::Unspecified,
    }
}

/// What the engine reads the schema's name as.
pub open spec fn detection_class_of_spec(named: schema::DetectionClassName) -> Option<DetectionClass> {
    match named {
        schema::DetectionClassName::Unspecified => None,
        schema::DetectionClassName::Passive => Some(DetectionClass::Passive),
        schema::DetectionClassName::ActiveBenign => Some(DetectionClass::ActiveBenign),
        schema::DetectionClassName::ActiveMutating => Some(DetectionClass::ActiveMutating),
        schema::DetectionClassName::Exploit => Some(DetectionClass::Exploit),
        schema::DetectionClassName::Dos => Some(DetectionClass::Dos),
    }
}

/// What the engine reads the schema's name as.
///
/// `None` is a request that named no ceiling, which runs no detections.
pub fn detection_class_of(named: schema::DetectionClassName) -> (r: Option<DetectionClass>)
    ensures
        r == detection_class_of_spec(named),
{
    match named {
        schema::DetectionClassName::Unspecified => None,
        schema::DetectionClassName::Passive => Some(DetectionClass::Passive),
        schema::DetectionClassName::ActiveBenign => Some(DetectionClass::ActiveBenign),
        schema::DetectionClassName::ActiveMutating => Some(DetectionClass::ActiveMutating),
        schema::DetectionClassName::Exploit => Some(DetectionClass::Exploit),
        schema::DetectionClassName::Dos => Some(DetectionClass::Dos),
    }
}

/// The schema's name for how much a scan spends on being sure.
pub open spec fn scan_effort_spec(effort: ScanEffort) -> schema::ScanEffortName {
    match effort {
        ScanEffort::Single => schema::ScanEffortName::Single,
        ScanEffort::Fast => schema::ScanEffortName::Fast,
        ScanEffort::Balanced => schema::ScanEffortName::Balanced,
        ScanEffort::Thorough => schema::ScanEffortName::Thorough,
        ScanEffort::Unknown => schema::ScanEffortName::Unspecified,
    }
}

/// The schema's name for how much a scan spends on being sure.
pub fn scan_effort(effort: ScanEffort) -> (r: schema::ScanEffortName)
    ensures
        r == scan_effort_spec(effort),
{
    match effort {
        ScanEffort::Single => schema::ScanEffortName::Single,
        ScanEffort::Fast => schema::ScanEffortName::Fast,
        ScanEffort::Balanced => schema::ScanEffortName::Balanced,
        ScanEffort::Thorough => schema::ScanEffortName::Thorough,
        ScanEffort::Unknown => schema::ScanEffortName::Unspecified,
    }
}

/// What the engine reads the schema's name as.
pub open spec fn scan_effort_of_spec(named: schema::ScanEffortName) -> Option<ScanEffort> {
    match named {
        schema::ScanEffortName::Unspecified => None,
        schema::ScanEffortName::Single => Some(ScanEffort::Single),
        schema::ScanEffortName::Fast => Some(ScanEffort::Fast),
        schema::ScanEffortName::Balanced => Some(ScanEffort::Balanced),
        schema::ScanEffortName::Thorough => Some(ScanEffort::Thorough),
    }
}

/// What the engine reads the schema's name as.
pub fn scan_effort_of(named: schema::ScanEffortName) -> (r: Option<ScanEffort>)
    ensures
        r == scan_effort_of_spec(named),
{
    match named {
        schema::ScanEffortName::Unspecified => None,
        schema::ScanEffortName::Single => Some(ScanEffort::Single),
        schema::ScanEffortName::Fast => Some(ScanEffort::Fast),
        schema::ScanEffortName::Balanced => Some(ScanEffort::Balanced),
        schema::ScanEffortName::Thorough => Some(ScanEffort::Thorough),
    }
}

/// What the engine reads a level a request may or may not have set as: the
/// number, where it is one the schema names, read as the engine's level.
pub fn service_detection_asked(raw: Option<i32>) -> (r: Option<ServiceDetection>)
    ensures
        r == match raw {
            Some(n) => match schema::ServiceDetectionName::numbered(n) {
                Some(named) => service_detection_of_spec(named),
                None => None,
            },
            None => None,
        },
{
    match named::<schema::ServiceDetectionName>(raw) {
        Some(level) => service_detection_of(level),
        None => None,
    }
}

/// The same, for the OS detection level.
pub fn os_detection_asked(raw: Option<i32>) -> (r: Option<OsDetection>)
    ensures
        r == match raw {
            Some(n) => match schema::OsDetectionName::numbered(n) {
                Some(named) => os_detection_of_spec(named),
                None => None,
            },
            None => None,
        },
{
    match named::<schema::OsDetectionName>(raw) {
        Some(level) => os_detection_of(level),
        None => None,
    }
}

/// The same, for the ceiling on what detections may do.
pub fn detection_class_asked(raw: Option<i32>) -> (r: Option<DetectionClass>)
    ensures
        r == match raw {
            Some(n) => match schema::DetectionClassName::numbered(n) {
                Some(named) => detection_class_of_spec(named),
                None => None,
            },
            None => None,
        },
{
    match named::<schema::DetectionClassName>(raw) {
        Some(level) => detection_class_of(level),
        None => None,
    }
}

/// The same, for the effort a scan spends.
pub fn scan_effort_asked(raw: Option<i32>) -> (r: Option<ScanEffort>)
    ensures
        r == match raw {
            Some(n) => match schema::ScanEffortName::numbered(n) {
                Some(named) => scan_effort_of_spec(named),
                None => None,
            },
            None => None,
        },
{
    match named::<schema::ScanEffortName>(raw) {
        Some(level) => scan_effort_of(level),
        None => None,
    }
}

/// Every stage the engine can report has a name in the schema, and no two
/// stages share one.
pub proof fn lemma_every_stage_is_named_once(a: Stage, b: Stage)
    requires
        a != Stage::Unknown,
        b != Stage::Unknown,
    ensures
        stage_spec(a) != schema::StageName::Unspecified,
        stage_spec(a) == stage_spec(b) ==> a == b,
{
}

/// Every level the engine accepts has a name in the schema and survives the
/// trip to the schema and back.
pub proof fn lemma_service_detection_round_trip(level: ServiceDetection)
    requires
        level != ServiceDetection::Unknown,
    ensures
        service_detection_spec(level) != schema::ServiceDetectionName::Unspecified,
        service_detection_of_spec(service_detection_spec(level)) == Some(level),
{
}

/// The same, for OS detection levels.
pub proof fn lemma_os_detection_round_trip(level: OsDetection)
    requires
        level != OsDetection::Unknown,
    ensures
        os_detection_spec(level) != schema::OsDetectionName::Unspecified,
        os_detection_of_spec(os_detection_spec(level)) == Some(level),
{
}

/// The same, for detection classes: a caller authorising up to one class is
/// never read as having authorised another.
pub proof fn lemma_detection_class_round_trip(class: DetectionClass)
    requires
        class != DetectionClass::Unknown,
    ensures
        detection_class_spec(class) != schema::DetectionClassName::Unspecified,
        detection_class_of_spec(detection_class_spec(class)) == Some(class),
{
}

/// The same, for scan effort.
pub proof fn lemma_scan_effort_round_trip(effort: ScanEffort)
    requires
        effort != ScanEffort::Unknown,
    ensures
        scan_effort_spec(effort) != schema::ScanEffortName::Unspecified,
        scan_effort_of_spec(scan_effort_spec(effort)) == Some(effort),
{
}

/// Every value the schema names for a level reaches the engine as the level
/// that comes back to that same name, and an unset level reaches it as nothing.
pub proof fn lemma_schema_levels_round_trip(
    service: schema::ServiceDetectionName,
    os: schema::OsDetectionName,
    class: schema::DetectionClassName,
    effort: schema::ScanEffortName,
)
    ensures
        service_detection_of_spec(service) matches Some(l) ==> service_detection_spec(l) == service,
        service_detection_of_spec(service) is None <==> service == schema::ServiceDetectionName::Unspecified,
        os_detection_of_spec(os) matches Some(l) ==> os_detection_spec(l) == os,
        os_detection_of_spec(os) is None <==> os == schema::OsDetectionName::Unspecified,
        detection_class_of_spec(class) matches Some(c) ==> detection_class_spec(c) == class,
        detection_class_of_spec(class) is None <==> class == schema::DetectionClassName::Unspecified,
        scan_effort_of_spec(effort) matches Some(e) ==> scan_effort_spec(e) == effort,
        scan_effort_of_spec(effort) is None <==> effort == schema::ScanEffortName::Unspecified,
{
}

/// Every stage the engine reports is reported under the schema's name for
/// that same stage: `STAGE_` and the stage's own name.
pub proof fn lemma_stages_keep_their_names(x: Stage)
    requires
        x != Stage::Unknown,
    ensures
        stage_spec(x).name_spec() == "STAGE_"@ + x.word(),
{
    match x {
        Stage::Discovery => {
            reveal_strlit("STAGE_"); reveal_strlit("DISCOVERY"); reveal_strlit("STAGE_DISCOVERY"); assert(("STAGE_"@ + "DISCOVERY"@) =~= "STAGE_DISCOVERY"@);
        },
        Stage::Ports => {
            reveal_strlit("STAGE_"); reveal_strlit("PORTS"); reveal_strlit("STAGE_PORTS"); assert(("STAGE_"@ + "PORTS"@) =~= "STAGE_PORTS"@);
        },
        Stage::Services => {
            reveal_strlit("STAGE_"); reveal_strlit("SERVICES"); reveal_strlit("STAGE_SERVICES"); assert(("STAGE_"@ + "SERVICES"@) =~= "STAGE_SERVICES"@);
        },
        Stage::Detections => {
            reveal_strlit("STAGE_"); reveal_strlit("DETECTIONS"); reveal_strlit("STAGE_DETECTIONS"); assert(("STAGE_"@ + "DETECTIONS"@) =~= "STAGE_DETECTIONS"@);
        },
        Stage::Tls => {
            reveal_strlit("STAGE_"); reveal_strlit("TLS"); reveal_strlit("STAGE_TLS"); assert(("STAGE_"@ + "TLS"@) =~= "STAGE_TLS"@);
        },
        Stage::Os => {
            reveal_strlit("STAGE_"); reveal_strlit("OS"); reveal_strlit("STAGE_OS"); assert(("STAGE_"@ + "OS"@) =~= "STAGE_OS"@);
        },
        Stage::Traceroute => {
            reveal_strlit("STAGE_"); reveal_strlit("TRACEROUTE"); reveal_strlit("STAGE_TRACEROUTE"); assert(("STAGE_"@ + "TRACEROUTE"@) =~= "STAGE_TRACEROUTE"@);
        },
        Stage::Filters => {
            reveal_strlit("STAGE_"); reveal_strlit("FILTERS"); reveal_strlit("STAGE_FILTERS"); assert(("STAGE_"@ + "FILTERS"@) =~= "STAGE_FILTERS"@);
        },
        Stage::IpProtocols => {
            reveal_strlit("STAGE_"); reveal_strlit("IP_PROTOCOLS"); reveal_strlit("STAGE_IP_PROTOCOLS"); assert(("STAGE_"@ + "IP_PROTOCOLS"@) =~= "STAGE_IP_PROTOCOLS"@);
        },
        Stage::Listening => {
            reveal_strlit("STAGE_"); reveal_strlit("LISTENING"); reveal_strlit("STAGE_LISTENING"); assert(("STAGE_"@ + "LISTENING"@) =~= "STAGE_LISTENING"@);
        },
        Stage::Finishing => {
            reveal_strlit("STAGE_"); reveal_strlit("FINISHING"); reveal_strlit("STAGE_FINISHING"); assert(("STAGE_"@ + "FINISHING"@) =~= "STAGE_FINISHING"@);
        },
        Stage::Unknown => {},
    }
}

/// Every cause the engine gives for a stop is reported under the schema's
/// name for that same cause: `STOP_CAUSE_` and the cause's own name.
pub proof fn lemma_stop_causes_keep_their_names(x: StopCause)
    requires
        x != StopCause::Unknown,
    ensures
        stop_cause_spec(Some(x)).name_spec() == "STOP_CAUSE_"@ + x.word(),
{
    match x {
        StopCause::Aborted => {
            reveal_strlit("STOP_CAUSE_"); reveal_strlit("ABORTED"); reveal_strlit("STOP_CAUSE_ABORTED"); assert(("STOP_CAUSE_"@ + "ABORTED"@) =~= "STOP_CAUSE_ABORTED"@);
        },
        StopCause::TimedOut => {
            reveal_strlit("STOP_CAUSE_"); reveal_strlit("TIMED_OUT"); reveal_strlit("STOP_CAUSE_TIMED_OUT"); assert(("STOP_CAUSE_"@ + "TIMED_OUT"@) =~= "STOP_CAUSE_TIMED_OUT"@);
        },
        StopCause::Unknown => {},
    }
}

/// Every service detection level is written under the schema's name for
/// that same level.
pub proof fn lemma_service_detection_keeps_its_name(x: ServiceDetection)
    requires
        x != ServiceDetection::Unknown,
    ensures
        service_detection_spec(x).name_spec() == "SERVICE_DETECTION_"@ + x.word(),
{
    match x {
        ServiceDetection::Off => {
            reveal_strlit("SERVICE_DETECTION_"); reveal_strlit("OFF"); reveal_strlit("SERVICE_DETECTION_OFF"); assert(("SERVICE_DETECTION_"@ + "OFF"@) =~= "SERVICE_DETECTION_OFF"@);
        },
        ServiceDetection::Banner => {
            reveal_strlit("SERVICE_DETECTION_"); reveal_strlit("BANNER"); reveal_strlit("SERVICE_DETECTION_BANNER"); assert(("SERVICE_DETECTION_"@ + "BANNER"@) =~= "SERVICE_DETECTION_BANNER"@);
        },
        ServiceDetection::Probe => {
            reveal_strlit("SERVICE_DETECTION_"); reveal_strlit("PROBE"); reveal_strlit("SERVICE_DETECTION_PROBE"); assert(("SERVICE_DETECTION_"@ + "PROBE"@) =~= "SERVICE_DETECTION_PROBE"@);
        },
        ServiceDetection::Thorough => {
            reveal_strlit("SERVICE_DETECTION_"); reveal_strlit("THOROUGH"); reveal_strlit("SERVICE_DETECTION_THOROUGH"); assert(("SERVICE_DETECTION_"@ + "THOROUGH"@) =~= "SERVICE_DETECTION_THOROUGH"@);
        },
        ServiceDetection::Unknown => {},
    }
}

/// Every OS detection level is written under the schema's name for that
/// same level.
pub proof fn lemma_os_detection_keeps_its_name(x: OsDetection)
    requires
        x != OsDetection::Unknown,
    ensures
        os_detection_spec(x).name_spec() == "OS_DETECTION_"@ + x.word(),
{
    match x {
        OsDetection::Off => {
            reveal_strlit("OS_DETECTION_"); reveal_strlit("OFF"); reveal_strlit("OS_DETECTION_OFF"); assert(("OS_DETECTION_"@ + "OFF"@) =~= "OS_DETECTION_OFF"@);
        },
        OsDetection::Passive => {
            reveal_strlit("OS_DETECTION_"); reveal_strlit("PASSIVE"); reveal_strlit("OS_DETECTION_PASSIVE"); assert(("OS_DETECTION_"@ + "PASSIVE"@) =~= "OS_DETECTION_PASSIVE"@);
        },
        OsDetection::Active => {
            reveal_strlit("OS_DETECTION_"); reveal_strlit("ACTIVE"); reveal_strlit("OS_DETECTION_ACTIVE"); assert(("OS_DETECTION_"@ + "ACTIVE"@) =~= "OS_DETECTION_ACTIVE"@);
        },
        OsDetection::Aggressive => {
            reveal_strlit("OS_DETECTION_"); reveal_strlit("AGGRESSIVE"); reveal_strlit("OS_DETECTION_AGGRESSIVE"); assert(("OS_DETECTION_"@ + "AGGRESSIVE"@) =~= "OS_DETECTION_AGGRESSIVE"@);
        },
        OsDetection::Unknown => {},
    }
}

/// Every detection class is written under the schema's name for that same
/// class.
pub proof fn lemma_detection_class_keeps_its_name(x: DetectionClass)
    requires
        x != DetectionClass::Unknown,
    ensures
        detection_class_spec(x).name_spec() == "DETECTION_CLASS_"@ + x.word(),
{
    match x {
        DetectionClass::Passive => {
            reveal_strlit("DETECTION_CLASS_"); reveal_strlit("PASSIVE"); reveal_strlit("DETECTION_CLASS_PASSIVE"); assert(("DETECTION_CLASS_"@ + "PASSIVE"@) =~= "DETECTION_CLASS_PASSIVE"@);
        },
        DetectionClass::ActiveBenign => {
            reveal_strlit("DETECTION_CLASS_"); reveal_strlit("ACTIVE_BENIGN"); reveal_strlit("DETECTION_CLASS_ACTIVE_BENIGN"); assert(("DETECTION_CLASS_"@ + "ACTIVE_BENIGN"@) =~= "DETECTION_CLASS_ACTIVE_BENIGN"@);
        },
        DetectionClass::ActiveMutating => {
            reveal_strlit("DETECTION_CLASS_"); reveal_strlit("ACTIVE_MUTATING"); reveal_strlit("DETECTION_CLASS_ACTIVE_MUTATING"); assert(("DETECTION_CLASS_"@ + "ACTIVE_MUTATING"@) =~= "DETECTION_CLASS_ACTIVE_MUTATING"@);
        },
        DetectionClass::Exploit => {
            reveal_strlit("DETECTION_CLASS_"); reveal_strlit("EXPLOIT"); reveal_strlit("DETECTION_CLASS_EXPLOIT"); assert(("DETECTION_CLASS_"@ + "EXPLOIT"@) =~= "DETECTION_CLASS_EXPLOIT"@);
        },
        DetectionClass::Dos => {
            reveal_strlit("DETECTION_CLASS_"); reveal_strlit("DOS"); reveal_strlit("DETECTION_CLASS_DOS"); assert(("DETECTION_CLASS_"@ + "DOS"@) =~= "DETECTION_CLASS_DOS"@);
        },
        DetectionClass::Unknown => {},
    }
}

/// Every scan effort is written under the schema's name for that same
/// effort.
pub proof fn lemma_scan_effort_keeps_its_name(x: ScanEffort)
    requires
        x != ScanEffort::Unknown,
    ensures
        scan_effort_spec(x).name_spec() == "SCAN_EFFORT_"@ + x.word(),
{
    match x {
        ScanEffort::Single => {
            reveal_strlit("SCAN_EFFORT_"); reveal_strlit("SINGLE"); reveal_strlit("SCAN_EFFORT_SINGLE"); assert(("SCAN_EFFORT_"@ + "SINGLE"@) =~= "SCAN_EFFORT_SINGLE"@);
        },
        ScanEffort::Fast => {
            reveal_strlit("SCAN_EFFORT_"); reveal_strlit("FAST"); reveal_strlit("SCAN_EFFORT_FAST"); assert(("SCAN_EFFORT_"@ + "FAST"@) =~= "SCAN_EFFORT_FAST"@);
        },
        ScanEffort::Balanced => {
            reveal_strlit("SCAN_EFFORT_"); reveal_strlit("BALANCED"); reveal_strlit("SCAN_EFFORT_BALANCED"); assert(("SCAN_EFFORT_"@ + "BALANCED"@) =~= "SCAN_EFFORT_BALANCED"@);
        },
        ScanEffort::Thorough => {
            reveal_strlit("SCAN_EFFORT_"); reveal_strlit("THOROUGH"); reveal_strlit("SCAN_EFFORT_THOROUGH"); assert(("SCAN_EFFORT_"@ + "THOROUGH"@) =~= "SCAN_EFFORT_THOROUGH"@);
        },
        ScanEffort::Unknown => {},
    }
}

/// A scan nothing stopped is reported as having completed.
pub proof fn lemma_an_unstopped_scan_completed()
    ensures
        stop_cause_spec(None).name_spec() == "STOP_CAUSE_COMPLETED"@,
{
}

/// Every service detection level a request names is handed to the engine as its level of
/// that same name: the schema's name is `SERVICE_DETECTION_` and the engine's own name
/// for what it is read as, and only the unset value is read as nothing.
pub proof fn lemma_service_detection_is_read_by_its_name(named: schema::ServiceDetectionName)
    ensures
        service_detection_of_spec(named) is None <==> named == schema::ServiceDetectionName::Unspecified,
        service_detection_of_spec(named) matches Some(level) ==> named.name_spec() == "SERVICE_DETECTION_"@ + level.word(),
{
    match named {
        schema::ServiceDetectionName::Off => {
            reveal_strlit("SERVICE_DETECTION_"); reveal_strlit("OFF"); reveal_strlit("SERVICE_DETECTION_OFF"); assert(("SERVICE_DETECTION_"@ + "OFF"@) =~= "SERVICE_DETECTION_OFF"@);
        },
        schema::ServiceDetectionName::Banner => {
            reveal_strlit("SERVICE_DETECTION_"); reveal_strlit("BANNER"); reveal_strlit("SERVICE_DETECTION_BANNER"); assert(("SERVICE_DETECTION_"@ + "BANNER"@) =~= "SERVICE_DETECTION_BANNER"@);
        },
        schema::ServiceDetectionName::Probe => {
            reveal_strlit("SERVICE_DETECTION_"); reveal_strlit("PROBE"); reveal_strlit("SERVICE_DETECTION_PROBE"); assert(("SERVICE_DETECTION_"@ + "PROBE"@) =~= "SERVICE_DETECTION_PROBE"@);
        },
        schema::ServiceDetectionName::Thorough => {
            reveal_strlit("SERVICE_DETECTION_"); reveal_strlit("THOROUGH"); reveal_strlit("SERVICE_DETECTION_THOROUGH"); assert(("SERVICE_DETECTION_"@ + "THOROUGH"@) =~= "SERVICE_DETECTION_THOROUGH"@);
        },
        schema::ServiceDetectionName::Unspecified => {},
    }
}

/// Every OS detection level a request names is handed to the engine as its level of
/// that same name: the schema's name is `OS_DETECTION_` and the engine's own name
/// for what it is read as, and only the unset value is read as nothing.
pub proof fn lemma_os_detection_is_read_by_its_name(named: schema::OsDetectionName)
    ensures
        os_detection_of_spec(named) is None <==> named == schema::OsDetectionName::Unspecified,
        os_detection_of_spec(named) matches Some(level) ==> named.name_spec() == "OS_DETECTION_"@ + level.word(),
{
    match named {
        schema::OsDetectionName::Off => {
            reveal_strlit("OS_DETECTION_"); reveal_strlit("OFF"); reveal_strlit("OS_DETECTION_OFF"); assert(("OS_DETECTION_"@ + "OFF"@) =~= "OS_DETECTION_OFF"@);
        },
        schema::OsDetectionName::Passive => {
            reveal_strlit("OS_DETECTION_"); reveal_strlit("PASSIVE"); reveal_strlit("OS_DETECTION_PASSIVE"); assert(("OS_DETECTION_"@ + "PASSIVE"@) =~= "OS_DETECTION_PASSIVE"@);
        },
        schema::OsDetectionName::Active => {
            reveal_strlit("OS_DETECTION_"); reveal_strlit("ACTIVE"); reveal_strlit("OS_DETECTION_ACTIVE"); assert(("OS_DETECTION_"@ + "ACTIVE"@) =~= "OS_DETECTION_ACTIVE"@);
        },
        schema::OsDetectionName::Aggressive => {
            reveal_strlit("OS_DETECTION_"); reveal_strlit("AGGRESSIVE"); reveal_strlit("OS_DETECTION_AGGRESSIVE"); assert(("OS_DETECTION_"@ + "AGGRESSIVE"@) =~= "OS_DETECTION_AGGRESSIVE"@);
        },
        schema::OsDetectionName::Unspecified => {},
    }
}

/// Every detection class a request names is handed to the engine as its level of
/// that same name: the schema's name is `DETECTION_CLASS_` and the engine's own name
/// for what it is read as, and only the unset value is read as nothing.
pub proof fn lemma_detection_class_is_read_by_its_name(named: schema::DetectionClassName)
    ensures
        detection_class_of_spec(named) is None <==> named == schema::DetectionClassName::Unspecified,
        detection_class_of_spec(named) matches Some(level) ==> named.name_spec() == "DETECTION_CLASS_"@ + level.word(),
{
    match named {
        schema::DetectionClassName::Passive => {
            reveal_strlit("DETECTION_CLASS_"); reveal_strlit("PASSIVE"); reveal_strlit("DETECTION_CLASS_PASSIVE"); assert(("DETECTION_CLASS_"@ + "PASSIVE"@) =~= "DETECTION_CLASS_PASSIVE"@);
        },
        schema::DetectionClassName::ActiveBenign => {
            reveal_strlit("DETECTION_CLASS_"); reveal_strlit("ACTIVE_BENIGN"); reveal_strlit("DETECTION_CLASS_ACTIVE_BENIGN"); assert(("DETECTION_CLASS_"@ + "ACTIVE_BENIGN"@) =~= "DETECTION_CLASS_ACTIVE_BENIGN"@);
        },
        schema::DetectionClassName::ActiveMutating => {
            reveal_strlit("DETECTION_CLASS_"); reveal_strlit("ACTIVE_MUTATING"); reveal_strlit("DETECTION_CLASS_ACTIVE_MUTATING"); assert(("DETECTION_CLASS_"@ + "ACTIVE_MUTATING"@) =~= "DETECTION_CLASS_ACTIVE_MUTATING"@);
        },
        schema::DetectionClassName::Exploit => {
            reveal_strlit("DETECTION_CLASS_"); reveal_strlit("EXPLOIT"); reveal_strlit("DETECTION_CLASS_EXPLOIT"); assert(("DETECTION_CLASS_"@ + "EXPLOIT"@) =~= "DETECTION_CLASS_EXPLOIT"@);
        },
        schema::DetectionClassName::Dos => {
            reveal_strlit("DETECTION_CLASS_"); reveal_strlit("DOS"); reveal_strlit("DETECTION_CLASS_DOS"); assert(("DETECTION_CLASS_"@ + "DOS"@) =~= "DETECTION_CLASS_DOS"@);
        },
        schema::DetectionClassName::Unspecified => {},
    }
}

/// Every scan effort a request names is handed to the engine as its level of
/// that same name: the schema's name is `SCAN_EFFORT_` and the engine's own name
/// for what it is read as, and only the unset value is read as nothing.
pub proof fn lemma_scan_effort_is_read_by_its_name(named: schema::ScanEffortName)
    ensures
        scan_effort_of_spec(named) is None <==> named == schema::ScanEffortName::Unspecified,
        scan_effort_of_spec(named) matches Some(level) ==> named.name_spec() == "SCAN_EFFORT_"@ + level.word(),
{
    match named {
        schema::ScanEffortName::Single => {
            reveal_strlit("SCAN_EFFORT_"); reveal_strlit("SINGLE"); reveal_strlit("SCAN_EFFORT_SINGLE"); assert(("SCAN_EFFORT_"@ + "SINGLE"@) =~= "SCAN_EFFORT_SINGLE"@);
        },
        schema::ScanEffortName::Fast => {
            reveal_strlit("SCAN_EFFORT_"); reveal_strlit("FAST"); reveal_strlit("SCAN_EFFORT_FAST"); assert(("SCAN_EFFORT_"@ + "FAST"@) =~= "SCAN_EFFORT_FAST"@);
        },
        schema::ScanEffortName::Balanced => {
            reveal_strlit("SCAN_EFFORT_"); reveal_strlit("BALANCED"); reveal_strlit("SCAN_EFFORT_BALANCED"); assert(("SCAN_EFFORT_"@ + "BALANCED"@) =~= "SCAN_EFFORT_BALANCED"@);
        },
        schema::ScanEffortName::Thorough => {
            reveal_strlit("SCAN_EFFORT_"); reveal_strlit("THOROUGH"); reveal_strlit("SCAN_EFFORT_THOROUGH"); assert(("SCAN_EFFORT_"@ + "THOROUGH"@) =~= "SCAN_EFFORT_THOROUGH"@);
        },
        schema::ScanEffortName::Unspecified => {},
    }
}

} // verus!
