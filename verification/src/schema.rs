//! # The protocol's own vocabulary
//!
//! The messages and enums of the wire schema, as plain Rust. Protobuf carries
//! an enum as a number; the wire writes it as the name the schema gives it, so
//! every enum here knows both, in both directions, and a number or a name the
//! schema does not know comes back as `None` rather than as a guess.

use vstd::prelude::*;

use crate::text::{joined, same_text};

verus! {

/// What a name the schema does not give any `what` is refused with, naming
/// it, so a client built against a newer schema learns which of its words
/// this build does not know.
pub fn not_named(name: &str, what: &str) -> (r: String)
    ensures
        r@ == name@ + " is not a "@ + what@,
{
    let head = joined(name, " is not a ");
    joined(head.as_str(), what)
}

/// Where a scan has got to.
#[derive(Debug, Clone, Copy, PartialEq, Eq, Structural)]
pub enum StageName {
    Unspecified,
    Discovery,
    Ports,
    Services,
    Detections,
    Tls,
    Os,
    Traceroute,
    Listening,
    Finishing,
    Filters,
    IpProtocols,
}

impl StageName {
    /// The number protobuf stores this value as.
    pub open spec fn number_spec(self) -> i32 {
        match self {
            StageName::Unspecified => 0,
            StageName::Discovery => 1,
            StageName::Ports => 2,
            StageName::Services => 3,
            StageName::Detections => 4,
            StageName::Tls => 5,
            StageName::Os => 6,
            StageName::Traceroute => 7,
            StageName::Listening => 8,
            StageName::Finishing => 9,
            StageName::Filters => 10,
            StageName::IpProtocols => 11,
        }
    }

    /// The name the schema gives this value.
    pub open spec fn name_spec(self) -> Seq<char> {
        match self {
            StageName::Unspecified => "STAGE_UNSPECIFIED"@,
            StageName::Discovery => "STAGE_DISCOVERY"@,
            StageName::Ports => "STAGE_PORTS"@,
            StageName::Services => "STAGE_SERVICES"@,
            StageName::Detections => "STAGE_DETECTIONS"@,
            StageName::Tls => "STAGE_TLS"@,
            StageName::Os => "STAGE_OS"@,
            StageName::Traceroute => "STAGE_TRACEROUTE"@,
            StageName::Listening => "STAGE_LISTENING"@,
            StageName::Finishing => "STAGE_FINISHING"@,
            StageName::Filters => "STAGE_FILTERS"@,
            StageName::IpProtocols => "STAGE_IP_PROTOCOLS"@,
        }
    }

    /// The value a number stands for, where it stands for one.
    pub open spec fn numbered(n: i32) -> Option<Self> {
        if n == 0 {
            Some(StageName::Unspecified)
        } else if n == 1 {
            Some(StageName::Discovery)
        } else if n == 2 {
            Some(StageName::Ports)
        } else if n == 3 {
            Some(StageName::Services)
        } else if n == 4 {
            Some(StageName::Detections)
        } else if n == 5 {
            Some(StageName::Tls)
        } else if n == 6 {
            Some(StageName::Os)
        } else if n == 7 {
            Some(StageName::Traceroute)
        } else if n == 8 {
            Some(StageName::Listening)
        } else if n == 9 {
            Some(StageName::Finishing)
        } else if n == 10 {
            Some(StageName::Filters)
        } else if n == 11 {
            Some(StageName::IpProtocols)
        } else {
            None
        }
    }

    /// The value a name stands for, where it stands for one.
    pub open spec fn named(text: Seq<char>) -> Option<Self> {
        if text == "STAGE_UNSPECIFIED"@ {
            Some(StageName::Unspecified)
        } else if text == "STAGE_DISCOVERY"@ {
            Some(StageName::Discovery)
        } else if text == "STAGE_PORTS"@ {
            Some(StageName::Ports)
        } else if text == "STAGE_SERVICES"@ {
            Some(StageName::Services)
        } else if text == "STAGE_DETECTIONS"@ {
            Some(StageName::Detections)
        } else if text == "STAGE_TLS"@ {
            Some(StageName::Tls)
        } else if text == "STAGE_OS"@ {
            Some(StageName::Os)
        } else if text == "STAGE_TRACEROUTE"@ {
            Some(StageName::Traceroute)
        } else if text == "STAGE_LISTENING"@ {
            Some(StageName::Listening)
        } else if text == "STAGE_FINISHING"@ {
            Some(StageName::Finishing)
        } else if text == "STAGE_FILTERS"@ {
            Some(StageName::Filters)
        } else if text == "STAGE_IP_PROTOCOLS"@ {
            Some(StageName::IpProtocols)
        } else {
            None
        }
    }

    /// The number protobuf stores this value as.
    pub fn number(&self) -> (r: i32)
        ensures
            r == self.number_spec(),
    {
        match self {
            StageName::Unspecified => 0,
            StageName::Discovery => 1,
            StageName::Ports => 2,
            StageName::Services => 3,
            StageName::Detections => 4,
            StageName::Tls => 5,
            StageName::Os => 6,
            StageName::Traceroute => 7,
            StageName::Listening => 8,
            StageName::Finishing => 9,
            StageName::Filters => 10,
            StageName::IpProtocols => 11,
        }
    }

    /// The value a number stands for, or `None` for a number the schema
    /// does not name.
    pub fn from_number(n: i32) -> (r: Option<Self>)
        ensures
            r == Self::numbered(n),
    {
        if n == 0 {
            Some(StageName::Unspecified)
        } else if n == 1 {
            Some(StageName::Discovery)
        } else if n == 2 {
            Some(StageName::Ports)
        } else if n == 3 {
            Some(StageName::Services)
        } else if n == 4 {
            Some(StageName::Detections)
        } else if n == 5 {
            Some(StageName::Tls)
        } else if n == 6 {
            Some(StageName::Os)
        } else if n == 7 {
            Some(StageName::Traceroute)
        } else if n == 8 {
            Some(StageName::Listening)
        } else if n == 9 {
            Some(StageName::Finishing)
        } else if n == 10 {
            Some(StageName::Filters)
        } else if n == 11 {
            Some(StageName::IpProtocols)
        } else {
            None
        }
    }

    /// The name the schema gives this value.
    pub fn as_str_name(&self) -> (r: &'static str)
        ensures
            r@ == self.name_spec(),
    {
        match self {
            StageName::Unspecified => "STAGE_UNSPECIFIED",
            StageName::Discovery => "STAGE_DISCOVERY",
            StageName::Ports => "STAGE_PORTS",
            StageName::Services => "STAGE_SERVICES",
            StageName::Detections => "STAGE_DETECTIONS",
            StageName::Tls => "STAGE_TLS",
            StageName::Os => "STAGE_OS",
            StageName::Traceroute => "STAGE_TRACEROUTE",
            StageName::Listening => "STAGE_LISTENING",
            StageName::Finishing => "STAGE_FINISHING",
            StageName::Filters => "STAGE_FILTERS",
            StageName::IpProtocols => "STAGE_IP_PROTOCOLS",
        }
    }

    /// The value a name stands for, or `None` for a name the schema does
    /// not know.
    pub fn from_str_name(text: &str) -> (r: Option<Self>)
        ensures
            r == Self::named(text@),
    {
        if same_text(text, "STAGE_UNSPECIFIED") {
            Some(StageName::Unspecified)
        } else if same_text(text, "STAGE_DISCOVERY") {
            Some(StageName::Discovery)
        } else if same_text(text, "STAGE_PORTS") {
            Some(StageName::Ports)
        } else if same_text(text, "STAGE_SERVICES") {
            Some(StageName::Services)
        } else if same_text(text, "STAGE_DETECTIONS") {
            Some(StageName::Detections)
        } else if same_text(text, "STAGE_TLS") {
            Some(StageName::Tls)
        } else if same_text(text, "STAGE_OS") {
            Some(StageName::Os)
        } else if same_text(text, "STAGE_TRACEROUTE") {
            Some(StageName::Traceroute)
        } else if same_text(text, "STAGE_LISTENING") {
            Some(StageName::Listening)
        } else if same_text(text, "STAGE_FINISHING") {
            Some(StageName::Finishing)
        } else if same_text(text, "STAGE_FILTERS") {
            Some(StageName::Filters)
        } else if same_text(text, "STAGE_IP_PROTOCOLS") {
            Some(StageName::IpProtocols)
        } else {
            None
        }
    }

    /// Every value travels as its name and comes back as itself, and as its
    /// number too.
    pub proof fn lemma_round_trip(self)
        ensures
            Self::named(self.name_spec()) == Some(self),
            Self::numbered(self.number_spec()) == Some(self),
    {
        reveal_strlit("STAGE_UNSPECIFIED");
        reveal_strlit("STAGE_DISCOVERY");
        reveal_strlit("STAGE_PORTS");
        reveal_strlit("STAGE_SERVICES");
        reveal_strlit("STAGE_DETECTIONS");
        reveal_strlit("STAGE_TLS");
        reveal_strlit("STAGE_OS");
        reveal_strlit("STAGE_TRACEROUTE");
        reveal_strlit("STAGE_LISTENING");
        reveal_strlit("STAGE_FINISHING");
        reveal_strlit("STAGE_FILTERS");
        reveal_strlit("STAGE_IP_PROTOCOLS");
        assert("STAGE_DETECTIONS"@.len() == 16);
        assert("STAGE_DETECTIONS"@[6] == 'D');
        assert("STAGE_DISCOVERY"@.len() == 15);
        assert("STAGE_DISCOVERY"@[6] == 'D');
        assert("STAGE_FILTERS"@.len() == 13);
        assert("STAGE_FINISHING"@.len() == 15);
        assert("STAGE_FINISHING"@[6] == 'F');
        assert("STAGE_IP_PROTOCOLS"@.len() == 18);
        assert("STAGE_LISTENING"@.len() == 15);
        assert("STAGE_LISTENING"@[6] == 'L');
        assert("STAGE_OS"@.len() == 8);
        assert("STAGE_PORTS"@.len() == 11);
        assert("STAGE_SERVICES"@.len() == 14);
        assert("STAGE_TLS"@.len() == 9);
        assert("STAGE_TRACEROUTE"@.len() == 16);
        assert("STAGE_TRACEROUTE"@[6] == 'T');
        assert("STAGE_UNSPECIFIED"@.len() == 17);
    }

    /// What travels on the wire for each number protobuf stores: the value
    /// numbered 11 is written `STAGE_IP_PROTOCOLS`, and so on for every number the
    /// schema gives, and each name is read back as the value of that number.
    pub proof fn lemma_wire_names()
        ensures
            Self::numbered(0) matches Some(v) && v.name_spec() == "STAGE_UNSPECIFIED"@,
            Self::named("STAGE_UNSPECIFIED"@) == Self::numbered(0),
            Self::numbered(1) matches Some(v) && v.name_spec() == "STAGE_DISCOVERY"@,
            Self::named("STAGE_DISCOVERY"@) == Self::numbered(1),
            Self::numbered(2) matches Some(v) && v.name_spec() == "STAGE_PORTS"@,
            Self::named("STAGE_PORTS"@) == Self::numbered(2),
            Self::numbered(3) matches Some(v) && v.name_spec() == "STAGE_SERVICES"@,
            Self::named("STAGE_SERVICES"@) == Self::numbered(3),
            Self::numbered(4) matches Some(v) && v.name_spec() == "STAGE_DETECTIONS"@,
            Self::named("STAGE_DETECTIONS"@) == Self::numbered(4),
            Self::numbered(5) matches Some(v) && v.name_spec() == "STAGE_TLS"@,
            Self::named("STAGE_TLS"@) == Self::numbered(5),
            Self::numbered(6) matches Some(v) && v.name_spec() == "STAGE_OS"@,
            Self::named("STAGE_OS"@) == Self::numbered(6),
            Self::numbered(7) matches Some(v) && v.name_spec() == "STAGE_TRACEROUTE"@,
            Self::named("STAGE_TRACEROUTE"@) == Self::numbered(7),
            Self::numbered(8) matches Some(v) && v.name_spec() == "STAGE_LISTENING"@,
            Self::named("STAGE_LISTENING"@) == Self::numbered(8),
            Self::numbered(9) matches Some(v) && v.name_spec() == "STAGE_FINISHING"@,
            Self::named("STAGE_FINISHING"@) == Self::numbered(9),
            Self::numbered(10) matches Some(v) && v.name_spec() == "STAGE_FILTERS"@,
            Self::named("STAGE_FILTERS"@) == Self::numbered(10),
            Self::numbered(11) matches Some(v) && v.name_spec() == "STAGE_IP_PROTOCOLS"@,
            Self::named("STAGE_IP_PROTOCOLS"@) == Self::numbered(11),
    {
        reveal_strlit("STAGE_UNSPECIFIED");
        reveal_strlit("STAGE_DISCOVERY");
        reveal_strlit("STAGE_PORTS");
        reveal_strlit("STAGE_SERVICES");
        reveal_strlit("STAGE_DETECTIONS");
        reveal_strlit("STAGE_TLS");
        reveal_strlit("STAGE_OS");
        reveal_strlit("STAGE_TRACEROUTE");
        reveal_strlit("STAGE_LISTENING");
        reveal_strlit("STAGE_FINISHING");
        reveal_strlit("STAGE_FILTERS");
        reveal_strlit("STAGE_IP_PROTOCOLS");
        StageName::Unspecified.lemma_round_trip();
        StageName::Discovery.lemma_round_trip();
        StageName::Ports.lemma_round_trip();
        StageName::Services.lemma_round_trip();
        StageName::Detections.lemma_round_trip();
        StageName::Tls.lemma_round_trip();
        StageName::Os.lemma_round_trip();
        StageName::Traceroute.lemma_round_trip();
        StageName::Listening.lemma_round_trip();
        StageName::Finishing.lemma_round_trip();
        StageName::Filters.lemma_round_trip();
        StageName::IpProtocols.lemma_round_trip();
    }
}

/// Why a scan stopped.
#[derive(Debug, Clone, Copy, PartialEq, Eq, Structural)]
pub enum StopCauseName {
    Unspecified,
    Completed,
    Aborted,
    TimedOut,
}

impl StopCauseName {
    /// The number protobuf stores this value as.
    pub open spec fn number_spec(self) -> i32 {
        match self {
            StopCauseName::Unspecified => 0,
            StopCauseName::Completed => 1,
            StopCauseName::Aborted => 2,
            StopCauseName::TimedOut => 3,
        }
    }

    /// The name the schema gives this value.
    pub open spec fn name_spec(self) -> Seq<char> {
        match self {
            StopCauseName::Unspecified => "STOP_CAUSE_UNSPECIFIED"@,
            StopCauseName::Completed => "STOP_CAUSE_COMPLETED"@,
            StopCauseName::Aborted => "STOP_CAUSE_ABORTED"@,
            StopCauseName::TimedOut => "STOP_CAUSE_TIMED_OUT"@,
        }
    }

    /// The value a number stands for, where it stands for one.
    pub open spec fn numbered(n: i32) -> Option<Self> {
        if n == 0 {
            Some(StopCauseName::Unspecified)
        } else if n == 1 {
            Some(StopCauseName::Completed)
        } else if n == 2 {
            Some(StopCauseName::Aborted)
        } else if n == 3 {
            Some(StopCauseName::TimedOut)
        } else {
            None
        }
    }

    /// The value a name stands for, where it stands for one.
    pub open spec fn named(text: Seq<char>) -> Option<Self> {
        if text == "STOP_CAUSE_UNSPECIFIED"@ {
            Some(StopCauseName::Unspecified)
        } else if text == "STOP_CAUSE_COMPLETED"@ {
            Some(StopCauseName::Completed)
        } else if text == "STOP_CAUSE_ABORTED"@ {
            Some(StopCauseName::Aborted)
        } else if text == "STOP_CAUSE_TIMED_OUT"@ {
            Some(StopCauseName::TimedOut)
        } else {
            None
        }
    }

    /// The number protobuf stores this value as.
    pub fn number(&self) -> (r: i32)
        ensures
            r == self.number_spec(),
    {
        match self {
            StopCauseName::Unspecified => 0,
            StopCauseName::Completed => 1,
            StopCauseName::Aborted => 2,
            StopCauseName::TimedOut => 3,
        }
    }

    /// The value a number stands for, or `None` for a number the schema
    /// does not name.
    pub fn from_number(n: i32) -> (r: Option<Self>)
        ensures
            r == Self::numbered(n),
    {
        if n == 0 {
            Some(StopCauseName::Unspecified)
        } else if n == 1 {
            Some(StopCauseName::Completed)
        } else if n == 2 {
            Some(StopCauseName::Aborted)
        } else if n == 3 {
            Some(StopCauseName::TimedOut)
        } else {
            None
        }
    }

    /// The name the schema gives this value.
    pub fn as_str_name(&self) -> (r: &'static str)
        ensures
            r@ == self.name_spec(),
    {
        match self {
            StopCauseName::Unspecified => "STOP_CAUSE_UNSPECIFIED",
            StopCauseName::Completed => "STOP_CAUSE_COMPLETED",
            StopCauseName::Aborted => "STOP_CAUSE_ABORTED",
            StopCauseName::TimedOut => "STOP_CAUSE_TIMED_OUT",
        }
    }

    /// The value a name stands for, or `None` for a name the schema does
    /// not know.
    pub fn from_str_name(text: &str) -> (r: Option<Self>)
        ensures
            r == Self::named(text@),
    {
        if same_text(text, "STOP_CAUSE_UNSPECIFIED") {
            Some(StopCauseName::Unspecified)
        } else if same_text(text, "STOP_CAUSE_COMPLETED") {
            Some(StopCauseName::Completed)
        } else if same_text(text, "STOP_CAUSE_ABORTED") {
            Some(StopCauseName::Aborted)
        } else if same_text(text, "STOP_CAUSE_TIMED_OUT") {
            Some(StopCauseName::TimedOut)
        } else {
            None
        }
    }

    /// Every value travels as its name and comes back as itself, and as its
    /// number too.
    pub proof fn lemma_round_trip(self)
        ensures
            Self::named(self.name_spec()) == Some(self),
            Self::numbered(self.number_spec()) == Some(self),
    {
        reveal_strlit("STOP_CAUSE_UNSPECIFIED");
        reveal_strlit("STOP_CAUSE_COMPLETED");
        reveal_strlit("STOP_CAUSE_ABORTED");
        reveal_strlit("STOP_CAUSE_TIMED_OUT");
        assert("STOP_CAUSE_ABORTED"@.len() == 18);
        assert("STOP_CAUSE_COMPLETED"@.len() == 20);
        assert("STOP_CAUSE_COMPLETED"@[11] == 'C');
        assert("STOP_CAUSE_TIMED_OUT"@.len() == 20);
        assert("STOP_CAUSE_TIMED_OUT"@[11] == 'T');
        assert("STOP_CAUSE_UNSPECIFIED"@.len() == 22);
    }

    /// What travels on the wire for each number protobuf stores: the value
    /// numbered 3 is written `STOP_CAUSE_TIMED_OUT`, and so on for every number the
    /// schema gives, and each name is read back as the value of that number.
    pub proof fn lemma_wire_names()
        ensures
            Self::numbered(0) matches Some(v) && v.name_spec() == "STOP_CAUSE_UNSPECIFIED"@,
            Self::named("STOP_CAUSE_UNSPECIFIED"@) == Self::numbered(0),
            Self::numbered(1) matches Some(v) && v.name_spec() == "STOP_CAUSE_COMPLETED"@,
            Self::named("STOP_CAUSE_COMPLETED"@) == Self::numbered(1),
            Self::numbered(2) matches Some(v) && v.name_spec() == "STOP_CAUSE_ABORTED"@,
            Self::named("STOP_CAUSE_ABORTED"@) == Self::numbered(2),
            Self::numbered(3) matches Some(v) && v.name_spec() == "STOP_CAUSE_TIMED_OUT"@,
            Self::named("STOP_CAUSE_TIMED_OUT"@) == Self::numbered(3),
    {
        reveal_strlit("STOP_CAUSE_UNSPECIFIED");
        reveal_strlit("STOP_CAUSE_COMPLETED");
        reveal_strlit("STOP_CAUSE_ABORTED");
        reveal_strlit("STOP_CAUSE_TIMED_OUT");
        StopCauseName::Unspecified.lemma_round_trip();
        StopCauseName::Completed.lemma_round_trip();
        StopCauseName::Aborted.lemma_round_trip();
        StopCauseName::TimedOut.lemma_round_trip();
    }
}

/// How hard the engine looks at a service.
#[derive(Debug, Clone, Copy, PartialEq, Eq, Structural)]
pub enum ServiceDetectionName {
    Unspecified,
    Off,
    Banner,
    Probe,
    Thorough,
}

impl ServiceDetectionName {
    /// The number protobuf stores this value as.
    pub open spec fn number_spec(self) -> i32 {
        match self {
            ServiceDetectionName::Unspecified => 0,
            ServiceDetectionName::Off => 1,
            ServiceDetectionName::Banner => 2,
            ServiceDetectionName::Probe => 3,
            ServiceDetectionName::Thorough => 4,
        }
    }

    /// The name the schema gives this value.
    pub open spec fn name_spec(self) -> Seq<char> {
        match self {
            ServiceDetectionName::Unspecified => "SERVICE_DETECTION_UNSPECIFIED"@,
            ServiceDetectionName::Off => "SERVICE_DETECTION_OFF"@,
            ServiceDetectionName::Banner => "SERVICE_DETECTION_BANNER"@,
            ServiceDetectionName::Probe => "SERVICE_DETECTION_PROBE"@,
            ServiceDetectionName::Thorough => "SERVICE_DETECTION_THOROUGH"@,
        }
    }

    /// The value a number stands for, where it stands for one.
    pub open spec fn numbered(n: i32) -> Option<Self> {
        if n == 0 {
            Some(ServiceDetectionName::Unspecified)
        } else if n == 1 {
            Some(ServiceDetectionName::Off)
        } else if n == 2 {
            Some(ServiceDetectionName::Banner)
        } else if n == 3 {
            Some(ServiceDetectionName::Probe)
        } else if n == 4 {
            Some(ServiceDetectionName::Thorough)
        } else {
            None
        }
    }

    /// The value a name stands for, where it stands for one.
    pub open spec fn named(text: Seq<char>) -> Option<Self> {
        if text == "SERVICE_DETECTION_UNSPECIFIED"@ {
            Some(ServiceDetectionName::Unspecified)
        } else if text == "SERVICE_DETECTION_OFF"@ {
            Some(ServiceDetectionName::Off)
        } else if text == "SERVICE_DETECTION_BANNER"@ {
            Some(ServiceDetectionName::Banner)
        } else if text == "SERVICE_DETECTION_PROBE"@ {
            Some(ServiceDetectionName::Probe)
        } else if text == "SERVICE_DETECTION_THOROUGH"@ {
            Some(ServiceDetectionName::Thorough)
        } else {
            None
        }
    }

    /// The number protobuf stores this value as.
    pub fn number(&self) -> (r: i32)
        ensures
            r == self.number_spec(),
    {
        match self {
            ServiceDetectionName::Unspecified => 0,
            ServiceDetectionName::Off => 1,
            ServiceDetectionName::Banner => 2,
            ServiceDetectionName::Probe => 3,
            ServiceDetectionName::Thorough => 4,
        }
    }

    /// The value a number stands for, or `None` for a number the schema
    /// does not name.
    pub fn from_number(n: i32) -> (r: Option<Self>)
        ensures
            r == Self::numbered(n),
    {
        if n == 0 {
            Some(ServiceDetectionName::Unspecified)
        } else if n == 1 {
            Some(ServiceDetectionName::Off)
        } else if n == 2 {
            Some(ServiceDetectionName::Banner)
        } else if n == 3 {
            Some(ServiceDetectionName::Probe)
        } else if n == 4 {
            Some(ServiceDetectionName::Thorough)
        } else {
            None
        }
    }

    /// The name the schema gives this value.
    pub fn as_str_name(&self) -> (r: &'static str)
        ensures
            r@ == self.name_spec(),
    {
        match self {
            ServiceDetectionName::Unspecified => "SERVICE_DETECTION_UNSPECIFIED",
            ServiceDetectionName::Off => "SERVICE_DETECTION_OFF",
            ServiceDetectionName::Banner => "SERVICE_DETECTION_BANNER",
            ServiceDetectionName::Probe => "SERVICE_DETECTION_PROBE",
            ServiceDetectionName::Thorough => "SERVICE_DETECTION_THOROUGH",
        }
    }

    /// The value a name stands for, or `None` for a name the schema does
    /// not know.
    pub fn from_str_name(text: &str) -> (r: Option<Self>)
        ensures
            r == Self::named(text@),
    {
        if same_text(text, "SERVICE_DETECTION_UNSPECIFIED") {
            Some(ServiceDetectionName::Unspecified)
        } else if same_text(text, "SERVICE_DETECTION_OFF") {
            Some(ServiceDetectionName::Off)
        } else if same_text(text, "SERVICE_DETECTION_BANNER") {
            Some(ServiceDetectionName::Banner)
        } else if same_text(text, "SERVICE_DETECTION_PROBE") {
            Some(ServiceDetectionName::Probe)
        } else if same_text(text, "SERVICE_DETECTION_THOROUGH") {
            Some(ServiceDetectionName::Thorough)
        } else {
            None
        }
    }

    /// Every value travels as its name and comes back as itself, and as its
    /// number too.
    pub proof fn lemma_round_trip(self)
        ensures
            Self::named(self.name_spec()) == Some(self),
            Self::numbered(self.number_spec()) == Some(self),
    {
        reveal_strlit("SERVICE_DETECTION_UNSPECIFIED");
        reveal_strlit("SERVICE_DETECTION_OFF");
        reveal_strlit("SERVICE_DETECTION_BANNER");
        reveal_strlit("SERVICE_DETECTION_PROBE");
        reveal_strlit("SERVICE_DETECTION_THOROUGH");
        assert("SERVICE_DETECTION_BANNER"@.len() == 24);
        assert("SERVICE_DETECTION_OFF"@.len() == 21);
        assert("SERVICE_DETECTION_PROBE"@.len() == 23);
        assert("SERVICE_DETECTION_THOROUGH"@.len() == 26);
        assert("SERVICE_DETECTION_UNSPECIFIED"@.len() == 29);
    }

    /// What travels on the wire for each number protobuf stores: the value
    /// numbered 4 is written `SERVICE_DETECTION_THOROUGH`, and so on for every number the
    /// schema gives, and each name is read back as the value of that number.
    pub proof fn lemma_wire_names()
        ensures
            Self::numbered(0) matches Some(v) && v.name_spec() == "SERVICE_DETECTION_UNSPECIFIED"@,
            Self::named("SERVICE_DETECTION_UNSPECIFIED"@) == Self::numbered(0),
            Self::numbered(1) matches Some(v) && v.name_spec() == "SERVICE_DETECTION_OFF"@,
            Self::named("SERVICE_DETECTION_OFF"@) == Self::numbered(1),
            Self::numbered(2) matches Some(v) && v.name_spec() == "SERVICE_DETECTION_BANNER"@,
            Self::named("SERVICE_DETECTION_BANNER"@) == Self::numbered(2),
            Self::numbered(3) matches Some(v) && v.name_spec() == "SERVICE_DETECTION_PROBE"@,
            Self::named("SERVICE_DETECTION_PROBE"@) == Self::numbered(3),
            Self::numbered(4) matches Some(v) && v.name_spec() == "SERVICE_DETECTION_THOROUGH"@,
            Self::named("SERVICE_DETECTION_THOROUGH"@) == Self::numbered(4),
    {
        reveal_strlit("SERVICE_DETECTION_UNSPECIFIED");
        reveal_strlit("SERVICE_DETECTION_OFF");
        reveal_strlit("SERVICE_DETECTION_BANNER");
        reveal_strlit("SERVICE_DETECTION_PROBE");
        reveal_strlit("SERVICE_DETECTION_THOROUGH");
        ServiceDetectionName::Unspecified.lemma_round_trip();
        ServiceDetectionName::Off.lemma_round_trip();
        ServiceDetectionName::Banner.lemma_round_trip();
        ServiceDetectionName::Probe.lemma_round_trip();
        ServiceDetectionName::Thorough.lemma_round_trip();
    }
}

/// Whether a host is asked what it runs.
#[derive(Debug, Clone, Copy, PartialEq, Eq, Structural)]
pub enum OsDetectionName {
    Unspecified,
    Off,
    Passive,
    Active,
    Aggressive,
}

impl OsDetectionName {
    /// The number protobuf stores this value as.
    pub open spec fn number_spec(self) -> i32 {
        match self {
            OsDetectionName::Unspecified => 0,
            OsDetectionName::Off => 1,
            OsDetectionName::Passive => 2,
            OsDetectionName::Active => 3,
            OsDetectionName::Aggressive => 4,
        }
    }

    /// The name the schema gives this value.
    pub open spec fn name_spec(self) -> Seq<char> {
        match self {
            OsDetectionName::Unspecified => "OS_DETECTION_UNSPECIFIED"@,
            OsDetectionName::Off => "OS_DETECTION_OFF"@,
            OsDetectionName::Passive => "OS_DETECTION_PASSIVE"@,
            OsDetectionName::Active => "OS_DETECTION_ACTIVE"@,
            OsDetectionName::Aggressive => "OS_DETECTION_AGGRESSIVE"@,
        }
    }

    /// The value a number stands for, where it stands for one.
    pub open spec fn numbered(n: i32) -> Option<Self> {
        if n == 0 {
            Some(OsDetectionName::Unspecified)
        } else if n == 1 {
            Some(OsDetectionName::Off)
        } else if n == 2 {
            Some(OsDetectionName::Passive)
        } else if n == 3 {
            Some(OsDetectionName::Active)
        } else if n == 4 {
            Some(OsDetectionName::Aggressive)
        } else {
            None
        }
    }

    /// The value a name stands for, where it stands for one.
    pub open spec fn named(text: Seq<char>) -> Option<Self> {
        if text == "OS_DETECTION_UNSPECIFIED"@ {
            Some(OsDetectionName::Unspecified)
        } else if text == "OS_DETECTION_OFF"@ {
            Some(OsDetectionName::Off)
        } else if text == "OS_DETECTION_PASSIVE"@ {
            Some(OsDetectionName::Passive)
        } else if text == "OS_DETECTION_ACTIVE"@ {
            Some(OsDetectionName::Active)
        } else if text == "OS_DETECTION_AGGRESSIVE"@ {
            Some(OsDetectionName::Aggressive)
        } else {
            None
        }
    }

    /// The number protobuf stores this value as.
    pub fn number(&self) -> (r: i32)
        ensures
            r == self.number_spec(),
    {
        match self {
            OsDetectionName::Unspecified => 0,
            OsDetectionName::Off => 1,
            OsDetectionName::Passive => 2,
            OsDetectionName::Active => 3,
            OsDetectionName::Aggressive => 4,
        }
    }

    /// The value a number stands for, or `None` for a number the schema
    /// does not name.
    pub fn from_number(n: i32) -> (r: Option<Self>)
        ensures
            r == Self::numbered(n),
    {
        if n == 0 {
            Some(OsDetectionName::Unspecified)
        } else if n == 1 {
            Some(OsDetectionName::Off)
        } else if n == 2 {
            Some(OsDetectionName::Passive)
        } else if n == 3 {
            Some(OsDetectionName::Active)
        } else if n == 4 {
            Some(OsDetectionName::Aggressive)
        } else {
            None
        }
    }

    /// The name the schema gives this value.
    pub fn as_str_name(&self) -> (r: &'static str)
        ensures
            r@ == self.name_spec(),
    {
        match self {
            OsDetectionName::Unspecified => "OS_DETECTION_UNSPECIFIED",
            OsDetectionName::Off => "OS_DETECTION_OFF",
            OsDetectionName::Passive => "OS_DETECTION_PASSIVE",
            OsDetectionName::Active => "OS_DETECTION_ACTIVE",
            OsDetectionName::Aggressive => "OS_DETECTION_AGGRESSIVE",
        }
    }

    /// The value a name stands for, or `None` for a name the schema does
    /// not know.
    pub fn from_str_name(text: &str) -> (r: Option<Self>)
        ensures
            r == Self::named(text@),
    {
        if same_text(text, "OS_DETECTION_UNSPECIFIED") {
            Some(OsDetectionName::Unspecified)
        } else if same_text(text, "OS_DETECTION_OFF") {
            Some(OsDetectionName::Off)
        } else if same_text(text, "OS_DETECTION_PASSIVE") {
            Some(OsDetectionName::Passive)
        } else if same_text(text, "OS_DETECTION_ACTIVE") {
            Some(OsDetectionName::Active)
        } else if same_text(text, "OS_DETECTION_AGGRESSIVE") {
            Some(OsDetectionName::Aggressive)
        } else {
            None
        }
    }

    /// Every value travels as its name and comes back as itself, and as its
    /// number too.
    pub proof fn lemma_round_trip(self)
        ensures
            Self::named(self.name_spec()) == Some(self),
            Self::numbered(self.number_spec()) == Some(self),
    {
        reveal_strlit("OS_DETECTION_UNSPECIFIED");
        reveal_strlit("OS_DETECTION_OFF");
        reveal_strlit("OS_DETECTION_PASSIVE");
        reveal_strlit("OS_DETECTION_ACTIVE");
        reveal_strlit("OS_DETECTION_AGGRESSIVE");
        assert("OS_DETECTION_ACTIVE"@.len() == 19);
        assert("OS_DETECTION_AGGRESSIVE"@.len() == 23);
        assert("OS_DETECTION_OFF"@.len() == 16);
        assert("OS_DETECTION_PASSIVE"@.len() == 20);
        assert("OS_DETECTION_UNSPECIFIED"@.len() == 24);
    }

    /// What travels on the wire for each number protobuf stores: the value
    /// numbered 4 is written `OS_DETECTION_AGGRESSIVE`, and so on for every number the
    /// schema gives, and each name is read back as the value of that number.
    pub proof fn lemma_wire_names()
        ensures
            Self::numbered(0) matches Some(v) && v.name_spec() == "OS_DETECTION_UNSPECIFIED"@,
            Self::named("OS_DETECTION_UNSPECIFIED"@) == Self::numbered(0),
            Self::numbered(1) matches Some(v) && v.name_spec() == "OS_DETECTION_OFF"@,
            Self::named("OS_DETECTION_OFF"@) == Self::numbered(1),
            Self::numbered(2) matches Some(v) && v.name_spec() == "OS_DETECTION_PASSIVE"@,
            Self::named("OS_DETECTION_PASSIVE"@) == Self::numbered(2),
            Self::numbered(3) matches Some(v) && v.name_spec() == "OS_DETECTION_ACTIVE"@,
            Self::named("OS_DETECTION_ACTIVE"@) == Self::numbered(3),
            Self::numbered(4) matches Some(v) && v.name_spec() == "OS_DETECTION_AGGRESSIVE"@,
            Self::named("OS_DETECTION_AGGRESSIVE"@) == Self::numbered(4),
    {
        reveal_strlit("OS_DETECTION_UNSPECIFIED");
        reveal_strlit("OS_DETECTION_OFF");
        reveal_strlit("OS_DETECTION_PASSIVE");
        reveal_strlit("OS_DETECTION_ACTIVE");
        reveal_strlit("OS_DETECTION_AGGRESSIVE");
        OsDetectionName::Unspecified.lemma_round_trip();
        OsDetectionName::Off.lemma_round_trip();
        OsDetectionName::Passive.lemma_round_trip();
        OsDetectionName::Active.lemma_round_trip();
        OsDetectionName::Aggressive.lemma_round_trip();
    }
}

/// What a detection may do to its target, least intrusive first.
#[derive(Debug, Clone, Copy, PartialEq, Eq, Structural)]
pub enum DetectionClassName {
    Unspecified,
    Passive,
    ActiveBenign,
    ActiveMutating,
    Exploit,
    Dos,
}

impl DetectionClassName {
    /// The number protobuf stores this value as.
    pub open spec fn number_spec(self) -> i32 {
        match self {
            DetectionClassName::Unspecified => 0,
            DetectionClassName::Passive => 1,
            DetectionClassName::ActiveBenign => 2,
            DetectionClassName::ActiveMutating => 3,
            DetectionClassName::Exploit => 4,
            DetectionClassName::Dos => 5,
        }
    }

    /// The name the schema gives this value.
    pub open spec fn name_spec(self) -> Seq<char> {
        match self {
            DetectionClassName::Unspecified => "DETECTION_CLASS_UNSPECIFIED"@,
            DetectionClassName::Passive => "DETECTION_CLASS_PASSIVE"@,
            DetectionClassName::ActiveBenign => "DETECTION_CLASS_ACTIVE_BENIGN"@,
            DetectionClassName::ActiveMutating => "DETECTION_CLASS_ACTIVE_MUTATING"@,
            DetectionClassName::Exploit => "DETECTION_CLASS_EXPLOIT"@,
            DetectionClassName::Dos => "DETECTION_CLASS_DOS"@,
        }
    }

    /// The value a number stands for, where it stands for one.
    pub open spec fn numbered(n: i32) -> Option<Self> {
        if n == 0 {
            Some(DetectionClassName::Unspecified)
        } else if n == 1 {
            Some(DetectionClassName::Passive)
        } else if n == 2 {
            Some(DetectionClassName::ActiveBenign)
        } else if n == 3 {
            Some(DetectionClassName::ActiveMutating)
        } else if n == 4 {
            Some(DetectionClassName::Exploit)
        } else if n == 5 {
            Some(DetectionClassName::Dos)
        } else {
            None
        }
    }

    /// The value a name stands for, where it stands for one.
    pub open spec fn named(text: Seq<char>) -> Option<Self> {
        if text == "DETECTION_CLASS_UNSPECIFIED"@ {
            Some(DetectionClassName::Unspecified)
        } else if text == "DETECTION_CLASS_PASSIVE"@ {
            Some(DetectionClassName::Passive)
        } else if text == "DETECTION_CLASS_ACTIVE_BENIGN"@ {
            Some(DetectionClassName::ActiveBenign)
        } else if text == "DETECTION_CLASS_ACTIVE_MUTATING"@ {
            Some(DetectionClassName::ActiveMutating)
        } else if text == "DETECTION_CLASS_EXPLOIT"@ {
            Some(DetectionClassName::Exploit)
        } else if text == "DETECTION_CLASS_DOS"@ {
            Some(DetectionClassName::Dos)
        } else {
            None
        }
    }

    /// The number protobuf stores this value as.
    pub fn number(&self) -> (r: i32)
        ensures
            r == self.number_spec(),
    {
        match self {
            DetectionClassName::Unspecified => 0,
            DetectionClassName::Passive => 1,
            DetectionClassName::ActiveBenign => 2,
            DetectionClassName::ActiveMutating => 3,
            DetectionClassName::Exploit => 4,
            DetectionClassName::Dos => 5,
        }
    }

    /// The value a number stands for, or `None` for a number the schema
    /// does not name.
    pub fn from_number(n: i32) -> (r: Option<Self>)
        ensures
            r == Self::numbered(n),
    {
        if n == 0 {
            Some(DetectionClassName::Unspecified)
        } else if n == 1 {
            Some(DetectionClassName::Passive)
        } else if n == 2 {
            Some(DetectionClassName::ActiveBenign)
        } else if n == 3 {
            Some(DetectionClassName::ActiveMutating)
        } else if n == 4 {
            Some(DetectionClassName::Exploit)
        } else if n == 5 {
            Some(DetectionClassName::Dos)
        } else {
            None
        }
    }

    /// The name the schema gives this value.
    pub fn as_str_name(&self) -> (r: &'static str)
        ensures
            r@ == self.name_spec(),
    {
        match self {
            DetectionClassName::Unspecified => "DETECTION_CLASS_UNSPECIFIED",
            DetectionClassName::Passive => "DETECTION_CLASS_PASSIVE",
            DetectionClassName::ActiveBenign => "DETECTION_CLASS_ACTIVE_BENIGN",
            DetectionClassName::ActiveMutating => "DETECTION_CLASS_ACTIVE_MUTATING",
            DetectionClassName::Exploit => "DETECTION_CLASS_EXPLOIT",
            DetectionClassName::Dos => "DETECTION_CLASS_DOS",
        }
    }

    /// The value a name stands for, or `None` for a name the schema does
    /// not know.
    pub fn from_str_name(text: &str) -> (r: Option<Self>)
        ensures
            r == Self::named(text@),
    {
        if same_text(text, "DETECTION_CLASS_UNSPECIFIED") {
            Some(DetectionClassName::Unspecified)
        } else if same_text(text, "DETECTION_CLASS_PASSIVE") {
            Some(DetectionClassName::Passive)
        } else if same_text(text, "DETECTION_CLASS_ACTIVE_BENIGN") {
            Some(DetectionClassName::ActiveBenign)
        } else if same_text(text, "DETECTION_CLASS_ACTIVE_MUTATING") {
            Some(DetectionClassName::ActiveMutating)
        } else if same_text(text, "DETECTION_CLASS_EXPLOIT") {
            Some(DetectionClassName::Exploit)
        } else if same_text(text, "DETECTION_CLASS_DOS") {
            Some(DetectionClassName::Dos)
        } else {
            None
        }
    }

    /// Every value travels as its name and comes back as itself, and as its
    /// number too.
    pub proof fn lemma_round_trip(self)
        ensures
            Self::named(self.name_spec()) == Some(self),
            Self::numbered(self.number_spec()) == Some(self),
    {
        reveal_strlit("DETECTION_CLASS_UNSPECIFIED");
        reveal_strlit("DETECTION_CLASS_PASSIVE");
        reveal_strlit("DETECTION_CLASS_ACTIVE_BENIGN");
        reveal_strlit("DETECTION_CLASS_ACTIVE_MUTATING");
        reveal_strlit("DETECTION_CLASS_EXPLOIT");
        reveal_strlit("DETECTION_CLASS_DOS");
        assert("DETECTION_CLASS_ACTIVE_BENIGN"@.len() == 29);
        assert("DETECTION_CLASS_ACTIVE_MUTATING"@.len() == 31);
        assert("DETECTION_CLASS_DOS"@.len() == 19);
        assert("DETECTION_CLASS_EXPLOIT"@.len() == 23);
        assert("DETECTION_CLASS_EXPLOIT"@[16] == 'E');
        assert("DETECTION_CLASS_PASSIVE"@.len() == 23);
        assert("DETECTION_CLASS_PASSIVE"@[16] == 'P');
        assert("DETECTION_CLASS_UNSPECIFIED"@.len() == 27);
    }

    /// What travels on the wire for each number protobuf stores: the value
    /// numbered 5 is written `DETECTION_CLASS_DOS`, and so on for every number the
    /// schema gives, and each name is read back as the value of that number.
    pub proof fn lemma_wire_names()
        ensures
            Self::numbered(0) matches Some(v) && v.name_spec() == "DETECTION_CLASS_UNSPECIFIED"@,
            Self::named("DETECTION_CLASS_UNSPECIFIED"@) == Self::numbered(0),
            Self::numbered(1) matches Some(v) && v.name_spec() == "DETECTION_CLASS_PASSIVE"@,
            Self::named("DETECTION_CLASS_PASSIVE"@) == Self::numbered(1),
            Self::numbered(2) matches Some(v) && v.name_spec() == "DETECTION_CLASS_ACTIVE_BENIGN"@,
            Self::named("DETECTION_CLASS_ACTIVE_BENIGN"@) == Self::numbered(2),
            Self::numbered(3) matches Some(v) && v.name_spec() == "DETECTION_CLASS_ACTIVE_MUTATING"@,
            Self::named("DETECTION_CLASS_ACTIVE_MUTATING"@) == Self::numbered(3),
            Self::numbered(4) matches Some(v) && v.name_spec() == "DETECTION_CLASS_EXPLOIT"@,
            Self::named("DETECTION_CLASS_EXPLOIT"@) == Self::numbered(4),
            Self::numbered(5) matches Some(v) && v.name_spec() == "DETECTION_CLASS_DOS"@,
            Self::named("DETECTION_CLASS_DOS"@) == Self::numbered(5),
    {
        reveal_strlit("DETECTION_CLASS_UNSPECIFIED");
        reveal_strlit("DETECTION_CLASS_PASSIVE");
        reveal_strlit("DETECTION_CLASS_ACTIVE_BENIGN");
        reveal_strlit("DETECTION_CLASS_ACTIVE_MUTATING");
        reveal_strlit("DETECTION_CLASS_EXPLOIT");
        reveal_strlit("DETECTION_CLASS_DOS");
        DetectionClassName::Unspecified.lemma_round_trip();
        DetectionClassName::Passive.lemma_round_trip();
        DetectionClassName::ActiveBenign.lemma_round_trip();
        DetectionClassName::ActiveMutating.lemma_round_trip();
        DetectionClassName::Exploit.lemma_round_trip();
        DetectionClassName::Dos.lemma_round_trip();
    }
}

/// How much a scan spends on being sure.
#[derive(Debug, Clone, Copy, PartialEq, Eq, Structural)]
pub enum ScanEffortName {
    Unspecified,
    Single,
    Fast,
    Balanced,
    Thorough,
}

impl ScanEffortName {
    /// The number protobuf stores this value as.
    pub open spec fn number_spec(self) -> i32 {
        match self {
            ScanEffortName::Unspecified => 0,
            ScanEffortName::Single => 1,
            ScanEffortName::Fast => 2,
            ScanEffortName::Balanced => 3,
            ScanEffortName::Thorough => 4,
        }
    }

    /// The name the schema gives this value.
    pub open spec fn name_spec(self) -> Seq<char> {
        match self {
            ScanEffortName::Unspecified => "SCAN_EFFORT_UNSPECIFIED"@,
            ScanEffortName::Single => "SCAN_EFFORT_SINGLE"@,
            ScanEffortName::Fast => "SCAN_EFFORT_FAST"@,
            ScanEffortName::Balanced => "SCAN_EFFORT_BALANCED"@,
            ScanEffortName::Thorough => "SCAN_EFFORT_THOROUGH"@,
        }
    }

    /// The value a number stands for, where it stands for one.
    pub open spec fn numbered(n: i32) -> Option<Self> {
        if n == 0 {
            Some(ScanEffortName::Unspecified)
        } else if n == 1 {
            Some(ScanEffortName::Single)
        } else if n == 2 {
            Some(ScanEffortName::Fast)
        } else if n == 3 {
            Some(ScanEffortName::Balanced)
        } else if n == 4 {
            Some(ScanEffortName::Thorough)
        } else {
            None
        }
    }

    /// The value a name stands for, where it stands for one.
    pub open spec fn named(text: Seq<char>) -> Option<Self> {
        if text == "SCAN_EFFORT_UNSPECIFIED"@ {
            Some(ScanEffortName::Unspecified)
        } else if text == "SCAN_EFFORT_SINGLE"@ {
            Some(ScanEffortName::Single)
        } else if text == "SCAN_EFFORT_FAST"@ {
            Some(ScanEffortName::Fast)
        } else if text == "SCAN_EFFORT_BALANCED"@ {
            Some(ScanEffortName::Balanced)
        } else if text == "SCAN_EFFORT_THOROUGH"@ {
            Some(ScanEffortName::Thorough)
        } else {
            None
        }
    }

    /// The number protobuf stores this value as.
    pub fn number(&self) -> (r: i32)
        ensures
            r == self.number_spec(),
    {
        match self {
            ScanEffortName::Unspecified => 0,
            ScanEffortName::Single => 1,
            ScanEffortName::Fast => 2,
            ScanEffortName::Balanced => 3,
            ScanEffortName::Thorough => 4,
        }
    }

    /// The value a number stands for, or `None` for a number the schema
    /// does not name.
    pub fn from_number(n: i32) -> (r: Option<Self>)
        ensures
            r == Self::numbered(n),
    {
        if n == 0 {
            Some(ScanEffortName::Unspecified)
        } else if n == 1 {
            Some(ScanEffortName::Single)
        } else if n == 2 {
            Some(ScanEffortName::Fast)
        } else if n == 3 {
            Some(ScanEffortName::Balanced)
        } else if n == 4 {
            Some(ScanEffortName::Thorough)
        } else {
            None
        }
    }

    /// The name the schema gives this value.
    pub fn as_str_name(&self) -> (r: &'static str)
        ensures
            r@ == self.name_spec(),
    {
        match self {
            ScanEffortName::Unspecified => "SCAN_EFFORT_UNSPECIFIED",
            ScanEffortName::Single => "SCAN_EFFORT_SINGLE",
            ScanEffortName::Fast => "SCAN_EFFORT_FAST",
            ScanEffortName::Balanced => "SCAN_EFFORT_BALANCED",
            ScanEffortName::Thorough => "SCAN_EFFORT_THOROUGH",
        }
    }

    /// The value a name stands for, or `None` for a name the schema does
    /// not know.
    pub fn from_str_name(text: &str) -> (r: Option<Self>)
        ensures
            r == Self::named(text@),
    {
        if same_text(text, "SCAN_EFFORT_UNSPECIFIED") {
            Some(ScanEffortName::Unspecified)
        } else if same_text(text, "SCAN_EFFORT_SINGLE") {
            Some(ScanEffortName::Single)
        } else if same_text(text, "SCAN_EFFORT_FAST") {
            Some(ScanEffortName::Fast)
        } else if same_text(text, "SCAN_EFFORT_BALANCED") {
            Some(ScanEffortName::Balanced)
        } else if same_text(text, "SCAN_EFFORT_THOROUGH") {
            Some(ScanEffortName::Thorough)
        } else {
            None
        }
    }

    /// Every value travels as its name and comes back as itself, and as its
    /// number too.
    pub proof fn lemma_round_trip(self)
        ensures
            Self::named(self.name_spec()) == Some(self),
            Self::numbered(self.number_spec()) == Some(self),
    {
        reveal_strlit("SCAN_EFFORT_UNSPECIFIED");
        reveal_strlit("SCAN_EFFORT_SINGLE");
        reveal_strlit("SCAN_EFFORT_FAST");
        reveal_strlit("SCAN_EFFORT_BALANCED");
        reveal_strlit("SCAN_EFFORT_THOROUGH");
        assert("SCAN_EFFORT_BALANCED"@.len() == 20);
        assert("SCAN_EFFORT_BALANCED"@[12] == 'B');
        assert("SCAN_EFFORT_FAST"@.len() == 16);
        assert("SCAN_EFFORT_SINGLE"@.len() == 18);
        assert("SCAN_EFFORT_THOROUGH"@.len() == 20);
        assert("SCAN_EFFORT_THOROUGH"@[12] == 'T');
        assert("SCAN_EFFORT_UNSPECIFIED"@.len() == 23);
    }

    /// What travels on the wire for each number protobuf stores: the value
    /// numbered 4 is written `SCAN_EFFORT_THOROUGH`, and so on for every number the
    /// schema gives, and each name is read back as the value of that number.
    pub proof fn lemma_wire_names()
        ensures
            Self::numbered(0) matches Some(v) && v.name_spec() == "SCAN_EFFORT_UNSPECIFIED"@,
            Self::named("SCAN_EFFORT_UNSPECIFIED"@) == Self::numbered(0),
            Self::numbered(1) matches Some(v) && v.name_spec() == "SCAN_EFFORT_SINGLE"@,
            Self::named("SCAN_EFFORT_SINGLE"@) == Self::numbered(1),
            Self::numbered(2) matches Some(v) && v.name_spec() == "SCAN_EFFORT_FAST"@,
            Self::named("SCAN_EFFORT_FAST"@) == Self::numbered(2),
            Self::numbered(3) matches Some(v) && v.name_spec() == "SCAN_EFFORT_BALANCED"@,
            Self::named("SCAN_EFFORT_BALANCED"@) == Self::numbered(3),
            Self::numbered(4) matches Some(v) && v.name_spec() == "SCAN_EFFORT_THOROUGH"@,
            Self::named("SCAN_EFFORT_THOROUGH"@) == Self::numbered(4),
    {
        reveal_strlit("SCAN_EFFORT_UNSPECIFIED");
        reveal_strlit("SCAN_EFFORT_SINGLE");
        reveal_strlit("SCAN_EFFORT_FAST");
        reveal_strlit("SCAN_EFFORT_BALANCED");
        reveal_strlit("SCAN_EFFORT_THOROUGH");
        ScanEffortName::Unspecified.lemma_round_trip();
        ScanEffortName::Single.lemma_round_trip();
        ScanEffortName::Fast.lemma_round_trip();
        ScanEffortName::Balanced.lemma_round_trip();
        ScanEffortName::Thorough.lemma_round_trip();
    }
}

/// What a finished scan is written down as.
#[derive(Debug, Clone, Copy, PartialEq, Eq, Structural)]
pub enum ExportFormat {
    Unspecified,
    Json,
    Jsonl,
    Csv,
    Html,
    NmapXml,
}

impl ExportFormat {
    /// The number protobuf stores this value as.
    pub open spec fn number_spec(self) -> i32 {
        match self {
            ExportFormat::Unspecified => 0,
            ExportFormat::Json => 1,
            ExportFormat::Jsonl => 2,
            ExportFormat::Csv => 3,
            ExportFormat::Html => 4,
            ExportFormat::NmapXml => 5,
        }
    }

    /// The name the schema gives this value.
    pub open spec fn name_spec(self) -> Seq<char> {
        match self {
            ExportFormat::Unspecified => "EXPORT_FORMAT_UNSPECIFIED"@,
            ExportFormat::Json => "EXPORT_FORMAT_JSON"@,
            ExportFormat::Jsonl => "EXPORT_FORMAT_JSONL"@,
            ExportFormat::Csv => "EXPORT_FORMAT_CSV"@,
            ExportFormat::Html => "EXPORT_FORMAT_HTML"@,
            ExportFormat::NmapXml => "EXPORT_FORMAT_NMAP_XML"@,
        }
    }

    /// The value a number stands for, where it stands for one.
    pub open spec fn numbered(n: i32) -> Option<Self> {
        if n == 0 {
            Some(ExportFormat::Unspecified)
        } else if n == 1 {
            Some(ExportFormat::Json)
        } else if n == 2 {
            Some(ExportFormat::Jsonl)
        } else if n == 3 {
            Some(ExportFormat::Csv)
        } else if n == 4 {
            Some(ExportFormat::Html)
        } else if n == 5 {
            Some(ExportFormat::NmapXml)
        } else {
            None
        }
    }

    /// The value a name stands for, where it stands for one.
    pub open spec fn named(text: Seq<char>) -> Option<Self> {
        if text == "EXPORT_FORMAT_UNSPECIFIED"@ {
            Some(ExportFormat::Unspecified)
        } else if text == "EXPORT_FORMAT_JSON"@ {
            Some(ExportFormat::Json)
        } else if text == "EXPORT_FORMAT_JSONL"@ {
            Some(ExportFormat::Jsonl)
        } else if text == "EXPORT_FORMAT_CSV"@ {
            Some(ExportFormat::Csv)
        } else if text == "EXPORT_FORMAT_HTML"@ {
            Some(ExportFormat::Html)
        } else if text == "EXPORT_FORMAT_NMAP_XML"@ {
            Some(ExportFormat::NmapXml)
        } else {
            None
        }
    }

    /// The number protobuf stores this value as.
    pub fn number(&self) -> (r: i32)
        ensures
            r == self.number_spec(),
    {
        match self {
            ExportFormat::Unspecified => 0,
            ExportFormat::Json => 1,
            ExportFormat::Jsonl => 2,
            ExportFormat::Csv => 3,
            ExportFormat::Html => 4,
            ExportFormat::NmapXml => 5,
        }
    }

    /// The value a number stands for, or `None` for a number the schema
    /// does not name.
    pub fn from_number(n: i32) -> (r: Option<Self>)
        ensures
            r == Self::numbered(n),
    {
        if n == 0 {
            Some(ExportFormat::Unspecified)
        } else if n == 1 {
            Some(ExportFormat::Json)
        } else if n == 2 {
            Some(ExportFormat::Jsonl)
        } else if n == 3 {
            Some(ExportFormat::Csv)
        } else if n == 4 {
            Some(ExportFormat::Html)
        } else if n == 5 {
            Some(ExportFormat::NmapXml)
        } else {
            None
        }
    }

    /// The name the schema gives this value.
    pub fn as_str_name(&self) -> (r: &'static str)
        ensures
            r@ == self.name_spec(),
    {
        match self {
            ExportFormat::Unspecified => "EXPORT_FORMAT_UNSPECIFIED",
            ExportFormat::Json => "EXPORT_FORMAT_JSON",
            ExportFormat::Jsonl => "EXPORT_FORMAT_JSONL",
            ExportFormat::Csv => "EXPORT_FORMAT_CSV",
            ExportFormat::Html => "EXPORT_FORMAT_HTML",
            ExportFormat::NmapXml => "EXPORT_FORMAT_NMAP_XML",
        }
    }

    /// The value a name stands for, or `None` for a name the schema does
    /// not know.
    pub fn from_str_name(text: &str) -> (r: Option<Self>)
        ensures
            r == Self::named(text@),
    {
        if same_text(text, "EXPORT_FORMAT_UNSPECIFIED") {
            Some(ExportFormat::Unspecified)
        } else if same_text(text, "EXPORT_FORMAT_JSON") {
            Some(ExportFormat::Json)
        } else if same_text(text, "EXPORT_FORMAT_JSONL") {
            Some(ExportFormat::Jsonl)
        } else if same_text(text, "EXPORT_FORMAT_CSV") {
            Some(ExportFormat::Csv)
        } else if same_text(text, "EXPORT_FORMAT_HTML") {
            Some(ExportFormat::Html)
        } else if same_text(text, "EXPORT_FORMAT_NMAP_XML") {
            Some(ExportFormat::NmapXml)
        } else {
            None
        }
    }

    /// Every value travels as its name and comes back as itself, and as its
    /// number too.
    pub proof fn lemma_round_trip(self)
        ensures
            Self::named(self.name_spec()) == Some(self),
            Self::numbered(self.number_spec()) == Some(self),
    {
        reveal_strlit("EXPORT_FORMAT_UNSPECIFIED");
        reveal_strlit("EXPORT_FORMAT_JSON");
        reveal_strlit("EXPORT_FORMAT_JSONL");
        reveal_strlit("EXPORT_FORMAT_CSV");
        reveal_strlit("EXPORT_FORMAT_HTML");
        reveal_strlit("EXPORT_FORMAT_NMAP_XML");
        assert("EXPORT_FORMAT_CSV"@.len() == 17);
        assert("EXPORT_FORMAT_HTML"@.len() == 18);
        assert("EXPORT_FORMAT_HTML"@[14] == 'H');
        assert("EXPORT_FORMAT_JSON"@.len() == 18);
        assert("EXPORT_FORMAT_JSON"@[14] == 'J');
        assert("EXPORT_FORMAT_JSONL"@.len() == 19);
        assert("EXPORT_FORMAT_NMAP_XML"@.len() == 22);
        assert("EXPORT_FORMAT_UNSPECIFIED"@.len() == 25);
    }

    /// What travels on the wire for each number protobuf stores: the value
    /// numbered 5 is written `EXPORT_FORMAT_NMAP_XML`, and so on for every number the
    /// schema gives, and each name is read back as the value of that number.
    pub proof fn lemma_wire_names()
        ensures
            Self::numbered(0) matches Some(v) && v.name_spec() == "EXPORT_FORMAT_UNSPECIFIED"@,
            Self::named("EXPORT_FORMAT_UNSPECIFIED"@) == Self::numbered(0),
            Self::numbered(1) matches Some(v) && v.name_spec() == "EXPORT_FORMAT_JSON"@,
            Self::named("EXPORT_FORMAT_JSON"@) == Self::numbered(1),
            Self::numbered(2) matches Some(v) && v.name_spec() == "EXPORT_FORMAT_JSONL"@,
            Self::named("EXPORT_FORMAT_JSONL"@) == Self::numbered(2),
            Self::numbered(3) matches Some(v) && v.name_spec() == "EXPORT_FORMAT_CSV"@,
            Self::named("EXPORT_FORMAT_CSV"@) == Self::numbered(3),
            Self::numbered(4) matches Some(v) && v.name_spec() == "EXPORT_FORMAT_HTML"@,
            Self::named("EXPORT_FORMAT_HTML"@) == Self::numbered(4),
            Self::numbered(5) matches Some(v) && v.name_spec() == "EXPORT_FORMAT_NMAP_XML"@,
            Self::named("EXPORT_FORMAT_NMAP_XML"@) == Self::numbered(5),
    {
        reveal_strlit("EXPORT_FORMAT_UNSPECIFIED");
        reveal_strlit("EXPORT_FORMAT_JSON");
        reveal_strlit("EXPORT_FORMAT_JSONL");
        reveal_strlit("EXPORT_FORMAT_CSV");
        reveal_strlit("EXPORT_FORMAT_HTML");
        reveal_strlit("EXPORT_FORMAT_NMAP_XML");
        ExportFormat::Unspecified.lemma_round_trip();
        ExportFormat::Json.lemma_round_trip();
        ExportFormat::Jsonl.lemma_round_trip();
        ExportFormat::Csv.lemma_round_trip();
        ExportFormat::Html.lemma_round_trip();
        ExportFormat::NmapXml.lemma_round_trip();
    }
}

/// What a comparison of two scans is written down as.
#[derive(Debug, Clone, Copy, PartialEq, Eq, Structural)]
pub enum DiffFormat {
    Unspecified,
    Json,
    Html,
}

impl DiffFormat {
    /// The number protobuf stores this value as.
    pub open spec fn number_spec(self) -> i32 {
        match self {
            DiffFormat::Unspecified => 0,
            DiffFormat::Json => 1,
            DiffFormat::Html => 2,
        }
    }

    /// The name the schema gives this value.
    pub open spec fn name_spec(self) -> Seq<char> {
        match self {
            DiffFormat::Unspecified => "DIFF_FORMAT_UNSPECIFIED"@,
            DiffFormat::Json => "DIFF_FORMAT_JSON"@,
            DiffFormat::Html => "DIFF_FORMAT_HTML"@,
        }
    }

    /// The value a number stands for, where it stands for one.
    pub open spec fn numbered(n: i32) -> Option<Self> {
        if n == 0 {
            Some(DiffFormat::Unspecified)
        } else if n == 1 {
            Some(DiffFormat::Json)
        } else if n == 2 {
            Some(DiffFormat::Html)
        } else {
            None
        }
    }

    /// The value a name stands for, where it stands for one.
    pub open spec fn named(text: Seq<char>) -> Option<Self> {
        if text == "DIFF_FORMAT_UNSPECIFIED"@ {
            Some(DiffFormat::Unspecified)
        } else if text == "DIFF_FORMAT_JSON"@ {
            Some(DiffFormat::Json)
        } else if text == "DIFF_FORMAT_HTML"@ {
            Some(DiffFormat::Html)
        } else {
            None
        }
    }

    /// The number protobuf stores this value as.
    pub fn number(&self) -> (r: i32)
        ensures
            r == self.number_spec(),
    {
        match self {
            DiffFormat::Unspecified => 0,
            DiffFormat::Json => 1,
            DiffFormat::Html => 2,
        }
    }

    /// The value a number stands for, or `None` for a number the schema
    /// does not name.
    pub fn from_number(n: i32) -> (r: Option<Self>)
        ensures
            r == Self::numbered(n),
    {
        if n == 0 {
            Some(DiffFormat::Unspecified)
        } else if n == 1 {
            Some(DiffFormat::Json)
        } else if n == 2 {
            Some(DiffFormat::Html)
        } else {
            None
        }
    }

    /// The name the schema gives this value.
    pub fn as_str_name(&self) -> (r: &'static str)
        ensures
            r@ == self.name_spec(),
    {
        match self {
            DiffFormat::Unspecified => "DIFF_FORMAT_UNSPECIFIED",
            DiffFormat::Json => "DIFF_FORMAT_JSON",
            DiffFormat::Html => "DIFF_FORMAT_HTML",
        }
    }

    /// The value a name stands for, or `None` for a name the schema does
    /// not know.
    pub fn from_str_name(text: &str) -> (r: Option<Self>)
        ensures
            r == Self::named(text@),
    {
        if same_text(text, "DIFF_FORMAT_UNSPECIFIED") {
            Some(DiffFormat::Unspecified)
        } else if same_text(text, "DIFF_FORMAT_JSON") {
            Some(DiffFormat::Json)
        } else if same_text(text, "DIFF_FORMAT_HTML") {
            Some(DiffFormat::Html)
        } else {
            None
        }
    }

    /// Every value travels as its name and comes back as itself, and as its
    /// number too.
    pub proof fn lemma_round_trip(self)
        ensures
            Self::named(self.name_spec()) == Some(self),
            Self::numbered(self.number_spec()) == Some(self),
    {
        reveal_strlit("DIFF_FORMAT_UNSPECIFIED");
        reveal_strlit("DIFF_FORMAT_JSON");
        reveal_strlit("DIFF_FORMAT_HTML");
        assert("DIFF_FORMAT_HTML"@.len() == 16);
        assert("DIFF_FORMAT_HTML"@[12] == 'H');
        assert("DIFF_FORMAT_JSON"@.len() == 16);
        assert("DIFF_FORMAT_JSON"@[12] == 'J');
        assert("DIFF_FORMAT_UNSPECIFIED"@.len() == 23);
    }

    /// What travels on the wire for each number protobuf stores: the value
    /// numbered 2 is written `DIFF_FORMAT_HTML`, and so on for every number the
    /// schema gives, and each name is read back as the value of that number.
    pub proof fn lemma_wire_names()
        ensures
            Self::numbered(0) matches Some(v) && v.name_spec() == "DIFF_FORMAT_UNSPECIFIED"@,
            Self::named("DIFF_FORMAT_UNSPECIFIED"@) == Self::numbered(0),
            Self::numbered(1) matches Some(v) && v.name_spec() == "DIFF_FORMAT_JSON"@,
            Self::named("DIFF_FORMAT_JSON"@) == Self::numbered(1),
            Self::numbered(2) matches Some(v) && v.name_spec() == "DIFF_FORMAT_HTML"@,
            Self::named("DIFF_FORMAT_HTML"@) == Self::numbered(2),
    {
        reveal_strlit("DIFF_FORMAT_UNSPECIFIED");
        reveal_strlit("DIFF_FORMAT_JSON");
        reveal_strlit("DIFF_FORMAT_HTML");
        DiffFormat::Unspecified.lemma_round_trip();
        DiffFormat::Json.lemma_round_trip();
        DiffFormat::Html.lemma_round_trip();
    }
}

/// Which of the engine's three kinds of run a request asks for.
#[derive(Debug, Clone, Copy, PartialEq, Eq, Structural)]
pub enum ScanKind {
    PortScan,
    Discovery,
    Listen,
}

impl ScanKind {
    /// The number protobuf stores this value as.
    pub open spec fn number_spec(self) -> i32 {
        match self {
            ScanKind::PortScan => 0,
            ScanKind::Discovery => 1,
            ScanKind::Listen => 2,
        }
    }

    /// The name the schema gives this value.
    pub open spec fn name_spec(self) -> Seq<char> {
        match self {
            ScanKind::PortScan => "SCAN_KIND_PORT_SCAN"@,
            ScanKind::Discovery => "SCAN_KIND_DISCOVERY"@,
            ScanKind::Listen => "SCAN_KIND_LISTEN"@,
        }
    }

    /// The value a number stands for, where it stands for one.
    pub open spec fn numbered(n: i32) -> Option<Self> {
        if n == 0 {
            Some(ScanKind::PortScan)
        } else if n == 1 {
            Some(ScanKind::Discovery)
        } else if n == 2 {
            Some(ScanKind::Listen)
        } else {
            None
        }
    }

    /// The value a name stands for, where it stands for one.
    pub open spec fn named(text: Seq<char>) -> Option<Self> {
        if text == "SCAN_KIND_PORT_SCAN"@ {
            Some(ScanKind::PortScan)
        } else if text == "SCAN_KIND_DISCOVERY"@ {
            Some(ScanKind::Discovery)
        } else if text == "SCAN_KIND_LISTEN"@ {
            Some(ScanKind::Listen)
        } else {
            None
        }
    }

    /// The number protobuf stores this value as.
    pub fn number(&self) -> (r: i32)
        ensures
            r == self.number_spec(),
    {
        match self {
            ScanKind::PortScan => 0,
            ScanKind::Discovery => 1,
            ScanKind::Listen => 2,
        }
    }

    /// The value a number stands for, or `None` for a number the schema
    /// does not name.
    pub fn from_number(n: i32) -> (r: Option<Self>)
        ensures
            r == Self::numbered(n),
    {
        if n == 0 {
            Some(ScanKind::PortScan)
        } else if n == 1 {
            Some(ScanKind::Discovery)
        } else if n == 2 {
            Some(ScanKind::Listen)
        } else {
            None
        }
    }

    /// The name the schema gives this value.
    pub fn as_str_name(&self) -> (r: &'static str)
        ensures
            r@ == self.name_spec(),
    {
        match self {
            ScanKind::PortScan => "SCAN_KIND_PORT_SCAN",
            ScanKind::Discovery => "SCAN_KIND_DISCOVERY",
            ScanKind::Listen => "SCAN_KIND_LISTEN",
        }
    }

    /// The value a name stands for, or `None` for a name the schema does
    /// not know.
    pub fn from_str_name(text: &str) -> (r: Option<Self>)
        ensures
            r == Self::named(text@),
    {
        if same_text(text, "SCAN_KIND_PORT_SCAN") {
            Some(ScanKind::PortScan)
        } else if same_text(text, "SCAN_KIND_DISCOVERY") {
            Some(ScanKind::Discovery)
        } else if same_text(text, "SCAN_KIND_LISTEN") {
            Some(ScanKind::Listen)
        } else {
            None
        }
    }

    /// Every value travels as its name and comes back as itself, and as its
    /// number too.
    pub proof fn lemma_round_trip(self)
        ensures
            Self::named(self.name_spec()) == Some(self),
            Self::numbered(self.number_spec()) == Some(self),
    {
        reveal_strlit("SCAN_KIND_PORT_SCAN");
        reveal_strlit("SCAN_KIND_DISCOVERY");
        reveal_strlit("SCAN_KIND_LISTEN");
        assert("SCAN_KIND_DISCOVERY"@.len() == 19);
        assert("SCAN_KIND_DISCOVERY"@[10] == 'D');
        assert("SCAN_KIND_LISTEN"@.len() == 16);
        assert("SCAN_KIND_PORT_SCAN"@.len() == 19);
        assert("SCAN_KIND_PORT_SCAN"@[10] == 'P');
    }

    /// What travels on the wire for each number protobuf stores: the value
    /// numbered 2 is written `SCAN_KIND_LISTEN`, and so on for every number the
    /// schema gives, and each name is read back as the value of that number.
    pub proof fn lemma_wire_names()
        ensures
            Self::numbered(0) matches Some(v) && v.name_spec() == "SCAN_KIND_PORT_SCAN"@,
            Self::named("SCAN_KIND_PORT_SCAN"@) == Self::numbered(0),
            Self::numbered(1) matches Some(v) && v.name_spec() == "SCAN_KIND_DISCOVERY"@,
            Self::named("SCAN_KIND_DISCOVERY"@) == Self::numbered(1),
            Self::numbered(2) matches Some(v) && v.name_spec() == "SCAN_KIND_LISTEN"@,
            Self::named("SCAN_KIND_LISTEN"@) == Self::numbered(2),
    {
        reveal_strlit("SCAN_KIND_PORT_SCAN");
        reveal_strlit("SCAN_KIND_DISCOVERY");
        reveal_strlit("SCAN_KIND_LISTEN");
        ScanKind::PortScan.lemma_round_trip();
        ScanKind::Discovery.lemma_round_trip();
        ScanKind::Listen.lemma_round_trip();
    }
}


/// A host whose findings changed, and its whole current document.
#[derive(Debug, Clone, PartialEq, Eq, Default)]
pub struct HostChanged {
    pub address: String,
    pub document: String,
}

/// The scan moved on to another stage, as the schema numbers it.
#[derive(Debug, Clone, Copy, PartialEq, Eq, Default)]
pub struct StageChanged {
    pub stage: i32,
}

/// How far along a scan is.
#[derive(Debug, Clone, Copy, PartialEq, Eq, Default)]
pub struct ScanProgress {
    pub stage: i32,
    pub stage_done: Option<u64>,
    pub stage_total: Option<u64>,
    pub overall_done: Option<u64>,
    pub overall_total: Option<u64>,
}

/// One of the engine's scanners gave up, and why.
#[derive(Debug, Clone, PartialEq, Eq, Default)]
pub struct ScannerFailed {
    pub scanner: String,
    pub reason: String,
}

/// The scan is over, and why, as the schema numbers it.
#[derive(Debug, Clone, Copy, PartialEq, Eq, Default)]
pub struct Finished {
    pub cause: i32,
}

/// The one thing an event says happened.
#[derive(Debug, Clone, PartialEq, Eq)]
pub enum EventBody {
    Host(HostChanged),
    Stage(StageChanged),
    Progress(ScanProgress),
    Failure(ScannerFailed),
    Finished(Finished),
}

/// One numbered entry of what a scan has said.
#[derive(Debug, Clone, PartialEq, Eq)]
pub struct Event {
    pub seq: u64,
    pub body: Option<EventBody>,
}

/// Where a scan has got to, as one answer.
#[derive(Debug, Clone, PartialEq, Eq, Default)]
pub struct ScanState {
    pub scan_id: String,
    pub running: bool,
    pub cause: Option<i32>,
    pub progress: Option<ScanProgress>,
    pub seq: u64,
}

} // verus!
