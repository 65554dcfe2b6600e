//! # The engine's vocabulary, as this library holds it
//!
//! The stages, stop causes and levels the engine names, held here as values of
//! the library's own so the mapping to the schema can be checked against every
//! one of them. The engine's own enums are open to new values, so each list
//! ends with `Unknown`: a value of a newer engine than this build knows, which
//! is what the laws in the mapping keep from reaching a client unnamed.

use vstd::prelude::*;

verus! {

/// Where a scan has got to.
#[derive(Debug, Clone, Copy, PartialEq, Eq, Structural)]
pub enum Stage {
    Discovery,
    Ports,
    Services,
    Detections,
    Tls,
    Os,
    Traceroute,
    Filters,
    IpProtocols,
    Listening,
    Finishing,
    /// A stage of a newer engine than this build knows.
    Unknown,
}

/// Why a scan stopped, where something stopped it.
#[derive(Debug, Clone, Copy, PartialEq, Eq, Structural)]
pub enum StopCause {
    /// The caller asked the scan to stop.
    Aborted,
    /// The wall-clock budget the scan was given ran out.
    TimedOut,
    /// A cause of a newer engine than this build knows.
    Unknown,
}

/// How hard the engine looks at a service.
#[derive(Debug, Clone, Copy, PartialEq, Eq, Structural)]
pub enum ServiceDetection {
    Off,
    Banner,
    Probe,
    Thorough,
    /// A level of a newer engine than this build knows.
    Unknown,
}

/// Whether a host is asked what it runs, and how.
#[derive(Debug, Clone, Copy, PartialEq, Eq, Structural)]
pub enum OsDetection {
    Off,
    Passive,
    Active,
    Aggressive,
    /// A level of a newer engine than this build knows.
    Unknown,
}

/// What a detection does to its target.
#[derive(Debug, Clone, Copy, PartialEq, Eq, Structural)]
pub enum DetectionClass {
    Passive,
    ActiveBenign,
    ActiveMutating,
    Exploit,
    Dos,
    /// A class of a newer engine than this build knows.
    Unknown,
}

/// How much a scan spends on being sure.
#[derive(Debug, Clone, Copy, PartialEq, Eq, Structural)]
pub enum ScanEffort {
    Single,
    Fast,
    Balanced,
    Thorough,
    /// An effort of a newer engine than this build knows.
    Unknown,
}

impl Stage {
    /// The engine's own name for this value, in capitals with its words
    /// joined by `_`; nothing for a value this build does not know.
    pub open spec fn word(self) -> Seq<char> {
        match self {
            Stage::Discovery => "DISCOVERY"@,
            Stage::Ports => "PORTS"@,
            Stage::Services => "SERVICES"@,
            Stage::Detections => "DETECTIONS"@,
            Stage::Tls => "TLS"@,
            Stage::Os => "OS"@,
            Stage::Traceroute => "TRACEROUTE"@,
            Stage::Filters => "FILTERS"@,
            Stage::IpProtocols => "IP_PROTOCOLS"@,
            Stage::Listening => "LISTENING"@,
            Stage::Finishing => "FINISHING"@,
            Stage::Unknown => Seq::empty(),
        }
    }
}

impl StopCause {
    /// The engine's own name for this value, in capitals with its words
    /// joined by `_`; nothing for a value this build does not know.
    pub open spec fn word(self) -> Seq<char> {
        match self {
            StopCause::Aborted => "ABORTED"@,
            StopCause::TimedOut => "TIMED_OUT"@,
            StopCause::Unknown => Seq::empty(),
        }
    }
}

impl ServiceDetection {
    /// The engine's own name for this value, in capitals with its words
    /// joined by `_`; nothing for a value this build does not know.
    pub open spec fn word(self) -> Seq<char> {
        match self {
            ServiceDetection::Off => "OFF"@,
            ServiceDetection::Banner => "BANNER"@,
            ServiceDetection::Probe => "PROBE"@,
            ServiceDetection::Thorough => "THOROUGH"@,
            ServiceDetection::Unknown => Seq::empty(),
        }
    }
}

impl OsDetection {
    /// The engine's own name for this value, in capitals with its words
    /// joined by `_`; nothing for a value this build does not know.
    pub open spec fn word(self) -> Seq<char> {
        match self {
            OsDetection::Off => "OFF"@,
            OsDetection::Passive => "PASSIVE"@,
            OsDetection::Active => "ACTIVE"@,
            OsDetection::Aggressive => "AGGRESSIVE"@,
            OsDetection::Unknown => Seq::empty(),
        }
    }
}

impl DetectionClass {
    /// The engine's own name for this value, in capitals with its words
    /// joined by `_`; nothing for a value this build does not know.
    pub open spec fn word(self) -> Seq<char> {
        match self {
            DetectionClass::Passive => "PASSIVE"@,
            DetectionClass::ActiveBenign => "ACTIVE_BENIGN"@,
            DetectionClass::ActiveMutating => "ACTIVE_MUTATING"@,
            DetectionClass::Exploit => "EXPLOIT"@,
            DetectionClass::Dos => "DOS"@,
            DetectionClass::Unknown => Seq::empty(),
        }
    }
}

impl ScanEffort {
    /// The engine's own name for this value, in capitals with its words
    /// joined by `_`; nothing for a value this build does not know.
    pub open spec fn word(self) -> Seq<char> {
        match self {
            ScanEffort::Single => "SINGLE"@,
            ScanEffort::Fast => "FAST"@,
            ScanEffort::Balanced => "BALANCED"@,
            ScanEffort::Thorough => "THOROUGH"@,
            ScanEffort::Unknown => Seq::empty(),
        }
    }
}

} // verus!
