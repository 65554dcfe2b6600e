//! # The one gate every scan goes through
//!
//! Where a scan may reach, and what a refusal is answered with. Both are
//! settings of the daemon rather than of a request, which is the point of
//! them: a client that has been taken over can ask for anything, and what it
//! gets is still what the operator allowed.
//!
//! The policy is judged on the addresses a request resolved to, gathered here
//! from the units of the plan the engine drew up, so what was allowed is
//! exactly what will be reached. A refusal is written down before it is
//! answered, and a log that cannot be written is itself the refusal the caller
//! is told about.
//!
//! ## The order matters and is the whole design
//!
//! The targets are resolved, so what follows is judged on addresses rather
//! than on words. The policy is applied to those addresses; a refusal is
//! written down and the request ends there. Only a permitted request is
//! named, so a refused one leaves no trace of a scan that never ran. The
//! start is written down under that name, and only then does anything reach
//! the wire: a scan that could not be written down does not happen.
//!
//! `start_step` holds that order. It is told what the outside world did and
//! answers with the one thing to do next.

use vstd::prelude::*;

use crate::addresses::{v4_addresses, v6_addresses, v6_scoped, AddressSet};
use crate::error::Error;
use crate::id::{mint, name_chars, name_value, Minter};
use crate::scope::{permits_v4, permits_v6, permitted, refusal_of, refused_v4, refused_v6, Scope};

verus! {

/// Every IPv4 address some unit holds.
pub open spec fn units_v4(units: Seq<AddressSet>) -> Set<u32> {
    Set::new(|a: u32| exists|i: int| 0 <= i < units.len() && #[trigger] v4_addresses(units[i]).contains(a))
}

/// Every IPv6 address some unit holds, on the interface it holds it on.
pub open spec fn units_v6(units: Seq<AddressSet>) -> Set<(Option<u32>, u128)> {
    Set::new(
        |p: (Option<u32>, u128)| exists|i: int| 0 <= i < units.len() && #[trigger] v6_scoped(units[i]).contains(p),
    )
}

/// Every address a scan's plan will reach: the addresses of each of its units,
/// together.
///
/// In ranges, so a plan of a `/8` costs what a plan of one host does. Walking
/// the targets to find this out is the one thing a check standing in front of
/// a scan must not do.
pub fn reached_by(units: &Vec<AddressSet>) -> (r: AddressSet)
    ensures
        v4_addresses(r) == units_v4(units@),
        v6_scoped(r) == units_v6(units@),
{
    let mut whole = AddressSet::new();
    let mut i: usize = 0;
    proof {
        assert(units@.take(0) =~= Seq::<AddressSet>::empty());
        assert(v4_addresses(whole) =~= units_v4(units@.take(0)));
        assert(v6_scoped(whole) =~= units_v6(units@.take(0)));
    }
    while i < units.len()
        invariant
            i <= units@.len(),
            v4_addresses(whole) == units_v4(units@.take(i as int)),
            v6_scoped(whole) == units_v6(units@.take(i as int)),
        decreases units@.len() - i,
    {
        let ghost before = whole;
        whole.extend(&units[i]);
        proof {
            let t = units@.take(i + 1);
            let s = units@.take(i as int);
            assert(t =~= s.push(units@[i as int]));
            assert forall|a: u32| v4_addresses(whole).contains(a) <==> units_v4(t).contains(a) by {
                if units_v4(t).contains(a) {
                    let k = choose|k: int| 0 <= k < t.len() && #[trigger] v4_addresses(t[k]).contains(a);
                    if k < i {
                        assert(t[k] == s[k]);
                        assert(units_v4(s).contains(a));
                    }
                }
                if v4_addresses(before).contains(a) {
                    let k = choose|k: int| 0 <= k < s.len() && #[trigger] v4_addresses(s[k]).contains(a);
                    assert(t[k] == s[k]);
                }
                if v4_addresses(units@[i as int]).contains(a) {
                    assert(t[i as int] == units@[i as int]);
                }
            }
            assert(v4_addresses(whole) =~= units_v4(t));
            assert forall|p: (Option<u32>, u128)| v6_scoped(whole).contains(p) <==> units_v6(t).contains(p) by {
                if units_v6(t).contains(p) {
                    let k = choose|k: int| 0 <= k < t.len() && #[trigger] v6_scoped(t[k]).contains(p);
                    if k < i {
                        assert(t[k] == s[k]);
                        assert(units_v6(s).contains(p));
                    }
                }
                if v6_scoped(before).contains(p) {
                    let k = choose|k: int| 0 <= k < s.len() && #[trigger] v6_scoped(s[k]).contains(p);
                    assert(t[k] == s[k]);
                }
                if v6_scoped(units@[i as int]).contains(p) {
                    assert(t[i as int] == units@[i as int]);
                }
            }
            assert(v6_scoped(whole) =~= units_v6(t));
        }
        i = i + 1;
    }
    assert(units@.take(units@.len() as int) =~= units@);
    whole
}

/// What is judged is what is reached: where the policy permits the addresses
/// a plan reaches, every address of every unit of the plan is one the policy
/// permits.
pub proof fn lemma_what_is_judged_is_what_is_reached(scope: Scope, units: Seq<AddressSet>, reached: AddressSet)
    requires
        v4_addresses(reached) == units_v4(units),
        v6_scoped(reached) == units_v6(units),
        refused_v4(scope, reached).is_empty(),
        refused_v6(scope, reached).is_empty(),
    ensures
        forall|i: int, a: u32| 0 <= i < units.len() && #[trigger] v4_addresses(units[i]).contains(a) ==> permits_v4(scope, a),
        forall|i: int, p: (Option<u32>, u128)| 0 <= i < units.len() && #[trigger] v6_scoped(units[i]).contains(p) ==> permits_v6(scope, p.1),
{
    assert forall|i: int, a: u32| 0 <= i < units.len() && #[trigger] v4_addresses(units[i]).contains(a) implies permits_v4(scope, a) by {
        assert(units_v4(units).contains(a));
        assert(!refused_v4(scope, reached).contains(a));
    }
    assert forall|i: int, p: (Option<u32>, u128)| 0 <= i < units.len() && #[trigger] v6_scoped(units[i]).contains(p) implies permits_v6(scope, p.1) by {
        assert(units_v6(units).contains(p));
        assert(!refused_v6(scope, reached).contains(p));
    }
}

/// The refusal where it was written, and otherwise the failure to write it.
pub open spec fn answer_refusal_spec(refused: Error, written: Result<(), Error>) -> Error {
    match written {
        Ok(()) => refused,
        Err(broken) => broken,
    }
}

/// What a refused request is answered with, once the refusal has been written
/// down or has failed to be.
///
/// The refusal itself where it was written. Where it could not be, the failure
/// to write it, since that is the one the operator has to fix: either way the
/// request is refused.
pub fn answer_refusal(refused: Error, written: Result<(), Error>) -> (r: Error)
    ensures
        r == answer_refusal_spec(refused, written),
{
    match written {
        Ok(()) => refused,
        Err(broken) => broken,
    }
}

/// The refusal of a scan that could not be written down, in the words of
/// whatever stopped the writing.
///
/// A scan nobody can account for is the one outcome an audit exists to
/// prevent, so a log that is named and cannot be written refuses the scan.
pub fn unwritable(broken: &str) -> (r: Error)
    ensures
        r.code_text() == "audit.unwritable"@,
        r.message_text() == "this scan was refused because it could not be written down: "@ + broken@,
{
    let message = crate::text::joined("this scan was refused because it could not be written down: ", broken);
    Error::new("audit.unwritable", message)
}

/// Where one start request stands on its way to the wire.
#[derive(Debug)]
pub enum AdmissionPhase {
    /// Its targets are being resolved into the addresses the plan reaches.
    Resolving,
    /// Refused, with this refusal, which is being written down.
    Refusing(Error),
    /// Permitted and named, and its start is being written down.
    Recording(String),
    /// Answered, or handed to the engine.
    Done,
}

/// What the outside world did for a start request.
#[derive(Debug)]
pub enum StartEvent {
    /// The targets resolved, and the plan reaches these addresses.
    Resolved(AddressSet),
    /// The refusal was written down, or writing it failed.
    RefusalWritten(Result<(), Error>),
    /// The start was written down, or writing it failed.
    StartWritten(Result<(), Error>),
}

/// The one thing to do next for a start request.
#[derive(Debug)]
pub enum StartAction {
    /// Write this refusal down.
    WriteRefusal(Error),
    /// Write down that the scan named this is starting.
    WriteStart(String),
    /// Start the scan under this name: the first thing to reach the wire.
    Launch(String),
    /// End the request with this error.
    Answer(Error),
}

/// Whether a request standing at `phase` is waiting for `event`.
pub open spec fn awaits(phase: AdmissionPhase, event: StartEvent) -> bool {
    match (phase, event) {
        (AdmissionPhase::Resolving, StartEvent::Resolved(_)) => true,
        (AdmissionPhase::Refusing(_), StartEvent::RefusalWritten(_)) => true,
        (AdmissionPhase::Recording(_), StartEvent::StartWritten(_)) => true,
        _ => false,
    }
}

/// One start request on its way to the wire.
pub struct Admission {
    phase: AdmissionPhase,
}

impl Admission {
    /// Where the request stands.
    pub closed spec fn phase(&self) -> AdmissionPhase {
        self.phase
    }

    /// A request whose targets are still being resolved.
    pub fn new() -> (r: Admission)
        ensures
            r.phase() == AdmissionPhase::Resolving,
    {
        Admission { phase: AdmissionPhase::Resolving }
    }

    /// Whether the request is waiting for `event`.
    pub fn awaits(&self, event: &StartEvent) -> (r: bool)
        ensures
            r == awaits(self.phase(), *event),
    {
        match (&self.phase, event) {
            (AdmissionPhase::Resolving, StartEvent::Resolved(_)) => true,
            (AdmissionPhase::Refusing(_), StartEvent::RefusalWritten(_)) => true,
            (AdmissionPhase::Recording(_), StartEvent::StartWritten(_)) => true,
            _ => false,
        }
    }
}

/// Takes a start request one step on its way to the wire.
///
/// Resolved addresses the policy refuses are answered with writing the
/// refusal down, and nothing is named. Permitted ones are named, and the
/// start is written down under that name. A written refusal, or the failure
/// to write it, ends the request with `answer_refusal`. A written start hands
/// the scan to the engine; a start that could not be written ends the
/// request with the failure, and the scan never reaches the wire.
pub fn start_step(admission: &mut Admission, scope: &Scope, minter: &mut Minter, event: StartEvent) -> (action: StartAction)
    requires
        awaits(old(admission).phase(), event),
    ensures
        event matches StartEvent::Resolved(reached) ==> {
            &&& permitted(*scope, reached) ==> {
                &&& action matches StartAction::WriteStart(name) && exists|millis: u64|
                    name@ == name_chars(name_value(millis, old(minter).count()) as nat)
                &&& action matches StartAction::WriteStart(name) && final(admission).phase() matches AdmissionPhase::Recording(kept)
                    && kept@ == name@
                &&& final(minter).count() == vstd::wrapping::u64_specs::wrapping_add(old(minter).count(), 1)
            }
            &&& !permitted(*scope, reached) ==> {
                &&& action matches StartAction::WriteRefusal(e) && refusal_of(e, *scope, reached)
                &&& action matches StartAction::WriteRefusal(e) && final(admission).phase() matches AdmissionPhase::Refusing(kept)
                    && kept.code_text() == e.code_text() && kept.message_text() == e.message_text()
                &&& final(minter).count() == old(minter).count()
            }
        },
        event matches StartEvent::RefusalWritten(written) ==> {
            &&& old(admission).phase() matches AdmissionPhase::Refusing(refused) && action == StartAction::Answer(
                answer_refusal_spec(refused, written),
            )
            &&& final(admission).phase() == AdmissionPhase::Done
            &&& final(minter).count() == old(minter).count()
        },
        event matches StartEvent::StartWritten(written) ==> {
            &&& written is Ok ==> (old(admission).phase() matches AdmissionPhase::Recording(name) && action
                == StartAction::Launch(name))
            &&& written matches Err(e) ==> action == StartAction::Answer(e)
            &&& final(admission).phase() == AdmissionPhase::Done
            &&& final(minter).count() == old(minter).count()
        },
        action is Launch ==> (old(admission).phase() is Recording && (event matches StartEvent::StartWritten(w)
            && w is Ok)),
{
    let mut phase = AdmissionPhase::Done;
    std::mem::swap(&mut phase, &mut admission.phase);
    match (phase, event) {
        (AdmissionPhase::Resolving, StartEvent::Resolved(reached)) => match scope.permits(&reached) {
            Ok(()) => {
                let name = mint(minter);
                admission.phase = AdmissionPhase::Recording(String::from_str(name.as_str()));
                StartAction::WriteStart(name)
            },
            Err(refused) => {
                admission.phase = AdmissionPhase::Refusing(refused.copied());
                StartAction::WriteRefusal(refused)
            },
        },
        (AdmissionPhase::Refusing(refused), StartEvent::RefusalWritten(written)) => {
            StartAction::Answer(answer_refusal(refused, written))
        },
        (AdmissionPhase::Recording(name), StartEvent::StartWritten(written)) => match written {
            Ok(()) => StartAction::Launch(name),
            Err(broken) => StartAction::Answer(broken),
        },
        _ => vstd::pervasive::unreached(),
    }
}

} // verus!
