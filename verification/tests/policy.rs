use zond_daemon::addresses::AddressSet;
use zond_daemon::error::Error;
use zond_daemon::policy::{answer_refusal, reached_by, unwritable};
use zond_daemon::scope::Scope;

fn v4(first: u32, last: u32) -> AddressSet {
    AddressSet::from_ranges(&vec![(first, last)], &Vec::new())
}

const TEN: u32 = 10 << 24;

#[test]
fn a_plan_reaches_the_union_of_its_units() {
    let reached = reached_by(&vec![
        v4(TEN, TEN + 255),
        v4(TEN + 256, TEN + 511),
        v4(0xc000_0201, 0xc000_0201),
    ]);

    assert_eq!(reached.len(), 513);
    assert_eq!(
        reached.v4_ranges(),
        vec![(TEN, TEN + 511), (0xc000_0201, 0xc000_0201)],
        "the adjoining units merge"
    );
}

#[test]
fn an_empty_plan_reaches_nothing() {
    assert!(reached_by(&Vec::new()).is_empty());
}

#[test]
fn a_plan_of_both_families_reaches_both() {
    let six = AddressSet::from_ranges(&Vec::new(), &vec![(1, 1, None)]);
    let reached = reached_by(&vec![v4(TEN + 1, TEN + 1), six]);

    assert_eq!(reached.v4_ranges().len(), 1);
    assert_eq!(reached.v6_ranges(), vec![(1, 1, None)]);
}

#[test]
fn what_is_judged_is_what_is_reached() {
    let scope = Scope::read_written(&vec![("10.0.0.0/8".to_string(), Ok(v4(TEN, TEN + 0x00ff_ffff)))], &Vec::new())
        .expect("a policy");

    assert!(scope.permits(&reached_by(&vec![v4(TEN, TEN + 255), v4(TEN + 0x0009_0001, TEN + 0x0009_0001)])).is_ok());
    assert!(scope.permits(&reached_by(&vec![v4(TEN, TEN + 255), v4(0xc000_0201, 0xc000_0201)])).is_err());
}

#[test]
fn a_refusal_that_was_written_down_is_the_answer() {
    let refused = Error::new("scope.refused", "no".to_string());

    let answer = answer_refusal(refused.clone(), Ok(()));

    assert_eq!(answer, refused);
}

#[test]
fn a_refusal_that_could_not_be_written_down_is_answered_as_that() {
    let refused = Error::new("scope.refused", "no".to_string());
    let broken = unwritable("disk full");

    let answer = answer_refusal(refused, Err(broken));

    assert_eq!(answer.code(), "audit.unwritable");
    assert_eq!(
        answer.message(),
        "this scan was refused because it could not be written down: disk full"
    );
}

use zond_daemon::id::Minter;
use zond_daemon::policy::{start_step, StartAction, StartEvent, Admission};

fn ten_only() -> Scope {
    Scope::read_written(&vec![("10.0.0.0/8".to_string(), Ok(v4(TEN, TEN + 0xff_ffff)))], &Vec::new())
        .expect("a readable policy")
}

#[test]
fn a_permitted_start_is_named_written_down_and_only_then_launched() {
    let scope = ten_only();
    let mut minter = Minter::new();
    let mut admission = Admission::new();

    let event = StartEvent::Resolved(v4(TEN + 1, TEN + 1));
    assert!(admission.awaits(&event));
    let name = match start_step(&mut admission, &scope, &mut minter, event) {
        StartAction::WriteStart(name) => name,
        other => panic!("a permitted start is written down first, not {other:?}"),
    };
    assert_eq!(name.len(), 13);

    let written = StartEvent::StartWritten(Ok(()));
    assert!(admission.awaits(&written));
    match start_step(&mut admission, &scope, &mut minter, written) {
        StartAction::Launch(launched) => assert_eq!(launched, name),
        other => panic!("a written start reaches the wire, not {other:?}"),
    }
}

#[test]
fn a_refused_start_is_written_down_answered_and_never_named() {
    let scope = ten_only();
    let mut minter = Minter::new();
    let mut admission = Admission::new();

    match start_step(&mut admission, &scope, &mut minter, StartEvent::Resolved(v4(0xc000_0201, 0xc000_0201))) {
        StartAction::WriteRefusal(refused) => assert_eq!(refused.code(), "scope.refused"),
        other => panic!("a refusal is written down first, not {other:?}"),
    }
    match start_step(&mut admission, &scope, &mut minter, StartEvent::RefusalWritten(Ok(()))) {
        StartAction::Answer(refused) => assert_eq!(refused.code(), "scope.refused"),
        other => panic!("and then answered, not {other:?}"),
    }

    // Nothing was named: the next permitted start gets the first count.
    let mut fresh = Minter::new();
    let mut again = Admission::new();
    let mut other = Admission::new();
    let first = start_step(&mut again, &scope, &mut minter, StartEvent::Resolved(v4(TEN, TEN)));
    let second = start_step(&mut other, &scope, &mut fresh, StartEvent::Resolved(v4(TEN, TEN)));
    match (first, second) {
        (StartAction::WriteStart(a), StartAction::WriteStart(b)) => assert_eq!(a[9..], b[9..]),
        other => panic!("{other:?}"),
    }
}

#[test]
fn a_refusal_that_could_not_be_written_is_answered_with_the_failure() {
    let scope = ten_only();
    let mut minter = Minter::new();
    let mut admission = Admission::new();

    start_step(&mut admission, &scope, &mut minter, StartEvent::Resolved(v4(0xc000_0201, 0xc000_0201)));
    match start_step(&mut admission, &scope, &mut minter, StartEvent::RefusalWritten(Err(unwritable("disk full")))) {
        StartAction::Answer(e) => assert_eq!(e.code(), "audit.unwritable"),
        other => panic!("{other:?}"),
    }
}

#[test]
fn a_start_that_could_not_be_written_never_reaches_the_wire() {
    let scope = ten_only();
    let mut minter = Minter::new();
    let mut admission = Admission::new();

    start_step(&mut admission, &scope, &mut minter, StartEvent::Resolved(v4(TEN, TEN)));
    let failed = StartEvent::StartWritten(Err(unwritable("disk full")));
    match start_step(&mut admission, &scope, &mut minter, failed) {
        StartAction::Answer(e) => assert_eq!(e.code(), "audit.unwritable"),
        other => panic!("{other:?}"),
    }
    assert!(!admission.awaits(&StartEvent::StartWritten(Ok(()))), "admission is over for it");
}
