use capability_host::dispatch::{CallEvent, DispatchStats, Invocation, Phase, Verdict};
use capability_host::host::ErrorKind;

#[test]
fn a_call_runs_from_start_to_return() {
    let mut call = Invocation::new();
    assert_eq!(call.phase(), Phase::Fresh);
    assert_eq!(call.live(), 0);
    assert_eq!(call.step(CallEvent::Use(1)), Verdict::Ignore);
    assert_eq!(call.step(CallEvent::Start(1)), Verdict::Proceed);
    assert_eq!(call.phase(), Phase::Running);
    assert!(call.holds(1));
    assert_eq!(call.step(CallEvent::HandOut(2)), Verdict::Proceed);
    assert_eq!(call.step(CallEvent::HandOut(3)), Verdict::Proceed);
    assert_eq!(call.step(CallEvent::Use(2)), Verdict::Proceed);
    assert_eq!(call.live(), 3);
    assert_eq!(call.step(CallEvent::Drop(2)), Verdict::Proceed);
    assert!(!call.holds(2));
    assert!(call.holds(3));
    assert_eq!(call.live(), 2);
    assert_eq!(call.step(CallEvent::Start(9)), Verdict::Ignore);
    assert_eq!(call.step(CallEvent::Return { failed: false }), Verdict::Finish { failed: false });
    assert_eq!(call.phase(), Phase::Finished);
    assert_eq!(call.live(), 0);
    assert_eq!(call.step(CallEvent::HandOut(4)), Verdict::Ignore);
    assert_eq!(call.step(CallEvent::Return { failed: true }), Verdict::Ignore);
    assert_eq!(call.phase(), Phase::Finished);
}

#[test]
fn misuse_of_the_table_traps_the_guest_and_releases_everything() {
    let mut call = Invocation::new();
    call.step(CallEvent::Start(1));
    call.step(CallEvent::HandOut(2));
    assert_eq!(call.step(CallEvent::Use(7)), Verdict::Trap);
    assert_eq!(call.phase(), Phase::Trapped);
    assert_eq!(call.live(), 0);
    assert_eq!(call.step(CallEvent::Use(1)), Verdict::Ignore);

    let mut twice = Invocation::new();
    twice.step(CallEvent::Start(1));
    assert_eq!(twice.step(CallEvent::Drop(1)), Verdict::Proceed);
    assert_eq!(twice.step(CallEvent::Drop(1)), Verdict::Trap);

    let mut again = Invocation::new();
    again.step(CallEvent::Start(1));
    assert_eq!(again.step(CallEvent::HandOut(1)), Verdict::Trap);
    assert_eq!(again.live(), 0);
}

#[test]
fn verdicts_stand_for_kinds_of_error() {
    assert_eq!(ErrorKind::of_verdict(Verdict::Trap), Some(ErrorKind::ResourceTableMisuse));
    assert_eq!(
        ErrorKind::of_verdict(Verdict::Finish { failed: true }),
        Some(ErrorKind::InternalError)
    );
    assert_eq!(ErrorKind::of_verdict(Verdict::Finish { failed: false }), None);
    assert_eq!(ErrorKind::of_verdict(Verdict::Proceed), None);
    assert_eq!(ErrorKind::of_verdict(Verdict::Ignore), None);
    let mut call = Invocation::new();
    call.step(CallEvent::Start(0));
    let verdict = call.step(CallEvent::Return { failed: true });
    let stats = DispatchStats::new().record(verdict == Verdict::Finish { failed: true });
    assert_eq!(stats, DispatchStats { events: 1, processing_errors: 1 });
}
