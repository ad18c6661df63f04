//! The echo service's decisions on concrete values.

use std::cell::RefCell;

use nanorpc::echo::{
    count, count_step, echoed, fail, router, say, serve_fail, serve_say, sleep_step, CountRequest, CountResponse,
    CountStep, EchoRequest, EchoResponse, FailRequest, SleepRequest, SleepStep, COUNT, FAIL,
    MAX_NAP_MS, SAY, SLEEP,
};
use nanorpc::method::method_id;
use nanorpc::router::{Dispatch, Handler};
use nanorpc::{Code, Outbox, Outlet, Router, Status};

#[test]
fn say_shouts_on_request() {
    let text = String::from("Stra\u{df}e");
    let quiet = say(EchoRequest { text: text.clone(), shout: false });
    assert_eq!(quiet, EchoResponse { text: text.clone() });
    assert_eq!(say(EchoRequest { text, shout: true }).text, "STRASSE");
}

#[test]
fn say_succeeds_and_fail_fails() {
    let request = EchoRequest { text: String::from("hi"), shout: true };
    assert_eq!(serve_say(request), Ok(EchoResponse { text: String::from("HI") }));
    let request = FailRequest { code: 5, detail: String::from("gone") };
    assert_eq!(serve_fail(request), Err(Status::new(Code(5), "gone")));
}

#[test]
fn echoes_pick_the_text() {
    let request = EchoRequest { text: String::from("a"), shout: true };
    assert_eq!(echoed(request.clone(), String::from("b")).text, "b");
    let request = EchoRequest { shout: false, ..request };
    assert_eq!(echoed(request, String::from("b")).text, "a");
}

fn counted(request: CountRequest, stop_at: u32) -> (Vec<u32>, Result<(), Status>) {
    let sent = RefCell::new(Vec::new());
    let mut outbox = Outbox::new(|response: CountResponse| {
        if response.value == stop_at {
            return Err(Status::new(Code(Code::CANCELLED), "client cancelled"));
        }
        sent.borrow_mut().push(response.value);
        Ok(())
    });
    let out = count(request, &mut outbox);
    (sent.into_inner(), out)
}

#[test]
fn count_sends_each_value_once() {
    let all = counted(CountRequest { up_to: 4, fail_after: None }, 0);
    assert_eq!(all, (vec![1, 2, 3, 4], Ok(())));
    let none = counted(CountRequest { up_to: 0, fail_after: None }, 0);
    assert_eq!(none, (vec![], Ok(())));
}

#[test]
fn count_fails_as_requested() {
    let aborted = Status::new(Code(Code::ABORTED), "failed mid-stream as requested");
    let midway = counted(CountRequest { up_to: 4, fail_after: Some(2) }, 0);
    assert_eq!(midway, (vec![1, 2], Err(aborted.clone())));
    let last = counted(CountRequest { up_to: 2, fail_after: Some(2) }, 0);
    assert_eq!(last, (vec![1, 2], Err(aborted)));
    // A value that is never sent fails nothing.
    for fail_after in [0, 3] {
        let past = counted(CountRequest { up_to: 2, fail_after: Some(fail_after) }, 0);
        assert_eq!(past, (vec![1, 2], Ok(())));
    }
}

#[test]
fn count_stops_when_sending_fails() {
    let stopped = counted(CountRequest { up_to: u32::MAX, fail_after: Some(3) }, 3);
    let cancelled = Status::new(Code(Code::CANCELLED), "client cancelled");
    assert_eq!(stopped, (vec![1, 2], Err(cancelled)));
}

#[test]
fn outboxes_answer_as_they_are_answered() {
    let refused = Status::new(Code(Code::ABORTED), "odd");
    let mut outbox = Outbox::new(|item: u8| {
        if item % 2 == 1 {
            Err(Status::new(Code(Code::ABORTED), "odd"))
        } else {
            Ok(())
        }
    });
    assert_eq!(outbox.offer(4), Ok(()));
    assert_eq!(outbox.offer(5), Err(refused));
    assert_eq!(outbox.offer(6), Ok(()));
}

#[test]
fn count_steps_to_the_end() {
    let request = CountRequest { up_to: u32::MAX, fail_after: None };
    assert!(matches!(
        count_step(request, u32::MAX - 1),
        CountStep::Send(CountResponse { value: u32::MAX })
    ));
    assert!(matches!(count_step(request, u32::MAX), CountStep::Done));
}

#[test]
fn fail_returns_what_was_asked_for() {
    let request = FailRequest { code: 99, detail: String::from("as asked") };
    assert_eq!(fail(request), Status::new(Code(99), "as asked"));
}

#[test]
fn sleep_naps_until_done() {
    assert_eq!(MAX_NAP_MS, 5);
    let mut left = u64::from(SleepRequest { ms: 12 }.ms);
    let mut naps = Vec::new();
    while let SleepStep::Nap { ms, left: rest } = sleep_step(left, false) {
        naps.push(ms);
        left = rest;
    }
    assert_eq!(naps, vec![5, 5, 2]);
    assert!(matches!(sleep_step(left, false), SleepStep::Done));
    // A sleep that is over is not woken any more.
    assert!(matches!(sleep_step(0, true), SleepStep::Done));
}

#[test]
fn sleep_is_woken_by_cancellation() {
    match sleep_step(12, true) {
        SleepStep::Woken(status) => {
            assert_eq!(status, Status::new(Code(Code::CANCELLED), "woken by cancellation"));
        }
        other => panic!("expected to be woken, got {other:?}"),
    }
}

#[test]
fn the_reference_router_serves_four_methods() {
    let router: Router<u8, u16> = router(1, 2, 3, 4);
    let serves = |path| router.dispatch(1, method_id(path), false);
    assert!(matches!(serves(SAY), Dispatch::Run(Handler::Unary(1))));
    assert!(matches!(serves(COUNT), Dispatch::Run(Handler::Stream(2))));
    assert!(matches!(serves(FAIL), Dispatch::Run(Handler::Unary(3))));
    assert!(matches!(serves(SLEEP), Dispatch::Run(Handler::Unary(4))));
    assert!(matches!(serves("interop.Echo/no_such"), Dispatch::Close(_)));
    assert_eq!(SAY, "interop.Echo/say");
    assert_eq!(COUNT, "interop.Echo/count");
    assert_eq!(FAIL, "interop.Echo/fail");
    assert_eq!(SLEEP, "interop.Echo/sleep");
}
