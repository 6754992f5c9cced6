use wormhole_io::connector::{translate_inbound, translate_outbound};
use wormhole_io::{
    AsyncStdIO, Frame, IOAction, IOEffect, IOError, IOEvent, InboundLoop, Input, Link,
    OutboundLoop, Output, TimerHandle, WSControl, WSHandle, WormholeIO,
};

fn text(s: &str) -> String {
    s.to_string()
}

fn open(io: &mut AsyncStdIO, id: u64) -> WSHandle {
    let h = WSHandle::new(id);
    assert_eq!(
        io.process(IOAction::WebSocketOpen(h, text("ws://relay.example/v1"))),
        Ok(Some(IOEffect::Connect(h, text("ws://relay.example/v1"))))
    );
    h
}

fn open_and_connect(io: &mut AsyncStdIO, id: u64) -> WSHandle {
    let h = open(io, id);
    assert_eq!(
        io.report(IOEvent::WebSocketConnectionMade(h)),
        Some(IOEvent::WebSocketConnectionMade(h))
    );
    h
}

#[test]
fn new_reactor_holds_nothing() {
    let io = AsyncStdIO::new();
    assert!(!io.has_timer(TimerHandle::new(0)));
    assert!(!io.has_websocket(WSHandle::new(0)));
    assert_eq!(io.link(WSHandle::new(0)), None);
}

#[test]
fn timer_expires_exactly_once() {
    let mut io = AsyncStdIO::new();
    let h = TimerHandle::new(7);
    let millis = (0.05_f64 * 1000.0) as u64;
    assert_eq!(millis, 50);
    assert_eq!(io.process(IOAction::StartTimer(h, millis)), Ok(Some(IOEffect::Sleep(h, 50))));
    assert!(io.has_timer(h));
    assert_eq!(io.report(IOEvent::TimerExpired(h)), Some(IOEvent::TimerExpired(h)));
    assert!(!io.has_timer(h));
    assert_eq!(io.report(IOEvent::TimerExpired(h)), None);
    assert_eq!(io.report(IOEvent::TimerExpired(h)), None);
}

#[test]
fn cancelled_timer_never_expires() {
    let mut io = AsyncStdIO::new();
    let h = TimerHandle::new(3);
    let other = TimerHandle::new(4);
    assert_eq!(io.process(IOAction::StartTimer(h, 1000)), Ok(Some(IOEffect::Sleep(h, 1000))));
    assert_eq!(io.process(IOAction::StartTimer(other, 5)), Ok(Some(IOEffect::Sleep(other, 5))));
    assert_eq!(io.process(IOAction::CancelTimer(h)), Ok(None));
    assert!(!io.has_timer(h));
    assert!(io.has_timer(other));
    assert_eq!(io.report(IOEvent::TimerExpired(h)), None);
    assert_eq!(io.report(IOEvent::TimerExpired(other)), Some(IOEvent::TimerExpired(other)));
}

#[test]
fn cancelling_an_unknown_or_fired_timer_does_nothing() {
    let mut io = AsyncStdIO::new();
    let h = TimerHandle::new(9);
    assert_eq!(io.process(IOAction::CancelTimer(h)), Ok(None));
    assert_eq!(io.process(IOAction::StartTimer(h, 0)), Ok(Some(IOEffect::Sleep(h, 0))));
    assert_eq!(io.report(IOEvent::TimerExpired(h)), Some(IOEvent::TimerExpired(h)));
    assert_eq!(io.process(IOAction::CancelTimer(h)), Ok(None));
    assert!(!io.has_timer(h));
}

#[test]
fn open_reports_connection_made_exactly_once() {
    let mut io = AsyncStdIO::new();
    let h = open(&mut io, 1);
    assert_eq!(io.link(h), Some(Link::Connecting));
    assert_eq!(
        io.report(IOEvent::WebSocketConnectionMade(h)),
        Some(IOEvent::WebSocketConnectionMade(h))
    );
    assert_eq!(io.link(h), Some(Link::Established));
    assert_eq!(io.report(IOEvent::WebSocketConnectionMade(h)), None);
    assert_eq!(io.link(h), Some(Link::Established));
}

#[test]
fn connection_made_without_open_reaches_nobody() {
    let mut io = AsyncStdIO::new();
    let h = WSHandle::new(5);
    assert_eq!(io.report(IOEvent::WebSocketConnectionMade(h)), None);
    assert!(!io.has_websocket(h));
}

#[test]
fn cancel_timer_leaves_connection_of_same_number_alone() {
    let mut io = AsyncStdIO::new();
    let h = open(&mut io, 1);
    assert_eq!(io.process(IOAction::CancelTimer(TimerHandle::new(1))), Ok(None));
    assert_eq!(io.link(h), Some(Link::Connecting));
    assert_eq!(
        io.report(IOEvent::WebSocketConnectionMade(h)),
        Some(IOEvent::WebSocketConnectionMade(h))
    );
    assert_eq!(
        io.process(IOAction::WebSocketSendMessage(h, text("still here"))),
        Ok(Some(IOEffect::Enqueue(h, WSControl::Data(text("still here")))))
    );
    assert_eq!(io.report(IOEvent::TimerExpired(TimerHandle::new(1))), None);
    assert!(io.has_websocket(h));
}

#[test]
fn close_leaves_timer_of_same_number_alone() {
    let mut io = AsyncStdIO::new();
    let t = TimerHandle::new(1);
    assert_eq!(io.process(IOAction::StartTimer(t, 10)), Ok(Some(IOEffect::Sleep(t, 10))));
    let h = open_and_connect(&mut io, 1);
    assert_eq!(
        io.process(IOAction::WebSocketClose(h)),
        Ok(Some(IOEffect::Enqueue(h, WSControl::Close)))
    );
    assert!(io.has_timer(t));
    assert_eq!(io.report(IOEvent::TimerExpired(t)), Some(IOEvent::TimerExpired(t)));
}

#[test]
fn send_before_connection_made_is_queued() {
    let mut io = AsyncStdIO::new();
    let h = open(&mut io, 2);
    assert_eq!(
        io.process(IOAction::WebSocketSendMessage(h, text("early"))),
        Ok(Some(IOEffect::Enqueue(h, WSControl::Data(text("early")))))
    );
    assert_eq!(io.link(h), Some(Link::Connecting));
}

#[test]
fn send_on_unknown_handle_fails_loudly() {
    let mut io = AsyncStdIO::new();
    let h = WSHandle::new(8);
    assert_eq!(
        io.process(IOAction::WebSocketSendMessage(h, text("lost"))),
        Err(IOError::UnknownHandle(h))
    );
    assert!(!io.has_websocket(h));
    assert_eq!(IOError::UnknownHandle(h).message(), "unknown websocket handle");
}

#[test]
fn close_on_unknown_handle_fails_loudly() {
    let mut io = AsyncStdIO::new();
    let h = WSHandle::new(8);
    assert_eq!(io.process(IOAction::WebSocketClose(h)), Err(IOError::UnknownHandle(h)));
    let h = open_and_connect(&mut io, 8);
    assert_eq!(
        io.process(IOAction::WebSocketClose(h)),
        Ok(Some(IOEffect::Enqueue(h, WSControl::Close)))
    );
    assert_eq!(io.process(IOAction::WebSocketClose(h)), Err(IOError::UnknownHandle(h)));
    assert_eq!(
        io.process(IOAction::WebSocketSendMessage(h, text("late"))),
        Err(IOError::UnknownHandle(h))
    );
}

#[test]
fn failed_connect_is_rolled_back() {
    let mut io = AsyncStdIO::new();
    let kept = open_and_connect(&mut io, 1);
    let h = open(&mut io, 2);
    assert!(io.has_websocket(h));
    assert_eq!(io.connect_failed(h), IOError::ConnectFailed(h));
    assert!(!io.has_websocket(h));
    assert!(io.has_websocket(kept));
    assert_eq!(
        io.process(IOAction::WebSocketSendMessage(h, text("nobody"))),
        Err(IOError::UnknownHandle(h))
    );
    assert_eq!(io.report(IOEvent::WebSocketConnectionMade(h)), None);
    assert_eq!(IOError::ConnectFailed(h).message(), "websocket connection failed");
}

#[test]
fn no_message_after_close() {
    let mut io = AsyncStdIO::new();
    let h = open_and_connect(&mut io, 1);
    assert_eq!(
        io.report(IOEvent::WebSocketMessageReceived(h, text("before"))),
        Some(IOEvent::WebSocketMessageReceived(h, text("before")))
    );
    assert_eq!(
        io.process(IOAction::WebSocketClose(h)),
        Ok(Some(IOEffect::Enqueue(h, WSControl::Close)))
    );
    assert!(!io.has_websocket(h));
    assert_eq!(io.report(IOEvent::WebSocketMessageReceived(h, text("after"))), None);
    assert_eq!(
        io.report(IOEvent::WebSocketConnectionLost(h)),
        Some(IOEvent::WebSocketConnectionLost(h))
    );
    assert_eq!(io.report(IOEvent::WebSocketMessageReceived(h, text("much later"))), None);
}

#[test]
fn lost_connection_leaves_the_registry() {
    let mut io = AsyncStdIO::new();
    let h = open_and_connect(&mut io, 4);
    let other = open_and_connect(&mut io, 5);
    assert_eq!(
        io.report(IOEvent::WebSocketConnectionLost(h)),
        Some(IOEvent::WebSocketConnectionLost(h))
    );
    assert!(!io.has_websocket(h));
    assert!(io.has_websocket(other));
    assert_eq!(
        io.process(IOAction::WebSocketSendMessage(h, text("gone"))),
        Err(IOError::UnknownHandle(h))
    );
}

#[test]
fn echo_round_trip_keeps_the_payload() {
    let mut io = AsyncStdIO::new();
    let h = open_and_connect(&mut io, 1);
    let effect = io.process(IOAction::WebSocketSendMessage(h, text("hello"))).unwrap().unwrap();
    let control = match effect {
        IOEffect::Enqueue(to, control) => {
            assert_eq!(to, h);
            control
        }
        other => panic!("unexpected effect {:?}", other),
    };
    let mut outbound = OutboundLoop::new();
    let written = outbound.on_control(control).unwrap();
    assert_eq!(written, Frame::Text(text("hello")));
    let echoed = written;
    let mut inbound = InboundLoop::new(h);
    let reported = inbound.on_frame(echoed).unwrap();
    assert_eq!(io.report(reported), Some(IOEvent::WebSocketMessageReceived(h, text("hello"))));
    assert!(!inbound.finished);
    assert!(!outbound.finished);
}

#[test]
fn frames_translate_one_by_one() {
    let h = WSHandle::new(6);
    assert_eq!(
        translate_inbound(h, Frame::Text(text("a"))),
        Some(IOEvent::WebSocketMessageReceived(h, text("a")))
    );
    assert_eq!(translate_inbound(h, Frame::Close), Some(IOEvent::WebSocketConnectionLost(h)));
    assert_eq!(translate_inbound(h, Frame::Ping(vec![1, 2])), None);
    assert_eq!(translate_inbound(h, Frame::Pong(vec![])), None);
    assert_eq!(translate_inbound(h, Frame::Binary(vec![0xde, 0xad])), None);
    assert_eq!(translate_outbound(WSControl::Data(text("b"))), Frame::Text(text("b")));
    assert_eq!(translate_outbound(WSControl::Close), Frame::Close);
}

#[test]
fn inbound_loop_keeps_wire_order() {
    let h = WSHandle::new(1);
    let frames = vec![
        Frame::Text(text("one")),
        Frame::Ping(vec![9]),
        Frame::Text(text("two")),
        Frame::Binary(vec![1, 2, 3]),
        Frame::Text(text("two")),
        Frame::Pong(vec![]),
        Frame::Text(text("three")),
    ];
    assert_eq!(
        InboundLoop::run(h, frames),
        vec![
            IOEvent::WebSocketMessageReceived(h, text("one")),
            IOEvent::WebSocketMessageReceived(h, text("two")),
            IOEvent::WebSocketMessageReceived(h, text("two")),
            IOEvent::WebSocketMessageReceived(h, text("three")),
        ]
    );
    assert_eq!(InboundLoop::run(h, Vec::new()), Vec::<IOEvent>::new());
}

#[test]
fn inbound_loop_ends_with_the_close_frame() {
    let h = WSHandle::new(1);
    let frames = vec![
        Frame::Text(text("one")),
        Frame::Close,
        Frame::Text(text("never")),
        Frame::Close,
    ];
    assert_eq!(
        InboundLoop::run(h, frames),
        vec![
            IOEvent::WebSocketMessageReceived(h, text("one")),
            IOEvent::WebSocketConnectionLost(h),
        ]
    );
    let mut inbound = InboundLoop::new(h);
    assert_eq!(inbound.on_frame(Frame::Ping(vec![])), None);
    assert!(!inbound.finished);
    assert_eq!(inbound.on_frame(Frame::Close), Some(IOEvent::WebSocketConnectionLost(h)));
    assert!(inbound.finished);
    assert_eq!(inbound.on_frame(Frame::Text(text("x"))), None);
    assert_eq!(inbound.on_frame(Frame::Close), None);
    assert!(inbound.finished);
    assert_eq!(inbound.handle, h);
}

#[test]
fn outbound_loop_ends_with_the_close_request() {
    let controls = vec![
        WSControl::Data(text("one")),
        WSControl::Data(text("two")),
        WSControl::Close,
        WSControl::Data(text("never")),
    ];
    assert_eq!(
        OutboundLoop::run(controls),
        vec![Frame::Text(text("one")), Frame::Text(text("two")), Frame::Close]
    );
    assert_eq!(OutboundLoop::run(Vec::new()), Vec::<Frame>::new());
    let mut outbound = OutboundLoop::new();
    assert_eq!(outbound.on_control(WSControl::Close), Some(Frame::Close));
    assert!(outbound.finished);
    assert_eq!(outbound.on_control(WSControl::Data(text("x"))), None);
    assert_eq!(outbound.on_control(WSControl::Close), None);
}

#[test]
fn registered_connection_hears_its_whole_loop() {
    let mut io = AsyncStdIO::new();
    let h = open_and_connect(&mut io, 1);
    let frames = vec![
        Frame::Text(text("a")),
        Frame::Pong(vec![]),
        Frame::Text(text("b")),
        Frame::Close,
        Frame::Text(text("c")),
    ];
    let events = InboundLoop::run(h, frames);
    let inputs: Vec<Input> = events.iter().cloned().map(Input::Report).collect();
    let outputs = io.run(inputs);
    assert_eq!(
        outputs,
        vec![
            Output::Event(IOEvent::WebSocketMessageReceived(h, text("a"))),
            Output::Event(IOEvent::WebSocketMessageReceived(h, text("b"))),
            Output::Event(IOEvent::WebSocketConnectionLost(h)),
        ]
    );
    assert!(!io.has_websocket(h));
}

#[test]
fn step_answers_every_kind_of_input() {
    let mut io = AsyncStdIO::new();
    let t = TimerHandle::new(1);
    let h = WSHandle::new(1);
    assert_eq!(
        io.step(Input::Action(IOAction::StartTimer(t, 20))),
        Output::Effect(IOEffect::Sleep(t, 20))
    );
    assert_eq!(io.step(Input::Action(IOAction::CancelTimer(t))), Output::Nothing);
    assert_eq!(io.step(Input::Report(IOEvent::TimerExpired(t))), Output::Nothing);
    assert_eq!(
        io.step(Input::Action(IOAction::WebSocketSendMessage(h, text("x")))),
        Output::Error(IOError::UnknownHandle(h))
    );
    assert_eq!(
        io.step(Input::Action(IOAction::WebSocketOpen(h, text("ws://a")))),
        Output::Effect(IOEffect::Connect(h, text("ws://a")))
    );
    assert_eq!(io.step(Input::ConnectFailed(h)), Output::Error(IOError::ConnectFailed(h)));
    assert!(!io.has_websocket(h));
    assert_eq!(
        io.step(Input::Action(IOAction::WebSocketOpen(h, text("ws://b")))),
        Output::Effect(IOEffect::Connect(h, text("ws://b")))
    );
    assert_eq!(
        io.step(Input::Report(IOEvent::WebSocketConnectionMade(h))),
        Output::Event(IOEvent::WebSocketConnectionMade(h))
    );
    assert_eq!(
        io.step(Input::Report(IOEvent::WebSocketMessageReceived(h, text("m")))),
        Output::Event(IOEvent::WebSocketMessageReceived(h, text("m")))
    );
}

#[test]
fn run_answers_each_input_in_order() {
    let mut io = AsyncStdIO::new();
    let t = TimerHandle::new(7);
    let h = WSHandle::new(7);
    let outputs = io.run(vec![
        Input::Action(IOAction::StartTimer(t, 50)),
        Input::Action(IOAction::WebSocketOpen(h, text("ws://relay"))),
        Input::Action(IOAction::WebSocketSendMessage(h, text("hello"))),
        Input::Report(IOEvent::WebSocketConnectionMade(h)),
        Input::Report(IOEvent::TimerExpired(t)),
        Input::Report(IOEvent::WebSocketMessageReceived(h, text("hello"))),
        Input::Action(IOAction::WebSocketClose(h)),
        Input::Report(IOEvent::WebSocketMessageReceived(h, text("straggler"))),
        Input::Report(IOEvent::TimerExpired(t)),
        Input::Report(IOEvent::WebSocketConnectionLost(h)),
    ]);
    assert_eq!(
        outputs,
        vec![
            Output::Effect(IOEffect::Sleep(t, 50)),
            Output::Effect(IOEffect::Connect(h, text("ws://relay"))),
            Output::Effect(IOEffect::Enqueue(h, WSControl::Data(text("hello")))),
            Output::Event(IOEvent::WebSocketConnectionMade(h)),
            Output::Event(IOEvent::TimerExpired(t)),
            Output::Event(IOEvent::WebSocketMessageReceived(h, text("hello"))),
            Output::Effect(IOEffect::Enqueue(h, WSControl::Close)),
            Output::Nothing,
            Output::Nothing,
            Output::Event(IOEvent::WebSocketConnectionLost(h)),
        ]
    );
    assert!(!io.has_timer(t));
    assert!(!io.has_websocket(h));
    assert_eq!(io.run(Vec::new()), Vec::<Output>::new());
}

#[test]
fn reopening_a_handle_starts_over() {
    let mut io = AsyncStdIO::new();
    let h = open_and_connect(&mut io, 3);
    assert_eq!(io.link(h), Some(Link::Established));
    let again = open(&mut io, 3);
    assert_eq!(again, h);
    assert_eq!(io.link(h), Some(Link::Connecting));
    assert_eq!(
        io.report(IOEvent::WebSocketConnectionMade(h)),
        Some(IOEvent::WebSocketConnectionMade(h))
    );
}
