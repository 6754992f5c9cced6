//! Runs of the reactor over sequences of inputs, and what holds of every
//! such run.

use crate::connector::{
    has_close_frame, inbound_event, inbound_events, lemma_close_frame_extends, optional,
    outbound_frame,
};
use crate::protocol::{
    Frame, IOAction, IOEffect, IOError, IOEvent, Input, Output, TimerHandle, WSControl, WSHandle,
};
use crate::registry::Registry;
use vstd::prelude::*;

verus! {

/// The registry after one input.
pub open spec fn step_registry(registry: Registry, input: Input) -> Registry {
    match input {
        Input::Action(action) => registry.after_action(action),
        Input::Report(event) => registry.after_report(event),
        Input::ConnectFailed(handle) => registry.after_connect_failure(handle),
    }
}

/// The reactor's answer to one input.
pub open spec fn step_output(registry: Registry, input: Input) -> Output {
    match input {
        Input::Action(action) => match registry.action_result(action) {
            Ok(Some(effect)) => Output::Effect(effect),
            Ok(None) => Output::Nothing,
            Err(error) => Output::Error(error),
        },
        Input::Report(event) => match registry.report_result(event) {
            Some(event) => Output::Event(event),
            None => Output::Nothing,
        },
        Input::ConnectFailed(handle) => Output::Error(IOError::ConnectFailed(handle)),
    }
}

/// The registry after a sequence of inputs, taken in order.
pub open spec fn run_registry(registry: Registry, inputs: Seq<Input>) -> Registry
    decreases inputs.len(),
{
    if inputs.len() == 0 {
        registry
    } else {
        run_registry(step_registry(registry, inputs[0]), inputs.drop_first())
    }
}

/// The reactor's answers to a sequence of inputs, one for each.
pub open spec fn run_outputs(registry: Registry, inputs: Seq<Input>) -> Seq<Output>
    decreases inputs.len(),
{
    if inputs.len() == 0 {
        Seq::empty()
    } else {
        seq![step_output(registry, inputs[0])] + run_outputs(
            step_registry(registry, inputs[0]),
            inputs.drop_first(),
        )
    }
}

/// Whether the input starts the timer of the handle.
pub open spec fn starts_timer(input: Input, handle: TimerHandle) -> bool {
    match input {
        Input::Action(IOAction::StartTimer(h, _)) => h == handle,
        _ => false,
    }
}

/// Whether the input opens the connection of the handle.
pub open spec fn opens_websocket(input: Input, handle: WSHandle) -> bool {
    match input {
        Input::Action(IOAction::WebSocketOpen(h, _)) => h == handle,
        _ => false,
    }
}

/// Whether the output is a message received on the connection.
pub open spec fn delivers_message_on(output: Output, handle: WSHandle) -> bool {
    match output {
        Output::Event(event) => event.is_message_on(handle),
        _ => false,
    }
}

/// The reports of a task that proposes the given events, in order.
pub open spec fn reports(events: Seq<IOEvent>) -> Seq<Input> {
    Seq::new(events.len(), |i: int| Input::Report(events[i]))
}

/// The answers that hand the given events to the protocol, in order.
pub open spec fn deliveries(events: Seq<IOEvent>) -> Seq<Output> {
    Seq::new(events.len(), |i: int| Output::Event(events[i]))
}

/// The payloads of the text frames that arrive before any close frame, in
/// the order of their arrival.
pub open spec fn wire_texts(frames: Seq<Frame>) -> Seq<String>
    decreases frames.len(),
{
    if frames.len() == 0 {
        Seq::empty()
    } else if has_close_frame(frames.drop_last()) {
        wire_texts(frames.drop_last())
    } else {
        match frames.last() {
            Frame::Text(text) => wire_texts(frames.drop_last()).push(text),
            _ => wire_texts(frames.drop_last()),
        }
    }
}

/// The payloads of the messages received on the connection among the
/// events, in order.
pub open spec fn received_texts(events: Seq<IOEvent>, handle: WSHandle) -> Seq<String>
    decreases events.len(),
{
    if events.len() == 0 {
        Seq::empty()
    } else {
        match events.last() {
            IOEvent::WebSocketMessageReceived(h, text) if h == handle => received_texts(
                events.drop_last(),
                handle,
            ).push(text),
            _ => received_texts(events.drop_last(), handle),
        }
    }
}

/// A run has one answer for each input.
pub proof fn lemma_run_outputs_len(registry: Registry, inputs: Seq<Input>)
    ensures
        run_outputs(registry, inputs).len() == inputs.len(),
    decreases inputs.len(),
{
    if inputs.len() > 0 {
        lemma_run_outputs_len(step_registry(registry, inputs[0]), inputs.drop_first());
    }
}

/// A timer that is not pending does not expire: whatever inputs follow, as
/// long as none of them starts the timer again, the protocol is never told
/// that it expired.
pub proof fn lemma_idle_timer_stays_silent(
    registry: Registry,
    handle: TimerHandle,
    inputs: Seq<Input>,
)
    requires
        !registry.has_timer(handle),
        forall|i: int| 0 <= i < inputs.len() ==> !starts_timer(#[trigger] inputs[i], handle),
    ensures
        forall|i: int|
            0 <= i < run_outputs(registry, inputs).len() ==> #[trigger] run_outputs(
                registry,
                inputs,
            )[i] != Output::Event(IOEvent::TimerExpired(handle)),
    decreases inputs.len(),
{
    if inputs.len() > 0 {
        let next = step_registry(registry, inputs[0]);
        let rest = inputs.drop_first();
        assert(!starts_timer(inputs[0], handle));
        assert(!next.has_timer(handle));
        assert forall|i: int| 0 <= i < rest.len() implies !starts_timer(
            #[trigger] rest[i],
            handle,
        ) by {
            assert(rest[i] == inputs[i + 1]);
        }
        lemma_idle_timer_stays_silent(next, handle, rest);
    }
}

/// Cancelling a timer before it expires silences it: after the cancel, and
/// as long as the timer is not started again, no run of the reactor tells
/// the protocol that the timer expired.
pub proof fn lemma_cancelled_timer_never_expires(
    registry: Registry,
    handle: TimerHandle,
    later: Seq<Input>,
)
    requires
        forall|i: int| 0 <= i < later.len() ==> !starts_timer(#[trigger] later[i], handle),
    ensures
        forall|i: int|
            0 <= i < later.len() ==> #[trigger] run_outputs(
                registry.after_action(IOAction::CancelTimer(handle)),
                later,
            )[i] != Output::Event(IOEvent::TimerExpired(handle)),
{
    let cancelled = registry.after_action(IOAction::CancelTimer(handle));
    lemma_run_outputs_len(cancelled, later);
    lemma_idle_timer_stays_silent(cancelled, handle, later);
}

/// A pending timer expires once: the first report of its expiry reaches the
/// protocol and takes the timer out of the registry, so that a second report
/// reaches nobody.
pub proof fn lemma_timer_expires_once(registry: Registry, handle: TimerHandle, millis: u64)
    ensures
        run_outputs(
            registry,
            seq![
                Input::Action(IOAction::StartTimer(handle, millis)),
                Input::Report(IOEvent::TimerExpired(handle)),
                Input::Report(IOEvent::TimerExpired(handle)),
            ],
        ) == seq![
            Output::Effect(IOEffect::Sleep(handle, millis)),
            Output::Event(IOEvent::TimerExpired(handle)),
            Output::Nothing,
        ],
{
    let inputs = seq![
        Input::Action(IOAction::StartTimer(handle, millis)),
        Input::Report(IOEvent::TimerExpired(handle)),
        Input::Report(IOEvent::TimerExpired(handle)),
    ];
    let r1 = step_registry(registry, inputs[0]);
    let r2 = step_registry(r1, inputs[1]);
    let r3 = step_registry(r2, inputs[2]);
    let i1 = inputs.drop_first();
    let i2 = i1.drop_first();
    let i3 = i2.drop_first();
    assert(i3.len() == 0);
    assert(run_outputs(r3, i3) =~= Seq::empty());
    assert(run_outputs(r2, i2) =~= seq![Output::Nothing]);
    assert(run_outputs(r1, i1) =~= seq![
        Output::Event(IOEvent::TimerExpired(handle)),
        Output::Nothing,
    ]);
    assert(run_outputs(registry, inputs) =~= seq![
        Output::Effect(IOEffect::Sleep(handle, millis)),
        Output::Event(IOEvent::TimerExpired(handle)),
        Output::Nothing,
    ]);
}

/// A connection that is not being established is not reported as made:
/// whatever inputs follow, as long as none of them opens the connection
/// again, the protocol is never told that it was made.
pub proof fn lemma_connection_made_needs_open(
    registry: Registry,
    handle: WSHandle,
    inputs: Seq<Input>,
)
    requires
        !registry.is_connecting(handle),
        forall|i: int| 0 <= i < inputs.len() ==> !opens_websocket(#[trigger] inputs[i], handle),
    ensures
        forall|i: int|
            0 <= i < run_outputs(registry, inputs).len() ==> #[trigger] run_outputs(
                registry,
                inputs,
            )[i] != Output::Event(IOEvent::WebSocketConnectionMade(handle)),
    decreases inputs.len(),
{
    if inputs.len() > 0 {
        let next = step_registry(registry, inputs[0]);
        let rest = inputs.drop_first();
        assert(!opens_websocket(inputs[0], handle));
        assert(!next.is_connecting(handle));
        assert forall|i: int| 0 <= i < rest.len() implies !opens_websocket(
            #[trigger] rest[i],
            handle,
        ) by {
            assert(rest[i] == inputs[i + 1]);
        }
        lemma_connection_made_needs_open(next, handle, rest);
    }
}

/// An open that succeeds tells the protocol exactly once that the connection
/// was made: the open itself asks the runtime to connect, the runtime's
/// report of success reaches the protocol, and after that, as long as the
/// connection is not opened again, no run tells the protocol so a second
/// time.
pub proof fn lemma_open_makes_connection_once(
    registry: Registry,
    handle: WSHandle,
    url: String,
    later: Seq<Input>,
)
    requires
        forall|i: int| 0 <= i < later.len() ==> !opens_websocket(#[trigger] later[i], handle),
    ensures
        run_outputs(
            registry,
            seq![
                Input::Action(IOAction::WebSocketOpen(handle, url)),
                Input::Report(IOEvent::WebSocketConnectionMade(handle)),
            ],
        ) == seq![
            Output::Effect(IOEffect::Connect(handle, url)),
            Output::Event(IOEvent::WebSocketConnectionMade(handle)),
        ],
        forall|i: int|
            0 <= i < later.len() ==> #[trigger] run_outputs(
                registry.after_action(IOAction::WebSocketOpen(handle, url)).after_report(
                    IOEvent::WebSocketConnectionMade(handle),
                ),
                later,
            )[i] != Output::Event(IOEvent::WebSocketConnectionMade(handle)),
{
    let inputs = seq![
        Input::Action(IOAction::WebSocketOpen(handle, url)),
        Input::Report(IOEvent::WebSocketConnectionMade(handle)),
    ];
    let r1 = step_registry(registry, inputs[0]);
    let r2 = step_registry(r1, inputs[1]);
    let i1 = inputs.drop_first();
    let i2 = i1.drop_first();
    assert(i2.len() == 0);
    assert(r1.is_connecting(handle));
    assert(run_outputs(r2, i2) =~= Seq::empty());
    assert(run_outputs(r1, i1) =~= seq![Output::Event(IOEvent::WebSocketConnectionMade(handle))]);
    assert(run_outputs(registry, inputs) =~= seq![
        Output::Effect(IOEffect::Connect(handle, url)),
        Output::Event(IOEvent::WebSocketConnectionMade(handle)),
    ]);
    assert(!r2.is_connecting(handle));
    lemma_run_outputs_len(r2, later);
    lemma_connection_made_needs_open(r2, handle, later);
}

/// A connection that is not registered is silent: whatever inputs follow, as
/// long as none of them opens the connection again, the protocol receives no
/// message on it.
pub proof fn lemma_unregistered_connection_stays_silent(
    registry: Registry,
    handle: WSHandle,
    inputs: Seq<Input>,
)
    requires
        !registry.has_websocket(handle),
        forall|i: int| 0 <= i < inputs.len() ==> !opens_websocket(#[trigger] inputs[i], handle),
    ensures
        forall|i: int|
            0 <= i < run_outputs(registry, inputs).len() ==> !delivers_message_on(
                #[trigger] run_outputs(registry, inputs)[i],
                handle,
            ),
    decreases inputs.len(),
{
    if inputs.len() > 0 {
        let next = step_registry(registry, inputs[0]);
        let rest = inputs.drop_first();
        assert(!opens_websocket(inputs[0], handle));
        assert(!next.has_websocket(handle));
        assert forall|i: int| 0 <= i < rest.len() implies !opens_websocket(
            #[trigger] rest[i],
            handle,
        ) by {
            assert(rest[i] == inputs[i + 1]);
        }
        lemma_unregistered_connection_stays_silent(next, handle, rest);
        let outputs = run_outputs(registry, inputs);
        let tail = run_outputs(next, rest);
        assert forall|i: int| 0 <= i < outputs.len() implies !delivers_message_on(
            #[trigger] outputs[i],
            handle,
        ) by {
            if i > 0 {
                assert(outputs[i] == tail[i - 1]);
            }
        }
    }
}

/// Closing a connection silences it: once the close has taken the handle out
/// of the registry, and as long as the connection is not opened again, no
/// run of the reactor hands the protocol a message received on it.
pub proof fn lemma_no_message_after_close(registry: Registry, handle: WSHandle, later: Seq<Input>)
    requires
        forall|i: int| 0 <= i < later.len() ==> !opens_websocket(#[trigger] later[i], handle),
    ensures
        !registry.after_action(IOAction::WebSocketClose(handle)).has_websocket(handle),
        forall|i: int|
            0 <= i < later.len() ==> !delivers_message_on(
                #[trigger] run_outputs(
                    registry.after_action(IOAction::WebSocketClose(handle)),
                    later,
                )[i],
                handle,
            ),
{
    let closed = registry.after_action(IOAction::WebSocketClose(handle));
    lemma_run_outputs_len(closed, later);
    lemma_unregistered_connection_stays_silent(closed, handle, later);
}

/// A run over two sequences of inputs, one after the other, is the run over
/// the first followed by the run over the second from where the first ended.
pub proof fn lemma_run_concat(registry: Registry, first: Seq<Input>, second: Seq<Input>)
    ensures
        run_registry(registry, first + second) == run_registry(
            run_registry(registry, first),
            second,
        ),
        run_outputs(registry, first + second) == run_outputs(registry, first) + run_outputs(
            run_registry(registry, first),
            second,
        ),
    decreases first.len(),
{
    if first.len() == 0 {
        assert(first + second =~= second);
        assert(run_outputs(registry, first) + run_outputs(registry, second) =~= run_outputs(
            registry,
            second,
        ));
    } else {
        let next = step_registry(registry, first[0]);
        assert((first + second)[0] == first[0]);
        assert((first + second).drop_first() =~= first.drop_first() + second);
        lemma_run_concat(next, first.drop_first(), second);
        assert(run_outputs(registry, first + second) =~= run_outputs(registry, first)
            + run_outputs(run_registry(registry, first), second));
    }
}

/// The inbound loop keeps the order of the wire: the messages it reports
/// for a connection carry the payloads of the text frames that arrived
/// before any close frame, each once, unchanged and in the order of arrival.
pub proof fn lemma_messages_follow_wire_order(handle: WSHandle, frames: Seq<Frame>)
    ensures
        received_texts(inbound_events(handle, frames), handle) == wire_texts(frames),
    decreases frames.len(),
{
    if frames.len() > 0 {
        let earlier = frames.drop_last();
        lemma_messages_follow_wire_order(handle, earlier);
        if !has_close_frame(earlier) {
            let before = inbound_events(handle, earlier);
            match inbound_event(handle, frames.last()) {
                Some(event) => {
                    let events = before + seq![event];
                    assert(events.drop_last() =~= before);
                    assert(events.last() == event);
                },
                None => {
                    assert(before + Seq::<IOEvent>::empty() =~= before);
                },
            }
        }
    }
}

/// Nothing is lost between the inbound loop and the protocol: while a
/// connection is registered, every event that its inbound loop reports for
/// the frames it reads reaches the protocol, in the order of the reports,
/// and the connection leaves the registry exactly if a close frame was among
/// the frames.
pub proof fn lemma_registered_connection_hears_its_loop(
    registry: Registry,
    handle: WSHandle,
    frames: Seq<Frame>,
)
    requires
        registry.has_websocket(handle),
    ensures
        run_outputs(registry, reports(inbound_events(handle, frames))) == deliveries(
            inbound_events(handle, frames),
        ),
        run_registry(registry, reports(inbound_events(handle, frames))) == (if has_close_frame(
            frames,
        ) {
            registry.after_report(IOEvent::WebSocketConnectionLost(handle))
        } else {
            registry
        }),
    decreases frames.len(),
{
    let events = inbound_events(handle, frames);
    if frames.len() == 0 {
        assert(reports(events) =~= Seq::<Input>::empty());
        assert(deliveries(events) =~= Seq::<Output>::empty());
    } else {
        let earlier = frames.drop_last();
        let before = inbound_events(handle, earlier);
        lemma_registered_connection_hears_its_loop(registry, handle, earlier);
        lemma_close_frame_extends(frames);
        if !has_close_frame(earlier) {
            let last = optional(inbound_event(handle, frames.last()));
            assert(events == before + last);
            assert(reports(events) =~= reports(before) + reports(last));
            assert(deliveries(events) =~= deliveries(before) + deliveries(last));
            lemma_run_concat(registry, reports(before), reports(last));
            if last.len() > 0 {
                let input = reports(last)[0];
                assert(reports(last).drop_first() =~= Seq::<Input>::empty());
                assert(run_outputs(step_registry(registry, input), reports(last).drop_first())
                    =~= Seq::<Output>::empty());
                assert(run_outputs(registry, reports(last)) =~= deliveries(last));
                assert(run_registry(step_registry(registry, input), reports(last).drop_first())
                    == step_registry(registry, input));
                assert(run_registry(registry, reports(last)) == step_registry(registry, input));
            } else {
                assert(reports(last) =~= Seq::<Input>::empty());
                assert(deliveries(last) =~= Seq::<Output>::empty());
            }
        }
    }
}

/// The inbound loop ends with the loss of the connection: every event that it
/// reports is a message on its connection, except that the last is the loss
/// of the connection if a close frame was among the frames. So the loss is
/// reported at most once, and nothing after it.
pub proof fn lemma_loss_comes_last(handle: WSHandle, frames: Seq<Frame>)
    ensures
        forall|i: int|
            0 <= i < inbound_events(handle, frames).len() - 1 ==> (#[trigger] inbound_events(
                handle,
                frames,
            )[i]).is_message_on(handle),
        has_close_frame(frames) ==> inbound_events(handle, frames).len() > 0 && inbound_events(
            handle,
            frames,
        ).last() == IOEvent::WebSocketConnectionLost(handle),
        !has_close_frame(frames) ==> forall|i: int|
            0 <= i < inbound_events(handle, frames).len() ==> (#[trigger] inbound_events(
                handle,
                frames,
            )[i]).is_message_on(handle),
    decreases frames.len(),
{
    if frames.len() > 0 {
        let earlier = frames.drop_last();
        lemma_loss_comes_last(handle, earlier);
        lemma_close_frame_extends(frames);
        if !has_close_frame(earlier) {
            let before = inbound_events(handle, earlier);
            let events = inbound_events(handle, frames);
            assert(events == before + optional(inbound_event(handle, frames.last())));
            assert forall|i: int| 0 <= i < before.len() implies (#[trigger] events[i]).is_message_on(
                handle,
            ) by {
                assert(events[i] == before[i]);
            }
        }
    } else {
        assert(!has_close_frame(frames));
    }
}

/// A refused action changes nothing: where an action is answered with an
/// error, the registry after it is the registry before it.
pub proof fn lemma_refused_action_changes_nothing(registry: Registry, action: IOAction)
    requires
        registry.action_result(action) is Err,
    ensures
        registry.after_action(action) == registry,
{
    match action {
        IOAction::WebSocketClose(h) => {
            assert(registry.websockets.remove(h.id) =~= registry.websockets);
        },
        _ => {},
    }
}

/// What went out comes back unchanged: a payload put on the outbound queue
/// is written as a text frame, and a peer that echoes that frame makes the
/// inbound loop report one message with the same payload on the same
/// connection, which reaches the protocol as long as the connection is
/// registered.
pub proof fn lemma_echo_round_trip(registry: Registry, handle: WSHandle, text: String)
    requires
        registry.has_websocket(handle),
    ensures
        registry.action_result(IOAction::WebSocketSendMessage(handle, text)) == Ok::<
            Option<IOEffect>,
            IOError,
        >(Some(IOEffect::Enqueue(handle, WSControl::Data(text)))),
        inbound_event(handle, outbound_frame(WSControl::Data(text))) == Some(
            IOEvent::WebSocketMessageReceived(handle, text),
        ),
        registry.report_result(IOEvent::WebSocketMessageReceived(handle, text)) == Some(
            IOEvent::WebSocketMessageReceived(handle, text),
        ),
{
}

} // verus!
