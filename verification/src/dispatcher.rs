//! The action dispatcher: the one owner of the handle registry.

use crate::protocol::{
    IOAction, IOEffect, IOError, IOEvent, Input, Link, Output, TimerHandle, WSControl, WSHandle,
};
use crate::registry::Registry;
use std::collections::HashMap;
use std::collections::HashSet;
use vstd::prelude::*;

verus! {

/// The interface between the protocol and a reactor.
///
/// `process` never waits: it updates the registry and returns the work that
/// the action asks of the runtime, which the caller hands on.
pub trait WormholeIO {
    /// The handles that this reactor holds.
    spec fn registry(&self) -> Registry;

    fn process(&mut self, action: IOAction) -> (result: Result<Option<IOEffect>, IOError>)
        ensures
            final(self).registry() == old(self).registry().after_action(action),
            result == old(self).registry().action_result(action),
    ;
}

/// The reactor's state: which timers are pending and which connections are
/// registered.
pub struct AsyncStdIO {
    timers: HashSet<u64>,
    websockets: HashMap<u64, Link>,
}

impl View for AsyncStdIO {
    type V = Registry;

    closed spec fn view(&self) -> Registry {
        Registry { timers: self.timers@, websockets: self.websockets@ }
    }
}

impl AsyncStdIO {
    /// A reactor without any handle.
    pub fn new() -> (io: AsyncStdIO)
        ensures
            io@ == Registry::empty(),
    {
        AsyncStdIO { timers: HashSet::new(), websockets: HashMap::new() }
    }

    /// Whether the timer is pending.
    pub fn has_timer(&self, handle: TimerHandle) -> (pending: bool)
        ensures
            pending == self@.has_timer(handle),
    {
        self.timers.contains(&handle.id)
    }

    /// Whether the connection is registered.
    pub fn has_websocket(&self, handle: WSHandle) -> (registered: bool)
        ensures
            registered == self@.has_websocket(handle),
    {
        self.websockets.contains_key(&handle.id)
    }

    /// How far the connection has come, if it is registered.
    pub fn link(&self, handle: WSHandle) -> (link: Option<Link>)
        ensures
            link == (if self@.has_websocket(handle) {
                Some(self@.websockets[handle.id])
            } else {
                None
            }),
    {
        match self.websockets.get(&handle.id) {
            Some(link) => Some(*link),
            None => None,
        }
    }

    /// Takes a report of a task of the runtime and returns the event that the
    /// protocol is to see, if any.
    pub fn report(&mut self, event: IOEvent) -> (result: Option<IOEvent>)
        ensures
            final(self)@ == old(self)@.after_report(event),
            result == old(self)@.report_result(event),
    {
        match event {
            IOEvent::TimerExpired(h) => {
                if self.timers.remove(&h.id) {
                    Some(IOEvent::TimerExpired(h))
                } else {
                    None
                }
            },
            IOEvent::WebSocketConnectionMade(h) => {
                let connecting = match self.websockets.get(&h.id) {
                    Some(Link::Connecting) => true,
                    _ => false,
                };
                if connecting {
                    self.websockets.insert(h.id, Link::Established);
                    Some(IOEvent::WebSocketConnectionMade(h))
                } else {
                    None
                }
            },
            IOEvent::WebSocketMessageReceived(h, text) => {
                if self.websockets.contains_key(&h.id) {
                    Some(IOEvent::WebSocketMessageReceived(h, text))
                } else {
                    None
                }
            },
            IOEvent::WebSocketConnectionLost(h) => {
                self.websockets.remove(&h.id);
                Some(IOEvent::WebSocketConnectionLost(h))
            },
        }
    }

    /// Takes back the registration of a connection that could not be
    /// established, and returns the error to surface.
    pub fn connect_failed(&mut self, handle: WSHandle) -> (error: IOError)
        ensures
            final(self)@ == old(self)@.after_connect_failure(handle),
            error == IOError::ConnectFailed(handle),
    {
        self.websockets.remove(&handle.id);
        IOError::ConnectFailed(handle)
    }

    /// Takes the inputs in order and returns the answer to each.
    pub fn run(&mut self, inputs: Vec<Input>) -> (outputs: Vec<Output>)
        ensures
            final(self)@ == crate::trace::run_registry(old(self)@, inputs@),
            outputs@ == crate::trace::run_outputs(old(self)@, inputs@),
    {
        let mut outputs: Vec<Output> = Vec::new();
        let ghost all = inputs@;
        let ghost start = self@;
        proof {
            assert(all.skip(0) =~= all);
            assert(outputs@ + crate::trace::run_outputs(start, all) =~= crate::trace::run_outputs(
                start,
                all,
            ));
        }
        for input in it: inputs.into_iter()
            invariant
                it.seq() == all,
                crate::trace::run_registry(start, all) == crate::trace::run_registry(
                    self@,
                    all.skip(it.index() as int),
                ),
                crate::trace::run_outputs(start, all) == outputs@ + crate::trace::run_outputs(
                    self@,
                    all.skip(it.index() as int),
                ),
        {
            proof {
                let k = it.index() as int;
                assert(all.skip(k)[0] == input);
                assert(all.skip(k).drop_first() =~= all.skip(k + 1));
            }
            let ghost before = outputs@;
            let ghost registry = self@;
            let output = self.step(input);
            outputs.push(output);
            proof {
                let k = it.index() as int;
                assert(outputs@ + crate::trace::run_outputs(self@, all.skip(k + 1)) =~= before
                    + crate::trace::run_outputs(registry, all.skip(k)));
            }
        }
        proof {
            assert(all.skip(all.len() as int) =~= Seq::<Input>::empty());
            assert(outputs@ + Seq::<Output>::empty() =~= outputs@);
        }
        outputs
    }

    /// Takes any input and answers it.
    pub fn step(&mut self, input: Input) -> (output: Output)
        ensures
            final(self)@ == crate::trace::step_registry(old(self)@, input),
            output == crate::trace::step_output(old(self)@, input),
    {
        match input {
            Input::Action(action) => match self.process(action) {
                Ok(Some(effect)) => Output::Effect(effect),
                Ok(None) => Output::Nothing,
                Err(error) => Output::Error(error),
            },
            Input::Report(event) => match self.report(event) {
                Some(event) => Output::Event(event),
                None => Output::Nothing,
            },
            Input::ConnectFailed(handle) => Output::Error(self.connect_failed(handle)),
        }
    }
}

impl WormholeIO for AsyncStdIO {
    open spec fn registry(&self) -> Registry {
        self@
    }

    fn process(&mut self, action: IOAction) -> (result: Result<Option<IOEffect>, IOError>) {
        match action {
            IOAction::StartTimer(h, millis) => {
                self.timers.insert(h.id);
                Ok(Some(IOEffect::Sleep(h, millis)))
            },
            IOAction::CancelTimer(h) => {
                self.timers.remove(&h.id);
                Ok(None)
            },
            IOAction::WebSocketOpen(h, url) => {
                self.websockets.insert(h.id, Link::Connecting);
                Ok(Some(IOEffect::Connect(h, url)))
            },
            IOAction::WebSocketSendMessage(h, text) => {
                if self.websockets.contains_key(&h.id) {
                    Ok(Some(IOEffect::Enqueue(h, WSControl::Data(text))))
                } else {
                    Err(IOError::UnknownHandle(h))
                }
            },
            IOAction::WebSocketClose(h) => {
                if self.websockets.remove(&h.id).is_some() {
                    Ok(Some(IOEffect::Enqueue(h, WSControl::Close)))
                } else {
                    Err(IOError::UnknownHandle(h))
                }
            },
        }
    }
}

} // verus!
