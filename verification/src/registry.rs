//! The handle registry as a mathematical value, and the rules by which
//! actions and reports change it.

use crate::protocol::{IOAction, IOEffect, IOError, IOEvent, Link, TimerHandle, WSControl, WSHandle};
use vstd::prelude::*;

verus! {

/// The live handles: the timers that are pending, and for each registered
/// connection how far it has come.
pub struct Registry {
    pub timers: Set<u64>,
    pub websockets: Map<u64, Link>,
}

impl Registry {
    /// The registry without any handle.
    pub open spec fn empty() -> Registry {
        Registry { timers: Set::empty(), websockets: Map::empty() }
    }

    pub open spec fn has_timer(self, handle: TimerHandle) -> bool {
        self.timers.contains(handle.id)
    }

    pub open spec fn has_websocket(self, handle: WSHandle) -> bool {
        self.websockets.contains_key(handle.id)
    }

    /// Whether the connection is registered and still being established.
    pub open spec fn is_connecting(self, handle: WSHandle) -> bool {
        self.has_websocket(handle) && self.websockets[handle.id] == Link::Connecting
    }

    /// The registry after an action of the protocol.
    ///
    /// Starting a timer and opening a connection register the handle, and a
    /// handle that is registered already stays registered once. Cancelling
    /// and closing remove it. Sending changes nothing.
    pub open spec fn after_action(self, action: IOAction) -> Registry {
        match action {
            IOAction::StartTimer(h, _) => Registry { timers: self.timers.insert(h.id), ..self },
            IOAction::CancelTimer(h) => Registry { timers: self.timers.remove(h.id), ..self },
            IOAction::WebSocketOpen(h, _) => Registry {
                websockets: self.websockets.insert(h.id, Link::Connecting),
                ..self
            },
            IOAction::WebSocketSendMessage(_, _) => self,
            IOAction::WebSocketClose(h) => Registry {
                websockets: self.websockets.remove(h.id),
                ..self
            },
        }
    }

    /// What an action asks of the runtime, or the error that refuses it.
    ///
    /// Sending and closing are refused if and only if the connection is not
    /// registered. A send is accepted from the moment the connection is
    /// opened: until the connection is made the payload waits in the
    /// outbound queue.
    pub open spec fn action_result(self, action: IOAction) -> Result<Option<IOEffect>, IOError> {
        match action {
            IOAction::StartTimer(h, millis) => Ok(Some(IOEffect::Sleep(h, millis))),
            IOAction::CancelTimer(_) => Ok(None),
            IOAction::WebSocketOpen(h, url) => Ok(Some(IOEffect::Connect(h, url))),
            IOAction::WebSocketSendMessage(h, text) => if self.has_websocket(h) {
                Ok(Some(IOEffect::Enqueue(h, WSControl::Data(text))))
            } else {
                Err(IOError::UnknownHandle(h))
            },
            IOAction::WebSocketClose(h) => if self.has_websocket(h) {
                Ok(Some(IOEffect::Enqueue(h, WSControl::Close)))
            } else {
                Err(IOError::UnknownHandle(h))
            },
        }
    }

    /// The registry after a task of the runtime has reported an event.
    ///
    /// An expired timer and a lost connection leave the registry. A
    /// connection that was being established becomes established.
    pub open spec fn after_report(self, event: IOEvent) -> Registry {
        match event {
            IOEvent::TimerExpired(h) => Registry { timers: self.timers.remove(h.id), ..self },
            IOEvent::WebSocketConnectionMade(h) => if self.is_connecting(h) {
                Registry { websockets: self.websockets.insert(h.id, Link::Established), ..self }
            } else {
                self
            },
            IOEvent::WebSocketMessageReceived(_, _) => self,
            IOEvent::WebSocketConnectionLost(h) => Registry {
                websockets: self.websockets.remove(h.id),
                ..self
            },
        }
    }

    /// Whether a reported event reaches the protocol.
    ///
    /// A timer's expiry does if the timer is still pending. That a connection
    /// was made does if the connection is registered and was not reported as
    /// made before. A message does if its connection is registered. The loss
    /// of a connection always does: it is the last word on a handle.
    pub open spec fn passes(self, event: IOEvent) -> bool {
        match event {
            IOEvent::TimerExpired(h) => self.has_timer(h),
            IOEvent::WebSocketConnectionMade(h) => self.is_connecting(h),
            IOEvent::WebSocketMessageReceived(h, _) => self.has_websocket(h),
            IOEvent::WebSocketConnectionLost(_) => true,
        }
    }

    /// The event that the protocol sees for a report, if any: the reported
    /// event itself where it passes.
    pub open spec fn report_result(self, event: IOEvent) -> Option<IOEvent> {
        if self.passes(event) {
            Some(event)
        } else {
            None
        }
    }

    /// The registry after the connection of the handle could not be
    /// established: the registration is taken back.
    pub open spec fn after_connect_failure(self, handle: WSHandle) -> Registry {
        Registry { websockets: self.websockets.remove(handle.id), ..self }
    }
}

} // verus!
