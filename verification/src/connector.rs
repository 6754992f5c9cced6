//! The websocket connector: the two forwarding loops of a connection.
//!
//! The inbound loop turns frames read from the wire into events, the
//! outbound loop turns items of the outbound queue into frames to write.
//! Each ends with the first close it sees. Neither knows the registry.

use crate::protocol::{Frame, IOEvent, WSControl, WSHandle};
use vstd::prelude::*;

verus! {

/// The event that a frame read on a connection stands for.
///
/// A text frame is a received message and a close frame is the loss of the
/// connection. Ping, pong and binary frames stand for nothing: a ping is not
/// answered, and the other two are no part of the protocol.
pub open spec fn inbound_event(handle: WSHandle, frame: Frame) -> Option<IOEvent> {
    match frame {
        Frame::Text(text) => Some(IOEvent::WebSocketMessageReceived(handle, text)),
        Frame::Close => Some(IOEvent::WebSocketConnectionLost(handle)),
        Frame::Ping(_) => None,
        Frame::Pong(_) => None,
        Frame::Binary(_) => None,
    }
}

/// The frame that an item of the outbound queue is written as.
pub open spec fn outbound_frame(control: WSControl) -> Frame {
    match control {
        WSControl::Data(text) => Frame::Text(text),
        WSControl::Close => Frame::Close,
    }
}

/// Whether a close frame is among the frames.
pub open spec fn has_close_frame(frames: Seq<Frame>) -> bool {
    exists|i: int| 0 <= i < frames.len() && frames[i] is Close
}

/// Whether a close request is among the items.
pub open spec fn has_close_request(controls: Seq<WSControl>) -> bool {
    exists|i: int| 0 <= i < controls.len() && controls[i] is Close
}

/// Zero or one value as a sequence.
pub open spec fn optional<T>(item: Option<T>) -> Seq<T> {
    match item {
        Some(value) => seq![value],
        None => Seq::empty(),
    }
}

/// The events that the inbound loop of a connection produces for the frames
/// it reads, in order: each frame gives its event, unless a close frame came
/// before it.
pub open spec fn inbound_events(handle: WSHandle, frames: Seq<Frame>) -> Seq<IOEvent>
    decreases frames.len(),
{
    if frames.len() == 0 {
        Seq::empty()
    } else if has_close_frame(frames.drop_last()) {
        inbound_events(handle, frames.drop_last())
    } else {
        inbound_events(handle, frames.drop_last()) + optional(inbound_event(handle, frames.last()))
    }
}

/// The frames that the outbound loop of a connection writes for the items it
/// takes from its queue, in order: each item gives its frame, unless a close
/// request came before it.
pub open spec fn outbound_frames(controls: Seq<WSControl>) -> Seq<Frame>
    decreases controls.len(),
{
    if controls.len() == 0 {
        Seq::empty()
    } else if has_close_request(controls.drop_last()) {
        outbound_frames(controls.drop_last())
    } else {
        outbound_frames(controls.drop_last()).push(outbound_frame(controls.last()))
    }
}

/// Translates one frame read on a connection.
pub fn translate_inbound(handle: WSHandle, frame: Frame) -> (event: Option<IOEvent>)
    ensures
        event == inbound_event(handle, frame),
{
    match frame {
        Frame::Text(text) => Some(IOEvent::WebSocketMessageReceived(handle, text)),
        Frame::Close => Some(IOEvent::WebSocketConnectionLost(handle)),
        Frame::Ping(_) => None,
        Frame::Pong(_) => None,
        Frame::Binary(_) => None,
    }
}

/// Translates one item of an outbound queue.
pub fn translate_outbound(control: WSControl) -> (frame: Frame)
    ensures
        frame == outbound_frame(control),
{
    match control {
        WSControl::Data(text) => Frame::Text(text),
        WSControl::Close => Frame::Close,
    }
}

/// The inbound loop of one connection.
pub struct InboundLoop {
    pub handle: WSHandle,
    /// Set once a close frame was read. Nothing is translated after that.
    pub finished: bool,
}

impl InboundLoop {
    /// The loop of a connection that was just made.
    pub fn new(handle: WSHandle) -> (inbound: InboundLoop)
        ensures
            inbound.handle == handle,
            !inbound.finished,
    {
        InboundLoop { handle, finished: false }
    }

    /// Takes the next frame read from the wire and returns the event to
    /// report, if any.
    pub fn on_frame(&mut self, frame: Frame) -> (event: Option<IOEvent>)
        ensures
            final(self).handle == old(self).handle,
            final(self).finished == (old(self).finished || frame is Close),
            event == (if old(self).finished {
                None
            } else {
                inbound_event(old(self).handle, frame)
            }),
    {
        if self.finished {
            None
        } else {
            match frame {
                Frame::Close => {
                    self.finished = true;
                    Some(IOEvent::WebSocketConnectionLost(self.handle))
                },
                other => translate_inbound(self.handle, other),
            }
        }
    }

    /// Runs a fresh loop over the frames and returns what it reports.
    pub fn run(handle: WSHandle, frames: Vec<Frame>) -> (events: Vec<IOEvent>)
        ensures
            events@ == inbound_events(handle, frames@),
    {
        let mut inbound = InboundLoop::new(handle);
        let mut events: Vec<IOEvent> = Vec::new();
        let ghost all = frames@;
        for frame in it: frames.into_iter()
            invariant
                it.seq() == all,
                inbound.handle == handle,
                inbound.finished == has_close_frame(all.take(it.index() as int)),
                events@ == inbound_events(handle, all.take(it.index() as int)),
        {
            proof {
                let k = it.index() as int;
                assert(all.take(k + 1).drop_last() =~= all.take(k));
                assert(all.take(k + 1).last() == frame);
                lemma_close_frame_extends(all.take(k + 1));
            }
            match inbound.on_frame(frame) {
                Some(event) => events.push(event),
                None => {},
            }
        }
        proof {
            assert(all.take(all.len() as int) =~= all);
        }
        events
    }
}

/// The outbound loop of one connection.
pub struct OutboundLoop {
    /// Set once a close request was written. Nothing is written after that.
    pub finished: bool,
}

impl OutboundLoop {
    /// The loop of a connection that was just made.
    pub fn new() -> (outbound: OutboundLoop)
        ensures
            !outbound.finished,
    {
        OutboundLoop { finished: false }
    }

    /// Takes the next item of the queue and returns the frame to write, if
    /// any.
    pub fn on_control(&mut self, control: WSControl) -> (frame: Option<Frame>)
        ensures
            final(self).finished == (old(self).finished || control is Close),
            frame == (if old(self).finished {
                None
            } else {
                Some(outbound_frame(control))
            }),
    {
        if self.finished {
            None
        } else {
            match control {
                WSControl::Close => {
                    self.finished = true;
                    Some(Frame::Close)
                },
                other => Some(translate_outbound(other)),
            }
        }
    }

    /// Runs a fresh loop over the items and returns what it writes.
    pub fn run(controls: Vec<WSControl>) -> (frames: Vec<Frame>)
        ensures
            frames@ == outbound_frames(controls@),
    {
        let mut outbound = OutboundLoop::new();
        let mut frames: Vec<Frame> = Vec::new();
        let ghost all = controls@;
        for control in it: controls.into_iter()
            invariant
                it.seq() == all,
                outbound.finished == has_close_request(all.take(it.index() as int)),
                frames@ == outbound_frames(all.take(it.index() as int)),
        {
            proof {
                let k = it.index() as int;
                assert(all.take(k + 1).drop_last() =~= all.take(k));
                assert(all.take(k + 1).last() == control);
                lemma_close_request_extends(all.take(k + 1));
            }
            match outbound.on_control(control) {
                Some(frame) => frames.push(frame),
                None => {},
            }
        }
        proof {
            assert(all.take(all.len() as int) =~= all);
        }
        frames
    }
}

/// A close frame is among the frames exactly if it is the last of them or
/// among those before it.
pub proof fn lemma_close_frame_extends(frames: Seq<Frame>)
    requires
        frames.len() > 0,
    ensures
        has_close_frame(frames) == (has_close_frame(frames.drop_last()) || frames.last() is Close),
{
    let earlier = frames.drop_last();
    if has_close_frame(frames) {
        let i = choose|i: int| 0 <= i < frames.len() && frames[i] is Close;
        if i < frames.len() - 1 {
            assert(earlier[i] is Close);
        }
    }
    if has_close_frame(earlier) {
        let i = choose|i: int| 0 <= i < earlier.len() && earlier[i] is Close;
        assert(frames[i] is Close);
    }
    if frames.last() is Close {
        assert(frames[frames.len() - 1] is Close);
    }
}

/// A close request is among the items exactly if it is the last of them or
/// among those before it.
pub proof fn lemma_close_request_extends(controls: Seq<WSControl>)
    requires
        controls.len() > 0,
    ensures
        has_close_request(controls) == (has_close_request(controls.drop_last())
            || controls.last() is Close),
{
    let earlier = controls.drop_last();
    if has_close_request(controls) {
        let i = choose|i: int| 0 <= i < controls.len() && controls[i] is Close;
        if i < controls.len() - 1 {
            assert(earlier[i] is Close);
        }
    }
    if has_close_request(earlier) {
        let i = choose|i: int| 0 <= i < earlier.len() && earlier[i] is Close;
        assert(controls[i] is Close);
    }
    if controls.last() is Close {
        assert(controls[controls.len() - 1] is Close);
    }
}

} // verus!
