//! The device's service loop, as decisions: what the device does with each
//! thing its socket reports. The caller performs the receive and carries
//! out the action.

use vstd::prelude::*;
use crate::canopen::MotorModes;
use crate::frame::{
    active_data_process, active_mode_proc, modes_from, passive_data_process,
    passive_frame_is_well_formed, passive_response, passive_sends, passive_well_formed,
};

verus! {

/// What a non-blocking receive on the device's socket reported.
#[derive(Debug)]
pub enum LinkEvent {
    /// A datagram arrived; `from_client` tells whether its sender is the
    /// configured client.
    Datagram { payload: Vec<u8>, from_client: bool },
    /// No datagram is waiting.
    Idle,
    /// The receive failed.
    ReceiveError,
}

/// What the device does next.
#[derive(Debug)]
pub enum LinkAction {
    /// Send these bytes to the client, then receive again.
    Send(Vec<u8>),
    /// Receive again.
    Listen,
    /// Pause for a millisecond, then receive again.
    Backoff,
    /// Stop with a failure status: a datagram came from another sender.
    UnexpectedPeer,
    /// Stop: the client sent a frame the device cannot answer.
    Malformed,
}

/// Whether `action` sends exactly `bytes`.
pub open spec fn sends(action: LinkAction, bytes: Seq<u8>) -> bool {
    action matches LinkAction::Send(v) && v@ == bytes
}

/// Decides what to do with `event`: a datagram from the client is answered
/// (an empty one in active mode, with an empty answer; any other as a
/// request frame, whose answer is sent when the frame holds a command);
/// idleness asks for the active mode, which never has anything to send; a
/// failed receive is retried after a pause; a datagram from anyone else
/// stops the device.
pub fn handle_event(event: LinkEvent, modes: &mut MotorModes) -> (action: LinkAction)
    requires
        old(modes).wf(),
    ensures
        final(modes).wf(),
        match event {
            LinkEvent::Datagram { payload, from_client } => {
                if !from_client {
                    action is UnexpectedPeer && final(modes)@ == old(modes)@
                } else if payload@.len() == 0 {
                    sends(action, Seq::<u8>::empty()) && final(modes)@ == old(modes)@
                } else if !passive_well_formed(payload@) {
                    action is Malformed && final(modes)@ == old(modes)@
                } else {
                    &&& final(modes)@ == modes_from(payload@, 1, old(modes)@)
                    &&& if passive_sends(payload@) {
                        sends(action, passive_response(payload@, old(modes)@))
                    } else {
                        action is Listen
                    }
                }
            },
            LinkEvent::Idle => action is Listen && final(modes)@ == old(modes)@,
            LinkEvent::ReceiveError => action is Backoff && final(modes)@ == old(modes)@,
        },
{
    let payload = match event {
        LinkEvent::Datagram { payload, from_client } => {
            if !from_client {
                return LinkAction::UnexpectedPeer;
            }
            payload
        },
        LinkEvent::Idle => {
            if active_mode_proc() {
                Vec::new()
            } else {
                return LinkAction::Listen;
            }
        },
        LinkEvent::ReceiveError => {
            return LinkAction::Backoff;
        },
    };
    let (process_ret, send_data) = if payload.len() == 0 {
        active_data_process()
    } else {
        if !passive_frame_is_well_formed(&payload) {
            return LinkAction::Malformed;
        }
        passive_data_process(payload, modes)
    };
    if process_ret {
        LinkAction::Send(send_data)
    } else {
        LinkAction::Listen
    }
}

} // verus!
