//! What the buttons of the window ask for.

use vstd::prelude::*;

use crate::state::app::{ReceiverState, SenderState};
use crate::state::shared::DiscoveredSender;

verus! {

/// What the user asks of the sender.
#[derive(Debug)]
pub enum SenderAction {
    /// Stream from the input device of this name.
    Start(String),
    Stop,
}

/// What the user asks of the receiver.
#[derive(Debug)]
pub enum ReceiverAction {
    /// Connect to this sender and play on the output device of this name.
    Connect(DiscoveredSender, String),
    Disconnect,
}

impl SenderState {
    /// What a click on the start button, the stop button or both asks for. A
    /// button that makes no sense now does nothing.
    pub fn action(&self, start_clicked: bool, stop_clicked: bool) -> (action: Option<SenderAction>)
        ensures
            match action {
                Some(SenderAction::Stop) => stop_clicked && self.is_streaming,
                Some(SenderAction::Start(input)) => {
                    &&& !(stop_clicked && self.is_streaming)
                    &&& start_clicked && !self.is_streaming
                    &&& self.selected_input_device@.len() > 0
                    &&& input@ == self.selected_input_device@
                },
                None => {
                    &&& !(stop_clicked && self.is_streaming)
                    &&& !(start_clicked && !self.is_streaming && self.selected_input_device@.len()
                        > 0)
                },
            },
    {
        if stop_clicked && self.is_streaming {
            Some(SenderAction::Stop)
        } else if start_clicked && self.can_start() {
            Some(SenderAction::Start(self.selected_input_device.clone()))
        } else {
            None
        }
    }
}

impl ReceiverState {
    /// What a click on the connect button, the disconnect button or both asks
    /// for. A button that makes no sense now does nothing.
    pub fn action(&self, connect_clicked: bool, disconnect_clicked: bool) -> (action:
        Option<ReceiverAction>)
        ensures
            match action {
                Some(ReceiverAction::Disconnect) => disconnect_clicked && self.is_connected,
                Some(ReceiverAction::Connect(sender, output)) => {
                    &&& !(disconnect_clicked && self.is_connected)
                    &&& connect_clicked && !self.is_connected
                    &&& self.connected_sender is Some
                    &&& sender@ == self.connected_sender->Some_0@
                    &&& output@ == self.selected_output_device@
                },
                None => {
                    &&& !(disconnect_clicked && self.is_connected)
                    &&& !(connect_clicked && !self.is_connected && self.connected_sender is Some)
                },
            },
    {
        if disconnect_clicked && self.is_connected {
            return Some(ReceiverAction::Disconnect);
        }
        if connect_clicked && self.can_connect() {
            if let Some(sender) = &self.connected_sender {
                return Some(
                    ReceiverAction::Connect(sender.clone(), self.selected_output_device.clone()),
                );
            }
        }
        None
    }
}

} // verus!
