//! The state of the whole program, and what the user's actions do to it.
//!
//! Numbers that are only shown, or only handed from a slider to the sync
//! controller, are kept as the bits of the floating-point number they are.

use vstd::prelude::*;

use crate::net::receiver::ReceiverReport;
use crate::net::sender::SenderReport;
use crate::state::shared::DiscoveredSender;

verus! {

/// The bits of 50.0 in single precision: the buffer delay at the start, in ms.
pub const DEFAULT_TARGET_DELAY_BITS: u32 = 0x4248_0000;

/// The bits of 1.0 in single precision: full volume.
pub const FULL_VOLUME_BITS: u32 = 0x3f80_0000;

/// Whether this machine sends or receives.
#[derive(Debug, Clone, Copy, PartialEq, Eq, Structural)]
pub enum AppMode {
    Sender,
    Receiver,
}

impl AppMode {
    /// The mode that the command line asks for.
    pub fn from_flag(sender: bool) -> (mode: Self)
        ensures
            mode == (if sender {
                AppMode::Sender
            } else {
                AppMode::Receiver
            }),
    {
        if sender {
            AppMode::Sender
        } else {
            AppMode::Receiver
        }
    }
}

impl Default for AppMode {
    fn default() -> (mode: Self)
        ensures
            mode == AppMode::Receiver,
    {
        AppMode::Receiver
    }
}

/// The sender's side.
#[derive(Debug, Clone)]
pub struct SenderState {
    pub available_input_devices: Vec<String>,
    pub available_output_devices: Vec<String>,
    pub selected_input_device: String,
    pub is_streaming: bool,
    pub packets_sent: u64,
    pub bytes_sent: u64,
    /// The loudest sample of the last report, out of 32768.
    pub peak: u16,
    pub receiver_count: usize,
}

impl SenderState {
    /// As at the start of the program: no devices known, nothing sent.
    pub open spec fn initial(&self) -> bool {
        &&& self.available_input_devices@.len() == 0
        &&& self.available_output_devices@.len() == 0
        &&& self.selected_input_device@.len() == 0
        &&& !self.is_streaming
        &&& self.packets_sent == 0
        &&& self.bytes_sent == 0
        &&& self.peak == 0
        &&& self.receiver_count == 0
    }
}

impl Default for SenderState {
    fn default() -> (state: Self)
        ensures
            state.initial(),
    {
        SenderState {
            available_input_devices: Vec::new(),
            available_output_devices: Vec::new(),
            selected_input_device: String::new(),
            is_streaming: false,
            packets_sent: 0,
            bytes_sent: 0,
            peak: 0,
            receiver_count: 0,
        }
    }
}

/// The receiver's side.
#[derive(Debug, Clone)]
pub struct ReceiverState {
    pub discovered_senders: Vec<DiscoveredSender>,
    /// The sender that is selected, and connected to if `is_connected`.
    pub connected_sender: Option<DiscoveredSender>,
    pub is_connected: bool,
    pub packets_received: u64,
    pub packets_lost: u64,
    /// The delay that the user wants, in ms, as the bits of a float.
    pub target_delay_bits: u32,
    /// The volume, as the bits of a float.
    pub volume_bits: u32,
    /// How much faster than normal playback runs, as the bits of a float.
    pub speed_adjust_bits: u32,
    /// How many samples the jitter buffer holds.
    pub buffer_fill: usize,
    /// The loudest sample of the last report, out of 32768.
    pub peak: u16,
    pub underruns: u64,
    pub available_output_devices: Vec<String>,
    pub selected_output_device: String,
}

impl ReceiverState {
    /// As at the start of the program: no sender known, nothing received.
    pub open spec fn initial(&self) -> bool {
        &&& self.discovered_senders@.len() == 0
        &&& self.connected_sender is None
        &&& !self.is_connected
        &&& self.packets_received == 0
        &&& self.packets_lost == 0
        &&& self.target_delay_bits == DEFAULT_TARGET_DELAY_BITS
        &&& self.volume_bits == FULL_VOLUME_BITS
        &&& self.speed_adjust_bits == 0
        &&& self.buffer_fill == 0
        &&& self.peak == 0
        &&& self.underruns == 0
        &&& self.available_output_devices@.len() == 0
        &&& self.selected_output_device@.len() == 0
    }
}

impl Default for ReceiverState {
    fn default() -> (state: Self)
        ensures
            state.initial(),
    {
        ReceiverState {
            discovered_senders: Vec::new(),
            connected_sender: None,
            is_connected: false,
            packets_received: 0,
            packets_lost: 0,
            target_delay_bits: DEFAULT_TARGET_DELAY_BITS,
            volume_bits: FULL_VOLUME_BITS,
            speed_adjust_bits: 0,
            buffer_fill: 0,
            peak: 0,
            underruns: 0,
            available_output_devices: Vec::new(),
            selected_output_device: String::new(),
        }
    }
}

impl SenderState {
    /// Streaming can be started: it is off, and a device is selected.
    pub fn can_start(&self) -> (r: bool)
        ensures
            r == (!self.is_streaming && self.selected_input_device@.len() > 0),
    {
        !self.is_streaming && !self.selected_input_device.as_str().is_empty()
    }

    /// Show the statistics of the running sender.
    pub fn show(&mut self, report: SenderReport)
        ensures
            *final(self) == (SenderState {
                packets_sent: report.packets_sent,
                bytes_sent: report.bytes_sent,
                receiver_count: report.receiver_count,
                peak: report.peak,
                ..*old(self)
            }),
    {
        self.packets_sent = report.packets_sent;
        self.bytes_sent = report.bytes_sent;
        self.receiver_count = report.receiver_count;
        self.peak = report.peak;
    }

    /// The sender failed to start, or has come to its end.
    pub fn ended(&mut self)
        ensures
            *final(self) == (SenderState { is_streaming: false, ..*old(self) }),
    {
        self.is_streaming = false;
    }
}

impl ReceiverState {
    /// The sender at place `i` of the list is the selected one.
    pub open spec fn selects(&self, i: int) -> bool {
        self.connected_sender is Some && crate::net::discovery::same_place(
            self.connected_sender->Some_0@,
            self.discovered_senders@[i]@,
        )
    }

    /// Whether the sender at place `i` of the list is the selected one.
    pub fn is_selected(&self, i: usize) -> (r: bool)
        requires
            i < self.discovered_senders@.len(),
        ensures
            r == self.selects(i as int),
    {
        match &self.connected_sender {
            Some(sender) => sender.host == self.discovered_senders[i].host && sender.port
                == self.discovered_senders[i].port,
            None => false,
        }
    }

    /// Select the sender at place `i` of the list.
    pub fn select(&mut self, i: usize)
        requires
            i < old(self).discovered_senders@.len(),
        ensures
            old(self).selects(i as int) ==> *final(self) == *old(self),
            !old(self).selects(i as int) ==> {
                &&& final(self).connected_sender is Some
                &&& final(self).connected_sender->Some_0@ == old(self).discovered_senders@[i as int]@
                &&& *final(self) == (ReceiverState {
                    connected_sender: final(self).connected_sender,
                    ..*old(self)
                })
            },
            final(self).selects(i as int),
    {
        if !self.is_selected(i) {
            let sender = self.discovered_senders[i].clone();
            self.connected_sender = Some(sender);
        }
    }

    /// A connection can be made: there is none, and a sender is selected.
    pub fn can_connect(&self) -> (r: bool)
        ensures
            r == (!self.is_connected && self.connected_sender is Some),
    {
        !self.is_connected && self.connected_sender.is_some()
    }

    /// Show the statistics of the running receiver.
    pub fn show(&mut self, report: ReceiverReport)
        ensures
            *final(self) == (ReceiverState {
                packets_received: report.packets_received,
                packets_lost: report.packets_lost,
                buffer_fill: report.buffer_fill,
                underruns: report.underruns,
                peak: report.peak,
                ..*old(self)
            }),
    {
        self.packets_received = report.packets_received;
        self.packets_lost = report.packets_lost;
        self.buffer_fill = report.buffer_fill;
        self.underruns = report.underruns;
        self.peak = report.peak;
    }

    /// The receiver failed to start, or has come to its end.
    pub fn ended(&mut self)
        ensures
            *final(self) == (ReceiverState { is_connected: false, ..*old(self) }),
    {
        self.is_connected = false;
    }

    /// The packets that were lost out of all, if there were any.
    pub fn loss(&self) -> (r: Option<(u64, u128)>)
        ensures
            r == (if self.packets_received + self.packets_lost == 0 {
                None
            } else {
                Some((self.packets_lost, (self.packets_received + self.packets_lost) as u128))
            }),
    {
        let total: u128 = self.packets_received as u128 + self.packets_lost as u128;
        if total == 0 {
            None
        } else {
            Some((self.packets_lost, total))
        }
    }
}

/// The state of the program. `S` and `R` are what a running sender and a running
/// receiver are held by.
pub struct AppState<S, R> {
    pub mode: AppMode,
    pub sender: SenderState,
    pub receiver: ReceiverState,
    pub sender_threads: Option<S>,
    pub receiver_threads: Option<R>,
}

impl<S, R> AppState<S, R> {
    /// Nothing runs: neither side, and no threads are held.
    pub open spec fn idle(&self) -> bool {
        &&& !self.sender.is_streaming
        &&& !self.receiver.is_connected
        &&& self.sender_threads is None
        &&& self.receiver_threads is None
    }

    pub fn new(mode: AppMode) -> (app: Self)
        ensures
            app.mode == mode,
            app.idle(),
            app.sender.initial(),
            app.receiver.initial(),
    {
        AppState {
            mode,
            sender: SenderState::default(),
            receiver: ReceiverState::default(),
            sender_threads: None,
            receiver_threads: None,
        }
    }

    /// Preselect the devices that the command line names.
    pub fn preselect(&mut self, input_device: Option<String>, output_device: Option<String>)
        ensures
            *final(self) == (AppState {
                sender: SenderState {
                    selected_input_device: match input_device {
                        Some(name) => name,
                        None => old(self).sender.selected_input_device,
                    },
                    ..old(self).sender
                },
                receiver: ReceiverState {
                    selected_output_device: match output_device {
                        Some(name) => name,
                        None => old(self).receiver.selected_output_device,
                    },
                    ..old(self).receiver
                },
                ..*old(self)
            }),
    {
        if let Some(name) = input_device {
            self.sender.selected_input_device = name;
        }
        if let Some(name) = output_device {
            self.receiver.selected_output_device = name;
        }
    }

    /// The sender was started.
    pub fn sender_started(&mut self, threads: S)
        ensures
            *final(self) == (AppState {
                sender: SenderState {
                    is_streaming: true,
                    packets_sent: 0,
                    bytes_sent: 0,
                    ..old(self).sender
                },
                sender_threads: Some(threads),
                ..*old(self)
            }),
    {
        self.sender.is_streaming = true;
        self.sender.packets_sent = 0;
        self.sender.bytes_sent = 0;
        self.sender_threads = Some(threads);
    }

    /// Stop the sender. Returns what it was held by, to be told to stop.
    pub fn stop_sender(&mut self) -> (threads: Option<S>)
        ensures
            threads == old(self).sender_threads,
            *final(self) == (AppState {
                sender: SenderState { is_streaming: false, ..old(self).sender },
                sender_threads: None,
                ..*old(self)
            }),
    {
        let threads: Option<S> = self.sender_threads.take();
        self.sender.is_streaming = false;
        threads
    }

    /// The receiver was started, with `sender`.
    pub fn receiver_started(&mut self, sender: DiscoveredSender, threads: R)
        ensures
            *final(self) == (AppState {
                receiver: ReceiverState {
                    is_connected: true,
                    connected_sender: Some(sender),
                    packets_received: 0,
                    packets_lost: 0,
                    underruns: 0,
                    ..old(self).receiver
                },
                receiver_threads: Some(threads),
                ..*old(self)
            }),
    {
        self.receiver.is_connected = true;
        self.receiver.connected_sender = Some(sender);
        self.receiver.packets_received = 0;
        self.receiver.packets_lost = 0;
        self.receiver.underruns = 0;
        self.receiver_threads = Some(threads);
    }

    /// Stop the receiver. Returns what it was held by, to be told to stop.
    pub fn stop_receiver(&mut self) -> (threads: Option<R>)
        ensures
            threads == old(self).receiver_threads,
            *final(self) == (AppState {
                receiver: ReceiverState {
                    is_connected: false,
                    connected_sender: None,
                    ..old(self).receiver
                },
                receiver_threads: None,
                ..*old(self)
            }),
    {
        let threads: Option<R> = self.receiver_threads.take();
        self.receiver.is_connected = false;
        self.receiver.connected_sender = None;
        threads
    }

    /// Switch to another mode, which stops whatever runs. Returns what it was
    /// held by, to be told to stop.
    pub fn switch_mode(&mut self, mode: AppMode) -> (threads: (Option<S>, Option<R>))
        ensures
            mode == old(self).mode ==> *final(self) == *old(self) && threads == (
                None::<S>,
                None::<R>,
            ),
            mode != old(self).mode ==> {
                &&& threads == (old(self).sender_threads, old(self).receiver_threads)
                &&& final(self).idle()
                &&& *final(self) == (AppState::<S, R> {
                    mode,
                    sender: SenderState { is_streaming: false, ..old(self).sender },
                    receiver: ReceiverState {
                        is_connected: false,
                        connected_sender: None,
                        ..old(self).receiver
                    },
                    sender_threads: None,
                    receiver_threads: None,
                })
            },
    {
        if self.mode == mode {
            (None, None)
        } else {
            self.mode = mode;
            let sender: Option<S> = self.stop_sender();
            let receiver: Option<R> = self.stop_receiver();
            (sender, receiver)
        }
    }

    /// The program ends: returns what still runs, to be told to stop.
    pub fn shut_down(&mut self) -> (threads: (Option<S>, Option<R>))
        ensures
            threads == (old(self).sender_threads, old(self).receiver_threads),
            *final(self) == (AppState {
                sender_threads: None,
                receiver_threads: None,
                ..*old(self)
            }),
    {
        (self.sender_threads.take(), self.receiver_threads.take())
    }
}

/// A sender in the list is the selected one exactly if it has the host and the
/// port of the selected one.
pub proof fn law_selected_by_address(state: ReceiverState, i: int)
    requires
        0 <= i < state.discovered_senders@.len(),
    ensures
        state.connected_sender is None ==> !state.selects(i),
        state.connected_sender is Some ==> (state.selects(i) <==> {
            &&& state.connected_sender->Some_0.host@ == state.discovered_senders@[i].host@
            &&& state.connected_sender->Some_0.port == state.discovered_senders@[i].port
        }),
{
}

/// The program starts with nothing known, selected, running or counted, at a delay
/// of 50 ms and full volume.
pub proof fn law_program_starts_empty(sender: SenderState, receiver: ReceiverState)
    ensures
        sender.initial() <==> {
            &&& sender.available_input_devices@.len() == 0
            &&& sender.available_output_devices@.len() == 0
            &&& sender.selected_input_device@.len() == 0
            &&& sender.packets_sent == 0 && sender.bytes_sent == 0
            &&& sender.peak == 0 && sender.receiver_count == 0
            &&& !sender.is_streaming
        },
        receiver.initial() <==> {
            &&& receiver.discovered_senders@.len() == 0
            &&& receiver.available_output_devices@.len() == 0
            &&& receiver.selected_output_device@.len() == 0
            &&& receiver.connected_sender is None && !receiver.is_connected
            &&& receiver.packets_received == 0 && receiver.packets_lost == 0
            &&& receiver.buffer_fill == 0 && receiver.peak == 0 && receiver.underruns == 0
            &&& receiver.target_delay_bits == 0x4248_0000
            &&& receiver.volume_bits == 0x3f80_0000
            &&& receiver.speed_adjust_bits == 0
        },
{
}

/// An idle program has neither a side that runs nor threads.
pub proof fn law_idle_means_nothing_runs<S, R>(app: AppState<S, R>)
    ensures
        app.idle() <==> {
            &&& !app.sender.is_streaming && app.sender_threads is None
            &&& !app.receiver.is_connected && app.receiver_threads is None
        },
{
}

} // verus!
