use syncplay::net::receiver::ReceiverReport;
use syncplay::net::sender::SenderReport;
use syncplay::state::app::{
    AppMode, AppState, ReceiverState, SenderState, DEFAULT_TARGET_DELAY_BITS, FULL_VOLUME_BITS,
};
use syncplay::state::shared::{
    DiscoveredSender, SharedRatio, AUDIO_PORT, CHANNELS, CONTROL_PORT, DEFAULT_PLAYOUT_DELAY_MS,
    SAMPLE_RATE,
};
use syncplay::ui::{ReceiverAction, SenderAction};

fn sender(name: &str, host: &str) -> DiscoveredSender {
    DiscoveredSender {
        name: name.to_string(),
        host: host.to_string(),
        port: 12345,
        sample_rate: 48000,
        channels: 2,
    }
}

#[test]
fn constants_of_the_stream() {
    assert_eq!(SAMPLE_RATE, 48_000);
    assert_eq!(CHANNELS, 2);
    assert_eq!(AUDIO_PORT, 12345);
    assert_eq!(CONTROL_PORT, 12346);
    assert_eq!(DEFAULT_PLAYOUT_DELAY_MS, 200);
}

#[test]
fn ratio_is_kept() {
    let mut ratio = SharedRatio::new(1.0f64.to_bits());
    assert_eq!(f64::from_bits(ratio.get()), 1.0);
    ratio.set(1.002f64.to_bits());
    assert_eq!(f64::from_bits(ratio.get()), 1.002);
}

#[test]
fn program_starts_idle() {
    let app: AppState<u8, u16> = AppState::new(AppMode::from_flag(true));
    assert_eq!(app.mode, AppMode::Sender);
    assert_eq!(AppMode::from_flag(false), AppMode::Receiver);
    assert_eq!(AppMode::default(), AppMode::Receiver);
    assert!(!app.sender.is_streaming);
    assert!(!app.receiver.is_connected);
    assert!(app.sender_threads.is_none());
    assert!(app.receiver_threads.is_none());
    assert!(app.receiver.connected_sender.is_none());
    assert!(app.receiver.discovered_senders.is_empty());
}

#[test]
fn sliders_start_at_50_ms_and_full_volume() {
    let receiver = ReceiverState::default();
    assert_eq!(f32::from_bits(receiver.target_delay_bits), 50.0);
    assert_eq!(f32::from_bits(receiver.volume_bits), 1.0);
    assert_eq!(f32::from_bits(receiver.speed_adjust_bits), 0.0);
    assert_eq!(DEFAULT_TARGET_DELAY_BITS, 50.0f32.to_bits());
    assert_eq!(FULL_VOLUME_BITS, 1.0f32.to_bits());
}

#[test]
fn devices_are_preselected() {
    let mut app: AppState<u8, u16> = AppState::new(AppMode::Receiver);
    app.preselect(Some("mic".to_string()), None);
    assert_eq!(app.sender.selected_input_device, "mic");
    assert_eq!(app.receiver.selected_output_device, "");
    app.preselect(None, Some("speakers".to_string()));
    assert_eq!(app.sender.selected_input_device, "mic");
    assert_eq!(app.receiver.selected_output_device, "speakers");
}

#[test]
fn streaming_needs_a_device() {
    let mut state = SenderState::default();
    assert!(!state.can_start());
    assert!(state.action(true, false).is_none());
    state.selected_input_device = "mic".to_string();
    assert!(state.can_start());
    assert!(matches!(state.action(true, false), Some(SenderAction::Start(name)) if name == "mic"));
    assert!(state.action(false, true).is_none());
    assert!(state.action(false, false).is_none());
    state.is_streaming = true;
    assert!(!state.can_start());
    assert!(state.action(true, false).is_none());
    assert!(matches!(state.action(true, true), Some(SenderAction::Stop)));
}

#[test]
fn connecting_needs_a_sender() {
    let mut state = ReceiverState::default();
    assert!(!state.can_connect());
    assert!(state.action(true, false).is_none());
    state.connected_sender = Some(sender("a", "h"));
    state.selected_output_device = "speakers".to_string();
    assert!(state.can_connect());
    match state.action(true, false) {
        Some(ReceiverAction::Connect(to, output)) => {
            assert_eq!(to.host, "h");
            assert_eq!(output, "speakers");
        }
        _ => panic!("no connection asked for"),
    }
    assert!(state.action(false, true).is_none());
    state.is_connected = true;
    assert!(state.action(true, false).is_none());
    assert!(matches!(state.action(false, true), Some(ReceiverAction::Disconnect)));
}

#[test]
fn sender_is_started_and_stopped() {
    let mut app: AppState<u8, u16> = AppState::new(AppMode::Sender);
    app.sender.packets_sent = 9;
    app.sender.bytes_sent = 9;
    app.sender_started(7);
    assert!(app.sender.is_streaming);
    assert_eq!(app.sender.packets_sent, 0);
    assert_eq!(app.sender.bytes_sent, 0);
    assert_eq!(app.stop_sender(), Some(7));
    assert!(!app.sender.is_streaming);
    assert_eq!(app.stop_sender(), None);
}

#[test]
fn receiver_is_started_and_stopped() {
    let mut app: AppState<u8, u16> = AppState::new(AppMode::Receiver);
    app.receiver.packets_lost = 5;
    app.receiver.underruns = 5;
    app.receiver_started(sender("a", "h"), 8);
    assert!(app.receiver.is_connected);
    assert_eq!(app.receiver.packets_lost, 0);
    assert_eq!(app.receiver.underruns, 0);
    assert_eq!(app.receiver.connected_sender.as_ref().unwrap().name, "a");
    assert_eq!(app.stop_receiver(), Some(8));
    assert!(!app.receiver.is_connected);
    assert!(app.receiver.connected_sender.is_none());
}

#[test]
fn another_mode_stops_everything() {
    let mut app: AppState<u8, u16> = AppState::new(AppMode::Sender);
    app.sender_started(7);
    app.receiver_started(sender("a", "h"), 8);
    assert_eq!(app.switch_mode(AppMode::Sender), (None, None));
    assert!(app.sender.is_streaming);
    assert_eq!(app.switch_mode(AppMode::Receiver), (Some(7), Some(8)));
    assert_eq!(app.mode, AppMode::Receiver);
    assert!(!app.sender.is_streaming);
    assert!(!app.receiver.is_connected);
    assert!(app.receiver.connected_sender.is_none());
}

#[test]
fn shutting_down_hands_over_what_runs() {
    let mut app: AppState<u8, u16> = AppState::new(AppMode::Sender);
    app.sender_started(7);
    assert_eq!(app.shut_down(), (Some(7), None));
    assert!(app.sender_threads.is_none());
}

#[test]
fn ended_pipelines_are_shown_as_such() {
    let mut app: AppState<u8, u16> = AppState::new(AppMode::Sender);
    app.sender_started(7);
    app.receiver_started(sender("a", "h"), 8);
    app.sender.ended();
    app.receiver.ended();
    assert!(!app.sender.is_streaming);
    assert!(!app.receiver.is_connected);
    assert!(app.receiver.connected_sender.is_some());
    assert_eq!(app.sender_threads, Some(7));
}

#[test]
fn sender_in_the_list_is_selected() {
    let mut state = ReceiverState::default();
    state.discovered_senders = vec![sender("a", "h1"), sender("b", "h2"), sender("c", "h1")];
    assert!(!state.is_selected(0));
    state.select(0);
    assert!(state.is_selected(0));
    assert!(!state.is_selected(1));
    // The third is at the address of the first.
    assert!(state.is_selected(2));
    state.select(2);
    assert_eq!(state.connected_sender.as_ref().unwrap().name, "a");
    state.select(1);
    assert_eq!(state.connected_sender.as_ref().unwrap().name, "b");
}

#[test]
fn reports_are_shown() {
    let mut sending = SenderState::default();
    sending.show(SenderReport { packets_sent: 50, bytes_sent: 60, receiver_count: 2, peak: 70 });
    assert_eq!((sending.packets_sent, sending.bytes_sent), (50, 60));
    assert_eq!((sending.receiver_count, sending.peak), (2, 70));
    let mut receiving = ReceiverState::default();
    receiving.show(ReceiverReport {
        packets_received: 100,
        packets_lost: 3,
        buffer_fill: 960,
        underruns: 1,
        peak: 9,
    });
    assert_eq!((receiving.packets_received, receiving.packets_lost), (100, 3));
    assert_eq!((receiving.buffer_fill, receiving.underruns, receiving.peak), (960, 1, 9));
}

#[test]
fn loss_is_out_of_all_packets() {
    let mut state = ReceiverState::default();
    assert_eq!(state.loss(), None);
    state.packets_received = 75;
    state.packets_lost = 25;
    assert_eq!(state.loss(), Some((25, 100)));
    state.packets_received = u64::MAX;
    state.packets_lost = u64::MAX;
    assert_eq!(state.loss(), Some((u64::MAX, 2 * u64::MAX as u128)));
}

#[test]
fn states_are_copied_whole() {
    let mut receiving = ReceiverState::default();
    receiving.discovered_senders = vec![sender("a", "h")];
    receiving.packets_lost = 4;
    let copy = receiving.clone();
    assert_eq!(copy.discovered_senders[0].host, "h");
    assert_eq!(copy.packets_lost, 4);
    let mut sending = SenderState::default();
    sending.selected_input_device = "mic".to_string();
    assert_eq!(sending.clone().selected_input_device, "mic");
}
