use syncplay::engine::plan::{
    MonitorPlan, MonitorTask, ReceiverPlan, ReceiverTask, SenderPlan, SenderTask,
};
use syncplay::engine::{
    budget_us, jitter_cap_samples, AudioSource, TonePacer, STEREO_SAMPLES_PER_MS, TONE_CHUNK_US,
    TONE_FRAMES,
};
use syncplay::headless::{
    find_sender, first_match, reached, run_deadline, wait_step, WaitStep, DISCOVERY_TIMEOUT_US,
};
use syncplay::state::shared::{DiscoveredSender, CHANNELS, DEFAULT_PLAYOUT_DELAY_MS, SAMPLE_RATE};

#[test]
fn tone_wins_over_a_device() {
    let bits = 440.0f32.to_bits();
    let tone = AudioSource::from_flags(true, bits, Some("mic".to_string()));
    assert!(matches!(tone, AudioSource::Tone(b) if f32::from_bits(b) == 440.0));
    let named = AudioSource::from_flags(false, bits, Some("mic".to_string()));
    assert!(matches!(named, AudioSource::Device(name) if name == "mic"));
    let default = AudioSource::from_flags(false, bits, None);
    assert!(matches!(default, AudioSource::Device(name) if name.is_empty()));
}

#[test]
fn only_the_live_source_needs_no_monitor() {
    assert!(AudioSource::Tone(0).needs_monitor());
    assert!(AudioSource::Tap.needs_monitor());
    assert!(AudioSource::Device(String::new()).needs_monitor());
    assert!(!AudioSource::System.needs_monitor());
}

#[test]
fn cap_is_the_budget_and_120_ms() {
    assert_eq!(jitter_cap_samples(200), 320 * 96);
    assert_eq!(jitter_cap_samples(0), 11_520);
    assert_eq!(jitter_cap_samples(DEFAULT_PLAYOUT_DELAY_MS) % 2, 0);
    assert_eq!(STEREO_SAMPLES_PER_MS, SAMPLE_RATE as u64 / 1000 * CHANNELS as u64);
    assert_eq!(budget_us(200), 200_000);
}

#[test]
fn tone_is_paced_to_real_time() {
    assert_eq!(TONE_CHUNK_US, TONE_FRAMES as u64 * 1_000_000 / SAMPLE_RATE as u64);
    let mut pacer = TonePacer::new(1_000);
    assert_eq!(pacer.pace(1_500), 9_500);
    assert_eq!(pacer.next_us(), 11_000);
    assert_eq!(pacer.pace(21_000), 0);
    assert_eq!(pacer.next_us(), 21_000);
    assert_eq!(pacer.pace(50_000), 0);
    assert_eq!(pacer.next_us(), 50_000);
    assert_eq!(pacer.pace(50_001), 9_999);
}

fn sender_tasks(source: &AudioSource, outcomes: &[bool]) -> Vec<SenderTask> {
    let mut plan = SenderPlan::new(source);
    let mut tasks = vec![plan.task];
    for ok in outcomes {
        plan.finish(*ok);
        tasks.push(plan.task);
    }
    tasks
}

#[test]
fn sender_goes_through_its_tasks() {
    assert_eq!(
        sender_tasks(&AudioSource::Tap, &[true; 7]),
        vec![
            SenderTask::BindPorts,
            SenderTask::OpenSource,
            SenderTask::Advertise,
            SenderTask::OpenMonitor,
            SenderTask::Stream,
            SenderTask::Withdraw,
            SenderTask::Done,
            SenderTask::Done,
        ]
    );
}

#[test]
fn live_source_skips_the_monitor() {
    assert_eq!(
        sender_tasks(&AudioSource::System, &[true, true, true, true])[3..],
        [SenderTask::Stream, SenderTask::Withdraw]
    );
}

#[test]
fn sender_needs_its_ports_and_its_source() {
    let source = AudioSource::Tone(0);
    assert_eq!(sender_tasks(&source, &[false])[1], SenderTask::Done);
    assert_eq!(sender_tasks(&source, &[true, false])[2], SenderTask::Done);
}

#[test]
fn sender_streams_without_discovery_and_monitor() {
    let source = AudioSource::Tone(0);
    assert_eq!(
        sender_tasks(&source, &[true, true, false, false, true])[3..],
        [SenderTask::OpenMonitor, SenderTask::Stream, SenderTask::Done]
    );
}

#[test]
fn receiver_goes_through_its_tasks() {
    let mut plan = ReceiverPlan::new();
    let mut tasks = vec![plan.task];
    for _ in 0..7 {
        plan.finish(true);
        tasks.push(plan.task);
    }
    assert_eq!(
        tasks,
        vec![
            ReceiverTask::FindDevice,
            ReceiverTask::Configure,
            ReceiverTask::Connect,
            ReceiverTask::StartPlayback,
            ReceiverTask::Receive,
            ReceiverTask::Disconnect,
            ReceiverTask::Done,
            ReceiverTask::Done,
        ]
    );
}

#[test]
fn receiver_ends_where_a_task_fails() {
    for failing in 0..4 {
        let mut plan = ReceiverPlan::new();
        for _ in 0..failing {
            plan.finish(true);
        }
        plan.finish(false);
        assert_eq!(plan.task, ReceiverTask::Done);
    }
}

#[test]
fn monitor_needs_all_its_parts() {
    let mut plan = MonitorPlan::new();
    let mut tasks = vec![plan.task];
    for _ in 0..5 {
        plan.finish(true);
        tasks.push(plan.task);
    }
    assert_eq!(
        tasks,
        vec![
            MonitorTask::FindDevice,
            MonitorTask::Configure,
            MonitorTask::StartPlayback,
            MonitorTask::StartControl,
            MonitorTask::Ready,
            MonitorTask::Ready,
        ]
    );
    for failing in 0..4 {
        let mut plan = MonitorPlan::new();
        for _ in 0..failing {
            plan.finish(true);
        }
        plan.finish(false);
        assert_eq!(plan.task, MonitorTask::Disabled);
        plan.finish(true);
        assert_eq!(plan.task, MonitorTask::Disabled);
    }
}

#[test]
fn run_beyond_the_clock_never_ends() {
    assert_eq!(run_deadline(0, Some(u64::MAX)), None);
    assert_eq!(run_deadline(0, Some(18_446_744_073_709)), Some(18_446_744_073_709_000_000));
    assert_eq!(run_deadline(600_000, Some(18_446_744_073_709)), None);
    assert_eq!(run_deadline(551_615, Some(18_446_744_073_709)), Some(u64::MAX));
}

#[test]
fn run_ends_after_its_duration() {
    let deadline = run_deadline(500, Some(3));
    assert_eq!(deadline, Some(3_000_500));
    assert!(!reached(deadline, 3_000_499));
    assert!(reached(deadline, 3_000_500));
    assert_eq!(run_deadline(500, None), None);
    assert!(!reached(None, u64::MAX));
}

fn known(names: &[&str]) -> Vec<DiscoveredSender> {
    names
        .iter()
        .map(|name| DiscoveredSender {
            name: name.to_string(),
            host: "h".to_string(),
            port: 1,
            sample_rate: 48000,
            channels: 2,
        })
        .collect()
}

#[test]
fn wanted_sender_is_found_in_any_case() {
    let senders = known(&["Studio._syncplay", "Kitchen._syncplay", "KITCHEN 2"]);
    assert_eq!(find_sender(&senders, Some("kiTCHen")), Some(1));
    assert_eq!(find_sender(&senders, Some("2")), Some(2));
    assert_eq!(find_sender(&senders, Some("garage")), None);
    assert_eq!(find_sender(&senders, Some("")), Some(0));
    assert_eq!(find_sender(&senders, None), Some(0));
    assert_eq!(find_sender(&[], None), None);
}

#[test]
fn first_match_is_the_first() {
    let names = vec!["ab".to_string(), "bc".to_string(), "abc".to_string()];
    assert_eq!(first_match(&names, "bc"), Some(1));
    assert_eq!(first_match(&names, "abc"), Some(2));
    assert_eq!(first_match(&names, "x"), None);
    assert_eq!(first_match(&names, "BC"), None);
}

#[test]
fn looking_for_a_sender_ends_at_the_deadline() {
    assert_eq!(DISCOVERY_TIMEOUT_US, 30_000_000);
    assert_eq!(wait_step(None, 100, 99), WaitStep::Wait);
    assert_eq!(wait_step(None, 100, 100), WaitStep::GiveUp);
    assert_eq!(wait_step(Some(3), 100, 99), WaitStep::Connect(3));
    assert_eq!(wait_step(Some(3), 100, 200), WaitStep::Connect(3));
}
