//! The order in which a pipeline is set up, run and taken down.
//!
//! A plan names one task after another. Whoever carries it out says whether the
//! task succeeded, and the plan goes on to the next one.

use vstd::prelude::*;

use crate::engine::AudioSource;

verus! {

/// What a sender has to do next.
#[derive(Debug, Clone, Copy, PartialEq, Eq, Structural)]
pub enum SenderTask {
    /// Bind the audio and the control port.
    BindPorts,
    /// Open where the audio comes from.
    OpenSource,
    /// Start the discovery service and register with it.
    Advertise,
    /// Open the delayed playback of the source's own audio.
    OpenMonitor,
    /// Stream until told to stop.
    Stream,
    /// Take back what was advertised.
    Withdraw,
    /// Nothing: streaming is over.
    Done,
}

/// How far a sender has come.
#[derive(Debug, Clone, Copy, PartialEq, Eq, Structural)]
pub struct SenderPlan {
    pub task: SenderTask,
    /// The source's own audio is to be played by a delayed monitor.
    pub needs_monitor: bool,
    /// There is a discovery service to withdraw from.
    pub advertised: bool,
}

impl SenderPlan {
    /// Before anything was done.
    pub open spec fn begun(needs_monitor: bool) -> SenderPlan {
        SenderPlan { task: SenderTask::BindPorts, needs_monitor, advertised: false }
    }

    /// After the task was carried out, with success or not. Without ports or a
    /// source there is nothing to stream. Without discovery or a monitor there
    /// is.
    pub open spec fn after(self, ok: bool) -> SenderPlan {
        match self.task {
            SenderTask::BindPorts => SenderPlan {
                task: if ok {
                    SenderTask::OpenSource
                } else {
                    SenderTask::Done
                },
                ..self
            },
            SenderTask::OpenSource => SenderPlan {
                task: if ok {
                    SenderTask::Advertise
                } else {
                    SenderTask::Done
                },
                ..self
            },
            SenderTask::Advertise => SenderPlan {
                task: if self.needs_monitor {
                    SenderTask::OpenMonitor
                } else {
                    SenderTask::Stream
                },
                advertised: ok,
                ..self
            },
            SenderTask::OpenMonitor => SenderPlan { task: SenderTask::Stream, ..self },
            SenderTask::Stream => SenderPlan {
                task: if self.advertised {
                    SenderTask::Withdraw
                } else {
                    SenderTask::Done
                },
                ..self
            },
            SenderTask::Withdraw => SenderPlan { task: SenderTask::Done, ..self },
            SenderTask::Done => self,
        }
    }

    /// After tasks with the outcomes `oks`, in order.
    pub open spec fn after_all(self, oks: Seq<bool>) -> SenderPlan
        decreases oks.len(),
    {
        if oks.len() == 0 {
            self
        } else {
            self.after_all(oks.drop_last()).after(oks.last())
        }
    }

    /// The plan for a source of audio.
    pub fn new(source: &AudioSource) -> (plan: Self)
        ensures
            plan == SenderPlan::begun(!(*source is System)),
    {
        SenderPlan {
            task: SenderTask::BindPorts,
            needs_monitor: source.needs_monitor(),
            advertised: false,
        }
    }

    /// The task was carried out, with success or not.
    pub fn finish(&mut self, ok: bool)
        ensures
            *final(self) == old(self).after(ok),
    {
        self.task = match self.task {
            SenderTask::BindPorts => if ok {
                SenderTask::OpenSource
            } else {
                SenderTask::Done
            },
            SenderTask::OpenSource => if ok {
                SenderTask::Advertise
            } else {
                SenderTask::Done
            },
            SenderTask::Advertise => {
                self.advertised = ok;
                if self.needs_monitor {
                    SenderTask::OpenMonitor
                } else {
                    SenderTask::Stream
                }
            },
            SenderTask::OpenMonitor => SenderTask::Stream,
            SenderTask::Stream => if self.advertised {
                SenderTask::Withdraw
            } else {
                SenderTask::Done
            },
            SenderTask::Withdraw => SenderTask::Done,
            SenderTask::Done => SenderTask::Done,
        };
    }
}

/// The tasks that are left, at most.
spec fn sender_rest(plan: SenderPlan) -> nat {
    match plan.task {
        SenderTask::BindPorts => 6,
        SenderTask::OpenSource => 5,
        SenderTask::Advertise => 4,
        SenderTask::OpenMonitor => 3,
        SenderTask::Stream => 2,
        SenderTask::Withdraw => 1,
        SenderTask::Done => 0,
    }
}

/// Whatever succeeds or fails, a sender is through after six tasks, and then it
/// stays so.
pub proof fn law_sender_ends(needs_monitor: bool, oks: Seq<bool>)
    requires
        oks.len() >= 6,
    ensures
        SenderPlan::begun(needs_monitor).after_all(oks).task == SenderTask::Done,
{
    lemma_sender_rest(SenderPlan::begun(needs_monitor), oks);
}

proof fn lemma_sender_rest(plan: SenderPlan, oks: Seq<bool>)
    ensures
        sender_rest(plan.after_all(oks)) + oks.len() <= sender_rest(plan) || plan.after_all(
            oks,
        ).task == SenderTask::Done,
    decreases oks.len(),
{
    if oks.len() > 0 {
        lemma_sender_rest(plan, oks.drop_last());
    }
}

/// A sender streams exactly if it has its ports and its source, whatever becomes
/// of the rest; the monitor is opened exactly if the source needs one; and what
/// was advertised is taken back after streaming, and nothing else is.
pub proof fn law_sender_order(
    needs_monitor: bool,
    ports: bool,
    source: bool,
    advertised: bool,
    monitor: bool,
    streamed: bool,
)
    ensures
        ({
            let opened = SenderPlan::begun(needs_monitor).after(ports).after(source);
            let announced = opened.after(advertised);
            let ready = if needs_monitor {
                announced.after(monitor)
            } else {
                announced
            };
            &&& !(ports && source) ==> opened.task == SenderTask::Done
            &&& ports && source ==> {
                &&& opened.task == SenderTask::Advertise
                &&& announced.task == SenderTask::OpenMonitor <==> needs_monitor
                &&& ready.task == SenderTask::Stream
                &&& ready.after(streamed).task == SenderTask::Withdraw <==> advertised
                &&& ready.after(streamed).task == SenderTask::Done <==> !advertised
            }
        }),
{
}

/// What a receiver has to do next.
#[derive(Debug, Clone, Copy, PartialEq, Eq, Structural)]
pub enum ReceiverTask {
    /// Find the output device.
    FindDevice,
    /// Find a configuration of it.
    Configure,
    /// Subscribe to the sender.
    Connect,
    /// Start the playback.
    StartPlayback,
    /// Receive until told to stop.
    Receive,
    /// Unsubscribe from the sender.
    Disconnect,
    /// Nothing: the connection is over.
    Done,
}

/// How far a receiver has come.
#[derive(Debug, Clone, Copy, PartialEq, Eq, Structural)]
pub struct ReceiverPlan {
    pub task: ReceiverTask,
}

impl ReceiverPlan {
    /// Before anything was done.
    pub open spec fn begun() -> ReceiverPlan {
        ReceiverPlan { task: ReceiverTask::FindDevice }
    }

    /// After the task was carried out, with success or not. Everything up to
    /// the playback is needed.
    pub open spec fn after(self, ok: bool) -> ReceiverPlan {
        ReceiverPlan {
            task: match self.task {
                ReceiverTask::FindDevice if ok => ReceiverTask::Configure,
                ReceiverTask::Configure if ok => ReceiverTask::Connect,
                ReceiverTask::Connect if ok => ReceiverTask::StartPlayback,
                ReceiverTask::StartPlayback if ok => ReceiverTask::Receive,
                ReceiverTask::Receive => ReceiverTask::Disconnect,
                _ => ReceiverTask::Done,
            },
        }
    }

    pub fn new() -> (plan: Self)
        ensures
            plan == ReceiverPlan::begun(),
    {
        ReceiverPlan { task: ReceiverTask::FindDevice }
    }

    /// The task was carried out, with success or not.
    pub fn finish(&mut self, ok: bool)
        ensures
            *final(self) == old(self).after(ok),
    {
        self.task = match self.task {
            ReceiverTask::FindDevice => if ok {
                ReceiverTask::Configure
            } else {
                ReceiverTask::Done
            },
            ReceiverTask::Configure => if ok {
                ReceiverTask::Connect
            } else {
                ReceiverTask::Done
            },
            ReceiverTask::Connect => if ok {
                ReceiverTask::StartPlayback
            } else {
                ReceiverTask::Done
            },
            ReceiverTask::StartPlayback => if ok {
                ReceiverTask::Receive
            } else {
                ReceiverTask::Done
            },
            ReceiverTask::Receive => ReceiverTask::Disconnect,
            ReceiverTask::Disconnect => ReceiverTask::Done,
            ReceiverTask::Done => ReceiverTask::Done,
        };
    }
}

/// A receiver receives exactly if it has its device, its configuration, its
/// subscription and its playback; after receiving it unsubscribes, and then it
/// is through.
pub proof fn law_receiver_order(
    device: bool,
    configured: bool,
    connected: bool,
    playing: bool,
    received: bool,
    left: bool,
)
    ensures
        ({
            let ready = ReceiverPlan::begun().after(device).after(configured).after(
                connected,
            ).after(playing);
            &&& ready.task == ReceiverTask::Receive <==> device && configured && connected
                && playing
            &&& ready.task != ReceiverTask::Receive ==> ready.task == ReceiverTask::Done
            &&& ready.task == ReceiverTask::Receive ==> {
                &&& ready.after(received).task == ReceiverTask::Disconnect
                &&& ready.after(received).after(left).task == ReceiverTask::Done
            }
        }),
{
}

/// What the delayed playback of the source's own audio needs next.
#[derive(Debug, Clone, Copy, PartialEq, Eq, Structural)]
pub enum MonitorTask {
    /// Find the output device.
    FindDevice,
    /// Find a configuration of it.
    Configure,
    /// Start the playback.
    StartPlayback,
    /// Start the drift control.
    StartControl,
    /// Nothing: the monitor plays.
    Ready,
    /// Nothing: there is no monitor, and the sender does without.
    Disabled,
}

/// How far the setup of a monitor has come.
#[derive(Debug, Clone, Copy, PartialEq, Eq, Structural)]
pub struct MonitorPlan {
    pub task: MonitorTask,
}

impl MonitorPlan {
    /// Before anything was done.
    pub open spec fn begun() -> MonitorPlan {
        MonitorPlan { task: MonitorTask::FindDevice }
    }

    /// After the task was carried out, with success or not.
    pub open spec fn after(self, ok: bool) -> MonitorPlan {
        MonitorPlan {
            task: match self.task {
                MonitorTask::FindDevice if ok => MonitorTask::Configure,
                MonitorTask::Configure if ok => MonitorTask::StartPlayback,
                MonitorTask::StartPlayback if ok => MonitorTask::StartControl,
                MonitorTask::StartControl if ok => MonitorTask::Ready,
                MonitorTask::Ready => MonitorTask::Ready,
                _ => MonitorTask::Disabled,
            },
        }
    }

    pub fn new() -> (plan: Self)
        ensures
            plan == MonitorPlan::begun(),
    {
        MonitorPlan { task: MonitorTask::FindDevice }
    }

    /// The task was carried out, with success or not.
    pub fn finish(&mut self, ok: bool)
        ensures
            *final(self) == old(self).after(ok),
    {
        self.task = match self.task {
            MonitorTask::Ready => MonitorTask::Ready,
            MonitorTask::Disabled => MonitorTask::Disabled,
            task => if !ok {
                MonitorTask::Disabled
            } else {
                match task {
                    MonitorTask::FindDevice => MonitorTask::Configure,
                    MonitorTask::Configure => MonitorTask::StartPlayback,
                    MonitorTask::StartPlayback => MonitorTask::StartControl,
                    _ => MonitorTask::Ready,
                }
            },
        };
    }
}

/// A monitor plays exactly if it has its device, its configuration, its playback
/// and its drift control; otherwise there is none. Either way nothing changes
/// any more.
pub proof fn law_monitor_order(
    device: bool,
    configured: bool,
    playing: bool,
    controlled: bool,
    more: bool,
)
    ensures
        ({
            let end = MonitorPlan::begun().after(device).after(configured).after(playing).after(
                controlled,
            );
            &&& end.task == MonitorTask::Ready <==> device && configured && playing && controlled
            &&& end.task == MonitorTask::Disabled <==> !(device && configured && playing
                && controlled)
            &&& end.after(more) == end
        }),
{
}

} // verus!
