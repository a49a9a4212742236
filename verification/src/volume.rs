//! System volume control: what the answers of the audio system mean, how the
//! worker that watches for changes is started and stopped, and when it reports.
use vstd::prelude::*;
use crate::text;
use crate::text::{join, signed_decimal_text};

verus! {

/// How long the watcher sleeps between two looks at the system volume.
pub const POLL_INTERVAL_SECS: u64 = 2;

/// For how long after a change made by this program the watcher holds back, so
/// that the program does not take its own change for one made by the user.
pub const SELF_CHANGE_GRACE_MS: u64 = 1000;

/// A call on the audio system that can fail.
#[derive(Debug, Clone, Copy, PartialEq, Eq, Structural)]
pub enum AudioCall {
    GetDefaultOutputDevice,
    SetVolume,
    GetVolume,
    SetMute,
    GetMute,
    InitializeCom,
    CreateDeviceEnumerator,
    GetDefaultAudioEndpoint,
    ActivateEndpointVolume,
}

/// With what words the failure of a call is reported.
pub open spec fn failure_words(call: AudioCall) -> Seq<char> {
    match call {
        AudioCall::GetDefaultOutputDevice => "Failed to get default output device: "@,
        AudioCall::SetVolume => "Failed to set volume: "@,
        AudioCall::GetVolume => "Failed to get volume: "@,
        AudioCall::SetMute => "Failed to set mute: "@,
        AudioCall::GetMute => "Failed to get mute state: "@,
        AudioCall::InitializeCom => "Failed to initialize COM: "@,
        AudioCall::CreateDeviceEnumerator => "Failed to create device enumerator: "@,
        AudioCall::GetDefaultAudioEndpoint => "Failed to get default audio endpoint: "@,
        AudioCall::ActivateEndpointVolume => "Failed to activate endpoint volume: "@,
    }
}

/// Whether `r` reports that `call` failed for the reason `detail`.
pub open spec fn reports_failure<T>(r: Result<T, String>, call: AudioCall, detail: Seq<char>) -> bool {
    r matches Err(message) && message@ == failure_words(call) + detail
}

/// The message that `call` failed for the reason `detail`.
pub fn failure_message(call: AudioCall, detail: &str) -> (r: String)
    ensures
        r@ == failure_words(call) + detail@,
{
    let words = match call {
        AudioCall::GetDefaultOutputDevice => "Failed to get default output device: ",
        AudioCall::SetVolume => "Failed to set volume: ",
        AudioCall::GetVolume => "Failed to get volume: ",
        AudioCall::SetMute => "Failed to set mute: ",
        AudioCall::GetMute => "Failed to get mute state: ",
        AudioCall::InitializeCom => "Failed to initialize COM: ",
        AudioCall::CreateDeviceEnumerator => "Failed to create device enumerator: ",
        AudioCall::GetDefaultAudioEndpoint => "Failed to get default audio endpoint: ",
        AudioCall::ActivateEndpointVolume => "Failed to activate endpoint volume: ",
    };
    join(words, detail)
}

/// The outcome of a call, with its own error put into words.
pub fn check_call<T>(call: AudioCall, outcome: Result<T, String>) -> (r: Result<T, String>)
    ensures
        match outcome {
            Ok(value) => r == Ok::<T, String>(value),
            Err(e) => reports_failure(r, call, e@),
        },
{
    match outcome {
        Ok(value) => Ok(value),
        Err(e) => Err(failure_message(call, e.as_str())),
    }
}

/// The outcome of a call that answers with a status, zero for success.
pub fn check_status(call: AudioCall, status: i32) -> (r: Result<(), String>)
    ensures
        status == 0 ==> r == Ok::<(), String>(()),
        status != 0 ==> reports_failure(r, call, text::signed_decimal(status as int)),
{
    if status == 0 {
        Ok(())
    } else {
        Err(failure_message(call, signed_decimal_text(status).as_str()))
    }
}

/// The device that CoreAudio names as the default output, from the status and
/// the device that it answered with; zero is no device.
pub fn accept_default_device(status: i32, device_id: u32) -> (r: Result<u32, String>)
    ensures
        status == 0 && device_id != 0 ==> r == Ok::<u32, String>(device_id),
        status != 0 ==> reports_failure(
            r,
            AudioCall::GetDefaultOutputDevice,
            text::signed_decimal(status as int),
        ),
        status == 0 && device_id == 0 ==> (r matches Err(message) && message@
            == "No default output device found"@),
{
    match check_status(AudioCall::GetDefaultOutputDevice, status) {
        Ok(_) => if device_id == 0 {
            Err("No default output device found".to_owned())
        } else {
            Ok(device_id)
        },
        Err(message) => Err(message),
    }
}

/// The device itself, where its volume can be controlled.
pub fn accept_volume_support(device_id: u32, has_volume: bool) -> (r: Result<u32, String>)
    ensures
        has_volume ==> r == Ok::<u32, String>(device_id),
        !has_volume ==> (r matches Err(message) && message@
            == "Default output device does not support volume control"@),
{
    if has_volume {
        Ok(device_id)
    } else {
        Err("Default output device does not support volume control".to_owned())
    }
}

/// A change of the system volume: on a CoreAudio device, or on the endpoint that
/// WASAPI calls are made on.
#[derive(Debug, Clone, Copy, PartialEq, Eq, Structural)]
pub enum Change {
    DeviceVolume { percent: u8 },
    DeviceMute { muted: bool },
    EndpointVolume { percent: u8 },
    EndpointMute { muted: bool },
}

/// How far a change has come.
#[derive(Debug, PartialEq, Eq)]
pub enum ChangePhase {
    /// The time of the change is noted, for the watcher to hold back.
    Recording,
    /// It is found out whether there is anything to write to.
    Probing,
    /// The change is written.
    Writing,
    /// The change was made, or there is a reason why not.
    Done { outcome: Result<(), String> },
}

/// What happens to a change.
#[derive(Debug, PartialEq, Eq)]
pub enum ChangeEvent {
    /// Its time was noted.
    Recorded,
    /// There is something to write to, or there is not.
    Probed { available: bool },
    /// The audio system answered with this status, zero for success.
    Status { status: i32 },
    /// The audio system answered with success or with words of its own.
    Answer { answer: Result<(), String> },
}

/// What is done next about a change.
#[derive(Debug, PartialEq, Eq)]
pub enum ChangeAction {
    /// Note the time.
    RecordTime,
    /// Find out whether there is a mute switch, or an endpoint.
    Probe,
    /// Write the volume.
    WriteVolume { percent: u8 },
    /// Write the mute switch of a CoreAudio device.
    WriteSwitch { value: u32 },
    /// Mute or unmute the endpoint.
    WriteMute { muted: bool },
    /// Nothing more: this came of it.
    Finish { outcome: Result<(), String> },
}

/// Whether it has to be found out first if there is something to write to. The
/// volume of a CoreAudio device was found to be there when the device was chosen.
pub open spec fn is_probed_first(change: Change) -> bool {
    !(change is DeviceVolume)
}

/// Why a change cannot be made where there is nothing to write to.
pub open spec fn missing_words(change: Change) -> Seq<char> {
    match change {
        Change::DeviceVolume { .. } => "Default output device does not support volume control"@,
        Change::DeviceMute { .. } => "Device does not support mute"@,
        Change::EndpointVolume { .. } | Change::EndpointMute { .. } =>
            "Endpoint volume not available"@,
    }
}

/// The call by which a change is written.
pub open spec fn call_of(change: Change) -> AudioCall {
    match change {
        Change::DeviceVolume { .. } | Change::EndpointVolume { .. } => AudioCall::SetVolume,
        Change::DeviceMute { .. } | Change::EndpointMute { .. } => AudioCall::SetMute,
    }
}

/// What is written: a mute switch is written 1 to mute and 0 to unmute.
pub open spec fn write_of(change: Change) -> ChangeAction {
    match change {
        Change::DeviceVolume { percent } => ChangeAction::WriteVolume { percent },
        Change::EndpointVolume { percent } => ChangeAction::WriteVolume { percent },
        Change::DeviceMute { muted } => ChangeAction::WriteSwitch {
            value: if muted {
                1
            } else {
                0
            },
        },
        Change::EndpointMute { muted } => ChangeAction::WriteMute { muted },
    }
}

/// Whether `next` is how far a change has come after an event. One that does not
/// belong to the phase changes nothing.
pub open spec fn is_phase_after(
    change: Change,
    phase: ChangePhase,
    event: ChangeEvent,
    next: ChangePhase,
) -> bool {
    match (phase, event) {
        (ChangePhase::Recording, ChangeEvent::Recorded) => if is_probed_first(change) {
            next is Probing
        } else {
            next is Writing
        },
        (ChangePhase::Probing, ChangeEvent::Probed { available }) => if available {
            next is Writing
        } else {
            next matches ChangePhase::Done { outcome } && outcome matches Err(message) && message@
                == missing_words(change)
        },
        (ChangePhase::Writing, ChangeEvent::Status { status }) => {
            next matches ChangePhase::Done { outcome } && if status == 0 {
                outcome == Ok::<(), String>(())
            } else {
                reports_failure(outcome, call_of(change), text::signed_decimal(status as int))
            }
        },
        (ChangePhase::Writing, ChangeEvent::Answer { answer }) => {
            next matches ChangePhase::Done { outcome } && match answer {
                Ok(_) => outcome == Ok::<(), String>(()),
                Err(e) => reports_failure(outcome, call_of(change), e@),
            }
        },
        _ => next == phase,
    }
}

/// What is done next about a change in a phase.
pub open spec fn action_for(change: Change, phase: ChangePhase) -> ChangeAction {
    match phase {
        ChangePhase::Recording => ChangeAction::RecordTime,
        ChangePhase::Probing => ChangeAction::Probe,
        ChangePhase::Writing => write_of(change),
        ChangePhase::Done { outcome } => ChangeAction::Finish { outcome },
    }
}

/// The call by which a change is written.
fn writing_call(change: Change) -> (r: AudioCall)
    ensures
        r == call_of(change),
{
    match change {
        Change::DeviceVolume { .. } | Change::EndpointVolume { .. } => AudioCall::SetVolume,
        Change::DeviceMute { .. } | Change::EndpointMute { .. } => AudioCall::SetMute,
    }
}

/// Takes a change one step further. It starts out by noting the time.
pub fn change_step(change: Change, phase: ChangePhase, event: ChangeEvent) -> (next: ChangePhase)
    ensures
        is_phase_after(change, phase, event, next),
{
    match (phase, event) {
        (ChangePhase::Recording, ChangeEvent::Recorded) => match change {
            Change::DeviceVolume { .. } => ChangePhase::Writing,
            _ => ChangePhase::Probing,
        },
        (ChangePhase::Probing, ChangeEvent::Probed { available }) => if available {
            ChangePhase::Writing
        } else {
            let message = match change {
                Change::DeviceVolume { .. } =>
                    "Default output device does not support volume control",
                Change::DeviceMute { .. } => "Device does not support mute",
                Change::EndpointVolume { .. } | Change::EndpointMute { .. } =>
                    "Endpoint volume not available",
            };
            ChangePhase::Done { outcome: Err(message.to_owned()) }
        },
        (ChangePhase::Writing, ChangeEvent::Status { status }) => ChangePhase::Done {
            outcome: check_status(writing_call(change), status),
        },
        (ChangePhase::Writing, ChangeEvent::Answer { answer }) => ChangePhase::Done {
            outcome: check_call(writing_call(change), answer),
        },
        (phase, _) => phase,
    }
}

/// What is done next about a change.
pub fn change_action(change: Change, phase: &ChangePhase) -> (r: ChangeAction)
    ensures
        r == action_for(change, *phase),
{
    match phase {
        ChangePhase::Recording => ChangeAction::RecordTime,
        ChangePhase::Probing => ChangeAction::Probe,
        ChangePhase::Writing => match change {
            Change::DeviceVolume { percent } => ChangeAction::WriteVolume { percent },
            Change::EndpointVolume { percent } => ChangeAction::WriteVolume { percent },
            Change::DeviceMute { muted } => ChangeAction::WriteSwitch {
                value: if muted {
                    1
                } else {
                    0
                },
            },
            Change::EndpointMute { muted } => ChangeAction::WriteMute { muted },
        },
        ChangePhase::Done { outcome } => ChangeAction::Finish {
            outcome: match outcome {
                Ok(done) => Ok(*done),
                Err(message) => Err(message.clone()),
            },
        },
    }
}

/// How far reading the mute switch of a CoreAudio device has come.
#[derive(Debug, PartialEq, Eq)]
pub enum MutePhase {
    /// It is found out whether there is a switch.
    Probing,
    /// The switch is read.
    Reading,
    /// It is known whether the device is muted, or why not.
    Done { outcome: Result<bool, String> },
}

/// What happens while the mute switch of a CoreAudio device is read.
#[derive(Debug, Clone, Copy, PartialEq, Eq, Structural)]
pub enum MuteEvent {
    /// There is a switch, or there is not.
    Probed { available: bool },
    /// The switch was read, with this status and value.
    Read { status: i32, value: u32 },
}

/// Whether `next` is how far reading the mute switch has come after an event. A
/// device without a switch is never muted, and nothing is read from it. An event
/// that does not belong to the phase changes nothing.
pub open spec fn is_mute_phase_after(phase: MutePhase, event: MuteEvent, next: MutePhase) -> bool {
    match (phase, event) {
        (MutePhase::Probing, MuteEvent::Probed { available }) => if available {
            next is Reading
        } else {
            next == (MutePhase::Done { outcome: Ok(false) })
        },
        (MutePhase::Reading, MuteEvent::Read { status, value }) => if status == 0 {
            next == (MutePhase::Done { outcome: Ok(value != 0) })
        } else {
            next matches MutePhase::Done { outcome } && reports_failure(
                outcome,
                AudioCall::GetMute,
                text::signed_decimal(status as int),
            )
        },
        _ => next == phase,
    }
}

/// Takes reading the mute switch one step further. It starts out by finding out
/// whether there is one.
pub fn mute_step(phase: MutePhase, event: MuteEvent) -> (next: MutePhase)
    ensures
        is_mute_phase_after(phase, event, next),
{
    match (phase, event) {
        (MutePhase::Probing, MuteEvent::Probed { available }) => if available {
            MutePhase::Reading
        } else {
            MutePhase::Done { outcome: Ok(false) }
        },
        (MutePhase::Reading, MuteEvent::Read { status, value }) => MutePhase::Done {
            outcome: match check_status(AudioCall::GetMute, status) {
                Ok(_) => Ok(value != 0),
                Err(message) => Err(message),
            },
        },
        (phase, _) => phase,
    }
}

/// Whether COM can be used, from the code that its initialization answered with
/// and the words for that code: it was initialized just now or already before.
pub fn accept_com(hresult: i32, detail: &str) -> (r: Result<(), String>)
    ensures
        hresult == 0 || hresult == 1 ==> r == Ok::<(), String>(()),
        hresult != 0 && hresult != 1 ==> reports_failure(r, AudioCall::InitializeCom, detail@),
{
    if hresult == 0 || hresult == 1 {
        Ok(())
    } else {
        Err(failure_message(AudioCall::InitializeCom, detail))
    }
}

/// The endpoint that WASAPI calls are made on, where there is one.
pub fn require_endpoint<E>(endpoint: Option<E>) -> (r: Result<E, String>)
    ensures
        match endpoint {
            Some(e) => r == Ok::<E, String>(e),
            None => r matches Err(message) && message@ == "Endpoint volume not available"@,
        },
{
    match endpoint {
        Some(e) => Ok(e),
        None => Err("Endpoint volume not available".to_owned()),
    }
}

/// Whether volume control can be used at all.
pub fn is_available(has_endpoint: bool, com_initialized: bool) -> (r: bool)
    ensures
        r <==> has_endpoint && com_initialized,
{
    has_endpoint && com_initialized
}

/// One step in starting or stopping the watcher.
#[derive(Debug, Clone, Copy, PartialEq, Eq, Structural)]
pub enum WorkerStep {
    /// Tell the running watcher to stop.
    SignalStop,
    /// Wait until the running watcher has ended.
    Join,
    /// Give the next watcher a stop signal of its own, not yet raised.
    RenewSignal,
    /// Read volume and mute, for the next watcher to compare with.
    ReadInitial,
    /// Start the next watcher.
    Spawn,
    /// Let go of the audio endpoint.
    ReleaseEndpoint,
    /// Undo the initialization of COM.
    UninitializeCom,
}

/// `step` alone where `wanted`, else nothing.
pub open spec fn step_if(wanted: bool, step: WorkerStep) -> Seq<WorkerStep> {
    if wanted {
        seq![step]
    } else {
        seq![]
    }
}

/// What is done when a new receiver of changes is set: a running watcher is
/// stopped for good, then, where there is something to watch, the next is started.
pub open spec fn restart_plan(running: bool, has_endpoint: bool) -> Seq<WorkerStep> {
    seq![WorkerStep::SignalStop] + step_if(running, WorkerStep::Join)
        + seq![WorkerStep::RenewSignal] + step_if(has_endpoint, WorkerStep::ReadInitial) + step_if(
        has_endpoint,
        WorkerStep::Spawn,
    )
}

/// What is done when volume control ends.
pub open spec fn shutdown_plan(running: bool, com_initialized: bool) -> Seq<WorkerStep> {
    seq![WorkerStep::SignalStop] + step_if(running, WorkerStep::Join)
        + seq![WorkerStep::ReleaseEndpoint] + step_if(com_initialized, WorkerStep::UninitializeCom)
}

/// What is done, in this order, when a new receiver of changes is set.
pub fn restart_steps(running: bool, has_endpoint: bool) -> (r: Vec<WorkerStep>)
    ensures
        r@ == restart_plan(running, has_endpoint),
{
    let mut steps: Vec<WorkerStep> = Vec::new();
    steps.push(WorkerStep::SignalStop);
    if running {
        steps.push(WorkerStep::Join);
    }
    steps.push(WorkerStep::RenewSignal);
    if has_endpoint {
        steps.push(WorkerStep::ReadInitial);
        steps.push(WorkerStep::Spawn);
    }
    assert(steps@ =~= restart_plan(running, has_endpoint));
    steps
}

/// What is done, in this order, when volume control ends.
pub fn shutdown_steps(running: bool, com_initialized: bool) -> (r: Vec<WorkerStep>)
    ensures
        r@ == shutdown_plan(running, com_initialized),
{
    let mut steps: Vec<WorkerStep> = Vec::new();
    steps.push(WorkerStep::SignalStop);
    if running {
        steps.push(WorkerStep::Join);
    }
    steps.push(WorkerStep::ReleaseEndpoint);
    if com_initialized {
        steps.push(WorkerStep::UninitializeCom);
    }
    assert(steps@ =~= shutdown_plan(running, com_initialized));
    steps
}

/// What the first look of the watcher is compared with: volume and mute, where
/// both could be read.
pub fn initial_values(volume: Result<u8, String>, muted: Result<bool, String>) -> (r: Option<
    (u8, bool),
>)
    ensures
        r == (match (volume, muted) {
            (Ok(v), Ok(m)) => Some((v, m)),
            _ => None,
        }),
{
    match (volume, muted) {
        (Ok(v), Ok(m)) => Some((v, m)),
        _ => None,
    }
}

/// Whether a change made by this program is so recent that the watcher holds
/// back. A clock that was set back counts as recent.
pub open spec fn in_grace_period(now_ms: u64, last_self_change_ms: u64) -> bool {
    now_ms - last_self_change_ms < SELF_CHANGE_GRACE_MS
}

/// What the watcher is doing.
#[derive(Debug, Clone, Copy, PartialEq, Eq, Structural)]
pub enum PollPhase {
    /// It sleeps until its next look.
    Sleeping,
    /// It reads volume and mute.
    Reading,
    /// It hands these values to the receiver.
    Sending { volume: u8, muted: bool },
    /// It has ended.
    Stopped,
}

/// The watcher: what it is doing, and the values that the receiver knows.
#[derive(Debug, Clone, Copy, PartialEq, Eq)]
pub struct Poller {
    pub phase: PollPhase,
    pub last_values: Option<(u8, bool)>,
}

/// What happens to the watcher.
#[derive(Debug, Clone, Copy, PartialEq, Eq, Structural)]
pub enum PollEvent {
    /// It woke up, to find whether it is told to stop, what time it is, and when
    /// this program last changed volume or mute.
    Woke { stop: bool, now_ms: u64, last_self_change_ms: u64 },
    /// Volume and mute were read, each as far as that succeeded.
    Readings { volume: Option<u8>, muted: Option<bool> },
    /// The values were handed over, or the receiver is gone.
    Sent { delivered: bool },
}

/// What the watcher does next.
#[derive(Debug, Clone, Copy, PartialEq, Eq, Structural)]
pub enum PollAction {
    Sleep,
    Read,
    Notify { volume: u8, muted: bool },
    Exit,
}

/// What a watcher does next in a phase.
pub open spec fn action_in(phase: PollPhase) -> PollAction {
    match phase {
        PollPhase::Sleeping => PollAction::Sleep,
        PollPhase::Reading => PollAction::Read,
        PollPhase::Sending { volume, muted } => PollAction::Notify { volume, muted },
        PollPhase::Stopped => PollAction::Exit,
    }
}

/// What becomes of a watcher. An event that does not belong to its phase leaves
/// it as it is.
pub open spec fn after(poller: Poller, event: PollEvent) -> Poller {
    match (poller.phase, event) {
        (PollPhase::Sleeping, PollEvent::Woke { stop, now_ms, last_self_change_ms }) => Poller {
            phase: if stop {
                PollPhase::Stopped
            } else if in_grace_period(now_ms, last_self_change_ms) {
                PollPhase::Sleeping
            } else {
                PollPhase::Reading
            },
            ..poller
        },
        (
            PollPhase::Reading,
            PollEvent::Readings { volume: Some(volume), muted: Some(muted) },
        ) => Poller {
            phase: if poller.last_values == Some((volume, muted)) {
                PollPhase::Sleeping
            } else {
                PollPhase::Sending { volume, muted }
            },
            ..poller
        },
        (PollPhase::Reading, PollEvent::Readings { .. }) => Poller {
            phase: PollPhase::Sleeping,
            ..poller
        },
        (PollPhase::Sending { volume, muted }, PollEvent::Sent { delivered }) => if delivered {
            Poller { phase: PollPhase::Sleeping, last_values: Some((volume, muted)) }
        } else {
            Poller { phase: PollPhase::Stopped, ..poller }
        },
        _ => poller,
    }
}

impl Poller {
    /// A watcher that is about to sleep for the first time.
    pub fn new(initial: Option<(u8, bool)>) -> (r: Self)
        ensures
            r == (Poller { phase: PollPhase::Sleeping, last_values: initial }),
    {
        Poller { phase: PollPhase::Sleeping, last_values: initial }
    }

    /// Lets an event happen to the watcher and says what it does next.
    pub fn step(&mut self, event: PollEvent) -> (action: PollAction)
        ensures
            *final(self) == after(*old(self), event),
            action == action_in(final(self).phase),
    {
        match (self.phase, event) {
            (PollPhase::Sleeping, PollEvent::Woke { stop, now_ms, last_self_change_ms }) => {
                if stop {
                    self.phase = PollPhase::Stopped;
                } else if now_ms.saturating_sub(last_self_change_ms) >= SELF_CHANGE_GRACE_MS {
                    self.phase = PollPhase::Reading;
                }
            },
            (PollPhase::Reading, PollEvent::Readings { volume, muted }) => {
                self.phase = PollPhase::Sleeping;
                if let (Some(v), Some(m)) = (volume, muted) {
                    let known = match self.last_values {
                        Some((last_v, last_m)) => last_v == v && last_m == m,
                        None => false,
                    };
                    if !known {
                        self.phase = PollPhase::Sending { volume: v, muted: m };
                    }
                }
            },
            (PollPhase::Sending { volume, muted }, PollEvent::Sent { delivered }) => {
                if delivered {
                    self.last_values = Some((volume, muted));
                    self.phase = PollPhase::Sleeping;
                } else {
                    self.phase = PollPhase::Stopped;
                }
            },
            _ => {},
        }
        match self.phase {
            PollPhase::Sleeping => PollAction::Sleep,
            PollPhase::Reading => PollAction::Read,
            PollPhase::Sending { volume, muted } => PollAction::Notify { volume, muted },
            PollPhase::Stopped => PollAction::Exit,
        }
    }
}

/// Whether the watcher, when it is handing values over, hands over values that
/// the receiver does not know.
pub open spec fn sends_news(poller: Poller) -> bool {
    poller.phase matches PollPhase::Sending { volume, muted } ==> poller.last_values != Some(
        (volume, muted),
    )
}

/// What a watcher is left with after `events`.
pub open spec fn after_all(poller: Poller, events: Seq<PollEvent>) -> Poller
    decreases events.len(),
{
    if events.len() == 0 {
        poller
    } else {
        after_all(after(poller, events[0]), events.skip(1))
    }
}

/// What the receiver gets in the course of `events`.
pub open spec fn deliveries(poller: Poller, events: Seq<PollEvent>) -> Seq<(u8, bool)>
    decreases events.len(),
{
    if events.len() == 0 {
        seq![]
    } else {
        let later = deliveries(after(poller, events[0]), events.skip(1));
        match (poller.phase, events[0]) {
            (PollPhase::Sending { volume, muted }, PollEvent::Sent { delivered: true }) => seq![
                (volume, muted),
            ] + later,
            _ => later,
        }
    }
}

/// Whatever happens, a watcher only ever hands over values that the receiver
/// does not know, and a watcher that has ended stays so.
pub proof fn watcher_only_sends_news(poller: Poller, event: PollEvent)
    requires
        sends_news(poller),
    ensures
        sends_news(after(poller, event)),
        poller.phase is Stopped ==> after(poller, event) == poller,
{
}

/// In no course of events does the receiver get the same values twice in a row,
/// nor, to begin with, the values that the watcher started out with.
pub proof fn deliveries_are_changes(poller: Poller, events: Seq<PollEvent>)
    requires
        sends_news(poller),
    ensures
        deliveries(poller, events).len() > 0 ==> poller.last_values != Some(
            deliveries(poller, events)[0],
        ),
        forall|i: int|
            0 < i < deliveries(poller, events).len() ==> deliveries(poller, events)[i - 1]
                != #[trigger] deliveries(poller, events)[i],
    decreases events.len(),
{
    if events.len() > 0 {
        let next = after(poller, events[0]);
        let later = deliveries(next, events.skip(1));
        deliveries_are_changes(next, events.skip(1));
        let all = deliveries(poller, events);
        match (poller.phase, events[0]) {
            (PollPhase::Sending { volume, muted }, PollEvent::Sent { delivered: true }) => {
                assert(all == seq![(volume, muted)] + later);
                assert forall|i: int| 0 < i < all.len() implies all[i - 1] != #[trigger] all[i] by {
                    assert(all[i] == later[i - 1]);
                    if i > 1 {
                        assert(all[i - 1] == later[i - 2]);
                    }
                }
            },
            _ => {},
        }
    }
}

/// What the receiver got last is what the watcher compares with; as long as it
/// got nothing, that is what the watcher started out with.
pub proof fn watcher_knows_the_last_delivery(poller: Poller, events: Seq<PollEvent>)
    ensures
        after_all(poller, events).last_values == (if deliveries(poller, events).len() > 0 {
            Some(deliveries(poller, events).last())
        } else {
            poller.last_values
        }),
    decreases events.len(),
{
    if events.len() > 0 {
        watcher_knows_the_last_delivery(after(poller, events[0]), events.skip(1));
    }
}

/// A watcher that has ended delivers nothing any more.
pub proof fn stopped_watcher_is_silent(poller: Poller, events: Seq<PollEvent>)
    requires
        poller.phase is Stopped,
    ensures
        deliveries(poller, events).len() == 0,
        after_all(poller, events) == poller,
    decreases events.len(),
{
    if events.len() > 0 {
        stopped_watcher_is_silent(poller, events.skip(1));
    }
}

/// A watcher that wakes up to the signal to stop ends, and so does one whose
/// receiver is gone.
pub proof fn watcher_ends(poller: Poller, now_ms: u64, last_self_change_ms: u64)
    ensures
        poller.phase is Sleeping ==> after(
            poller,
            PollEvent::Woke { stop: true, now_ms, last_self_change_ms },
        ).phase is Stopped,
        poller.phase is Sending ==> after(poller, PollEvent::Sent { delivered: false }).phase
            is Stopped,
{
}

/// A watcher that wakes up within the grace period after a change made by this
/// program goes back to sleep without looking.
pub proof fn own_changes_are_not_reported(poller: Poller, changed_at_ms: u64, now_ms: u64)
    requires
        poller.phase is Sleeping,
        now_ms < changed_at_ms + SELF_CHANGE_GRACE_MS,
    ensures
        after(
            poller,
            PollEvent::Woke { stop: false, now_ms, last_self_change_ms: changed_at_ms },
        ) == poller,
{
}

/// Whether `phases` are what a change goes through in the course of `events`.
pub open spec fn is_change_course(
    change: Change,
    events: Seq<ChangeEvent>,
    phases: Seq<ChangePhase>,
) -> bool {
    &&& phases.len() == events.len() + 1
    &&& phases[0] is Recording
    &&& forall|i: int|
        #![trigger events[i]]
        0 <= i < events.len() ==> is_phase_after(change, phases[i], events[i], phases[i + 1])
}

/// In no course of events is anything written, or the change finished, before its
/// time was noted: the watcher holds back from the change on.
pub proof fn time_is_noted_before_anything_is_written(
    change: Change,
    events: Seq<ChangeEvent>,
    phases: Seq<ChangePhase>,
    n: int,
)
    requires
        is_change_course(change, events, phases),
        0 <= n <= events.len(),
        !(action_for(change, phases[n]) is RecordTime),
    ensures
        exists|i: int| 0 <= i < n && #[trigger] events[i] is Recorded,
    decreases n,
{
    if n > 0 {
        assert(is_phase_after(change, phases[n - 1], events[n - 1], phases[n]));
        if phases[n - 1] is Recording {
            assert(events[n - 1] is Recorded);
        } else {
            time_is_noted_before_anything_is_written(change, events, phases, n - 1);
        }
    }
}

/// A change that is finished stays so, with the same outcome.
pub proof fn finished_change_stays_finished(
    change: Change,
    events: Seq<ChangeEvent>,
    phases: Seq<ChangePhase>,
    m: int,
    n: int,
)
    requires
        is_change_course(change, events, phases),
        0 <= m <= n <= events.len(),
        phases[m] is Done,
    ensures
        phases[n] == phases[m],
    decreases n - m,
{
    if m < n {
        finished_change_stays_finished(change, events, phases, m, n - 1);
        assert(is_phase_after(change, phases[n - 1], events[n - 1], phases[n]));
    }
}

/// Where there turns out to be nothing to write to, nothing is written from then
/// on: the change has failed, for that reason.
pub proof fn nothing_is_written_where_nothing_is_there(
    change: Change,
    events: Seq<ChangeEvent>,
    phases: Seq<ChangePhase>,
    m: int,
    n: int,
)
    requires
        is_change_course(change, events, phases),
        0 <= m < n <= events.len(),
        phases[m] is Probing,
        events[m] == (ChangeEvent::Probed { available: false }),
    ensures
        action_for(change, phases[n]) matches ChangeAction::Finish { outcome } && outcome
            matches Err(message) && message@ == missing_words(change),
{
    assert(is_phase_after(change, phases[m], events[m], phases[m + 1]));
    finished_change_stays_finished(change, events, phases, m + 1, n);
}

/// Something that has to be probed first is written only after it was found.
pub proof fn writing_needs_something_to_write_to(
    change: Change,
    events: Seq<ChangeEvent>,
    phases: Seq<ChangePhase>,
    n: int,
)
    requires
        is_change_course(change, events, phases),
        is_probed_first(change),
        0 <= n <= events.len(),
        phases[n] is Writing,
    ensures
        exists|i: int| 0 <= i < n && #[trigger] events[i] == (ChangeEvent::Probed { available: true }),
    decreases n,
{
    if n > 0 {
        assert(is_phase_after(change, phases[n - 1], events[n - 1], phases[n]));
        if phases[n - 1] is Writing {
            writing_needs_something_to_write_to(change, events, phases, n - 1);
        } else {
            assert(events[n - 1] == (ChangeEvent::Probed { available: true }));
        }
    }
}

/// The watcher that uses the audio system has ended before the endpoint is let
/// go of or the next watcher is started, and COM is given up last of all.
pub proof fn worker_has_ended_before_anything_it_uses(
    running: bool,
    has_endpoint: bool,
    com_initialized: bool,
    i: int,
    j: int,
)
    requires
        running,
    ensures
        ({
            let plan = shutdown_plan(running, com_initialized);
            &&& plan.contains(WorkerStep::Join)
            &&& plan.contains(WorkerStep::UninitializeCom) <==> com_initialized
            &&& 0 <= i < plan.len() && 0 <= j < plan.len() && plan[i] is Join && (
            plan[j] is ReleaseEndpoint || plan[j] is UninitializeCom) ==> i < j
            &&& 0 <= i < plan.len() && 0 <= j < plan.len() && plan[i] is ReleaseEndpoint
                && plan[j] is UninitializeCom ==> i < j
        }),
        ({
            let plan = restart_plan(running, has_endpoint);
            &&& plan.contains(WorkerStep::Join)
            &&& plan.contains(WorkerStep::Spawn) <==> has_endpoint
            &&& 0 <= i < plan.len() && 0 <= j < plan.len() && plan[i] is Join && (
            plan[j] is RenewSignal || plan[j] is Spawn) ==> i < j
        }),
{
    let down = shutdown_plan(running, com_initialized);
    assert(down[1] == WorkerStep::Join && down[2] == WorkerStep::ReleaseEndpoint);
    if com_initialized {
        assert(down[3] == WorkerStep::UninitializeCom);
    }
    let again = restart_plan(running, has_endpoint);
    assert(again[1] == WorkerStep::Join && again[2] == WorkerStep::RenewSignal);
    if has_endpoint {
        assert(again[3] == WorkerStep::ReadInitial && again[4] == WorkerStep::Spawn);
    }
}

/// The watcher looks every two seconds, and holds back for one second after a
/// change made by this program.
pub proof fn watcher_keeps_its_times()
    ensures
        POLL_INTERVAL_SECS == 2,
        SELF_CHANGE_GRACE_MS == 1000,
{
}

/// What a watcher does when it wakes up: it ends where it is told to; else it
/// sleeps on where this program made a change less than a second ago, or by its
/// clock has yet to make it; else it looks. What the receiver knows stays.
pub proof fn watcher_looks_unless_told_or_recent(
    poller: Poller,
    stop: bool,
    now_ms: u64,
    last_self_change_ms: u64,
)
    requires
        poller.phase is Sleeping,
    ensures
        ({
            let next = after(poller, PollEvent::Woke { stop, now_ms, last_self_change_ms });
            &&& next.last_values == poller.last_values
            &&& next.phase is Stopped <==> stop
            &&& next.phase is Reading <==> !stop && now_ms >= last_self_change_ms + 1000
            &&& next.phase is Sleeping <==> !stop && now_ms < last_self_change_ms + 1000
        }),
{
}

/// Every reading that differs from what the receiver knows is handed over as it
/// was read, and one that does not differ is not; the receiver knows no more for
/// that yet.
pub proof fn every_difference_is_reported(poller: Poller, v: u8, m: bool)
    requires
        poller.phase is Reading,
    ensures
        ({
            let next = after(poller, PollEvent::Readings { volume: Some(v), muted: Some(m) });
            &&& poller.last_values != Some((v, m)) ==> next.phase == (PollPhase::Sending {
                volume: v,
                muted: m,
            }) && action_in(next.phase) == (PollAction::Notify { volume: v, muted: m })
            &&& poller.last_values == Some((v, m)) ==> next.phase is Sleeping
            &&& next.last_values == poller.last_values
        }),
{
}

/// Where volume or mute could not be read, nothing is reported and the watcher
/// sleeps on, knowing what it knew.
pub proof fn failed_reading_is_passed_over(poller: Poller, volume: Option<u8>, muted: Option<bool>)
    requires
        poller.phase is Reading,
        volume is None || muted is None,
    ensures
        after(poller, PollEvent::Readings { volume, muted }).phase is Sleeping,
        after(poller, PollEvent::Readings { volume, muted }).last_values == poller.last_values,
{
}

/// Values that were handed over are what the receiver knows from then on; where
/// the receiver is gone, the watcher ends.
pub proof fn delivered_values_are_known(poller: Poller, v: u8, m: bool)
    requires
        poller.phase == (PollPhase::Sending { volume: v, muted: m }),
    ensures
        after(poller, PollEvent::Sent { delivered: true }).phase is Sleeping,
        after(poller, PollEvent::Sent { delivered: true }).last_values == Some((v, m)),
        after(poller, PollEvent::Sent { delivered: false }).phase is Stopped,
        after(poller, PollEvent::Sent { delivered: false }).last_values == poller.last_values,
{
}

/// What a watcher does next is told by its phase, and what does not belong to the
/// phase leaves the watcher as it is.
pub proof fn watcher_acts_by_its_phase(poller: Poller, event: PollEvent, v: u8, m: bool)
    ensures
        action_in(PollPhase::Sleeping) is Sleep,
        action_in(PollPhase::Reading) is Read,
        action_in(PollPhase::Stopped) is Exit,
        action_in(PollPhase::Sending { volume: v, muted: m }) == (PollAction::Notify {
            volume: v,
            muted: m,
        }),
        poller.phase is Sleeping && !(event is Woke) ==> after(poller, event) == poller,
        poller.phase is Reading && !(event is Readings) ==> after(poller, event) == poller,
        poller.phase is Sending && !(event is Sent) ==> after(poller, event) == poller,
        poller.phase is Stopped ==> after(poller, event) == poller,
{
}

/// A change made by the user is delivered in one round of the watcher, and exactly
/// then: it wakes up, reads and hands over. After the round the receiver knows
/// what was read.
pub proof fn one_round_delivers_a_change(
    poller: Poller,
    now_ms: u64,
    last_self_change_ms: u64,
    v: u8,
    m: bool,
)
    requires
        poller.phase is Sleeping,
        now_ms >= last_self_change_ms + 1000,
    ensures
        ({
            let round = seq![
                PollEvent::Woke { stop: false, now_ms, last_self_change_ms },
                PollEvent::Readings { volume: Some(v), muted: Some(m) },
                PollEvent::Sent { delivered: true },
            ];
            &&& poller.last_values != Some((v, m)) ==> deliveries(poller, round) == seq![(v, m)]
            &&& poller.last_values == Some((v, m)) ==> deliveries(poller, round).len() == 0
            &&& after_all(poller, round).phase is Sleeping
            &&& after_all(poller, round).last_values == Some((v, m))
        }),
{
    let round = seq![
        PollEvent::Woke { stop: false, now_ms, last_self_change_ms },
        PollEvent::Readings { volume: Some(v), muted: Some(m) },
        PollEvent::Sent { delivered: true },
    ];
    reveal_with_fuel(deliveries, 4);
    reveal_with_fuel(after_all, 4);
    assert(round.skip(1)[0] == round[1]);
    assert(round.skip(1).skip(1)[0] == round[2]);
    assert(round.skip(1).skip(1).skip(1).len() == 0);
    if poller.last_values != Some((v, m)) {
        assert(deliveries(poller, round) =~= seq![(v, m)]);
    }
}

/// A watcher starts out asleep, knowing volume and mute where both could be read
/// and nothing else: its first look is reported unless it finds just those.
pub proof fn watcher_starts_with_both_values_or_none(
    volume: Result<u8, String>,
    muted: Result<bool, String>,
    initial: Option<(u8, bool)>,
    poller: Poller,
)
    requires
        call_ensures(initial_values, (volume, muted), initial),
        call_ensures(Poller::new, (initial,), poller),
    ensures
        poller.phase is Sleeping,
        poller.last_values == initial,
        volume is Ok && muted is Ok ==> initial == Some((volume->Ok_0, muted->Ok_0)),
        volume is Err || muted is Err ==> initial is None,
{
}

/// A call that answers with a status succeeded exactly where the status is zero;
/// else the message says which call failed and ends with the status.
pub proof fn status_decides(call: AudioCall, status: i32, r: Result<(), String>)
    requires
        call_ensures(check_status, (call, status), r),
    ensures
        r is Ok <==> status == 0,
        r matches Err(message) ==> exists|t: Seq<char>|
            message@ == #[trigger] (words_for(call) + t) && (status > 0 ==> text::number_in(t)
                == status) && (status < 0 ==> t[0] == '-' && text::number_in(t.skip(1))
                == -status),
{
    failures_are_told_apart(call);
    text::signed_decimal_reads_back(status as int);
    if status != 0 {
        let t = text::signed_decimal(status as int);
        assert(r->Err_0@ == words_for(call) + t);
    }
}

/// With what words each call is said to have failed.
pub open spec fn words_for(call: AudioCall) -> Seq<char> {
    if call is SetVolume {
        "Failed to set volume: "@
    } else if call is GetVolume {
        "Failed to get volume: "@
    } else if call is SetMute {
        "Failed to set mute: "@
    } else if call is GetMute {
        "Failed to get mute state: "@
    } else if call is GetDefaultOutputDevice {
        "Failed to get default output device: "@
    } else if call is GetDefaultAudioEndpoint {
        "Failed to get default audio endpoint: "@
    } else if call is CreateDeviceEnumerator {
        "Failed to create device enumerator: "@
    } else if call is ActivateEndpointVolume {
        "Failed to activate endpoint volume: "@
    } else {
        "Failed to initialize COM: "@
    }
}

/// Each call has its own words.
pub proof fn failures_are_told_apart(call: AudioCall)
    ensures
        failure_words(call) == words_for(call),
{
}

/// What a call returned is passed on as it is, and its error is put behind the
/// words for the call.
pub proof fn outcome_of_a_call_is_kept<T>(
    call: AudioCall,
    outcome: Result<T, String>,
    r: Result<T, String>,
    detail: &str,
    message: String,
)
    requires
        call_ensures(check_call::<T>, (call, outcome), r),
        call_ensures(failure_message, (call, detail), message),
    ensures
        outcome matches Ok(value) ==> r == Ok::<T, String>(value),
        outcome matches Err(e) ==> r matches Err(m) && m@ == words_for(call) + e@,
        message@ == words_for(call) + detail@,
{
    failures_are_told_apart(call);
}

/// A default device is accepted exactly where the call succeeded and gave a
/// device, and a device exactly where its volume can be controlled.
pub proof fn device_is_accepted_where_usable(
    status: i32,
    device_id: u32,
    named: Result<u32, String>,
    has_volume: bool,
    supported: Result<u32, String>,
)
    requires
        call_ensures(accept_default_device, (status, device_id), named),
        call_ensures(accept_volume_support, (device_id, has_volume), supported),
    ensures
        named is Ok <==> status == 0 && device_id != 0,
        named matches Ok(id) ==> id == device_id,
        status == 0 && device_id == 0 ==> (named matches Err(message) && message@
            == "No default output device found"@),
        supported is Ok <==> has_volume,
        supported matches Ok(id) ==> id == device_id,
        supported matches Err(message) ==> message@
            == "Default output device does not support volume control"@,
{
}

/// COM can be used exactly where its initialization answered that it was done just
/// now or before; volume control can be used exactly with COM and an endpoint.
pub proof fn com_is_usable_once_initialized(
    hresult: i32,
    detail: &str,
    r: Result<(), String>,
    has_endpoint: bool,
    com_initialized: bool,
    available: bool,
)
    requires
        call_ensures(accept_com, (hresult, detail), r),
        call_ensures(is_available, (has_endpoint, com_initialized), available),
    ensures
        r is Ok <==> hresult == 0 || hresult == 1,
        r matches Err(message) ==> message@ == "Failed to initialize COM: "@ + detail@,
        available <==> has_endpoint && com_initialized,
{
    failures_are_told_apart(AudioCall::InitializeCom);
}

/// An endpoint is given where there is one, and missed where there is none.
pub proof fn endpoint_is_the_one_held<E>(endpoint: Option<E>, r: Result<E, String>)
    requires
        call_ensures(require_endpoint::<E>, (endpoint,), r),
    ensures
        endpoint matches Some(e) ==> r == Ok::<E, String>(e),
        endpoint is None ==> (r matches Err(message) && message@
            == "Endpoint volume not available"@),
{
}

/// The steps of a change, from the first: its time is noted; then, but for the
/// volume of a device, it is found out whether there is anything to write to; then
/// it is written.
pub proof fn change_goes_through_its_steps(
    change: Change,
    event: ChangeEvent,
    phase: ChangePhase,
    next: ChangePhase,
    action: ChangeAction,
)
    requires
        call_ensures(change_step, (change, phase, event), next),
        call_ensures(change_action, (change, &next), action),
    ensures
        phase is Recording && event is Recorded && change is DeviceVolume ==> next is Writing,
        phase is Recording && event is Recorded && !(change is DeviceVolume) ==> next is Probing,
        phase is Probing && event == (ChangeEvent::Probed { available: true }) ==> next is Writing,
        phase is Probing && event == (ChangeEvent::Probed { available: false }) ==> next is Done,
        phase is Writing && (event is Status || event is Answer) ==> next is Done,
        phase is Recording && !(event is Recorded) ==> next == phase,
        phase is Probing && !(event is Probed) ==> next == phase,
        phase is Writing && (event is Recorded || event is Probed) ==> next == phase,
        phase is Done ==> next == phase,
        next is Recording ==> action is RecordTime,
        next is Probing ==> action is Probe,
        next matches ChangePhase::Done { outcome } ==> action == (ChangeAction::Finish { outcome }),
        next is Writing ==> match change {
            Change::DeviceVolume { percent } => action == (ChangeAction::WriteVolume { percent }),
            Change::EndpointVolume { percent } => action == (ChangeAction::WriteVolume {
                percent,
            }),
            Change::EndpointMute { muted } => action == (ChangeAction::WriteMute { muted }),
            Change::DeviceMute { muted: true } => action == (ChangeAction::WriteSwitch {
                value: 1,
            }),
            Change::DeviceMute { muted: false } => action == (ChangeAction::WriteSwitch {
                value: 0,
            }),
        },
{
}

/// What comes of a change: it is made exactly where the audio system answers with
/// success. Else it is said what failed, and why, or what is missing.
pub proof fn change_is_made_where_the_system_says_so(
    change: Change,
    status: i32,
    answer: Result<(), String>,
    by_status: ChangePhase,
    by_answer: ChangePhase,
    missing: ChangePhase,
)
    requires
        call_ensures(
            change_step,
            (change, ChangePhase::Writing, ChangeEvent::Status { status }),
            by_status,
        ),
        call_ensures(
            change_step,
            (change, ChangePhase::Writing, ChangeEvent::Answer { answer }),
            by_answer,
        ),
        call_ensures(
            change_step,
            (change, ChangePhase::Probing, ChangeEvent::Probed { available: false }),
            missing,
        ),
    ensures
        ({
            let words = if change is DeviceVolume || change is EndpointVolume {
                "Failed to set volume: "@
            } else {
                "Failed to set mute: "@
            };
            &&& by_status matches ChangePhase::Done { outcome } && (outcome is Ok <==> status == 0)
                && (outcome matches Err(m) ==> m@ == words + text::signed_decimal(status as int))
            &&& by_answer matches ChangePhase::Done { outcome } && (outcome is Ok <==> answer is Ok)
                && (outcome matches Err(m) ==> m@ == words + answer->Err_0@)
            &&& missing matches ChangePhase::Done { outcome } && outcome matches Err(m) && (change
                is DeviceMute ==> m@ == "Device does not support mute"@) && (change
                is EndpointVolume || change is EndpointMute ==> m@
                == "Endpoint volume not available"@)
        }),
{
    failures_are_told_apart(AudioCall::SetVolume);
    failures_are_told_apart(AudioCall::SetMute);
}

/// A device without a mute switch counts as unmuted and is not read; one with a
/// switch is muted exactly where the switch is not zero, and where it could not be
/// read, it is said why.
pub proof fn mute_is_what_the_switch_says(phase: MutePhase, event: MuteEvent, next: MutePhase)
    requires
        call_ensures(mute_step, (phase, event), next),
    ensures
        phase is Probing && event == (MuteEvent::Probed { available: true }) ==> next is Reading,
        phase is Probing && event == (MuteEvent::Probed { available: false }) ==> next == (
        MutePhase::Done { outcome: Ok(false) }),
        phase is Reading ==> (event matches MuteEvent::Read { status, value } ==> next matches
            MutePhase::Done { outcome } && (outcome is Ok <==> status == 0) && (outcome matches Ok(
            muted,
        ) ==> (muted <==> value != 0)) && (outcome matches Err(m) ==> m@
            == "Failed to get mute state: "@ + text::signed_decimal(status as int))),
        phase is Probing && event is Read ==> next == phase,
        phase is Reading && event is Probed ==> next == phase,
        phase is Done ==> next == phase,
{
    failures_are_told_apart(AudioCall::GetMute);
}

/// Setting a new receiver: a running watcher is told to stop and awaited, then the
/// next gets a signal of its own, and, where there is an endpoint, values to start
/// with before it is started. Ending: the watcher is told to stop and awaited, the
/// endpoint is let go of, and COM is given up where it was initialized.
pub proof fn watchers_are_replaced_in_order(
    running: bool,
    has_endpoint: bool,
    com_initialized: bool,
    restart: Vec<WorkerStep>,
    shutdown: Vec<WorkerStep>,
)
    requires
        call_ensures(restart_steps, (running, has_endpoint), restart),
        call_ensures(shutdown_steps, (running, com_initialized), shutdown),
    ensures
        restart@.first() is SignalStop && shutdown@.first() is SignalStop,
        restart@.contains(WorkerStep::Join) <==> running,
        shutdown@.contains(WorkerStep::Join) <==> running,
        running ==> restart@[1] is Join && restart@[2] is RenewSignal,
        !running ==> restart@[1] is RenewSignal,
        running ==> shutdown@[1] is Join && shutdown@[2] is ReleaseEndpoint,
        !running ==> shutdown@[1] is ReleaseEndpoint,
        has_endpoint ==> restart@.last() is Spawn && restart@[restart@.len() - 2] is ReadInitial,
        restart@.contains(WorkerStep::Spawn) <==> has_endpoint,
        com_initialized ==> shutdown@.last() is UninitializeCom,
        shutdown@.contains(WorkerStep::UninitializeCom) <==> com_initialized,
        restart@.len() == 2 + (if running {
            1int
        } else {
            0
        }) + (if has_endpoint {
            2int
        } else {
            0
        }),
        shutdown@.len() == 2 + (if running {
            1int
        } else {
            0
        }) + (if com_initialized {
            1int
        } else {
            0
        }),
{
    let (up, down) = (restart@, shutdown@);
    if running {
        assert(up[1] == WorkerStep::Join && up[2] == WorkerStep::RenewSignal);
        assert(down[1] == WorkerStep::Join && down[2] == WorkerStep::ReleaseEndpoint);
    } else {
        assert(up[1] == WorkerStep::RenewSignal);
        assert(down[1] == WorkerStep::ReleaseEndpoint);
    }
    if has_endpoint {
        assert(up[up.len() - 1] == WorkerStep::Spawn);
        assert(up[up.len() - 2] == WorkerStep::ReadInitial);
    }
    if com_initialized {
        assert(down[down.len() - 1] == WorkerStep::UninitializeCom);
    }
}

/// One step of a watcher: it wakes up to a look, or to its end, or to more sleep;
/// it reports every difference that it reads; and it knows what was delivered.
pub proof fn step_reports_every_difference(
    poller: &mut Poller,
    event: PollEvent,
    action: PollAction,
)
    requires
        call_ensures(Poller::step, (poller, event), action),
    ensures
        ({
            let (was, now) = (*old(poller), *final(poller));
            &&& was.phase is Sleeping ==> (event matches PollEvent::Woke {
                stop,
                now_ms,
                last_self_change_ms,
            } ==> now.last_values == was.last_values && (action is Exit <==> stop) && (action
                is Read <==> !stop && now_ms >= last_self_change_ms + 1000) && (action is Sleep
                <==> !stop && now_ms < last_self_change_ms + 1000))
            &&& was.phase is Reading ==> (event matches PollEvent::Readings {
                volume: Some(v),
                muted: Some(m),
            } ==> now.last_values == was.last_values && (was.last_values != Some((v, m)) ==> action
                == (PollAction::Notify { volume: v, muted: m })) && (was.last_values == Some((v, m))
                ==> action is Sleep))
            &&& was.phase is Reading ==> (event matches PollEvent::Readings { volume, muted } ==> (
            volume is None || muted is None) ==> action is Sleep && now.last_values
                == was.last_values)
            &&& was.phase matches PollPhase::Sending { volume, muted } ==> event matches
                PollEvent::Sent { delivered } ==> (delivered ==> action is Sleep && now.last_values
                == Some((volume, muted))) && (!delivered ==> action is Exit && now.last_values
                == was.last_values)
            &&& was.phase is Stopped ==> action is Exit && now == was
        }),
{
}

} // verus!
