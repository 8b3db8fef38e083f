//! The analog input board: its channel list, the size of its scan buffer,
//! the timestamps embedded in its scans, and the decisions of its sampling
//! loop.

use crate::config::{BoardConfig, ChannelConfig, Gain};
use crate::error::DaqError;
use crate::results::PowerDnaError;
use vstd::prelude::*;

verus! {

/// Bytes per raw sample.
pub const SAMPLE_SIZE: u32 = 2;

/// Frames in the board's circular buffer.
pub const FRAMES: u32 = 12;

/// Entries that every board appends to its channel list to have the scan's
/// timestamp delivered with the data.
pub const TIMESTAMP_CHANNELS: usize = 2;

/// The values by which the driver names gains and the timestamp channel in a
/// channel list.
#[derive(Clone, Copy, Debug)]
pub struct ChannelCodes {
    pub gain_one: u32,
    pub gain_two: u32,
    pub gain_five: u32,
    pub gain_ten: u32,
    pub timestamp: u32,
}

impl ChannelCodes {
    pub open spec fn gain_code(self, gain: Gain) -> u32 {
        match gain {
            Gain::One => self.gain_one,
            Gain::Two => self.gain_two,
            Gain::Five => self.gain_five,
            Gain::Ten => self.gain_ten,
        }
    }

    /// The driver's name for a gain.
    pub fn gain(&self, gain: Gain) -> (code: u32)
        ensures
            code == self.gain_code(gain),
    {
        match gain {
            Gain::One => self.gain_one,
            Gain::Two => self.gain_two,
            Gain::Five => self.gain_five,
            Gain::Ten => self.gain_ten,
        }
    }
}

/// A channel-list entry: the line in the low byte, the gain above it.
pub open spec fn channel_code(id: u8, gain_code: u32) -> u32 {
    (id as u32) | (gain_code << 8)
}

/// Both fields can be read back from an entry, as long as the gain code
/// leaves the top byte free.
pub proof fn lemma_channel_code_fields(id: u8, gain_code: u32)
    requires
        gain_code < 0x100_0000,
    ensures
        channel_code(id, gain_code) & 0xff == id,
        channel_code(id, gain_code) >> 8 == gain_code,
{
    assert(((id as u32) | (gain_code << 8)) & 0xff == id) by (bit_vector);
    assert(((id as u32) | (gain_code << 8)) >> 8 == gain_code) by (bit_vector)
        requires
            gain_code < 0x100_0000,
    ;
}

/// The channel list a board is armed with: one entry per configured channel,
/// in order, then the two entries that request the timestamp.
pub open spec fn channel_list(channels: Seq<ChannelConfig>, codes: ChannelCodes) -> Seq<u32> {
    Seq::new(
        channels.len() + TIMESTAMP_CHANNELS as nat,
        |at: int|
            if at < channels.len() {
                channel_code(channels[at].id, codes.gain_code(Gain::of(channels[at].gain as int).unwrap()))
            } else if at == channels.len() {
                0u32
            } else {
                codes.timestamp
            },
    )
}

/// Every channel asks for a gain the hardware offers.
pub open spec fn gains_valid(channels: Seq<ChannelConfig>) -> bool {
    forall|at: int| 0 <= at < channels.len() ==> Gain::of((#[trigger] channels[at]).gain as int) is Some
}

/// The parameters of the board's acquisition buffer.
#[derive(Clone, Copy, Debug, PartialEq, Eq, Structural)]
pub struct AcbConfig {
    /// Bytes per sample.
    pub sample_size: u32,
    /// Samples per scan, the timestamp entries included.
    pub scan_size: u32,
    /// Scans per frame.
    pub frame_size: u32,
    /// Frames in the circular buffer.
    pub frames: u32,
}

/// An analog input board as a mathematical value.
pub struct Ai201View {
    pub device: u8,
    pub freq: u32,
    pub channels: Seq<u32>,
    pub acb_cfg: AcbConfig,
    pub buffer_size: int,
}

impl Ai201View {
    pub open spec fn wf(self) -> bool {
        &&& self.channels.len() >= TIMESTAMP_CHANNELS
        &&& self.acb_cfg.scan_size == self.channels.len()
        &&& self.acb_cfg.sample_size == SAMPLE_SIZE
        &&& self.acb_cfg.frames == FRAMES
        &&& self.buffer_size == self.acb_cfg.frame_size * self.acb_cfg.scan_size
        &&& self.buffer_size <= u32::MAX
    }
}

/// The board that a configuration describes, or the reason it describes
/// none: a gain the hardware does not offer, more channels than a scan can
/// count, or a scan buffer larger than the driver can address.
pub open spec fn planned_board(
    freq: u32,
    frame_size: u32,
    config: BoardConfig,
    codes: ChannelCodes,
) -> Result<Ai201View, DaqError> {
    let scan_size = config.channels@.len() + TIMESTAMP_CHANNELS;
    if !gains_valid(config.channels@) {
        Err(DaqError::GainConfigError)
    } else if scan_size > u32::MAX {
        Err(DaqError::ChannelConfigError)
    } else if frame_size * scan_size > u32::MAX {
        Err(DaqError::BufferError)
    } else {
        Ok(
            Ai201View {
                device: config.device,
                freq,
                channels: channel_list(config.channels@, codes),
                acb_cfg: AcbConfig {
                    sample_size: SAMPLE_SIZE,
                    scan_size: scan_size as u32,
                    frame_size,
                    frames: FRAMES,
                },
                buffer_size: frame_size * scan_size,
            },
        )
    }
}

/// The timestamp of scan `scan` in a raw buffer with `scan_size` samples per
/// scan: the last two samples of the scan, high half first.
pub open spec fn timestamp_at(raw: Seq<u16>, scan_size: int, scan: int) -> int {
    raw[(scan + 1) * scan_size - 2] * 0x1_0000 + raw[(scan + 1) * scan_size - 1]
}

/// The bits by which the driver reports what happened on a board's buffer.
#[derive(Clone, Copy, Debug)]
pub struct EventMasks {
    pub frame_done: u32,
    pub packet_lost: u32,
    pub buffer_error: u32,
    pub packet_oob: u32,
    pub buffer_done: u32,
}

impl EventMasks {
    pub open spec fn interest(self) -> u32 {
        self.frame_done | self.packet_lost | self.buffer_error | self.packet_oob | self.buffer_done
    }

    /// The events a board asks to be woken for: all five.
    pub fn registered(&self) -> (mask: u32)
        ensures
            mask == self.interest(),
    {
        self.frame_done | self.packet_lost | self.buffer_error | self.packet_oob | self.buffer_done
    }
}

/// Where a board's sampling loop stands.
#[derive(Clone, Copy, Debug, PartialEq, Eq, Structural)]
pub enum SampleState {
    /// About to wait for a hardware event.
    Waiting,
    /// About to pull the next batch of scans.
    Draining,
    /// The loop has ended.
    Stopped,
}

/// What the loop observed since its last decision.
#[derive(Clone, Copy, Debug)]
pub enum SampleEvent {
    /// The wait returned: an event bitmask, or a driver failure.
    Waited(Result<u32, PowerDnaError>),
    /// A batch was pulled, converted and sent to the muxer; the driver
    /// reports that `remaining` scans are still buffered.
    Drained { remaining: u32 },
    /// Pulling or converting a batch failed.
    DrainFailed,
    /// The muxer no longer receives.
    QueueClosed,
}

/// The decision of the sampling loop: where it goes next, and which
/// non-fatal conditions the event reported.
#[derive(Clone, Copy, Debug, PartialEq, Eq, Structural)]
pub struct SampleStep {
    pub next: SampleState,
    pub packet_lost: bool,
    pub buffer_error: bool,
    pub packet_oob: bool,
}

/// A step that reports no condition.
pub open spec fn quiet(next: SampleState) -> SampleStep {
    SampleStep { next, packet_lost: false, buffer_error: false, packet_oob: false }
}

/// The rules of the sampling loop.
///
/// A wait that times out ends the loop if a stop was asked for and is
/// repeated otherwise; any other failed wait ends the loop. Lost packets,
/// buffer errors and out-of-bounds packets are reported and sampling goes on.
/// Scans are pulled only when a frame is done, and pulling continues while
/// more than one frame's worth remains buffered. A failed pull and a closed
/// queue end the loop. An event that does not belong to the state the loop
/// is in ends it too, and a loop that has ended stays so.
pub open spec fn sample_step(
    state: SampleState,
    event: SampleEvent,
    stop: bool,
    masks: EventMasks,
    frame_size: u32,
) -> SampleStep {
    match (state, event) {
        (SampleState::Waiting, SampleEvent::Waited(Err(PowerDnaError::TimeoutError))) => quiet(
            if stop {
                SampleState::Stopped
            } else {
                SampleState::Waiting
            },
        ),
        (SampleState::Waiting, SampleEvent::Waited(Err(_))) => quiet(SampleState::Stopped),
        (SampleState::Waiting, SampleEvent::Waited(Ok(events))) => SampleStep {
            next: if events & masks.frame_done != 0 {
                SampleState::Draining
            } else {
                SampleState::Waiting
            },
            packet_lost: events & masks.packet_lost != 0,
            buffer_error: events & masks.buffer_error != 0,
            packet_oob: events & masks.packet_oob != 0,
        },
        (SampleState::Draining, SampleEvent::Drained { remaining }) => quiet(
            if remaining > frame_size {
                SampleState::Draining
            } else {
                SampleState::Waiting
            },
        ),
        _ => quiet(SampleState::Stopped),
    }
}

/// Once a stop was asked for, a board that waits ends its loop at the next
/// timeout; without one it waits again.
pub proof fn lemma_stop_observed_at_timeout(stop: bool, masks: EventMasks, frame_size: u32)
    ensures
        sample_step(
            SampleState::Waiting,
            SampleEvent::Waited(Err(PowerDnaError::TimeoutError)),
            stop,
            masks,
            frame_size,
        ).next == if stop {
            SampleState::Stopped
        } else {
            SampleState::Waiting
        },
{
}

/// The stop flag is looked at nowhere but at a timeout.
pub proof fn lemma_stop_only_matters_at_timeout(
    state: SampleState,
    event: SampleEvent,
    masks: EventMasks,
    frame_size: u32,
)
    requires
        !(state == SampleState::Waiting && event == SampleEvent::Waited(
            Err(PowerDnaError::TimeoutError),
        )),
    ensures
        sample_step(state, event, true, masks, frame_size) == sample_step(
            state,
            event,
            false,
            masks,
            frame_size,
        ),
{
}

/// A loop that has ended never resumes, and a successful wait never ends a
/// loop, whatever it reports.
pub proof fn lemma_sampling_ends_for_good(
    event: SampleEvent,
    events: u32,
    stop: bool,
    masks: EventMasks,
    frame_size: u32,
)
    ensures
        sample_step(SampleState::Stopped, event, stop, masks, frame_size).next
            == SampleState::Stopped,
        sample_step(SampleState::Waiting, SampleEvent::Waited(Ok(events)), stop, masks, frame_size).next
            != SampleState::Stopped,
{
}

/// One analog input board, configured.
pub struct Ai201 {
    device: u8,
    freq: u32,
    channels: Vec<u32>,
    acb_cfg: AcbConfig,
    buffer_size: usize,
}

impl View for Ai201 {
    type V = Ai201View;

    closed spec fn view(&self) -> Ai201View {
        Ai201View {
            device: self.device,
            freq: self.freq,
            channels: self.channels@,
            acb_cfg: self.acb_cfg,
            buffer_size: self.buffer_size as int,
        }
    }
}

impl Ai201 {
    /// Works out what a board is armed with from its configuration.
    #[verifier::loop_isolation(false)]
    pub fn new(freq: u32, frame_size: u32, board_config: &BoardConfig, codes: &ChannelCodes) -> (board:
        Result<Ai201, DaqError>)
        ensures
            match board {
                Ok(b) => planned_board(freq, frame_size, *board_config, *codes) == Ok::<
                    Ai201View,
                    DaqError,
                >(b@) && b@.wf(),
                Err(e) => planned_board(freq, frame_size, *board_config, *codes) == Err::<
                    Ai201View,
                    DaqError,
                >(e),
            },
    {
        let configured = board_config.channels.len();
        let mut channels: Vec<u32> = Vec::new();
        let mut at: usize = 0;
        while at < configured
            invariant
                at <= configured,
                channels@.len() == at,
                forall|k: int|
                    0 <= k < at ==> Gain::of((#[trigger] board_config.channels@[k]).gain as int) is Some,
                forall|k: int|
                    0 <= k < at ==> #[trigger] channels@[k] == channel_list(
                        board_config.channels@,
                        *codes,
                    )[k],
            decreases configured - at,
        {
            let channel = board_config.channels[at];
            let gain = match Gain::from_u64(channel.gain as u64) {
                Some(gain) => gain,
                None => {
                    return Err(DaqError::GainConfigError);
                },
            };
            channels.push((channel.id as u32) | (codes.gain(gain) << 8));
            at += 1;
        }
        channels.push(0);
        channels.push(codes.timestamp);
        assert(channels@ =~= channel_list(board_config.channels@, *codes));
        if channels.len() > u32::MAX as usize {
            return Err(DaqError::ChannelConfigError);
        }
        let scan_size = channels.len() as u32;
        let buffer_size = match frame_size.checked_mul(scan_size) {
            Some(size) => size,
            None => {
                return Err(DaqError::BufferError);
            },
        };
        Ok(
            Ai201 {
                device: board_config.device,
                freq,
                channels,
                acb_cfg: AcbConfig { sample_size: SAMPLE_SIZE, scan_size, frame_size, frames: FRAMES },
                buffer_size: buffer_size as usize,
            },
        )
    }

    pub fn device(&self) -> (device: u8)
        ensures
            device == self@.device,
    {
        self.device
    }

    /// The requested sampling frequency.
    pub fn freq(&self) -> (freq: u32)
        ensures
            freq == self@.freq,
    {
        self.freq
    }

    /// The channel list to arm the board with.
    pub fn channels(&self) -> (channels: &Vec<u32>)
        ensures
            channels@ == self@.channels,
    {
        &self.channels
    }

    pub fn acb_cfg(&self) -> (acb_cfg: AcbConfig)
        ensures
            acb_cfg == self@.acb_cfg,
    {
        self.acb_cfg
    }

    /// Channel readings per scan, without the timestamp entries.
    pub fn configured_channels(&self) -> (count: usize)
        requires
            self@.wf(),
        ensures
            count == self@.channels.len() - TIMESTAMP_CHANNELS,
    {
        self.channels.len() - TIMESTAMP_CHANNELS
    }

    /// Samples in the raw scan buffer: one frame's worth.
    pub fn buffer_size(&self) -> (size: usize)
        ensures
            size == self@.buffer_size,
    {
        self.buffer_size
    }

    /// The number of raw samples in `scans` scans, if that many scans fit
    /// the board's scan buffer. A batch is converted only when they do.
    pub fn batch_samples(&self, scans: u32) -> (samples: Option<u32>)
        requires
            self@.wf(),
        ensures
            samples is Some <==> scans * self@.acb_cfg.scan_size <= self@.buffer_size,
            samples matches Some(count) ==> count == scans * self@.acb_cfg.scan_size,
    {
        match scans.checked_mul(self.acb_cfg.scan_size) {
            Some(count) => if count as usize <= self.buffer_size {
                Some(count)
            } else {
                None
            },
            None => None,
        }
    }

    /// Decides how the sampling loop goes on after `event`.
    pub fn sample(&self, state: SampleState, event: SampleEvent, stop: bool, masks: &EventMasks) -> (step:
        SampleStep)
        ensures
            step == sample_step(state, event, stop, *masks, self@.acb_cfg.frame_size),
    {
        let stopped = SampleStep {
            next: SampleState::Stopped,
            packet_lost: false,
            buffer_error: false,
            packet_oob: false,
        };
        match state {
            SampleState::Waiting => match event {
                SampleEvent::Waited(Err(PowerDnaError::TimeoutError)) => SampleStep {
                    next: if stop {
                        SampleState::Stopped
                    } else {
                        SampleState::Waiting
                    },
                    ..stopped
                },
                SampleEvent::Waited(Err(_)) => stopped,
                SampleEvent::Waited(Ok(events)) => SampleStep {
                    next: if events & masks.frame_done != 0 {
                        SampleState::Draining
                    } else {
                        SampleState::Waiting
                    },
                    packet_lost: events & masks.packet_lost != 0,
                    buffer_error: events & masks.buffer_error != 0,
                    packet_oob: events & masks.packet_oob != 0,
                },
                _ => stopped,
            },
            SampleState::Draining => match event {
                SampleEvent::Drained { remaining } => SampleStep {
                    next: if remaining > self.acb_cfg.frame_size {
                        SampleState::Draining
                    } else {
                        SampleState::Waiting
                    },
                    ..stopped
                },
                _ => stopped,
            },
            SampleState::Stopped => stopped,
        }
    }

    /// Reads the timestamp of each of the first `scans` scans of a raw
    /// buffer. There is none to read when the buffer is too short for that
    /// many scans.
    #[verifier::loop_isolation(false)]
    pub fn extract_timestamps(&self, raw_buffer: &Vec<u16>, scans: usize) -> (timestamps: Option<
        Vec<u32>,
    >)
        requires
            self@.wf(),
        ensures
            timestamps is Some <==> scans * self@.channels.len() <= raw_buffer@.len(),
            timestamps matches Some(t) ==> {
                &&& t@.len() == scans
                &&& forall|scan: int|
                    0 <= scan < scans ==> #[trigger] t@[scan] == timestamp_at(
                        raw_buffer@,
                        self@.channels.len() as int,
                        scan,
                    )
            },
    {
        let scan_size = self.channels.len();
        let length = raw_buffer.len();
        if scans > length / scan_size {
            proof {
                lemma_scans_exceed(raw_buffer@.len() as int, scan_size as int, scans as int);
            }
            return None;
        }
        proof {
            lemma_scans_fit(raw_buffer@.len() as int, scan_size as int, scans as int, scans as int);
        }
        let mut timestamps: Vec<u32> = Vec::new();
        let mut scan: usize = 0;
        while scan < scans
            invariant
                scan <= scans,
                timestamps@.len() == scan,
                forall|k: int|
                    0 <= k < scan ==> #[trigger] timestamps@[k] == timestamp_at(
                        raw_buffer@,
                        scan_size as int,
                        k,
                    ),
            decreases scans - scan,
        {
            proof {
                lemma_scans_fit(
                    raw_buffer@.len() as int,
                    scan_size as int,
                    scans as int,
                    scan + 1,
                );
            }
            let end = (scan + 1) * scan_size;
            let upper = raw_buffer[end - 2];
            let lower = raw_buffer[end - 1];
            assert((((upper as u32) << 16) | (lower as u32)) == upper * 0x1_0000 + lower)
                by (bit_vector);
            timestamps.push(((upper as u32) << 16) | (lower as u32));
            scan += 1;
        }
        Some(timestamps)
    }
}

proof fn lemma_scans_fit(length: int, scan_size: int, scans: int, upto: int)
    by (nonlinear_arith)
    requires
        0 < scan_size,
        0 <= length,
        0 <= upto <= scans <= length / scan_size,
    ensures
        0 <= upto * scan_size <= scans * scan_size <= length,
        upto > 0 ==> upto * scan_size >= scan_size,
{
}

proof fn lemma_scans_exceed(length: int, scan_size: int, scans: int)
    by (nonlinear_arith)
    requires
        0 < scan_size,
        0 <= length,
        scans > length / scan_size,
    ensures
        scans * scan_size > length,
{
}

} // verus!
