//! The digital output board: the pulse it drives when triggered, and the
//! decisions of its edge-detection loop.

use crate::config::OutputConfig;
use crate::dataframe::BuzzerEventArgs;
use crate::results::PowerDnaError;
use vstd::prelude::*;

verus! {

/// The value that sets every output line high.
pub const LINES_HIGH: u32 = 0xffff_ffff;

/// The value that sets every output line low.
pub const LINES_LOW: u32 = 0;

/// How long the lines stay high during a pulse, in milliseconds.
pub const SETTLE_MILLIS: u64 = 100;

/// One step of driving an output board.
#[derive(Clone, Copy, Debug, PartialEq, Eq, Structural)]
pub enum OutputAction {
    /// Write `value` to the lines of board `device`.
    Write { device: u8, value: u32 },
    /// Suspend the calling task for `millis` milliseconds.
    Settle { millis: u64 },
}

/// One pulse on a board: all lines high, the settle time, all lines low.
pub open spec fn pulse(device: u8) -> Seq<OutputAction> {
    seq![
        OutputAction::Write { device, value: LINES_HIGH },
        OutputAction::Settle { millis: SETTLE_MILLIS },
        OutputAction::Write { device, value: LINES_LOW },
    ]
}

/// The value by which the driver names a change on a digital input.
#[derive(Clone, Copy, Debug)]
pub struct EdgeCodes {
    pub di_change: u32,
}

/// An asynchronous event of the chassis, decoded into host byte order.
#[derive(Clone, Copy, Debug, PartialEq, Eq, Structural)]
pub struct EdgeEvent {
    /// The driver's name for the kind of event.
    pub kind: u32,
    /// When the chassis saw the change.
    pub timestamp: u64,
    /// Lines that went from low to high.
    pub rising: u64,
    /// Lines that went from high to low.
    pub falling: u64,
}

/// What the edge-detection loop observed since its last decision.
#[derive(Clone, Copy, Debug)]
pub enum EdgeInput {
    /// The receive returned: an event, or a driver failure.
    Received(Result<EdgeEvent, PowerDnaError>),
    /// The sink no longer receives.
    SinkClosed,
}

/// The decision of the edge-detection loop.
#[derive(Clone, Copy, Debug, PartialEq, Eq, Structural)]
pub enum EdgeStep {
    /// Receive again.
    Continue,
    /// Forward the event under the board's topic, then receive again.
    Emit(BuzzerEventArgs),
    /// End the loop.
    Stop,
}

/// The rules of the edge-detection loop.
///
/// A receive that times out ends the loop if a stop was asked for and is
/// repeated otherwise; any other failure ends the loop, and so do an event
/// of another kind than a line change, a timestamp that does not fit 32
/// bits, and a closed sink. A line change is forwarded only when a line
/// rose.
pub open spec fn edge_step(input: EdgeInput, stop: bool, codes: EdgeCodes) -> EdgeStep {
    match input {
        EdgeInput::Received(Err(PowerDnaError::TimeoutError)) => if stop {
            EdgeStep::Stop
        } else {
            EdgeStep::Continue
        },
        EdgeInput::Received(Err(_)) => EdgeStep::Stop,
        EdgeInput::Received(Ok(event)) => if event.kind != codes.di_change {
            EdgeStep::Stop
        } else if event.timestamp > u32::MAX {
            EdgeStep::Stop
        } else if event.rising != 0 {
            EdgeStep::Emit(BuzzerEventArgs { timestamp: event.timestamp as u32 })
        } else {
            EdgeStep::Continue
        },
        EdgeInput::SinkClosed => EdgeStep::Stop,
    }
}

/// Nothing is forwarded but the timestamp of a line change with a rising
/// edge.
pub proof fn lemma_only_rising_edges_are_forwarded(
    input: EdgeInput,
    stop: bool,
    codes: EdgeCodes,
    args: BuzzerEventArgs,
)
    requires
        edge_step(input, stop, codes) == EdgeStep::Emit(args),
    ensures
        input matches EdgeInput::Received(Ok(event)) && event.kind == codes.di_change
            && event.rising != 0 && event.timestamp == args.timestamp,
{
}

/// An output board as a mathematical value.
pub struct Dio405View {
    pub device: u8,
    pub topic: Seq<char>,
}

/// One digital output board, configured.
pub struct Dio405 {
    device: u8,
    topic: String,
}

impl View for Dio405 {
    type V = Dio405View;

    closed spec fn view(&self) -> Dio405View {
        Dio405View { device: self.device, topic: self.topic@ }
    }
}

impl Dio405 {
    pub fn new(topic: String, board_config: &OutputConfig) -> (board: Dio405)
        ensures
            board@ == (Dio405View { device: board_config.device, topic: topic@ }),
    {
        Dio405 { device: board_config.device, topic }
    }

    pub fn device(&self) -> (device: u8)
        ensures
            device == self@.device,
    {
        self.device
    }

    /// The topic under which the board's edge events are published.
    pub fn topic(&self) -> (topic: &String)
        ensures
            topic@ == self@.topic,
    {
        &self.topic
    }

    /// The steps of one pulse on this board.
    pub fn trigger(&self) -> (steps: Vec<OutputAction>)
        ensures
            steps@ == pulse(self@.device),
    {
        let mut steps: Vec<OutputAction> = Vec::new();
        steps.push(OutputAction::Write { device: self.device, value: LINES_HIGH });
        steps.push(OutputAction::Settle { millis: SETTLE_MILLIS });
        steps.push(OutputAction::Write { device: self.device, value: LINES_LOW });
        assert(steps@ =~= pulse(self@.device));
        steps
    }

    /// Decides how the edge-detection loop goes on after `input`.
    pub fn sample(&self, input: EdgeInput, stop: bool, codes: &EdgeCodes) -> (step: EdgeStep)
        ensures
            step == edge_step(input, stop, *codes),
    {
        match input {
            EdgeInput::Received(Err(PowerDnaError::TimeoutError)) => if stop {
                EdgeStep::Stop
            } else {
                EdgeStep::Continue
            },
            EdgeInput::Received(Err(_)) => EdgeStep::Stop,
            EdgeInput::Received(Ok(event)) => {
                if event.kind != codes.di_change {
                    EdgeStep::Stop
                } else if event.timestamp > u32::MAX as u64 {
                    EdgeStep::Stop
                } else if event.rising != 0 {
                    EdgeStep::Emit(BuzzerEventArgs { timestamp: event.timestamp as u32 })
                } else {
                    EdgeStep::Continue
                }
            },
            EdgeInput::SinkClosed => EdgeStep::Stop,
        }
    }
}

} // verus!
