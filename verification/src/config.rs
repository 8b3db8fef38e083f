//! What an operator configures: streams, their boards and channels.

use vstd::prelude::*;

verus! {

/// One stream: the chassis it samples, the sampling frequency, the number of
/// scans per frame, and the boards that take part.
#[derive(Clone, Debug)]
pub struct StreamConfig {
    pub ip: String,
    pub freq: u32,
    pub frame_size: u32,
    pub boards: Vec<BoardConfig>,
    pub outputs: Vec<OutputConfig>,
}

/// One analog input board and the channels sampled on it, in scan order.
#[derive(Clone, Debug)]
pub struct BoardConfig {
    pub device: u8,
    pub channels: Vec<ChannelConfig>,
}

/// One input line and the gain multiplier applied to it.
#[derive(Clone, Copy, Debug)]
pub struct ChannelConfig {
    pub id: u8,
    pub gain: u32,
}

/// One digital output board.
#[derive(Clone, Copy, Debug)]
pub struct OutputConfig {
    pub device: u8,
}

/// The gain multipliers an analog input channel can be set to.
#[derive(Clone, Copy, Debug, PartialEq, Eq, Structural)]
pub enum Gain {
    One,
    Two,
    Five,
    Ten,
}

impl Gain {
    /// The gain that a configured multiplier names, if it names one.
    pub open spec fn of(value: int) -> Option<Gain> {
        if value == 1 {
            Some(Gain::One)
        } else if value == 2 {
            Some(Gain::Two)
        } else if value == 5 {
            Some(Gain::Five)
        } else if value == 10 {
            Some(Gain::Ten)
        } else {
            None
        }
    }

    pub open spec fn factor(self) -> int {
        match self {
            Gain::One => 1,
            Gain::Two => 2,
            Gain::Five => 5,
            Gain::Ten => 10,
        }
    }

    /// Reads a gain from its multiplier: 1, 2, 5 or 10.
    pub fn from_u64(value: u64) -> (gain: Option<Gain>)
        ensures
            gain == Gain::of(value as int),
    {
        match value {
            1 => Some(Gain::One),
            2 => Some(Gain::Two),
            5 => Some(Gain::Five),
            10 => Some(Gain::Ten),
            _ => None,
        }
    }

    pub fn multiplier(&self) -> (factor: u32)
        ensures
            factor == self.factor(),
    {
        match self {
            Gain::One => 1,
            Gain::Two => 2,
            Gain::Five => 5,
            Gain::Ten => 10,
        }
    }
}

/// Reading a gain and asking for its multiplier gives the number back, and a
/// number that is read as a gain is the multiplier of that gain.
pub proof fn lemma_gain_round_trip(gain: Gain, value: int)
    ensures
        Gain::of(gain.factor()) == Some(gain),
        Gain::of(value) matches Some(g) ==> g.factor() == value,
{
}

} // verus!
