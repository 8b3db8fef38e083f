//! The kinds of message a stream publishes and the tags they carry on the
//! wire.

use vstd::prelude::*;

verus! {

/// The kind of payload in a published message.
#[allow(non_camel_case_types)]
#[derive(Clone, Copy, Debug, PartialEq, Eq, Hash, Structural)]
pub enum Event {
    NONE,
    SensorFrame,
    BuzzerEvent,
}

pub const ENUM_MIN_EVENT: u8 = 0;

pub const ENUM_MAX_EVENT: u8 = 2;

impl Event {
    pub open spec fn tag(self) -> u8 {
        match self {
            Event::NONE => 0,
            Event::SensorFrame => 1,
            Event::BuzzerEvent => 2,
        }
    }

    pub open spec fn name(self) -> Seq<char> {
        match self {
            Event::NONE => "NONE"@,
            Event::SensorFrame => "SensorFrame"@,
            Event::BuzzerEvent => "BuzzerEvent"@,
        }
    }

    /// The tag that stands for this kind on the wire.
    pub fn value(self) -> (tag: u8)
        ensures
            tag == self.tag(),
            ENUM_MIN_EVENT <= tag <= ENUM_MAX_EVENT,
    {
        match self {
            Event::NONE => 0,
            Event::SensorFrame => 1,
            Event::BuzzerEvent => 2,
        }
    }

    /// The kind that a wire tag stands for, if it stands for one.
    pub fn from_value(tag: u8) -> (event: Option<Event>)
        ensures
            event is Some <==> ENUM_MIN_EVENT <= tag <= ENUM_MAX_EVENT,
            event matches Some(e) ==> e.tag() == tag,
    {
        match tag {
            0 => Some(Event::NONE),
            1 => Some(Event::SensorFrame),
            2 => Some(Event::BuzzerEvent),
            _ => None,
        }
    }
}

/// The name of a message kind, as the schema spells it.
pub fn enum_name_event(e: Event) -> (name: &'static str)
    ensures
        name@ == e.name(),
{
    match e {
        Event::NONE => "NONE",
        Event::SensorFrame => "SensorFrame",
        Event::BuzzerEvent => "BuzzerEvent",
    }
}

/// What a buzzer message carries: the time at which the edge was seen.
#[derive(Clone, Copy, Debug, PartialEq, Eq, Structural)]
pub struct BuzzerEventArgs {
    pub timestamp: u32,
}

impl Default for BuzzerEventArgs {
    fn default() -> (args: BuzzerEventArgs)
        ensures
            args.timestamp == 0,
    {
        BuzzerEventArgs { timestamp: 0 }
    }
}

} // verus!
