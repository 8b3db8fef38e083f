//! Driver status codes and the closed taxonomy they are mapped to.
//!
//! Every driver call returns a signed status. Negative values are failures,
//! the rest are successes. The numeric values belong to the driver binding,
//! so they reach this module as a [`StatusCodes`] table rather than being
//! written down here.

use vstd::prelude::*;

verus! {

/// The kinds of failure a driver call can report.
#[derive(Clone, Copy, Debug, PartialEq, Eq, Structural)]
pub enum PowerDnaError {
    IllegalEntry,
    IllegalHandle,
    SocketError,
    TimeoutError,
    SendingError,
    ReceivingError,
    IomError,
    PacketTooLong,
    IllegalPacketSize,
    InitError,
    BadParameter,
    BadDevNumber,
    NotImplemented,
    NoMemory,
    PacketFull,
    DeviceBusy,
    EventError,
    BadConfig,
    DataError,
    DeviceNotReady,
    CalibrationError,
    WrongDmap,
    DataNotAvailable,
    FifoOverflow,
    IllegalIndex,
    DioLineNotExist,
    WrongPacketCounter,
    AsyncOutReRequested,
    ProtocolMismatch,
    CmdNotAllowed,
    CmdAccessDenied,
    DeviceLocked,
    CrcCheckFailed,
    /// A negative status that the table does not list.
    Unknown,
}

/// The kinds of success a driver call can report.
#[derive(Clone, Copy, Debug, PartialEq, Eq, Structural)]
pub enum PowerDnaSuccess {
    NoError,
    Success,
    WaitEnded,
    DataNotReady,
    DataNotExist,
    DeviceStarted,
    DeviceStopped,
    /// A non-negative status that the table does not list.
    Unknown,
}

/// The kind listed for `code` in `table`: that of the first entry whose code
/// matches, or `fallback` when no entry does.
pub open spec fn lookup<V>(table: Seq<(i32, V)>, code: i32, fallback: V) -> V
    decreases table.len(),
{
    if table.len() == 0 {
        fallback
    } else if table[0].0 == code {
        table[0].1
    } else {
        lookup(table.drop_first(), code, fallback)
    }
}

/// A code that no entry carries is given the fallback.
pub proof fn lemma_lookup_absent<V>(table: Seq<(i32, V)>, code: i32, fallback: V)
    requires
        forall|i: int| 0 <= i < table.len() ==> (#[trigger] table[i]).0 != code,
    ensures
        lookup(table, code, fallback) == fallback,
    decreases table.len(),
{
    if table.len() > 0 {
        let rest = table.drop_first();
        assert forall|i: int| 0 <= i < rest.len() implies (#[trigger] rest[i]).0 != code by {
            assert(rest[i] == table[i + 1]);
        }
        lemma_lookup_absent(rest, code, fallback);
    }
}

/// A code is given the kind of the first entry that carries it.
pub proof fn lemma_lookup_first<V>(table: Seq<(i32, V)>, code: i32, fallback: V, at: int)
    requires
        0 <= at < table.len(),
        table[at].0 == code,
        forall|i: int| 0 <= i < at ==> (#[trigger] table[i]).0 != code,
    ensures
        lookup(table, code, fallback) == table[at].1,
    decreases at,
{
    if at > 0 {
        let rest = table.drop_first();
        assert(rest[at - 1] == table[at]);
        assert forall|i: int| 0 <= i < at - 1 implies (#[trigger] rest[i]).0 != code by {
            assert(rest[i] == table[i + 1]);
        }
        assert(table[0].0 != code);
        lemma_lookup_first(rest, code, fallback, at - 1);
    }
}

fn find<V: Copy>(table: &Vec<(i32, V)>, code: i32, fallback: V) -> (kind: V)
    ensures
        kind == lookup(table@, code, fallback),
{
    let mut i: usize = 0;
    proof {
        assert(table@.skip(0) =~= table@);
    }
    while i < table.len()
        invariant
            i <= table.len(),
            lookup(table@, code, fallback) == lookup(table@.skip(i as int), code, fallback),
        decreases table.len() - i,
    {
        let entry = table[i];
        proof {
            let rest = table@.skip(i as int);
            assert(rest[0] == table@[i as int]);
            assert(rest.drop_first() =~= table@.skip(i + 1));
        }
        if entry.0 == code {
            return entry.1;
        }
        i += 1;
    }
    proof {
        assert(table@.skip(i as int).len() == 0);
    }
    fallback
}

/// The numeric status values of one driver build, each with the kind it
/// stands for.
pub struct StatusCodes {
    pub errors: Vec<(i32, PowerDnaError)>,
    pub successes: Vec<(i32, PowerDnaSuccess)>,
}

impl StatusCodes {
    /// What a driver status means: a failure when negative, a success
    /// otherwise, of the kind the table lists for it.
    pub open spec fn outcome(&self, code: i32) -> Result<PowerDnaSuccess, PowerDnaError> {
        if code < 0 {
            Err(lookup(self.errors@, code, PowerDnaError::Unknown))
        } else {
            Ok(lookup(self.successes@, code, PowerDnaSuccess::Unknown))
        }
    }

    /// Maps the status returned by a driver call to the taxonomy.
    pub fn classify(&self, code: i32) -> (outcome: Result<PowerDnaSuccess, PowerDnaError>)
        ensures
            outcome == self.outcome(code),
    {
        if code < 0 {
            Err(find(&self.errors, code, PowerDnaError::Unknown))
        } else {
            Ok(find(&self.successes, code, PowerDnaSuccess::Unknown))
        }
    }
}

} // verus!
