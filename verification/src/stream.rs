//! The sampler: the boards of one stream and what the stream holds.
//!
//! A sampler is planned from the stream's configuration. Planning touches no
//! hardware: it yields the boards as they will be armed and the steps to arm
//! them. The caller carries the steps out and reports each one that
//! succeeded, so that at any moment the sampler can say what has to be
//! released.

use crate::boards::ai201::{planned_board, Ai201, Ai201View, ChannelCodes, TIMESTAMP_CHANNELS};
use crate::boards::dio405::{pulse, Dio405, Dio405View, OutputAction};
use crate::config::{BoardConfig, OutputConfig};
use crate::error::DaqError;
use crate::lifecycle::{arm_plan, arm_steps, Action, Ledger, LedgerView};
use crate::muxer::{planned_muxer, Muxer, MuxerView};
use vstd::prelude::*;

verus! {

/// The input boards that the first `upto` configurations describe, or the
/// error of the first configuration that describes none.
pub open spec fn planned_boards(
    freq: u32,
    frame_size: u32,
    configs: Seq<BoardConfig>,
    codes: ChannelCodes,
    upto: int,
) -> Result<Seq<Ai201View>, DaqError>
    decreases upto,
{
    if upto <= 0 {
        Ok(Seq::empty())
    } else {
        match planned_boards(freq, frame_size, configs, codes, upto - 1) {
            Err(error) => Err(error),
            Ok(boards) => match planned_board(freq, frame_size, configs[upto - 1], codes) {
                Err(error) => Err(error),
                Ok(board) => Ok(boards.push(board)),
            },
        }
    }
}

/// The output boards that the configurations describe.
pub open spec fn planned_outputs(topic: Seq<char>, configs: Seq<OutputConfig>) -> Seq<Dio405View> {
    Seq::new(configs.len(), |at: int| Dio405View { device: configs[at].device, topic })
}

/// One pulse on each of the first `upto` output boards, one board after the
/// other.
pub open spec fn pulses(outputs: Seq<Dio405View>, upto: int) -> Seq<OutputAction>
    decreases upto,
{
    if upto <= 0 {
        Seq::empty()
    } else {
        pulses(outputs, upto - 1) + pulse(outputs[upto - 1].device)
    }
}

/// A sampler as a mathematical value.
pub struct SamplerView {
    pub topic: Seq<char>,
    pub boards: Seq<Ai201View>,
    pub outputs: Seq<Dio405View>,
    pub ledger: LedgerView,
}

impl SamplerView {
    pub open spec fn wf(self) -> bool {
        &&& self.boards.len() >= 1
        &&& forall|board: int| 0 <= board < self.boards.len() ==> (#[trigger] self.boards[board]).wf()
        &&& self.ledger.wf()
        &&& self.ledger.acbs.len() == self.boards.len()
        &&& self.ledger.edges.len() == self.outputs.len()
    }

    /// Channel readings per scan of each input board.
    pub open spec fn channels(self) -> Seq<usize> {
        Seq::new(
            self.boards.len(),
            |board: int| (self.boards[board].channels.len() - TIMESTAMP_CHANNELS) as usize,
        )
    }

    /// The muxer that serves this sampler's boards.
    pub open spec fn muxer(self) -> MuxerView {
        planned_muxer(self.topic, self.channels(), true)
    }
}

/// The sampler that a stream configuration describes: its boards in
/// declaration order, holding nothing yet. A stream needs at least one input
/// board.
pub open spec fn planned_sampler(
    freq: u32,
    frame_size: u32,
    boards: Seq<BoardConfig>,
    outputs: Seq<OutputConfig>,
    topic: Seq<char>,
    codes: ChannelCodes,
) -> Result<SamplerView, DaqError> {
    match planned_boards(freq, frame_size, boards, codes, boards.len() as int) {
        Err(error) => Err(error),
        Ok(planned) => if boards.len() == 0 {
            Err(DaqError::ChannelConfigError)
        } else {
            Ok(
                SamplerView {
                    topic,
                    boards: planned,
                    outputs: planned_outputs(topic, outputs),
                    ledger: LedgerView::idle(boards.len() as int, outputs.len() as int),
                },
            )
        },
    }
}

pub open spec fn board_views(boards: Seq<Ai201>) -> Seq<Ai201View> {
    boards.map_values(|board: Ai201| board@)
}

pub open spec fn output_views(outputs: Seq<Dio405>) -> Seq<Dio405View> {
    outputs.map_values(|output: Dio405| output@)
}

proof fn lemma_planning_stops_at_first_error(
    freq: u32,
    frame_size: u32,
    configs: Seq<BoardConfig>,
    codes: ChannelCodes,
    failed: int,
    upto: int,
)
    requires
        0 <= failed <= upto,
        planned_boards(freq, frame_size, configs, codes, failed) is Err,
    ensures
        planned_boards(freq, frame_size, configs, codes, upto) == planned_boards(
            freq,
            frame_size,
            configs,
            codes,
            failed,
        ),
    decreases upto,
{
    if failed < upto {
        lemma_planning_stops_at_first_error(freq, frame_size, configs, codes, failed, upto - 1);
    }
}

proof fn lemma_planned_boards_are_the_configured(
    freq: u32,
    frame_size: u32,
    configs: Seq<BoardConfig>,
    codes: ChannelCodes,
    upto: int,
)
    requires
        0 <= upto,
        planned_boards(freq, frame_size, configs, codes, upto) is Ok,
    ensures
        planned_boards(freq, frame_size, configs, codes, upto).unwrap().len() == upto,
        forall|board: int|
            0 <= board < upto ==> planned_board(freq, frame_size, #[trigger] configs[board], codes)
                == Ok::<Ai201View, DaqError>(
                planned_boards(freq, frame_size, configs, codes, upto).unwrap()[board],
            ),
    decreases upto,
{
    if upto > 0 {
        lemma_planned_boards_are_the_configured(freq, frame_size, configs, codes, upto - 1);
    }
}

/// A planned sampler has the configured boards in the configured order:
/// each input board samples the channels of its configuration on the
/// configured device, and each output board drives the configured device.
pub proof fn lemma_sampler_follows_configuration(
    freq: u32,
    frame_size: u32,
    boards: Seq<BoardConfig>,
    outputs: Seq<OutputConfig>,
    topic: Seq<char>,
    codes: ChannelCodes,
)
    requires
        planned_sampler(freq, frame_size, boards, outputs, topic, codes) is Ok,
    ensures
        ({
            let sampler = planned_sampler(freq, frame_size, boards, outputs, topic, codes).unwrap();
            &&& sampler.boards.len() == boards.len()
            &&& sampler.outputs.len() == outputs.len()
            &&& forall|board: int|
                0 <= board < boards.len() ==> {
                    &&& (#[trigger] sampler.boards[board]).device == boards[board].device
                    &&& sampler.boards[board].acb_cfg.frame_size == frame_size
                    &&& sampler.channels()[board] == boards[board].channels@.len()
                }
            &&& forall|output: int|
                0 <= output < outputs.len() ==> (#[trigger] sampler.outputs[output]).device
                    == outputs[output].device
        }),
{
    lemma_planned_boards_are_the_configured(freq, frame_size, boards, codes, boards.len() as int);
    let sampler = planned_sampler(freq, frame_size, boards, outputs, topic, codes).unwrap();
    assert forall|board: int| 0 <= board < boards.len() implies {
        &&& (#[trigger] sampler.boards[board]).device == boards[board].device
        &&& sampler.boards[board].acb_cfg.frame_size == frame_size
        &&& sampler.channels()[board] == boards[board].channels@.len()
    } by {
        assert(planned_board(freq, frame_size, boards[board], codes) == Ok::<Ai201View, DaqError>(
            sampler.boards[board],
        ));
    }
}

/// Triggering a stream without output boards does nothing, and triggering
/// one with a single output board is exactly one pulse on that board.
pub proof fn lemma_trigger_pulses(outputs: Seq<Dio405View>)
    ensures
        outputs.len() == 0 ==> pulses(outputs, outputs.len() as int) == Seq::<OutputAction>::empty(),
        outputs.len() == 1 ==> pulses(outputs, outputs.len() as int) == pulse(outputs[0].device),
{
    if outputs.len() == 1 {
        assert(pulses(outputs, 0) + pulse(outputs[0].device) =~= pulse(outputs[0].device));
    }
}

/// The boards of one stream, and what the stream holds of them.
pub struct Sampler {
    topic: String,
    boards: Vec<Ai201>,
    outputs: Vec<Dio405>,
    ledger: Ledger,
}

impl View for Sampler {
    type V = SamplerView;

    closed spec fn view(&self) -> SamplerView {
        SamplerView {
            topic: self.topic@,
            boards: board_views(self.boards@),
            outputs: output_views(self.outputs@),
            ledger: self.ledger@,
        }
    }
}

impl Sampler {
    /// Plans the sampler of a stream. The first board whose configuration
    /// cannot be armed decides the error.
    #[verifier::loop_isolation(false)]
    pub fn new(
        freq: u32,
        frame_size: u32,
        board_configs: &Vec<BoardConfig>,
        output_configs: &Vec<OutputConfig>,
        topic: String,
        codes: &ChannelCodes,
    ) -> (sampler: Result<Sampler, DaqError>)
        ensures
            match sampler {
                Ok(s) => planned_sampler(
                    freq,
                    frame_size,
                    board_configs@,
                    output_configs@,
                    topic@,
                    *codes,
                ) == Ok::<SamplerView, DaqError>(s@) && s@.wf(),
                Err(e) => planned_sampler(
                    freq,
                    frame_size,
                    board_configs@,
                    output_configs@,
                    topic@,
                    *codes,
                ) == Err::<SamplerView, DaqError>(e),
            },
    {
        let mut boards: Vec<Ai201> = Vec::new();
        let mut at: usize = 0;
        assert(board_views(boards@) =~= Seq::empty());
        while at < board_configs.len()
            invariant
                at <= board_configs@.len(),
                boards@.len() == at,
                planned_boards(freq, frame_size, board_configs@, *codes, at as int) == Ok::<
                    Seq<Ai201View>,
                    DaqError,
                >(board_views(boards@)),
                forall|k: int| 0 <= k < at ==> (#[trigger] boards@[k])@.wf(),
            decreases board_configs@.len() - at,
        {
            let ghost before = board_views(boards@);
            match Ai201::new(freq, frame_size, &board_configs[at], codes) {
                Ok(board) => {
                    boards.push(board);
                    assert(board_views(boards@) =~= before.push(board@));
                },
                Err(error) => {
                    proof {
                        lemma_planning_stops_at_first_error(
                            freq,
                            frame_size,
                            board_configs@,
                            *codes,
                            at + 1,
                            board_configs@.len() as int,
                        );
                    }
                    return Err(error);
                },
            }
            at += 1;
        }
        if boards.len() == 0 {
            return Err(DaqError::ChannelConfigError);
        }
        let mut outputs: Vec<Dio405> = Vec::new();
        let mut at: usize = 0;
        while at < output_configs.len()
            invariant
                at <= output_configs@.len(),
                outputs@.len() == at,
                forall|k: int|
                    0 <= k < at ==> (#[trigger] outputs@[k])@ == planned_outputs(
                        topic@,
                        output_configs@,
                    )[k],
            decreases output_configs@.len() - at,
        {
            outputs.push(Dio405::new(topic.clone(), &output_configs[at]));
            at += 1;
        }
        assert(output_views(outputs@) =~= planned_outputs(topic@, output_configs@));
        let ledger = Ledger::new(boards.len(), outputs.len());
        let sampler = Sampler { topic, boards, outputs, ledger };
        assert forall|board: int| 0 <= board < sampler@.boards.len() implies (
        #[trigger] sampler@.boards[board]).wf() by {
            assert(sampler@.boards[board] == boards@[board]@);
        }
        Ok(sampler)
    }

    pub fn topic(&self) -> (topic: &String)
        ensures
            topic@ == self@.topic,
    {
        &self.topic
    }

    /// The input boards, in declaration order.
    pub fn boards(&self) -> (boards: &Vec<Ai201>)
        ensures
            board_views(boards@) == self@.boards,
    {
        &self.boards
    }

    /// The output boards, in declaration order.
    pub fn outputs(&self) -> (outputs: &Vec<Dio405>)
        ensures
            output_views(outputs@) == self@.outputs,
    {
        &self.outputs
    }

    /// The steps that arm the stream.
    pub fn plan(&self) -> (plan: Vec<Action>)
        ensures
            plan@ == arm_steps(self@.boards.len() as int, self@.outputs.len() as int),
    {
        arm_plan(self.boards.len(), self.outputs.len())
    }

    /// Notes that `action` was carried out.
    pub fn record(&mut self, action: Action)
        requires
            old(self)@.wf(),
        ensures
            final(self)@ == (SamplerView { ledger: old(self)@.ledger.record(action), ..old(self)@ }),
            final(self)@.wf(),
    {
        self.ledger.record(action);
    }

    /// The steps that release everything the stream holds.
    pub fn unwind(&self) -> (plan: Vec<Action>)
        ensures
            plan@ == self@.ledger.unwind(),
    {
        self.ledger.unwind()
    }

    pub fn is_armed(&self) -> (armed: bool)
        ensures
            armed == self@.ledger.is_armed(),
    {
        self.ledger.is_armed()
    }

    pub fn is_clear(&self) -> (clear: bool)
        ensures
            clear == self@.ledger.is_clear(),
    {
        self.ledger.is_clear()
    }

    /// The steps that pulse every output board in turn. A stream that is not
    /// armed cannot be triggered.
    pub fn trigger(&self) -> (steps: Result<Vec<OutputAction>, DaqError>)
        ensures
            match steps {
                Ok(steps) => self@.ledger.is_armed() && steps@ == pulses(
                    self@.outputs,
                    self@.outputs.len() as int,
                ),
                Err(error) => !self@.ledger.is_armed() && error == DaqError::StreamStateError,
            },
    {
        if !self.ledger.is_armed() {
            return Err(DaqError::StreamStateError);
        }
        let mut steps: Vec<OutputAction> = Vec::new();
        let mut at: usize = 0;
        assert(steps@ =~= pulses(self@.outputs, 0));
        while at < self.outputs.len()
            invariant
                at <= self.outputs@.len(),
                steps@ == pulses(self@.outputs, at as int),
            decreases self.outputs@.len() - at,
        {
            let ghost before = steps@;
            let mut pulse_steps = self.outputs[at].trigger();
            assert(self@.outputs[at as int] == self.outputs@[at as int]@);
            steps.append(&mut pulse_steps);
            assert(steps@ =~= before + pulse(self@.outputs[at as int].device));
            at += 1;
        }
        Ok(steps)
    }

    /// The muxer that serves this sampler's boards.
    #[verifier::loop_isolation(false)]
    pub fn muxer(&self) -> (muxer: Muxer)
        requires
            self@.wf(),
        ensures
            muxer@ == self@.muxer(),
            muxer@.wf(),
    {
        let mut channels: Vec<usize> = Vec::new();
        let mut at: usize = 0;
        while at < self.boards.len()
            invariant
                at <= self.boards@.len(),
                channels@.len() == at,
                forall|k: int| 0 <= k < at ==> #[trigger] channels@[k] == self@.channels()[k],
            decreases self.boards@.len() - at,
        {
            assert(self@.boards[at as int] == self.boards@[at as int]@);
            assert(self@.boards[at as int].wf());
            channels.push(self.boards[at].configured_channels());
            at += 1;
        }
        assert(channels@ =~= self@.channels());
        let ghost planned = self@.muxer();
        assert forall|board: int| 0 <= board < planned.channels.len() implies 0
            < #[trigger] planned.stride(board) <= usize::MAX by {
            assert(self@.boards[board].wf());
        }
        Muxer::new(self.topic.clone(), channels, true).unwrap()
    }
}

} // verus!
