//! The control surface of one stream: start, stop and trigger.
//!
//! A stream is unarmed until it is started, armed once every step of arming
//! was carried out, and draining from the moment it is stopped until
//! everything it held is released. Between unarmed and armed it is arming:
//! a failure there is answered by `abort`, which drains what was acquired so
//! far. The manager decides which operation is valid in which state and
//! hands out the steps; the caller carries them out and reports back.

use crate::boards::ai201::ChannelCodes;
use crate::boards::dio405::OutputAction;
use crate::config::{BoardConfig, OutputConfig};
use crate::error::DaqError;
use crate::lifecycle::{
    arm_steps, boards_steps, lemma_arming_arms, lemma_run_keeps_shape,
    lemma_unwind_releases_everything, outputs_steps, Action, LedgerView,
};
use crate::stream::{planned_outputs, planned_sampler, pulses, Sampler, SamplerView};
use vstd::prelude::*;

verus! {

/// Where a stream stands in its life.
#[derive(Clone, Copy, Debug, PartialEq, Eq, Structural)]
pub enum StreamState {
    /// Nothing is held and no thread runs.
    Unarmed,
    /// The steps of arming are being carried out.
    Arming,
    /// Every board samples and the muxer runs.
    Armed,
    /// The stream is being released.
    Draining,
}

/// A stream manager as a mathematical value.
pub struct SignalManagerView {
    pub name: Seq<char>,
    pub freq: u32,
    pub frame_size: u32,
    pub boards: Seq<BoardConfig>,
    pub outputs: Seq<OutputConfig>,
    pub codes: ChannelCodes,
    pub state: StreamState,
    pub sampler: Option<SamplerView>,
}

impl SignalManagerView {
    /// The sampler that the stream's configuration describes.
    pub open spec fn planned(self) -> Result<SamplerView, DaqError> {
        planned_sampler(self.freq, self.frame_size, self.boards, self.outputs, self.name, self.codes)
    }

    pub open spec fn wf(self) -> bool {
        &&& self.state == StreamState::Unarmed <==> self.sampler is None
        &&& self.sampler matches Some(sampler) ==> {
            &&& sampler.wf()
            &&& sampler.outputs == planned_outputs(self.name, self.outputs)
            &&& sampler.boards.len() == self.boards.len()
            &&& self.state == StreamState::Armed ==> sampler.ledger.is_armed()
            &&& self.state == StreamState::Draining ==> !sampler.ledger.is_clear()
        }
    }

    /// The manager after the caller reported that `action` was carried out.
    /// While arming, the step is recorded and the stream is armed once it
    /// holds everything. While draining, the step is recorded and the stream
    /// is unarmed once it holds nothing. In the other states there is
    /// nothing to record.
    pub open spec fn completed(self, action: Action) -> SignalManagerView {
        match (self.state, self.sampler) {
            (StreamState::Arming, Some(sampler)) => {
                let ledger = sampler.ledger.record(action);
                SignalManagerView {
                    state: if ledger.is_armed() {
                        StreamState::Armed
                    } else {
                        StreamState::Arming
                    },
                    sampler: Some(SamplerView { ledger, ..sampler }),
                    ..self
                }
            },
            (StreamState::Draining, Some(sampler)) => {
                let ledger = sampler.ledger.record(action);
                if ledger.is_clear() {
                    SignalManagerView { state: StreamState::Unarmed, sampler: None, ..self }
                } else {
                    SignalManagerView {
                        state: StreamState::Draining,
                        sampler: Some(SamplerView { ledger, ..sampler }),
                        ..self
                    }
                }
            },
            _ => self,
        }
    }

    /// The manager after the caller reported each of `actions` in turn.
    pub open spec fn completed_all(self, actions: Seq<Action>) -> SignalManagerView
        decreases actions.len(),
    {
        if actions.len() == 0 {
            self
        } else {
            self.completed_all(actions.drop_last()).completed(actions.last())
        }
    }
}

/// The stream of one topic and its state.
pub struct SignalManager {
    name: String,
    freq: u32,
    frame_size: u32,
    boards: Vec<BoardConfig>,
    outputs: Vec<OutputConfig>,
    codes: ChannelCodes,
    state: StreamState,
    sampler: Option<Sampler>,
}

impl View for SignalManager {
    type V = SignalManagerView;

    closed spec fn view(&self) -> SignalManagerView {
        SignalManagerView {
            name: self.name@,
            freq: self.freq,
            frame_size: self.frame_size,
            boards: self.boards@,
            outputs: self.outputs@,
            codes: self.codes,
            state: self.state,
            sampler: match self.sampler {
                Some(sampler) => Some(sampler@),
                None => None,
            },
        }
    }
}

impl SignalManager {
    /// An unarmed stream.
    pub fn new(
        name: String,
        freq: u32,
        frame_size: u32,
        boards: Vec<BoardConfig>,
        outputs: Vec<OutputConfig>,
        codes: ChannelCodes,
    ) -> (manager: SignalManager)
        ensures
            manager@ == (SignalManagerView {
                name: name@,
                freq,
                frame_size,
                boards: boards@,
                outputs: outputs@,
                codes,
                state: StreamState::Unarmed,
                sampler: None,
            }),
            manager@.wf(),
    {
        SignalManager {
            name,
            freq,
            frame_size,
            boards,
            outputs,
            codes,
            state: StreamState::Unarmed,
            sampler: None,
        }
    }

    pub fn name(&self) -> (name: &String)
        ensures
            name@ == self@.name,
    {
        &self.name
    }

    pub fn state(&self) -> (state: StreamState)
        ensures
            state == self@.state,
    {
        self.state
    }

    /// The sampler of a stream that is not unarmed.
    pub fn sampler(&self) -> (sampler: Option<&Sampler>)
        ensures
            match sampler {
                Some(sampler) => self@.sampler == Some(sampler@),
                None => self@.sampler is None,
            },
    {
        self.sampler.as_ref()
    }

    /// Begins arming an unarmed stream and hands out the steps to carry
    /// out. A stream in any other state refuses, and so does a
    /// configuration that describes no sampler; the stream is then left as
    /// it was.
    pub fn start(&mut self) -> (steps: Result<Vec<Action>, DaqError>)
        requires
            old(self)@.wf(),
        ensures
            final(self)@.wf(),
            match steps {
                Ok(steps) => {
                    &&& old(self)@.state == StreamState::Unarmed
                    &&& old(self)@.planned() matches Ok(sampler)
                    &&& final(self)@ == (SignalManagerView {
                        state: StreamState::Arming,
                        sampler: Some(sampler),
                        ..old(self)@
                    })
                    &&& steps@ == arm_steps(
                        old(self)@.boards.len() as int,
                        old(self)@.outputs.len() as int,
                    )
                },
                Err(error) => {
                    &&& final(self)@ == old(self)@
                    &&& if old(self)@.state != StreamState::Unarmed {
                        error == DaqError::StreamStateError
                    } else {
                        old(self)@.planned() == Err::<SamplerView, DaqError>(error)
                    }
                },
            },
    {
        match self.state {
            StreamState::Unarmed => {},
            _ => {
                return Err(DaqError::StreamStateError);
            },
        }
        let sampler = match Sampler::new(
            self.freq,
            self.frame_size,
            &self.boards,
            &self.outputs,
            self.name.clone(),
            &self.codes,
        ) {
            Ok(sampler) => sampler,
            Err(error) => {
                return Err(error);
            },
        };
        let steps = sampler.plan();
        self.sampler = Some(sampler);
        self.state = StreamState::Arming;
        Ok(steps)
    }

    /// Notes that the caller carried out `action`.
    pub fn completed(&mut self, action: Action)
        requires
            old(self)@.wf(),
        ensures
            final(self)@.wf(),
            final(self)@ == old(self)@.completed(action),
    {
        match self.state {
            StreamState::Arming => {
                let mut sampler = self.sampler.take().unwrap();
                sampler.record(action);
                if sampler.is_armed() {
                    self.state = StreamState::Armed;
                }
                self.sampler = Some(sampler);
            },
            StreamState::Draining => {
                let mut sampler = self.sampler.take().unwrap();
                sampler.record(action);
                if sampler.is_clear() {
                    self.state = StreamState::Unarmed;
                } else {
                    self.sampler = Some(sampler);
                }
            },
            _ => {},
        }
    }

    /// Gives up arming and hands out the steps that release what was
    /// acquired so far. Valid only while arming.
    pub fn abort(&mut self) -> (steps: Result<Vec<Action>, DaqError>)
        requires
            old(self)@.wf(),
        ensures
            final(self)@.wf(),
            match steps {
                Ok(steps) => {
                    &&& old(self)@.state == StreamState::Arming
                    &&& old(self)@.sampler matches Some(sampler)
                    &&& steps@ == sampler.ledger.unwind()
                    &&& final(self)@ == if sampler.ledger.is_clear() {
                        SignalManagerView { state: StreamState::Unarmed, sampler: None, ..old(self)@ }
                    } else {
                        SignalManagerView { state: StreamState::Draining, ..old(self)@ }
                    }
                },
                Err(error) => {
                    &&& old(self)@.state != StreamState::Arming
                    &&& error == DaqError::StreamStateError
                    &&& final(self)@ == old(self)@
                },
            },
    {
        match self.state {
            StreamState::Arming => {},
            _ => {
                return Err(DaqError::StreamStateError);
            },
        }
        let sampler = self.sampler.take().unwrap();
        let steps = sampler.unwind();
        if sampler.is_clear() {
            self.state = StreamState::Unarmed;
        } else {
            self.state = StreamState::Draining;
            self.sampler = Some(sampler);
        }
        Ok(steps)
    }

    /// Stops an armed stream and hands out the steps that release it. A
    /// stream in any other state refuses.
    pub fn stop(&mut self) -> (steps: Result<Vec<Action>, DaqError>)
        requires
            old(self)@.wf(),
        ensures
            final(self)@.wf(),
            match steps {
                Ok(steps) => {
                    &&& old(self)@.state == StreamState::Armed
                    &&& old(self)@.sampler matches Some(sampler)
                    &&& steps@ == sampler.ledger.unwind()
                    &&& final(self)@ == (SignalManagerView {
                        state: StreamState::Draining,
                        ..old(self)@
                    })
                },
                Err(error) => {
                    &&& old(self)@.state != StreamState::Armed
                    &&& error == DaqError::StreamStateError
                    &&& final(self)@ == old(self)@
                },
            },
    {
        match self.state {
            StreamState::Armed => {},
            _ => {
                return Err(DaqError::StreamStateError);
            },
        }
        let sampler = self.sampler.take().unwrap();
        let steps = sampler.unwind();
        self.sampler = Some(sampler);
        self.state = StreamState::Draining;
        Ok(steps)
    }

    /// The steps that pulse every output board of an armed stream in turn.
    /// A stream in any other state refuses.
    pub fn trigger(&self) -> (steps: Result<Vec<OutputAction>, DaqError>)
        requires
            self@.wf(),
        ensures
            match steps {
                Ok(steps) => self@.state == StreamState::Armed && steps@ == pulses(
                    planned_outputs(self@.name, self@.outputs),
                    self@.outputs.len() as int,
                ),
                Err(error) => self@.state != StreamState::Armed && error
                    == DaqError::StreamStateError,
            },
    {
        match self.state {
            StreamState::Armed => {},
            _ => {
                return Err(DaqError::StreamStateError);
            },
        }
        match &self.sampler {
            Some(sampler) => sampler.trigger(),
            None => Err(DaqError::StreamStateError),
        }
    }
}

/// Steps that do not enable capture leave capture as it is.
proof fn lemma_capture_untouched(ledger: LedgerView, actions: Seq<Action>)
    requires
        forall|at: int| 0 <= at < actions.len() ==> actions[at] != Action::EnableCapture,
    ensures
        ledger.run(actions).capturing ==> ledger.capturing,
    decreases actions.len(),
{
    if actions.len() > 0 {
        lemma_capture_untouched(ledger, actions.drop_last());
    }
}

proof fn lemma_arming_records(manager: SignalManagerView, actions: Seq<Action>)
    requires
        manager.state == StreamState::Arming,
        manager.sampler matches Some(sampler) && !sampler.ledger.capturing,
        forall|at: int| 0 <= at < actions.len() ==> actions[at] != Action::EnableCapture,
    ensures
        manager.completed_all(actions) == (SignalManagerView {
            sampler: Some(
                SamplerView {
                    ledger: manager.sampler.unwrap().ledger.run(actions),
                    ..manager.sampler.unwrap()
                },
            ),
            ..manager
        }),
    decreases actions.len(),
{
    let ledger = manager.sampler.unwrap().ledger;
    if actions.len() > 0 {
        lemma_arming_records(manager, actions.drop_last());
        lemma_capture_untouched(ledger, actions.drop_last());
        lemma_capture_untouched(ledger, actions);
    }
}

proof fn lemma_board_steps_keep_capture(upto: int)
    ensures
        forall|at: int|
            0 <= at < boards_steps(upto).len() ==> boards_steps(upto)[at] != Action::EnableCapture,
    decreases upto,
{
    if upto > 0 {
        lemma_board_steps_keep_capture(upto - 1);
    }
}

proof fn lemma_output_steps_keep_capture(upto: int)
    ensures
        forall|at: int|
            0 <= at < outputs_steps(upto).len() ==> outputs_steps(upto)[at]
                != Action::EnableCapture,
    decreases upto,
{
    if upto > 0 {
        lemma_output_steps_keep_capture(upto - 1);
    }
}

/// A stream that began arming and is told of every step of arming, in
/// order, is armed: it holds every board's buffer and thread and the muxer,
/// and capture is on.
pub proof fn lemma_reporting_every_arming_step_arms(manager: SignalManagerView)
    requires
        manager.wf(),
        manager.state == StreamState::Arming,
        manager.sampler matches Some(sampler) && sampler.ledger == LedgerView::idle(
            manager.boards.len() as int,
            manager.outputs.len() as int,
        ),
    ensures
        ({
            let armed = manager.completed_all(
                arm_steps(manager.boards.len() as int, manager.outputs.len() as int),
            );
            &&& armed.state == StreamState::Armed
            &&& armed.sampler matches Some(sampler) && sampler.ledger.is_armed()
            &&& armed.wf()
        }),
{
    let boards = manager.boards.len() as int;
    let outputs = manager.outputs.len() as int;
    let sampler = manager.sampler.unwrap();
    let head = boards_steps(boards) + seq![Action::SpawnMuxer] + outputs_steps(outputs);
    let steps = arm_steps(boards, outputs);
    lemma_board_steps_keep_capture(boards);
    lemma_output_steps_keep_capture(outputs);
    lemma_arming_records(manager, head);
    assert(steps.drop_last() =~= head);
    assert(steps.last() == Action::EnableCapture);
    lemma_capture_untouched(sampler.ledger, head);
    lemma_arming_arms(boards, outputs);
    lemma_run_keeps_shape(sampler.ledger, steps);
}

proof fn lemma_draining_records(manager: SignalManagerView, actions: Seq<Action>)
    requires
        manager.wf(),
        manager.state == StreamState::Draining,
    ensures
        ({
            let reached = manager.completed_all(actions);
            let ledger = manager.sampler.unwrap().ledger.run(actions);
            ||| reached == (SignalManagerView {
                state: StreamState::Unarmed,
                sampler: None,
                ..manager
            })
            ||| !ledger.is_clear() && reached == (SignalManagerView {
                sampler: Some(SamplerView { ledger, ..manager.sampler.unwrap() }),
                ..manager
            })
        }),
    decreases actions.len(),
{
    if actions.len() > 0 {
        lemma_draining_records(manager, actions.drop_last());
    }
}

/// A stream that is draining and is told of every step of its release, in
/// order, ends unarmed, with nothing held.
pub proof fn lemma_reporting_every_release_step_unarms(manager: SignalManagerView)
    requires
        manager.wf(),
        manager.state == StreamState::Draining,
    ensures
        ({
            let released = manager.completed_all(manager.sampler.unwrap().ledger.unwind());
            &&& released.state == StreamState::Unarmed
            &&& released.sampler is None
            &&& released.wf()
        }),
{
    let ledger = manager.sampler.unwrap().ledger;
    lemma_draining_records(manager, ledger.unwind());
    lemma_unwind_releases_everything(ledger);
}

} // verus!
