//! What a stream holds while it lives, and the order in which it is acquired
//! and released.
//!
//! Arming a stream creates an acquisition buffer and a sampling thread per
//! input board, edge detection and a thread per output board, one muxer
//! thread, and finally enables capture on all input boards at once. The
//! [`Ledger`] records which of these exist. Whatever state arming reached,
//! [`Ledger::unwind`] lists the steps that release all of it: capture is
//! disabled and the stop flag raised first, then the board threads are
//! joined, then the native handles are released, and the muxer is joined
//! last, once its producers are gone.

use vstd::prelude::*;

verus! {

/// One step of arming or releasing a stream. The caller performs it against
/// the driver or the thread it names.
#[derive(Clone, Copy, Debug, PartialEq, Eq, Structural)]
pub enum Action {
    EnterConfigMode { board: usize },
    CreateAcb { board: usize },
    ArmAcquisition { board: usize },
    RegisterEvents { board: usize },
    AcquireConverter { board: usize },
    SpawnBoard { board: usize },
    SpawnMuxer,
    SetupEdgeEvents { output: usize },
    SpawnOutput { output: usize },
    EnableCapture,
    DisableCapture,
    RaiseStop,
    JoinBoard { board: usize },
    JoinOutput { output: usize },
    DestroyAcb { board: usize },
    TeardownEdgeEvents { output: usize },
    JoinMuxer,
}

/// The things a stream holds one of per board.
#[derive(Clone, Copy, Debug, PartialEq, Eq, Structural)]
pub enum Resource {
    /// The acquisition control block of an input board.
    Acb,
    /// The sampling thread of an input board.
    BoardThread,
    /// The edge detection of an output board.
    EdgeEvents,
    /// The sampling thread of an output board.
    OutputThread,
}

impl Resource {
    /// The step that releases the resource at `index`.
    pub open spec fn release(self, index: usize) -> Action {
        match self {
            Resource::Acb => Action::DestroyAcb { board: index },
            Resource::BoardThread => Action::JoinBoard { board: index },
            Resource::EdgeEvents => Action::TeardownEdgeEvents { output: index },
            Resource::OutputThread => Action::JoinOutput { output: index },
        }
    }
}

/// `flags` with the entry at `index` set to `value`, if there is one.
pub open spec fn marked(flags: Seq<bool>, index: usize, value: bool) -> Seq<bool> {
    if index < flags.len() {
        flags.update(index as int, value)
    } else {
        flags
    }
}

/// The steps that release every resource of one kind that is held among the
/// first `upto`, in index order.
pub open spec fn releases(flags: Seq<bool>, resource: Resource, upto: int) -> Seq<Action>
    decreases upto,
{
    if upto <= 0 {
        Seq::empty()
    } else if flags[upto - 1] {
        releases(flags, resource, upto - 1).push(resource.release((upto - 1) as usize))
    } else {
        releases(flags, resource, upto - 1)
    }
}

pub open spec fn none_held(flags: Seq<bool>) -> bool {
    forall|index: int| 0 <= index < flags.len() ==> !flags[index]
}

pub open spec fn all_held(flags: Seq<bool>) -> bool {
    forall|index: int| 0 <= index < flags.len() ==> flags[index]
}

/// The steps that bring up input board `board`.
pub open spec fn board_steps(board: usize) -> Seq<Action> {
    seq![
        Action::EnterConfigMode { board },
        Action::CreateAcb { board },
        Action::ArmAcquisition { board },
        Action::RegisterEvents { board },
        Action::AcquireConverter { board },
        Action::SpawnBoard { board },
    ]
}

pub open spec fn boards_steps(upto: int) -> Seq<Action>
    decreases upto,
{
    if upto <= 0 {
        Seq::empty()
    } else {
        boards_steps(upto - 1) + board_steps((upto - 1) as usize)
    }
}

/// The steps that bring up output board `output`.
pub open spec fn output_steps(output: usize) -> Seq<Action> {
    seq![Action::SetupEdgeEvents { output }, Action::SpawnOutput { output }]
}

pub open spec fn outputs_steps(upto: int) -> Seq<Action>
    decreases upto,
{
    if upto <= 0 {
        Seq::empty()
    } else {
        outputs_steps(upto - 1) + output_steps((upto - 1) as usize)
    }
}

/// The steps that arm a stream: every input board in turn, the muxer, every
/// output board in turn, and capture on all input boards at once.
pub open spec fn arm_steps(boards: int, outputs: int) -> Seq<Action> {
    boards_steps(boards) + seq![Action::SpawnMuxer] + outputs_steps(outputs) + seq![
        Action::EnableCapture,
    ]
}

/// What a stream holds, as a mathematical value.
pub struct LedgerView {
    pub acbs: Seq<bool>,
    pub board_threads: Seq<bool>,
    pub edges: Seq<bool>,
    pub output_threads: Seq<bool>,
    pub muxer: bool,
    pub capturing: bool,
    pub stopping: bool,
}

impl LedgerView {
    pub open spec fn wf(self) -> bool {
        &&& self.acbs.len() == self.board_threads.len()
        &&& self.edges.len() == self.output_threads.len()
        &&& self.acbs.len() <= usize::MAX
        &&& self.edges.len() <= usize::MAX
    }

    /// The ledger of a stream with the given boards that holds nothing.
    pub open spec fn idle(boards: int, outputs: int) -> LedgerView {
        LedgerView {
            acbs: Seq::new(boards as nat, |index: int| false),
            board_threads: Seq::new(boards as nat, |index: int| false),
            edges: Seq::new(outputs as nat, |index: int| false),
            output_threads: Seq::new(outputs as nat, |index: int| false),
            muxer: false,
            capturing: false,
            stopping: false,
        }
    }

    /// Nothing is held: no native handle, no thread, and capture is off.
    pub open spec fn is_clear(self) -> bool {
        &&& none_held(self.acbs)
        &&& none_held(self.board_threads)
        &&& none_held(self.edges)
        &&& none_held(self.output_threads)
        &&& !self.muxer
        &&& !self.capturing
    }

    /// Everything is held, capture is on and no stop was asked for.
    pub open spec fn is_armed(self) -> bool {
        &&& all_held(self.acbs)
        &&& all_held(self.board_threads)
        &&& all_held(self.edges)
        &&& all_held(self.output_threads)
        &&& self.muxer
        &&& self.capturing
        &&& !self.stopping
    }

    pub open spec fn threads_live(self) -> bool {
        ||| self.muxer
        ||| !none_held(self.board_threads)
        ||| !none_held(self.output_threads)
    }

    /// The ledger after `action` was carried out.
    pub open spec fn record(self, action: Action) -> LedgerView {
        match action {
            Action::CreateAcb { board } => LedgerView { acbs: marked(self.acbs, board, true), ..self },
            Action::DestroyAcb { board } => LedgerView {
                acbs: marked(self.acbs, board, false),
                ..self
            },
            Action::SpawnBoard { board } => LedgerView {
                board_threads: marked(self.board_threads, board, true),
                ..self
            },
            Action::JoinBoard { board } => LedgerView {
                board_threads: marked(self.board_threads, board, false),
                ..self
            },
            Action::SetupEdgeEvents { output } => LedgerView {
                edges: marked(self.edges, output, true),
                ..self
            },
            Action::TeardownEdgeEvents { output } => LedgerView {
                edges: marked(self.edges, output, false),
                ..self
            },
            Action::SpawnOutput { output } => LedgerView {
                output_threads: marked(self.output_threads, output, true),
                ..self
            },
            Action::JoinOutput { output } => LedgerView {
                output_threads: marked(self.output_threads, output, false),
                ..self
            },
            Action::SpawnMuxer => LedgerView { muxer: true, ..self },
            Action::JoinMuxer => LedgerView { muxer: false, ..self },
            Action::EnableCapture => LedgerView { capturing: true, ..self },
            Action::DisableCapture => LedgerView { capturing: false, ..self },
            Action::RaiseStop => LedgerView { stopping: true, ..self },
            Action::EnterConfigMode { .. } => self,
            Action::ArmAcquisition { .. } => self,
            Action::RegisterEvents { .. } => self,
            Action::AcquireConverter { .. } => self,
        }
    }

    /// The ledger after `actions` were carried out one after the other.
    pub open spec fn run(self, actions: Seq<Action>) -> LedgerView
        decreases actions.len(),
    {
        if actions.len() == 0 {
            self
        } else {
            self.run(actions.drop_last()).record(actions.last())
        }
    }

    /// The steps that release everything the ledger holds, in the order in
    /// which it is safe to do so.
    pub open spec fn unwind(self) -> Seq<Action> {
        (if self.capturing {
            seq![Action::DisableCapture]
        } else {
            Seq::empty()
        }) + (if self.threads_live() {
            seq![Action::RaiseStop]
        } else {
            Seq::empty()
        }) + releases(self.board_threads, Resource::BoardThread, self.board_threads.len() as int)
            + releases(self.output_threads, Resource::OutputThread, self.output_threads.len() as int)
            + releases(self.acbs, Resource::Acb, self.acbs.len() as int) + releases(
            self.edges,
            Resource::EdgeEvents,
            self.edges.len() as int,
        ) + (if self.muxer {
            seq![Action::JoinMuxer]
        } else {
            Seq::empty()
        })
    }
}

impl LedgerView {
    /// Which resources of one kind are held.
    pub open spec fn flags(self, resource: Resource) -> Seq<bool> {
        match resource {
            Resource::Acb => self.acbs,
            Resource::BoardThread => self.board_threads,
            Resource::EdgeEvents => self.edges,
            Resource::OutputThread => self.output_threads,
        }
    }

    pub open spec fn with_flags(self, resource: Resource, flags: Seq<bool>) -> LedgerView {
        match resource {
            Resource::Acb => LedgerView { acbs: flags, ..self },
            Resource::BoardThread => LedgerView { board_threads: flags, ..self },
            Resource::EdgeEvents => LedgerView { edges: flags, ..self },
            Resource::OutputThread => LedgerView { output_threads: flags, ..self },
        }
    }
}

/// `flags` with the first `upto` entries set to `value`.
pub open spec fn filled(flags: Seq<bool>, upto: int, value: bool) -> Seq<bool> {
    Seq::new(flags.len(), |index: int| if index < upto { value } else { flags[index] })
}

/// Carrying out one more step records it on top of the others.
pub proof fn lemma_run_push(ledger: LedgerView, actions: Seq<Action>, action: Action)
    ensures
        ledger.run(actions.push(action)) == ledger.run(actions).record(action),
{
    assert(actions.push(action).drop_last() =~= actions);
}

/// Carrying out two lists of steps in a row is carrying out their
/// concatenation.
pub proof fn lemma_run_concat(ledger: LedgerView, first: Seq<Action>, second: Seq<Action>)
    ensures
        ledger.run(first + second) == ledger.run(first).run(second),
    decreases second.len(),
{
    if second.len() == 0 {
        assert(first + second =~= first);
    } else {
        assert((first + second).drop_last() =~= first + second.drop_last());
        lemma_run_concat(ledger, first, second.drop_last());
    }
}

proof fn lemma_run_one(ledger: LedgerView, action: Action)
    ensures
        ledger.run(seq![action]) == ledger.record(action),
{
    lemma_run_push(ledger, Seq::empty(), action);
    assert(seq![action] =~= Seq::<Action>::empty().push(action));
}

proof fn lemma_releases_run(ledger: LedgerView, resource: Resource, upto: int)
    requires
        ledger.wf(),
        0 <= upto <= ledger.flags(resource).len(),
    ensures
        ledger.run(releases(ledger.flags(resource), resource, upto)) == ledger.with_flags(
            resource,
            filled(ledger.flags(resource), upto, false),
        ),
    decreases upto,
{
    let flags = ledger.flags(resource);
    if upto == 0 {
        assert(filled(flags, 0, false) =~= flags);
    } else {
        let before = releases(flags, resource, upto - 1);
        lemma_releases_run(ledger, resource, upto - 1);
        let reached = ledger.with_flags(resource, filled(flags, upto - 1, false));
        if flags[upto - 1] {
            lemma_run_push(ledger, before, resource.release((upto - 1) as usize));
            assert(marked(filled(flags, upto - 1, false), (upto - 1) as usize, false) =~= filled(
                flags,
                upto,
                false,
            ));
        } else {
            assert(filled(flags, upto - 1, false) =~= filled(flags, upto, false));
        }
    }
}

/// Whatever a stream holds, carrying out the steps of `unwind` leaves
/// nothing held: every acquisition buffer is destroyed, every thread joined,
/// edge detection torn down and capture off.
pub proof fn lemma_unwind_releases_everything(ledger: LedgerView)
    requires
        ledger.wf(),
    ensures
        ledger.run(ledger.unwind()).is_clear(),
{
    let disable = if ledger.capturing {
        seq![Action::DisableCapture]
    } else {
        Seq::empty()
    };
    let stop = if ledger.threads_live() {
        seq![Action::RaiseStop]
    } else {
        Seq::empty()
    };
    let boards = ledger.acbs.len() as int;
    let outputs = ledger.edges.len() as int;
    let join_boards = releases(ledger.board_threads, Resource::BoardThread, boards);
    let join_outputs = releases(ledger.output_threads, Resource::OutputThread, outputs);
    let destroy = releases(ledger.acbs, Resource::Acb, boards);
    let teardown = releases(ledger.edges, Resource::EdgeEvents, outputs);
    let join_muxer = if ledger.muxer {
        seq![Action::JoinMuxer]
    } else {
        Seq::empty()
    };
    let l1 = ledger.run(disable);
    if ledger.capturing {
        lemma_run_one(ledger, Action::DisableCapture);
    }
    let l2 = l1.run(stop);
    if ledger.threads_live() {
        lemma_run_one(l1, Action::RaiseStop);
    }
    assert(l2.board_threads == ledger.board_threads);
    lemma_releases_run(l2, Resource::BoardThread, boards);
    let l3 = l2.run(join_boards);
    lemma_releases_run(l3, Resource::OutputThread, outputs);
    let l4 = l3.run(join_outputs);
    lemma_releases_run(l4, Resource::Acb, boards);
    let l5 = l4.run(destroy);
    lemma_releases_run(l5, Resource::EdgeEvents, outputs);
    let l6 = l5.run(teardown);
    let l7 = l6.run(join_muxer);
    if ledger.muxer {
        lemma_run_one(l6, Action::JoinMuxer);
    }
    lemma_run_concat(ledger, disable, stop);
    lemma_run_concat(ledger, disable + stop, join_boards);
    lemma_run_concat(ledger, disable + stop + join_boards, join_outputs);
    lemma_run_concat(ledger, disable + stop + join_boards + join_outputs, destroy);
    lemma_run_concat(ledger, disable + stop + join_boards + join_outputs + destroy, teardown);
    lemma_run_concat(
        ledger,
        disable + stop + join_boards + join_outputs + destroy + teardown,
        join_muxer,
    );
    assert(ledger.run(ledger.unwind()) == l7);
}

/// In the order of `unwind`, every thread of a board has been joined before
/// the first native handle is released.
pub proof fn lemma_threads_joined_before_release(ledger: LedgerView)
    requires
        ledger.wf(),
    ensures
        ({
            let joins = (if ledger.capturing {
                seq![Action::DisableCapture]
            } else {
                Seq::empty()
            }) + (if ledger.threads_live() {
                seq![Action::RaiseStop]
            } else {
                Seq::empty()
            }) + releases(
                ledger.board_threads,
                Resource::BoardThread,
                ledger.board_threads.len() as int,
            ) + releases(
                ledger.output_threads,
                Resource::OutputThread,
                ledger.output_threads.len() as int,
            );
            let releasing = releases(ledger.acbs, Resource::Acb, ledger.acbs.len() as int) + releases(
                ledger.edges,
                Resource::EdgeEvents,
                ledger.edges.len() as int,
            ) + (if ledger.muxer {
                seq![Action::JoinMuxer]
            } else {
                Seq::empty()
            });
            &&& ledger.unwind() == joins + releasing
            &&& none_held(ledger.run(joins).board_threads)
            &&& none_held(ledger.run(joins).output_threads)
            &&& ledger.threads_live() ==> ledger.run(joins).stopping
            &&& !ledger.run(joins).capturing
        }),
{
    let disable = if ledger.capturing {
        seq![Action::DisableCapture]
    } else {
        Seq::empty()
    };
    let stop = if ledger.threads_live() {
        seq![Action::RaiseStop]
    } else {
        Seq::empty()
    };
    let boards = ledger.acbs.len() as int;
    let outputs = ledger.edges.len() as int;
    let join_boards = releases(ledger.board_threads, Resource::BoardThread, boards);
    let join_outputs = releases(ledger.output_threads, Resource::OutputThread, outputs);
    let destroy = releases(ledger.acbs, Resource::Acb, boards);
    let teardown = releases(ledger.edges, Resource::EdgeEvents, outputs);
    let join_muxer = if ledger.muxer {
        seq![Action::JoinMuxer]
    } else {
        Seq::empty()
    };
    let l1 = ledger.run(disable);
    if ledger.capturing {
        lemma_run_one(ledger, Action::DisableCapture);
    }
    let l2 = l1.run(stop);
    if ledger.threads_live() {
        lemma_run_one(l1, Action::RaiseStop);
    }
    lemma_releases_run(l2, Resource::BoardThread, boards);
    let l3 = l2.run(join_boards);
    lemma_releases_run(l3, Resource::OutputThread, outputs);
    lemma_run_concat(ledger, disable, stop);
    lemma_run_concat(ledger, disable + stop, join_boards);
    lemma_run_concat(ledger, disable + stop + join_boards, join_outputs);
    assert(ledger.unwind() =~= (disable + stop + join_boards + join_outputs) + (destroy + teardown
        + join_muxer));
}

/// A release begins by disabling capture, if capture is on, and ends by
/// joining the muxer, if the muxer runs: the muxer outlives its producers.
pub proof fn lemma_capture_first_muxer_last(ledger: LedgerView)
    ensures
        ledger.capturing ==> ledger.unwind().len() > 0 && ledger.unwind()[0]
            == Action::DisableCapture,
        ledger.muxer ==> ledger.unwind().len() > 0 && ledger.unwind().last() == Action::JoinMuxer,
{
}

proof fn lemma_board_steps_run(ledger: LedgerView, board: usize)
    ensures
        ledger.run(board_steps(board)) == (LedgerView {
            acbs: marked(ledger.acbs, board, true),
            board_threads: marked(ledger.board_threads, board, true),
            ..ledger
        }),
{
    let s0 = Seq::<Action>::empty();
    let s1 = s0.push(Action::EnterConfigMode { board });
    let s2 = s1.push(Action::CreateAcb { board });
    let s3 = s2.push(Action::ArmAcquisition { board });
    let s4 = s3.push(Action::RegisterEvents { board });
    let s5 = s4.push(Action::AcquireConverter { board });
    let s6 = s5.push(Action::SpawnBoard { board });
    lemma_run_push(ledger, s0, Action::EnterConfigMode { board });
    lemma_run_push(ledger, s1, Action::CreateAcb { board });
    lemma_run_push(ledger, s2, Action::ArmAcquisition { board });
    lemma_run_push(ledger, s3, Action::RegisterEvents { board });
    lemma_run_push(ledger, s4, Action::AcquireConverter { board });
    lemma_run_push(ledger, s5, Action::SpawnBoard { board });
    assert(board_steps(board) =~= s6);
}

proof fn lemma_output_steps_run(ledger: LedgerView, output: usize)
    ensures
        ledger.run(output_steps(output)) == (LedgerView {
            edges: marked(ledger.edges, output, true),
            output_threads: marked(ledger.output_threads, output, true),
            ..ledger
        }),
{
    let s0 = Seq::<Action>::empty();
    let s1 = s0.push(Action::SetupEdgeEvents { output });
    let s2 = s1.push(Action::SpawnOutput { output });
    lemma_run_push(ledger, s0, Action::SetupEdgeEvents { output });
    lemma_run_push(ledger, s1, Action::SpawnOutput { output });
    assert(output_steps(output) =~= s2);
}

proof fn lemma_boards_steps_run(ledger: LedgerView, upto: int)
    requires
        ledger.wf(),
        0 <= upto <= ledger.acbs.len(),
    ensures
        ledger.run(boards_steps(upto)) == (LedgerView {
            acbs: filled(ledger.acbs, upto, true),
            board_threads: filled(ledger.board_threads, upto, true),
            ..ledger
        }),
    decreases upto,
{
    if upto == 0 {
        assert(filled(ledger.acbs, 0, true) =~= ledger.acbs);
        assert(filled(ledger.board_threads, 0, true) =~= ledger.board_threads);
    } else {
        let board = (upto - 1) as usize;
        lemma_boards_steps_run(ledger, upto - 1);
        let reached = ledger.run(boards_steps(upto - 1));
        lemma_run_concat(ledger, boards_steps(upto - 1), board_steps(board));
        lemma_board_steps_run(reached, board);
        assert(marked(filled(ledger.acbs, upto - 1, true), board, true) =~= filled(
            ledger.acbs,
            upto,
            true,
        ));
        assert(marked(filled(ledger.board_threads, upto - 1, true), board, true) =~= filled(
            ledger.board_threads,
            upto,
            true,
        ));
    }
}

proof fn lemma_outputs_steps_run(ledger: LedgerView, upto: int)
    requires
        ledger.wf(),
        0 <= upto <= ledger.edges.len(),
    ensures
        ledger.run(outputs_steps(upto)) == (LedgerView {
            edges: filled(ledger.edges, upto, true),
            output_threads: filled(ledger.output_threads, upto, true),
            ..ledger
        }),
    decreases upto,
{
    if upto == 0 {
        assert(filled(ledger.edges, 0, true) =~= ledger.edges);
        assert(filled(ledger.output_threads, 0, true) =~= ledger.output_threads);
    } else {
        let output = (upto - 1) as usize;
        lemma_outputs_steps_run(ledger, upto - 1);
        let reached = ledger.run(outputs_steps(upto - 1));
        lemma_run_concat(ledger, outputs_steps(upto - 1), output_steps(output));
        lemma_output_steps_run(reached, output);
        assert(marked(filled(ledger.edges, upto - 1, true), output, true) =~= filled(
            ledger.edges,
            upto,
            true,
        ));
        assert(marked(filled(ledger.output_threads, upto - 1, true), output, true) =~= filled(
            ledger.output_threads,
            upto,
            true,
        ));
    }
}

/// Carrying out all steps of arming on a stream that holds nothing arms it.
pub proof fn lemma_arming_arms(boards: int, outputs: int)
    requires
        0 <= boards <= usize::MAX,
        0 <= outputs <= usize::MAX,
    ensures
        LedgerView::idle(boards, outputs).run(arm_steps(boards, outputs)).is_armed(),
        LedgerView::idle(boards, outputs).run(arm_steps(boards, outputs)).wf(),
{
    let idle = LedgerView::idle(boards, outputs);
    lemma_boards_steps_run(idle, boards);
    let l1 = idle.run(boards_steps(boards));
    lemma_run_one(l1, Action::SpawnMuxer);
    let l2 = l1.run(seq![Action::SpawnMuxer]);
    lemma_outputs_steps_run(l2, outputs);
    let l3 = l2.run(outputs_steps(outputs));
    lemma_run_one(l3, Action::EnableCapture);
    lemma_run_concat(idle, boards_steps(boards), seq![Action::SpawnMuxer]);
    lemma_run_concat(idle, boards_steps(boards) + seq![Action::SpawnMuxer], outputs_steps(outputs));
    lemma_run_concat(
        idle,
        boards_steps(boards) + seq![Action::SpawnMuxer] + outputs_steps(outputs),
        seq![Action::EnableCapture],
    );
}

/// Carrying out steps keeps the ledger's shape.
pub proof fn lemma_run_keeps_shape(ledger: LedgerView, actions: Seq<Action>)
    requires
        ledger.wf(),
    ensures
        ledger.run(actions).wf(),
        ledger.run(actions).acbs.len() == ledger.acbs.len(),
        ledger.run(actions).edges.len() == ledger.edges.len(),
    decreases actions.len(),
{
    if actions.len() > 0 {
        lemma_run_keeps_shape(ledger, actions.drop_last());
    }
}

/// Arming a stream and releasing it at once leaves nothing held. The same
/// holds when arming stops after any number of steps: what was acquired up
/// to there is released, and nothing else is touched.
pub proof fn lemma_arm_then_unwind_balances(boards: int, outputs: int, done: int)
    requires
        0 <= boards <= usize::MAX,
        0 <= outputs <= usize::MAX,
        0 <= done <= arm_steps(boards, outputs).len(),
    ensures
        ({
            let reached = LedgerView::idle(boards, outputs).run(arm_steps(boards, outputs).take(done));
            reached.run(reached.unwind()).is_clear()
        }),
{
    let idle = LedgerView::idle(boards, outputs);
    lemma_run_keeps_shape(idle, arm_steps(boards, outputs).take(done));
    lemma_unwind_releases_everything(idle.run(arm_steps(boards, outputs).take(done)));
}

impl Resource {
    /// The step that releases the resource at `index`.
    pub fn to_release(self, index: usize) -> (action: Action)
        ensures
            action == self.release(index),
    {
        match self {
            Resource::Acb => Action::DestroyAcb { board: index },
            Resource::BoardThread => Action::JoinBoard { board: index },
            Resource::EdgeEvents => Action::TeardownEdgeEvents { output: index },
            Resource::OutputThread => Action::JoinOutput { output: index },
        }
    }
}

fn blank(count: usize) -> (flags: Vec<bool>)
    ensures
        flags@ == Seq::new(count as nat, |index: int| false),
{
    let mut flags: Vec<bool> = Vec::new();
    while flags.len() < count
        invariant
            flags@.len() <= count,
            forall|index: int| 0 <= index < flags@.len() ==> !flags@[index],
        decreases count - flags@.len(),
    {
        flags.push(false);
    }
    assert(flags@ =~= Seq::new(count as nat, |index: int| false));
    flags
}

fn mark(flags: &mut Vec<bool>, index: usize, value: bool)
    ensures
        final(flags)@ == marked(old(flags)@, index, value),
{
    if index < flags.len() {
        flags.set(index, value);
    }
}

fn none(flags: &Vec<bool>) -> (none: bool)
    ensures
        none == none_held(flags@),
{
    let mut index: usize = 0;
    while index < flags.len()
        invariant
            index <= flags@.len(),
            forall|k: int| 0 <= k < index ==> !flags@[k],
        decreases flags@.len() - index,
    {
        if flags[index] {
            return false;
        }
        index += 1;
    }
    true
}

fn all(flags: &Vec<bool>) -> (all: bool)
    ensures
        all == all_held(flags@),
{
    let mut index: usize = 0;
    while index < flags.len()
        invariant
            index <= flags@.len(),
            forall|k: int| 0 <= k < index ==> flags@[k],
        decreases flags@.len() - index,
    {
        if !flags[index] {
            return false;
        }
        index += 1;
    }
    true
}

fn release_all(flags: &Vec<bool>, resource: Resource, plan: &mut Vec<Action>)
    ensures
        final(plan)@ == old(plan)@ + releases(flags@, resource, flags@.len() as int),
{
    let ghost before = plan@;
    let mut index: usize = 0;
    assert(plan@ =~= before + releases(flags@, resource, 0));
    while index < flags.len()
        invariant
            index <= flags@.len(),
            plan@ == before + releases(flags@, resource, index as int),
        decreases flags@.len() - index,
    {
        if flags[index] {
            plan.push(resource.to_release(index));
        }
        index += 1;
        assert(plan@ =~= before + releases(flags@, resource, index as int));
    }
}

/// What a stream holds at the moment.
pub struct Ledger {
    acbs: Vec<bool>,
    board_threads: Vec<bool>,
    edges: Vec<bool>,
    output_threads: Vec<bool>,
    muxer: bool,
    capturing: bool,
    stopping: bool,
}

impl View for Ledger {
    type V = LedgerView;

    closed spec fn view(&self) -> LedgerView {
        LedgerView {
            acbs: self.acbs@,
            board_threads: self.board_threads@,
            edges: self.edges@,
            output_threads: self.output_threads@,
            muxer: self.muxer,
            capturing: self.capturing,
            stopping: self.stopping,
        }
    }
}

impl Ledger {
    /// The ledger of a stream that holds nothing yet.
    pub fn new(boards: usize, outputs: usize) -> (ledger: Ledger)
        ensures
            ledger@ == LedgerView::idle(boards as int, outputs as int),
            ledger@.wf(),
    {
        Ledger {
            acbs: blank(boards),
            board_threads: blank(boards),
            edges: blank(outputs),
            output_threads: blank(outputs),
            muxer: false,
            capturing: false,
            stopping: false,
        }
    }

    /// Notes that `action` was carried out.
    pub fn record(&mut self, action: Action)
        ensures
            final(self)@ == old(self)@.record(action),
    {
        match action {
            Action::CreateAcb { board } => mark(&mut self.acbs, board, true),
            Action::DestroyAcb { board } => mark(&mut self.acbs, board, false),
            Action::SpawnBoard { board } => mark(&mut self.board_threads, board, true),
            Action::JoinBoard { board } => mark(&mut self.board_threads, board, false),
            Action::SetupEdgeEvents { output } => mark(&mut self.edges, output, true),
            Action::TeardownEdgeEvents { output } => mark(&mut self.edges, output, false),
            Action::SpawnOutput { output } => mark(&mut self.output_threads, output, true),
            Action::JoinOutput { output } => mark(&mut self.output_threads, output, false),
            Action::SpawnMuxer => {
                self.muxer = true;
            },
            Action::JoinMuxer => {
                self.muxer = false;
            },
            Action::EnableCapture => {
                self.capturing = true;
            },
            Action::DisableCapture => {
                self.capturing = false;
            },
            Action::RaiseStop => {
                self.stopping = true;
            },
            Action::EnterConfigMode { .. } => {},
            Action::ArmAcquisition { .. } => {},
            Action::RegisterEvents { .. } => {},
            Action::AcquireConverter { .. } => {},
        }
    }

    /// The steps that release everything the stream holds.
    pub fn unwind(&self) -> (plan: Vec<Action>)
        ensures
            plan@ == self@.unwind(),
    {
        let mut plan: Vec<Action> = Vec::new();
        if self.capturing {
            plan.push(Action::DisableCapture);
        }
        if self.muxer || !none(&self.board_threads) || !none(&self.output_threads) {
            plan.push(Action::RaiseStop);
        }
        release_all(&self.board_threads, Resource::BoardThread, &mut plan);
        release_all(&self.output_threads, Resource::OutputThread, &mut plan);
        release_all(&self.acbs, Resource::Acb, &mut plan);
        release_all(&self.edges, Resource::EdgeEvents, &mut plan);
        if self.muxer {
            plan.push(Action::JoinMuxer);
        }
        assert(plan@ =~= self@.unwind());
        plan
    }

    pub fn is_clear(&self) -> (clear: bool)
        ensures
            clear == self@.is_clear(),
    {
        none(&self.acbs) && none(&self.board_threads) && none(&self.edges) && none(
            &self.output_threads,
        ) && !self.muxer && !self.capturing
    }

    pub fn is_armed(&self) -> (armed: bool)
        ensures
            armed == self@.is_armed(),
    {
        all(&self.acbs) && all(&self.board_threads) && all(&self.edges) && all(&self.output_threads)
            && self.muxer && self.capturing && !self.stopping
    }
}

/// The steps that arm a stream with the given number of boards.
pub fn arm_plan(boards: usize, outputs: usize) -> (plan: Vec<Action>)
    ensures
        plan@ == arm_steps(boards as int, outputs as int),
{
    let mut plan: Vec<Action> = Vec::new();
    let mut board: usize = 0;
    assert(plan@ =~= boards_steps(0));
    while board < boards
        invariant
            board <= boards,
            plan@ == boards_steps(board as int),
        decreases boards - board,
    {
        plan.push(Action::EnterConfigMode { board });
        plan.push(Action::CreateAcb { board });
        plan.push(Action::ArmAcquisition { board });
        plan.push(Action::RegisterEvents { board });
        plan.push(Action::AcquireConverter { board });
        plan.push(Action::SpawnBoard { board });
        assert(plan@ =~= boards_steps(board as int) + board_steps(board));
        board += 1;
    }
    plan.push(Action::SpawnMuxer);
    let ghost head = plan@;
    assert(head =~= boards_steps(boards as int) + seq![Action::SpawnMuxer]);
    let mut output: usize = 0;
    assert(plan@ =~= head + outputs_steps(0));
    while output < outputs
        invariant
            output <= outputs,
            plan@ == head + outputs_steps(output as int),
        decreases outputs - output,
    {
        plan.push(Action::SetupEdgeEvents { output });
        plan.push(Action::SpawnOutput { output });
        assert(plan@ =~= head + (outputs_steps(output as int) + output_steps(output)));
        output += 1;
    }
    plan.push(Action::EnableCapture);
    assert(plan@ =~= arm_steps(boards as int, outputs as int));
    plan
}

} // verus!
