//! The multiplexer: fuses the frames of the input boards into unified records.
//!
//! A stream with one input board passes each frame through unchanged. A
//! stream with several boards takes one frame from every board per cycle and
//! interleaves their readings scan by scan, in the order in which the boards
//! were declared. The muxer never touches a queue: the caller receives the
//! frames, hands them over as a [`MuxEvent`] and forwards the record, if one
//! comes back.

use crate::error::DaqError;
use itertools::Itertools;
use vstd::prelude::*;

verus! {

/// Number of trailing values per scan that carry the scan's timestamp when
/// the boards embed it in their data.
pub const TIMESTAMP_SLOTS: usize = 2;

/// The readings one board delivered for one frame-done event, scan after
/// scan, and one timestamp per scan.
#[derive(Clone, Debug, PartialEq)]
pub struct Frame<T> {
    pub readings: Vec<T>,
    pub timestamps: Vec<u32>,
}

pub struct FrameView<T> {
    pub readings: Seq<T>,
    pub timestamps: Seq<u32>,
}

impl<T> View for Frame<T> {
    type V = FrameView<T>;

    open spec fn view(&self) -> FrameView<T> {
        FrameView { readings: self.readings@, timestamps: self.timestamps@ }
    }
}

/// What the stream hands to its sink: the readings of all boards, scan after
/// scan, tagged with the stream's topic.
#[derive(Clone, Debug, PartialEq)]
pub struct Record<T> {
    pub topic: String,
    pub readings: Vec<T>,
    pub timestamps: Vec<u32>,
}

pub struct RecordView<T> {
    pub topic: Seq<char>,
    pub readings: Seq<T>,
    pub timestamps: Seq<u32>,
}

impl<T> View for Record<T> {
    type V = RecordView<T>;

    open spec fn view(&self) -> RecordView<T> {
        RecordView { topic: self.topic@, readings: self.readings@, timestamps: self.timestamps@ }
    }
}

/// The frames of one cycle as mathematical values.
pub open spec fn frame_views<T>(frames: Seq<Frame<T>>) -> Seq<FrameView<T>> {
    frames.map_values(|frame: Frame<T>| frame@)
}

pub open spec fn record_view<T>(record: Option<Record<T>>) -> Option<RecordView<T>> {
    match record {
        Some(record) => Some(record@),
        None => None,
    }
}

/// How the muxer treats what it receives.
#[derive(Clone, Copy, Debug, PartialEq, Eq, Structural)]
pub enum MuxPolicy {
    PassThrough,
    Merge,
}

/// What the caller observed on the muxer's queues.
pub enum MuxEvent<T> {
    /// One frame from every input board, in board order.
    Cycle(Vec<Frame<T>>),
    /// A producer queue was closed.
    InputClosed,
    /// The sink refused the last record.
    SinkClosed,
}

/// Number of channel readings per scan that the boards before `upto`
/// contribute: the place of board `upto` within a merged scan.
pub open spec fn offset(channels: Seq<usize>, upto: int) -> int
    decreases upto,
{
    if upto <= 0 {
        0
    } else {
        offset(channels, upto - 1) + channels[upto - 1]
    }
}

/// The channel readings of one scan of one board, without the embedded
/// timestamp slots.
pub open spec fn board_scan<T>(frame: FrameView<T>, channels: int, stride: int, scan: int) -> Seq<T> {
    frame.readings.subrange(scan * stride, scan * stride + channels)
}

/// The readings of scan `scan` of the first `upto` boards, one board after
/// the other.
pub open spec fn scan_row<T>(
    frames: Seq<FrameView<T>>,
    channels: Seq<usize>,
    slots: int,
    scan: int,
    upto: int,
) -> Seq<T>
    decreases upto,
{
    if upto <= 0 {
        Seq::empty()
    } else {
        scan_row(frames, channels, slots, scan, upto - 1) + board_scan(
            frames[upto - 1],
            channels[upto - 1] as int,
            channels[upto - 1] + slots,
            scan,
        )
    }
}

/// The first `scans` merged scans, one row after the other.
pub open spec fn merged_scans<T>(
    frames: Seq<FrameView<T>>,
    channels: Seq<usize>,
    slots: int,
    scans: int,
) -> Seq<T>
    decreases scans,
{
    if scans <= 0 {
        Seq::empty()
    } else {
        merged_scans(frames, channels, slots, scans - 1) + scan_row(
            frames,
            channels,
            slots,
            scans - 1,
            channels.len() as int,
        )
    }
}

/// The muxer as a mathematical value.
pub struct MuxerView {
    pub topic: Seq<char>,
    /// Channel readings per scan of each input board, in board order.
    pub channels: Seq<usize>,
    /// Extra values per scan in every frame, after the channel readings.
    pub slots: int,
    pub running: bool,
}

impl MuxerView {
    /// Values per scan in the frames of board `board`.
    pub open spec fn stride(self, board: int) -> int {
        self.channels[board] + self.slots
    }

    pub open spec fn wf(self) -> bool {
        &&& self.channels.len() >= 1
        &&& 0 <= self.slots
        &&& forall|board: int|
            0 <= board < self.channels.len() ==> 0 < #[trigger] self.stride(board) <= usize::MAX
    }

    pub open spec fn policy(self) -> MuxPolicy {
        if self.channels.len() == 1 {
            MuxPolicy::PassThrough
        } else {
            MuxPolicy::Merge
        }
    }

    /// Number of whole scans in the frame of board `board`.
    pub open spec fn scans<T>(self, frames: Seq<FrameView<T>>, board: int) -> int {
        frames[board].readings.len() as int / self.stride(board)
    }

    /// There is one frame per board, and all of them hold the same number of
    /// scans and as many timestamps.
    pub open spec fn aligned<T>(self, frames: Seq<FrameView<T>>) -> bool {
        &&& frames.len() == self.channels.len()
        &&& forall|board: int|
            0 <= board < frames.len() ==> {
                &&& #[trigger] self.scans(frames, board) == self.scans(frames, 0)
                &&& frames[board].timestamps.len() == self.scans(frames, 0)
            }
    }

    /// The record that merges the frames of one cycle.
    pub open spec fn merged<T>(self, frames: Seq<FrameView<T>>) -> RecordView<T> {
        RecordView {
            topic: self.topic,
            readings: merged_scans(frames, self.channels, self.slots, self.scans(frames, 0)),
            timestamps: frames[0].timestamps,
        }
    }

    /// The record that carries one frame unchanged.
    pub open spec fn passed<T>(self, frame: FrameView<T>) -> RecordView<T> {
        RecordView { topic: self.topic, readings: frame.readings, timestamps: frame.timestamps }
    }

    /// What a running muxer emits for the frames of one cycle. `None` ends
    /// the muxer.
    pub open spec fn cycle_output<T>(self, frames: Seq<FrameView<T>>) -> Option<RecordView<T>> {
        match self.policy() {
            MuxPolicy::PassThrough => if frames.len() == 1 {
                Some(self.passed(frames[0]))
            } else {
                None
            },
            MuxPolicy::Merge => if self.aligned(frames) {
                Some(self.merged(frames))
            } else {
                None
            },
        }
    }

    /// Everything the muxer emits when it is handed `cycles` one after the
    /// other: the output of each cycle up to the first that ends it.
    pub open spec fn emitted<T>(self, cycles: Seq<Seq<FrameView<T>>>) -> Seq<RecordView<T>>
        decreases cycles.len(),
    {
        if !self.running || cycles.len() == 0 {
            Seq::empty()
        } else {
            match self.cycle_output(cycles[0]) {
                Some(record) => seq![record] + self.emitted(cycles.drop_first()),
                None => Seq::empty(),
            }
        }
    }
}

/// Scan `scan` of a frame with `stride` values per scan lies within the
/// frame when the frame holds more than `scan` whole scans.
proof fn lemma_scan_in_frame(length: int, stride: int, scan: int)
    by (nonlinear_arith)
    requires
        0 < stride,
        0 <= length,
        0 <= scan < length / stride,
    ensures
        0 <= scan * stride,
        scan * stride + stride <= length,
{
}

proof fn lemma_offset_monotonic(channels: Seq<usize>, from: int, upto: int)
    requires
        0 <= from <= upto,
    ensures
        0 <= offset(channels, from) <= offset(channels, upto),
    decreases upto,
{
    if from < upto {
        lemma_offset_monotonic(channels, from, upto - 1);
    } else if from > 0 {
        lemma_offset_monotonic(channels, from - 1, from - 1);
        lemma_offset_monotonic(channels, 0, from - 1);
    }
}

proof fn lemma_scan_row_len<T>(mux: MuxerView, frames: Seq<FrameView<T>>, scan: int, upto: int)
    requires
        mux.wf(),
        mux.aligned(frames),
        0 <= scan < mux.scans(frames, 0),
        0 <= upto <= mux.channels.len(),
    ensures
        scan_row(frames, mux.channels, mux.slots, scan, upto).len() == offset(mux.channels, upto),
    decreases upto,
{
    if upto > 0 {
        let board = upto - 1;
        lemma_scan_row_len(mux, frames, scan, board);
        assert(mux.scans(frames, board) == mux.scans(frames, 0));
        assert(0 < mux.stride(board));
        lemma_scan_in_frame(frames[board].readings.len() as int, mux.stride(board), scan);
    }
}

proof fn lemma_scan_row_at<T>(
    mux: MuxerView,
    frames: Seq<FrameView<T>>,
    scan: int,
    upto: int,
    board: int,
    channel: int,
)
    requires
        mux.wf(),
        mux.aligned(frames),
        0 <= scan < mux.scans(frames, 0),
        0 <= board < upto <= mux.channels.len(),
        0 <= channel < mux.channels[board],
    ensures
        0 <= offset(mux.channels, board) + channel < offset(mux.channels, upto),
        0 <= scan * mux.stride(board) + channel < frames[board].readings.len(),
        scan_row(frames, mux.channels, mux.slots, scan, upto)[offset(mux.channels, board) + channel]
            == frames[board].readings[scan * mux.stride(board) + channel],
    decreases upto,
{
    let last = upto - 1;
    lemma_scan_row_len(mux, frames, scan, last);
    lemma_scan_row_len(mux, frames, scan, upto);
    lemma_offset_monotonic(mux.channels, 0, board);
    assert(mux.scans(frames, last) == mux.scans(frames, 0));
    assert(0 < mux.stride(last));
    lemma_scan_in_frame(frames[last].readings.len() as int, mux.stride(last), scan);
    if board < last {
        lemma_scan_row_at(mux, frames, scan, last, board, channel);
    }
}

proof fn lemma_merged_len<T>(mux: MuxerView, frames: Seq<FrameView<T>>, upto: int)
    requires
        mux.wf(),
        mux.aligned(frames),
        0 <= upto <= mux.scans(frames, 0),
    ensures
        merged_scans(frames, mux.channels, mux.slots, upto).len() == upto * offset(
            mux.channels,
            mux.channels.len() as int,
        ),
    decreases upto,
{
    let total = offset(mux.channels, mux.channels.len() as int);
    if upto > 0 {
        lemma_merged_len(mux, frames, upto - 1);
        lemma_scan_row_len(mux, frames, upto - 1, mux.channels.len() as int);
        assert((upto - 1) * total + total == upto * total) by (nonlinear_arith);
    } else {
        assert(0 * total == 0) by (nonlinear_arith);
    }
}

proof fn lemma_merged_row<T>(mux: MuxerView, frames: Seq<FrameView<T>>, upto: int, scan: int)
    requires
        mux.wf(),
        mux.aligned(frames),
        0 <= scan < upto <= mux.scans(frames, 0),
    ensures
        ({
            let total = offset(mux.channels, mux.channels.len() as int);
            let merged = merged_scans(frames, mux.channels, mux.slots, upto);
            &&& 0 <= scan * total
            &&& scan * total + total <= merged.len()
            &&& merged.subrange(scan * total, scan * total + total) == scan_row(
                frames,
                mux.channels,
                mux.slots,
                scan,
                mux.channels.len() as int,
            )
        }),
    decreases upto,
{
    let boards = mux.channels.len() as int;
    let total = offset(mux.channels, boards);
    let merged = merged_scans(frames, mux.channels, mux.slots, upto);
    let before = merged_scans(frames, mux.channels, mux.slots, upto - 1);
    let row = scan_row(frames, mux.channels, mux.slots, upto - 1, boards);
    lemma_offset_monotonic(mux.channels, 0, boards);
    lemma_merged_len(mux, frames, upto - 1);
    lemma_merged_len(mux, frames, upto);
    lemma_scan_row_len(mux, frames, upto - 1, boards);
    assert((upto - 1) * total + total == upto * total) by (nonlinear_arith);
    if scan == upto - 1 {
        assert(merged.subrange(scan * total, scan * total + total) =~= row);
    } else {
        lemma_merged_row(mux, frames, upto - 1, scan);
        assert(merged.subrange(scan * total, scan * total + total) =~= before.subrange(
            scan * total,
            scan * total + total,
        ));
    }
}

/// The size of a merged record: it holds as many scans as every contributing
/// frame, each as wide as all boards' channels together, and one timestamp
/// per scan.
pub proof fn lemma_merge_length<T>(mux: MuxerView, frames: Seq<FrameView<T>>, board: int)
    requires
        mux.wf(),
        mux.aligned(frames),
        0 <= board < mux.channels.len(),
    ensures
        mux.merged(frames).readings.len() == mux.scans(frames, board) * offset(
            mux.channels,
            mux.channels.len() as int,
        ),
        mux.merged(frames).timestamps.len() == mux.scans(frames, board),
        mux.merged(frames).timestamps == frames[0].timestamps,
{
    assert(mux.scans(frames, board) == mux.scans(frames, 0));
    assert(frames[0].timestamps.len() == mux.scans(frames, 0));
    lemma_merged_len(mux, frames, mux.scans(frames, 0));
}

/// The layout of a merged record: the slice that holds scan `scan` is the
/// concatenation, in board order, of what each board read at that scan.
pub proof fn lemma_merge_layout<T>(mux: MuxerView, frames: Seq<FrameView<T>>, scan: int)
    requires
        mux.wf(),
        mux.aligned(frames),
        0 <= scan < mux.scans(frames, 0),
    ensures
        ({
            let total = offset(mux.channels, mux.channels.len() as int);
            let readings = mux.merged(frames).readings;
            &&& 0 <= scan * total
            &&& scan * total + total <= readings.len()
            &&& readings.subrange(scan * total, scan * total + total) == scan_row(
                frames,
                mux.channels,
                mux.slots,
                scan,
                mux.channels.len() as int,
            )
        }),
{
    lemma_merged_row(mux, frames, mux.scans(frames, 0), scan);
}

/// The same layout reading by reading: at scan `scan`, the reading of
/// channel `channel` of board `board` stands after the channels of the
/// boards declared before it, and is the one the board's frame holds for
/// that scan.
pub proof fn lemma_merge_reading<T>(
    mux: MuxerView,
    frames: Seq<FrameView<T>>,
    scan: int,
    board: int,
    channel: int,
)
    requires
        mux.wf(),
        mux.aligned(frames),
        0 <= scan < mux.scans(frames, 0),
        0 <= board < mux.channels.len(),
        0 <= channel < mux.channels[board],
    ensures
        ({
            let total = offset(mux.channels, mux.channels.len() as int);
            let place = scan * total + offset(mux.channels, board) + channel;
            let source = scan * mux.stride(board) + channel;
            &&& 0 <= place < mux.merged(frames).readings.len()
            &&& 0 <= source < frames[board].readings.len()
            &&& mux.merged(frames).readings[place] == frames[board].readings[source]
        }),
{
    let boards = mux.channels.len() as int;
    let total = offset(mux.channels, boards);
    let readings = mux.merged(frames).readings;
    lemma_merged_row(mux, frames, mux.scans(frames, 0), scan);
    lemma_scan_row_at(mux, frames, scan, boards, board, channel);
    let inner = offset(mux.channels, board) + channel;
    assert(readings.subrange(scan * total, scan * total + total)[inner] == readings[scan * total
        + inner]);
}

/// A cycle in which two boards report different scan counts yields no
/// record, and nothing is emitted for the cycles after it.
pub proof fn lemma_misaligned_cycle_ends_output<T>(
    mux: MuxerView,
    cycles: Seq<Seq<FrameView<T>>>,
    at: int,
    one: int,
    other: int,
)
    requires
        mux.wf(),
        mux.policy() == MuxPolicy::Merge,
        0 <= at < cycles.len(),
        0 <= one < mux.channels.len(),
        0 <= other < mux.channels.len(),
        mux.scans(cycles[at], one) != mux.scans(cycles[at], other),
    ensures
        mux.cycle_output(cycles[at]) is None,
        mux.emitted(cycles) == mux.emitted(cycles.take(at)),
        mux.emitted(cycles).len() <= at,
    decreases at,
{
    if mux.aligned(cycles[at]) {
        assert(mux.scans(cycles[at], one) == mux.scans(cycles[at], 0));
        assert(mux.scans(cycles[at], other) == mux.scans(cycles[at], 0));
    }
    let head = cycles.take(at);
    if at > 0 && mux.running {
        assert(head[0] == cycles[0]);
        let rest = cycles.drop_first();
        assert(rest[at - 1] == cycles[at]);
        assert(head.drop_first() =~= rest.take(at - 1));
        if mux.cycle_output(cycles[0]) is Some {
            lemma_misaligned_cycle_ends_output(mux, rest, at - 1, one, other);
        }
    }
}

/// The cycles of a stream with a single board: one frame each.
pub open spec fn single_frame_cycles<T>(frames: Seq<FrameView<T>>) -> Seq<Seq<FrameView<T>>> {
    Seq::new(frames.len(), |at: int| seq![frames[at]])
}

/// With a single board, the emitted records are the board's frames, one for
/// one and in arrival order, with nothing changed but the topic added.
pub proof fn lemma_pass_through_preserves_stream<T>(mux: MuxerView, frames: Seq<FrameView<T>>)
    requires
        mux.wf(),
        mux.running,
        mux.policy() == MuxPolicy::PassThrough,
    ensures
        mux.emitted(single_frame_cycles(frames)).len() == frames.len(),
        forall|at: int|
            0 <= at < frames.len() ==> {
                let record = #[trigger] mux.emitted(single_frame_cycles(frames))[at];
                &&& record.topic == mux.topic
                &&& record.readings == frames[at].readings
                &&& record.timestamps == frames[at].timestamps
            },
    decreases frames.len(),
{
    let cycles = single_frame_cycles(frames);
    if frames.len() > 0 {
        let rest = frames.drop_first();
        assert(cycles.drop_first() =~= single_frame_cycles(rest));
        lemma_pass_through_preserves_stream(mux, rest);
        let tail = mux.emitted(single_frame_cycles(rest));
        assert(mux.emitted(cycles) == seq![mux.passed(frames[0])] + tail);
        assert forall|at: int| 0 <= at < frames.len() implies {
            let record = #[trigger] mux.emitted(cycles)[at];
            &&& record.topic == mux.topic
            &&& record.readings == frames[at].readings
            &&& record.timestamps == frames[at].timestamps
        } by {
            if at > 0 {
                assert(mux.emitted(cycles)[at] == tail[at - 1]);
                assert(rest[at - 1] == frames[at]);
            }
        }
    }
}

/// The running muxer of a stream whose boards have the given channel
/// counts.
pub open spec fn planned_muxer(topic: Seq<char>, channels: Seq<usize>, embedded_timestamps: bool) -> MuxerView {
    MuxerView {
        topic,
        channels,
        slots: if embedded_timestamps {
            TIMESTAMP_SLOTS as int
        } else {
            0
        },
        running: true,
    }
}

/// `Itertools::all_equal` on the values of a vector: true when every value
/// equals the first, which for integers is to say that any two are equal.
/// An empty vector counts as equal.
#[verifier::external_body]
fn all_equal(values: &Vec<usize>) -> (equal: bool)
    ensures
        equal == (forall|i: int, j: int|
            0 <= i < values@.len() && 0 <= j < values@.len() ==> values@[i] == values@[j]),
{
    values.iter().all_equal()
}

/// The merge and pass-through stage of one stream.
pub struct Muxer {
    topic: String,
    channels: Vec<usize>,
    slots: usize,
    running: bool,
}

impl View for Muxer {
    type V = MuxerView;

    closed spec fn view(&self) -> MuxerView {
        MuxerView {
            topic: self.topic@,
            channels: self.channels@,
            slots: self.slots as int,
            running: self.running,
        }
    }
}

impl Muxer {
    /// A running muxer for boards with the given channel counts. The policy
    /// follows from the number of boards. A stream without boards, or a
    /// board whose frames would hold no value per scan, is refused.
    #[verifier::loop_isolation(false)]
    pub fn new(topic: String, channels: Vec<usize>, embedded_timestamps: bool) -> (muxer: Result<
        Muxer,
        DaqError,
    >)
        ensures
            muxer is Ok <==> planned_muxer(topic@, channels@, embedded_timestamps).wf(),
            muxer matches Ok(m) ==> m@ == planned_muxer(topic@, channels@, embedded_timestamps),
            muxer matches Err(e) ==> e == DaqError::ChannelConfigError,
    {
        let slots: usize = if embedded_timestamps { TIMESTAMP_SLOTS } else { 0 };
        let ghost view = planned_muxer(topic@, channels@, embedded_timestamps);
        if channels.len() == 0 {
            return Err(DaqError::ChannelConfigError);
        }
        let mut board: usize = 0;
        while board < channels.len()
            invariant
                board <= channels.len(),
                forall|b: int| 0 <= b < board ==> 0 < #[trigger] view.stride(b) <= usize::MAX,
            decreases channels.len() - board,
        {
            let count = channels[board];
            if count > usize::MAX - slots || count + slots == 0 {
                proof {
                    assert(!(0 < view.stride(board as int) <= usize::MAX));
                }
                return Err(DaqError::ChannelConfigError);
            }
            board += 1;
        }
        Ok(Muxer { topic, channels, slots, running: true })
    }

    pub fn policy(&self) -> (policy: MuxPolicy)
        ensures
            policy == self@.policy(),
    {
        if self.channels.len() == 1 {
            MuxPolicy::PassThrough
        } else {
            MuxPolicy::Merge
        }
    }

    /// Number of input boards, which is the number of frames in a cycle.
    pub fn inputs(&self) -> (inputs: usize)
        ensures
            inputs == self@.channels.len(),
    {
        self.channels.len()
    }

    pub fn is_running(&self) -> (running: bool)
        ensures
            running == self@.running,
    {
        self.running
    }

    /// Forwards a frame unchanged, tagged with the topic.
    pub fn pass_through<T>(&self, frame: Frame<T>) -> (record: Record<T>)
        ensures
            record@ == self@.passed(frame@),
    {
        Record { topic: self.topic.clone(), readings: frame.readings, timestamps: frame.timestamps }
    }

    /// Merges the frames of one cycle. There is a record exactly when the
    /// frames are aligned.
    #[verifier::loop_isolation(false)]
    pub fn merge<T: Copy>(&self, frames: Vec<Frame<T>>) -> (record: Option<Record<T>>)
        requires
            self@.wf(),
        ensures
            record_view(record) == if self@.aligned(frame_views(frames@)) {
                Some(self@.merged(frame_views(frames@)))
            } else {
                None
            },
    {
        let boards = self.channels.len();
        if frames.len() != boards {
            return None;
        }
        let ghost views = frame_views(frames@);
        let ghost mux = self@;
        let mut counts: Vec<usize> = Vec::new();
        let mut board: usize = 0;
        while board < boards
            invariant
                board <= boards,
                counts@.len() == board,
                forall|b: int| 0 <= b < board ==> counts@[b] == mux.scans(views, b),
            decreases boards - board,
        {
            assert(0 < mux.stride(board as int) <= usize::MAX);
            let stride = self.channels[board] + self.slots;
            counts.push(frames[board].readings.len() / stride);
            board += 1;
        }
        board = 0;
        while board < boards
            invariant
                board <= boards,
                counts@.len() == boards + board,
                forall|b: int| 0 <= b < boards ==> counts@[b] == mux.scans(views, b),
                forall|b: int| 0 <= b < board ==> counts@[boards + b] == views[b].timestamps.len(),
            decreases boards - board,
        {
            counts.push(frames[board].timestamps.len());
            board += 1;
        }
        if !all_equal(&counts) {
            proof {
                if mux.aligned(views) {
                    assert forall|i: int, j: int|
                        0 <= i < counts@.len() && 0 <= j < counts@.len() implies counts@[i]
                        == counts@[j] by {
                        let bi = if i < boards { i } else { i - boards };
                        let bj = if j < boards { j } else { j - boards };
                        assert(mux.scans(views, bi) == mux.scans(views, 0));
                        assert(mux.scans(views, bj) == mux.scans(views, 0));
                        assert(counts@[boards + bi] == views[bi].timestamps.len());
                        assert(counts@[boards + bj] == views[bj].timestamps.len());
                    }
                }
            }
            return None;
        }
        let scans = counts[0];
        proof {
            assert forall|b: int| 0 <= b < boards implies {
                &&& #[trigger] mux.scans(views, b) == mux.scans(views, 0)
                &&& views[b].timestamps.len() == mux.scans(views, 0)
            } by {
                assert(counts@[b] == counts@[0]);
                assert(counts@[boards + b] == counts@[0]);
            }
            assert(mux.aligned(views));
        }
        let mut combined: Vec<T> = Vec::new();
        let mut scan: usize = 0;
        while scan < scans
            invariant
                scan <= scans,
                combined@ == merged_scans(views, mux.channels, mux.slots, scan as int),
            decreases scans - scan,
        {
            let ghost done = combined@;
            board = 0;
            while board < boards
                invariant
                    board <= boards,
                    combined@ == done + scan_row(views, mux.channels, mux.slots, scan as int, board as int),
                decreases boards - board,
            {
                let ghost row = combined@;
                let channels = self.channels[board];
                assert(0 < mux.stride(board as int) <= usize::MAX);
                let stride = channels + self.slots;
                let frame = &frames[board];
                assert(mux.scans(views, board as int) == scans);
                let length = frame.readings.len();
                assert(0 <= scan * stride && scan * stride + stride <= length) by (nonlinear_arith)
                    requires
                        0 < stride,
                        0 <= scan < (length as int) / (stride as int),
                ;
                let start = scan * stride;
                let mut channel: usize = 0;
                while channel < channels
                    invariant
                        channel <= channels,
                        combined@ == row + frame.readings@.subrange(
                            start as int,
                            start + channel,
                        ),
                    decreases channels - channel,
                {
                    let ghost before = frame.readings@.subrange(start as int, start + channel);
                    combined.push(frame.readings[start + channel]);
                    proof {
                        assert(before.push(frame.readings@[start + channel])
                            =~= frame.readings@.subrange(start as int, start + channel + 1));
                        assert(combined@ =~= row + frame.readings@.subrange(
                            start as int,
                            start + channel + 1,
                        ));
                    }
                    channel += 1;
                }
                proof {
                    assert(frame.readings@.subrange(start as int, start + channels)
                        == board_scan(views[board as int], channels as int, stride as int, scan as int));
                    assert(combined@ =~= done + scan_row(
                        views,
                        mux.channels,
                        mux.slots,
                        scan as int,
                        board + 1,
                    ));
                }
                board += 1;
            }
            scan += 1;
        }
        let mut frames = frames;
        let first = frames.remove(0);
        Some(Record { topic: self.topic.clone(), readings: combined, timestamps: first.timestamps })
    }

    /// Advances the muxer by one event. A running muxer answers a cycle with
    /// the record to forward, and ends when the frames cannot be fused or a
    /// queue was closed. A muxer that has ended emits nothing any more.
    pub fn step<T: Copy>(&mut self, event: MuxEvent<T>) -> (record: Option<Record<T>>)
        requires
            old(self)@.wf(),
        ensures
            final(self)@ == (MuxerView { running: record is Some, ..old(self)@ }),
            record_view(record) == match event {
                MuxEvent::Cycle(frames) if old(self)@.running => old(self)@.cycle_output(
                    frame_views(frames@),
                ),
                _ => None,
            },
    {
        if !self.running {
            return None;
        }
        let record = match event {
            MuxEvent::Cycle(frames) => {
                if self.channels.len() == 1 {
                    if frames.len() == 1 {
                        let mut frames = frames;
                        let frame = frames.remove(0);
                        Some(self.pass_through(frame))
                    } else {
                        None
                    }
                } else {
                    self.merge(frames)
                }
            },
            MuxEvent::InputClosed => None,
            MuxEvent::SinkClosed => None,
        };
        self.running = record.is_some();
        record
    }
}

} // verus!
