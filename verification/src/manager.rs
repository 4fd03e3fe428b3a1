//! The record/replay state machine.
//!
//! Each host tick hands the manager the current time and the tick's batch of
//! input events. While recording, events are classified and buffered; when the
//! toggle key stops a recording the buffer is optionally condensed and handed
//! back to the host for persistence. While replaying, the host's batch is
//! overwritten with the recorded frames, one frame per tick, until the session
//! is exhausted.

use vstd::prelude::*;
use vstd::pervasive::VecAdditionalExecFns;
use vstd::string::{StringExecFns, StringSliceAdditionalSpecFns};

use crate::events::{FrameEvents, FrameSnapshot, ReplayEvent, frames_view};
use crate::merge::{
    apply_event_postprocessing, event_stream, lemma_merge_keeps_times_ordered, spec_merge,
    times_ordered,
};
use crate::timestamp::{NanoTimestamp, rfc3339_of};

verus! {

/// An error of the persistence layer.
#[derive(Debug, Clone)]
pub enum StoreError {
    /// The file name carries no recognized extension.
    Format(String),
    /// The file could not be opened, read or written.
    Io(String),
    /// The file's content could not be decoded.
    Parse(String),
}

/// The two interchangeable session encodings, chosen by file extension.
#[derive(Clone, Copy, PartialEq, Eq, Structural, Debug)]
pub enum StoreFormat {
    /// The compact binary encoding, extension `.bin`.
    Binary,
    /// The human-readable text encoding, extension `.json`.
    Json,
}

/// Does `b` end with `suffix`?
pub open spec fn has_suffix(b: Seq<u8>, suffix: Seq<u8>) -> bool {
    b.len() >= suffix.len() && b.skip(b.len() - suffix.len()) == suffix
}

/// Does `b` start with `prefix`?
pub open spec fn has_prefix(b: Seq<u8>, prefix: Seq<u8>) -> bool {
    b.len() >= prefix.len() && b.take(prefix.len() as int) == prefix
}

fn bytes_has_suffix(b: &[u8], suffix: &[u8]) -> (r: bool)
    ensures
        r == has_suffix(b@, suffix@),
{
    let n = b.len();
    let m = suffix.len();
    if n < m {
        return false;
    }
    let start = n - m;
    let mut k: usize = 0;
    while k < m
        invariant
            0 <= k <= m,
            m <= n,
            start == n - m,
            n == b@.len(),
            m == suffix@.len(),
            forall|t: int| 0 <= t < k ==> b@[start + t] == suffix@[t],
        decreases m - k,
    {
        if b[start + k] != suffix[k] {
            assert(b@.skip(b@.len() - suffix@.len())[k as int] != suffix@[k as int]);
            return false;
        }
        k += 1;
    }
    proof {
        assert(b@.skip(b@.len() - suffix@.len()) =~= suffix@);
    }
    true
}

/// The format a file name selects: `.bin` means the binary codec, `.json` the
/// text codec, and anything else is a `Format` error.
pub fn codec_for_file(name: &str) -> (r: Result<StoreFormat, StoreError>)
    ensures
        has_suffix(name.spec_bytes(), ".bin".spec_bytes()) ==> r == Ok::<StoreFormat, StoreError>(
            StoreFormat::Binary,
        ),
        !has_suffix(name.spec_bytes(), ".bin".spec_bytes()) && has_suffix(
            name.spec_bytes(),
            ".json".spec_bytes(),
        ) ==> r == Ok::<StoreFormat, StoreError>(StoreFormat::Json),
        !has_suffix(name.spec_bytes(), ".bin".spec_bytes()) && !has_suffix(
            name.spec_bytes(),
            ".json".spec_bytes(),
        ) ==> (r matches Err(e) && e is Format),
{
    let bytes = name.as_bytes();
    if bytes_has_suffix(bytes, ".bin".as_bytes()) {
        Ok(StoreFormat::Binary)
    } else if bytes_has_suffix(bytes, ".json".as_bytes()) {
        Ok(StoreFormat::Json)
    } else {
        Err(StoreError::Format("unknown file extension".to_owned()))
    }
}

/// The name of a fresh session file: a fixed prefix, the capture time in
/// RFC 3339 form, and the codec's extension.
pub open spec fn logfile_name_spec(nanos: i64, use_bincode: bool) -> Seq<char> {
    "./egui_replay_"@ + rfc3339_of(nanos) + (if use_bincode {
        ".bin"@
    } else {
        ".json"@
    })
}

/// Build the name of a fresh session file from the capture time and the
/// chosen codec.
pub fn event_logfile(now: NanoTimestamp, use_bincode: bool) -> (r: String)
    ensures
        r@ == logfile_name_spec(now.0, use_bincode),
{
    let mut name = "./egui_replay_".to_owned();
    let t = now.as_rfc3339();
    name.append(t.as_str());
    if use_bincode {
        name.append(".bin");
    } else {
        name.append(".json");
    }
    name
}

/// One event's effect on the recording filter: whether the event is recorded,
/// and the pointer-motion flag afterwards.
///
/// Coarse toolkit-level motion and the toggle key are never recorded. With
/// pointer-move simplification on, only the first pointer move of a contiguous
/// run is kept; any other event resets the run.
pub open spec fn filter_step<E: ReplayEvent>(simplify: bool, moving: bool, e: E) -> (bool, bool) {
    if e.is_coarse_move() {
        (false, moving)
    } else if e.is_toggle() {
        (false, moving)
    } else if simplify {
        if e.is_pointer_move() {
            if moving {
                (false, true)
            } else {
                (true, true)
            }
        } else {
            (true, false)
        }
    } else {
        (true, moving)
    }
}

/// The rolling state of one tick's event loop.
pub struct TickAcc<E: ReplayEvent> {
    pub recording: bool,
    pub moving: bool,
    pub frames: Seq<FrameSnapshot<E>>,
    pub batch: Seq<E>,
    pub saved: Option<Seq<FrameSnapshot<E>>>,
}

/// The synthetic frame seeded when a recording starts: one pointer move to the
/// origin, anchoring the cursor for replay.
pub open spec fn anchor_frame<E: ReplayEvent>(now: int) -> FrameSnapshot<E> {
    FrameSnapshot { time: now, events: seq![E::pointer_move_spec(E::origin_spec())] }
}

/// One event's effect on a tick in progress.
///
/// A press of the toggle key flips recording: entering clears the session and
/// seeds the anchor frame; leaving optionally condenses the session and marks
/// it to be saved. While recording, a pointer-button event first contributes a
/// synthetic pointer move to its position (under simplification), and the
/// event itself is kept or dropped per [`filter_step`].
pub open spec fn tick_step<E: ReplayEvent>(
    now: int,
    simplify: bool,
    postproc: bool,
    st: TickAcc<E>,
    e: E,
) -> TickAcc<E> {
    let st1 = if e.is_toggle() && e.is_pressed() {
        if !st.recording {
            TickAcc { recording: true, frames: seq![anchor_frame::<E>(now)], ..st }
        } else {
            let done = if postproc {
                spec_merge(st.frames)
            } else {
                st.frames
            };
            TickAcc { recording: false, frames: done, saved: Some(done), ..st }
        }
    } else {
        st
    };
    if st1.recording {
        let with_button = match e.button_pos() {
            Some(p) => if simplify {
                st1.batch.push(E::pointer_move_spec(p))
            } else {
                st1.batch
            },
            None => st1.batch,
        };
        let rec_mv = filter_step(simplify, st1.moving, e);
        TickAcc {
            moving: rec_mv.1,
            batch: if rec_mv.0 {
                with_button.push(e)
            } else {
                with_button
            },
            ..st1
        }
    } else {
        st1
    }
}

/// The tick's event loop, folded over the batch in order.
pub open spec fn tick_events<E: ReplayEvent>(
    now: int,
    simplify: bool,
    postproc: bool,
    st: TickAcc<E>,
    evs: Seq<E>,
) -> TickAcc<E>
    decreases evs.len(),
{
    if evs.len() == 0 {
        st
    } else {
        tick_step(
            now,
            simplify,
            postproc,
            tick_events(now, simplify, postproc, st, evs.drop_last()),
            evs.last(),
        )
    }
}

/// The session after the tick: a non-empty batch becomes one more frame
/// stamped with the tick's time.
pub open spec fn flush_batch<E: ReplayEvent>(now: int, st: TickAcc<E>) -> Seq<FrameSnapshot<E>> {
    if st.batch.len() > 0 {
        st.frames.push(FrameSnapshot { time: now, events: st.batch })
    } else {
        st.frames
    }
}

proof fn lemma_tick_step_times<E: ReplayEvent>(
    now: int,
    simplify: bool,
    postproc: bool,
    st: TickAcc<E>,
    e: E,
)
    requires
        times_ordered(st.frames),
        forall|k: int| 0 <= k < st.frames.len() ==> #[trigger] st.frames[k].time <= now,
    ensures
        times_ordered(tick_step(now, simplify, postproc, st, e).frames),
        forall|k: int|
            0 <= k < tick_step(now, simplify, postproc, st, e).frames.len() ==> #[trigger] tick_step(
                now,
                simplify,
                postproc,
                st,
                e,
            ).frames[k].time <= now,
{
    if e.is_toggle() && e.is_pressed() && st.recording && postproc {
        lemma_merge_keeps_times_ordered(st.frames);
        if st.frames.len() > 0 {
            assert(st.frames.last().time <= now);
        }
    }
}

proof fn lemma_tick_events_times<E: ReplayEvent>(
    now: int,
    simplify: bool,
    postproc: bool,
    st: TickAcc<E>,
    evs: Seq<E>,
)
    requires
        times_ordered(st.frames),
        forall|k: int| 0 <= k < st.frames.len() ==> #[trigger] st.frames[k].time <= now,
    ensures
        times_ordered(tick_events(now, simplify, postproc, st, evs).frames),
        forall|k: int|
            0 <= k < tick_events(now, simplify, postproc, st, evs).frames.len()
                ==> #[trigger] tick_events(now, simplify, postproc, st, evs).frames[k].time <= now,
    decreases evs.len(),
{
    if evs.len() > 0 {
        lemma_tick_events_times(now, simplify, postproc, st, evs.drop_last());
        lemma_tick_step_times(
            now,
            simplify,
            postproc,
            tick_events(now, simplify, postproc, st, evs.drop_last()),
            evs.last(),
        );
    }
}

/// Within a session, frames stand in non-decreasing time order: a tick at
/// `now`, applied to a session whose frames all stand at or before `now`,
/// leaves the session ordered and still bounded by `now`. `intercept_input`
/// pins the session to exactly this fold, so a host whose clock never moves
/// backward always holds an ordered session.
pub proof fn lemma_tick_keeps_frames_ordered<E: ReplayEvent>(
    now: int,
    simplify: bool,
    postproc: bool,
    st: TickAcc<E>,
    evs: Seq<E>,
)
    requires
        times_ordered(st.frames),
        forall|k: int| 0 <= k < st.frames.len() ==> #[trigger] st.frames[k].time <= now,
    ensures
        ({
            let out = flush_batch(now, tick_events(now, simplify, postproc, st, evs));
            &&& times_ordered(out)
            &&& forall|k: int| 0 <= k < out.len() ==> #[trigger] out[k].time <= now
        }),
{
    lemma_tick_events_times(now, simplify, postproc, st, evs);
    let m = tick_events(now, simplify, postproc, st, evs);
    let out = flush_batch(now, m);
    if m.batch.len() > 0 {
        assert forall|i: int, j: int| 0 <= i <= j < out.len() implies out[i].time <= out[j].time by {
            if j < m.frames.len() {
            } else {
                if i < m.frames.len() {
                    assert(m.frames[i].time <= now);
                }
            }
        }
    }
}

/// The toggle key and coarse toolkit-level motion are never recorded,
/// whatever state the filter is in.
pub proof fn lemma_filter_drops_control_events<E: ReplayEvent>(simplify: bool, moving: bool, e: E)
    ensures
        e.is_toggle() || e.is_coarse_move() ==> !filter_step(simplify, moving, e).0,
{
}

/// What the host is asked to persist when a recording stops.
pub struct SaveRequest<E> {
    /// The file to create, named by capture time and codec.
    pub file_name: String,
    /// Whether the binary codec was chosen.
    pub use_bincode: bool,
    /// The finished session, exactly as buffered (postprocessed if enabled).
    pub frames: Vec<FrameEvents<E>>,
}

/// An exact copy of a sequence of frames.
pub fn dup_frames<E: ReplayEvent>(frames: &Vec<FrameEvents<E>>) -> (r: Vec<FrameEvents<E>>)
    ensures
        frames_view(r@) == frames_view(frames@),
{
    let mut out: Vec<FrameEvents<E>> = Vec::new();
    let mut k: usize = 0;
    while k < frames.len()
        invariant
            0 <= k <= frames@.len(),
            out@.len() == k,
            forall|t: int| 0 <= t < k ==> #[trigger] out@[t]@ == frames@[t]@,
        decreases frames@.len() - k,
    {
        let f = crate::events::dup_frame(&frames[k]);
        out.push(f);
        k += 1;
    }
    proof {
        assert forall|t: int| 0 <= t < frames@.len() implies frames_view(out@)[t] == frames_view(
            frames@,
        )[t] by {
            assert(out@[t]@ == frames@[t]@);
        }
        assert(frames_view(out@) =~= frames_view(frames@));
    }
    out
}

/// UI event recording and replay.
///
/// The invariants of [`ReplayManager::wf`] hold of every value the library
/// hands out: recording and replaying are mutually exclusive, a replay always
/// has a next frame to deliver, and outside a replay the frame cursor rests
/// at zero.
pub struct ReplayManager<E> {
    pub is_window_open: bool,
    pub is_replaying: bool,
    pub is_recording: bool,
    /// The session being recorded or replayed.
    pub frame_events: Vec<FrameEvents<E>>,
    /// The next frame to replay.
    pub replay_index: usize,
    /// Input file name for replay.
    pub replay_file: String,
    /// Whether to look up the default input file before the next render.
    pub should_lookup_replay: bool,
    /// Recording settings.
    pub record_use_bincode: bool,
    pub record_apply_postprocessing: bool,
    pub simplify_pointer_events: bool,
    /// Internal recording state: inside a contiguous pointer-move run.
    pub record_is_pointer_moving: bool,
}

impl<E: ReplayEvent> ReplayManager<E> {
    /// The manager's invariant.
    pub open spec fn wf(&self) -> bool {
        &&& !(self.is_recording && self.is_replaying)
        &&& self.is_replaying ==> self.replay_index < self.frame_events@.len()
        &&& !self.is_replaying ==> self.replay_index == 0
    }

    /// The settings the tick never changes.
    pub open spec fn same_settings(post: Self, pre: Self) -> bool {
        &&& post.replay_file == pre.replay_file
        &&& post.should_lookup_replay == pre.should_lookup_replay
        &&& post.record_use_bincode == pre.record_use_bincode
        &&& post.record_apply_postprocessing == pre.record_apply_postprocessing
        &&& post.simplify_pointer_events == pre.simplify_pointer_events
    }

    /// The state `close_window` leaves behind, relative to the state before.
    pub open spec fn is_closed_reset_of(post: Self, pre: Self) -> bool {
        &&& !post.is_window_open
        &&& !post.is_replaying
        &&& !post.is_recording
        &&& post.frame_events@.len() == 0
        &&& post.replay_index == 0
        &&& post.record_is_pointer_moving == pre.record_is_pointer_moving
        &&& Self::same_settings(post, pre)
    }

    pub fn new() -> (r: Self)
        ensures
            r.wf(),
            !r.is_window_open,
            !r.is_replaying,
            !r.is_recording,
            r.frame_events@.len() == 0,
            r.replay_index == 0,
            r.replay_file@ == Seq::<char>::empty(),
            r.should_lookup_replay,
            r.record_use_bincode,
            r.record_apply_postprocessing,
            r.simplify_pointer_events,
            !r.record_is_pointer_moving,
    {
        Self {
            is_window_open: false,
            is_replaying: false,
            is_recording: false,
            frame_events: Vec::new(),
            replay_index: 0,
            replay_file: String::new(),
            should_lookup_replay: true,
            record_use_bincode: true,
            record_apply_postprocessing: true,
            simplify_pointer_events: true,
            record_is_pointer_moving: false,
        }
    }

    /// Open the control window and reset the session state.
    pub fn open_window(&mut self)
        ensures
            final (self).wf(),
            final (self).is_window_open,
            !final (self).is_replaying,
            !final (self).is_recording,
            final (self).frame_events@.len() == 0,
            final (self).replay_index == 0,
            final (self).should_lookup_replay,
            final (self).replay_file == old(self).replay_file,
            final (self).record_use_bincode == old(self).record_use_bincode,
            final (self).record_apply_postprocessing == old(self).record_apply_postprocessing,
            final (self).simplify_pointer_events == old(self).simplify_pointer_events,
            final (self).record_is_pointer_moving == old(self).record_is_pointer_moving,
    {
        self.is_window_open = true;
        self.is_replaying = false;
        self.is_recording = false;
        self.frame_events.clear();
        self.replay_index = 0;
        self.should_lookup_replay = true;
    }

    /// Close the control window and discard the session state.
    pub fn close_window(&mut self)
        ensures
            final (self).wf(),
            Self::is_closed_reset_of(*final (self), *old(self)),
            final (self).is_window_open == false,
    {
        self.is_window_open = false;
        self.is_replaying = false;
        self.is_recording = false;
        self.frame_events.clear();
        self.replay_index = 0;
    }

    pub fn is_replaying(&self) -> (r: bool)
        ensures
            r == self.is_replaying,
    {
        self.is_replaying
    }

    pub fn is_recording(&self) -> (r: bool)
        ensures
            r == self.is_recording,
    {
        self.is_recording
    }

    /// How many frames the session holds.
    pub fn num_recorded_frames(&self) -> (r: usize)
        ensures
            r == self.frame_events@.len(),
    {
        self.frame_events.len()
    }

    /// How many single events the session holds, over all frames; the count
    /// saturates at the machine's limit.
    pub fn num_recorded_events(&self) -> (r: usize)
        ensures
            event_stream(frames_view(self.frame_events@)).len() <= usize::MAX ==> r == event_stream(
                frames_view(self.frame_events@),
            ).len(),
            r <= event_stream(frames_view(self.frame_events@)).len(),
    {
        let ghost fv = frames_view(self.frame_events@);
        let mut total: usize = 0;
        let mut k: usize = 0;
        while k < self.frame_events.len()
            invariant
                0 <= k <= fv.len(),
                fv == frames_view(self.frame_events@),
                fv.len() == self.frame_events@.len(),
                total <= event_stream(fv.take(k as int)).len(),
                event_stream(fv.take(k as int)).len() <= usize::MAX ==> total == event_stream(
                    fv.take(k as int),
                ).len(),
            decreases fv.len() - k,
        {
            let n = self.frame_events[k].events.len();
            proof {
                assert(fv.take(k + 1 as int).drop_last() =~= fv.take(k as int));
                assert(fv.take(k + 1 as int).last() == fv[k as int]);
                assert(fv[k as int].events == self.frame_events@[k as int]@.events);
            }
            total = if usize::MAX - total >= n {
                total + n
            } else {
                usize::MAX
            };
            k += 1;
        }
        proof {
            assert(fv.take(fv.len() as int) =~= fv);
        }
        total
    }

    /// Decide whether one event is recorded, per [`filter_step`], updating the
    /// pointer-motion flag.
    pub fn should_record_event(&mut self, event: &E) -> (r: bool)
        ensures
            ({
                let (rec, moving) = filter_step(
                    old(self).simplify_pointer_events,
                    old(self).record_is_pointer_moving,
                    *event,
                );
                &&& r == rec
                &&& final (self).record_is_pointer_moving == moving
                &&& *final (self) == Self {
                    record_is_pointer_moving: moving,
                    ..*old(self)
                }
            }),
    {
        if event.is_coarse_pointer_move() {
            return false;
        }
        if event.is_toggle_key() {
            return false;
        }
        if self.simplify_pointer_events {
            if event.is_pointer_moved() {
                if self.record_is_pointer_moving {
                    return false;
                } else {
                    self.record_is_pointer_moving = true;
                    return true;
                }
            } else {
                self.record_is_pointer_moving = false;
            }
        }
        true
    }

    /// The tick state this manager starts a tick's event loop in.
    pub open spec fn start_acc(&self) -> TickAcc<E> {
        TickAcc {
            recording: self.is_recording,
            moving: self.record_is_pointer_moving,
            frames: frames_view(self.frame_events@),
            batch: Seq::empty(),
            saved: None,
        }
    }

    /// One tick of the state machine, run before the host processes input.
    ///
    /// While replaying, the batch is overwritten with the next recorded
    /// frame's events; when the last frame has been delivered, the control
    /// window closes and later ticks pass input through untouched. Otherwise
    /// the batch is read (never changed): toggle-key presses start or stop
    /// recording, and while recording the batch is filtered into the session
    /// as [`tick_events`] describes. Stopping a recording yields a
    /// [`SaveRequest`] with the finished session for the host to persist.
    pub fn intercept_input(&mut self, now: NanoTimestamp, events: &mut Vec<E>) -> (save: Option<
        SaveRequest<E>,
    >)
        requires
            old(self).wf(),
        ensures
            final (self).wf(),
            old(self).is_replaying ==> {
                let idx = old(self).replay_index as int;
                let n = old(self).frame_events@.len();
                &&& final (events)@ == old(self).frame_events@[idx]@.events
                &&& save is None
                &&& if idx + 1 < n {
                    &&& final (self).is_replaying
                    &&& !final (self).is_recording
                    &&& final (self).replay_index == idx + 1
                    &&& final (self).is_window_open == old(self).is_window_open
                    &&& frames_view(final (self).frame_events@) == frames_view(
                        old(self).frame_events@,
                    ).update(
                        idx,
                        FrameSnapshot {
                            time: old(self).frame_events@[idx]@.time,
                            events: Seq::<E>::empty(),
                        },
                    )
                    &&& final (self).record_is_pointer_moving == old(
                        self,
                    ).record_is_pointer_moving
                    &&& Self::same_settings(*final (self), *old(self))
                } else {
                    Self::is_closed_reset_of(*final (self), *old(self))
                }
            },
            !old(self).is_replaying ==> {
                let m = tick_events(
                    now@,
                    old(self).simplify_pointer_events,
                    old(self).record_apply_postprocessing,
                    old(self).start_acc(),
                    old(events)@,
                );
                &&& final (events)@ == old(events)@
                &&& final (self).is_recording == m.recording
                &&& final (self).record_is_pointer_moving == m.moving
                &&& frames_view(final (self).frame_events@) == flush_batch(now@, m)
                &&& !final (self).is_replaying
                &&& final (self).replay_index == 0
                &&& final (self).is_window_open == old(self).is_window_open
                &&& Self::same_settings(*final (self), *old(self))
                &&& match m.saved {
                    Some(s) => {
                        &&& save matches Some(req)
                        &&& frames_view(req.frames@) == s
                        &&& req.use_bincode == old(self).record_use_bincode
                        &&& req.file_name@ == logfile_name_spec(
                            now.0,
                            old(self).record_use_bincode,
                        )
                    },
                    None => save is None,
                }
            },
    {
        if self.is_replaying && self.replay_index < self.frame_events.len() {
            let idx = self.replay_index;
            let t = self.frame_events[idx].time;
            let mut replaced = FrameEvents { time: t, events: Vec::new() };
            self.frame_events.set_and_swap(idx, &mut replaced);
            *events = replaced.events;
            self.replay_index = idx + 1;
            proof {
                assert(frames_view(self.frame_events@) =~= frames_view(
                    old(self).frame_events@,
                ).update(
                    idx as int,
                    FrameSnapshot {
                        time: old(self).frame_events@[idx as int]@.time,
                        events: Seq::<E>::empty(),
                    },
                ));
            }
            if self.replay_index >= self.frame_events.len() {
                self.close_window();
            }
            return None;
        }
        let ghost simplify = self.simplify_pointer_events;
        let ghost postproc = self.record_apply_postprocessing;
        let use_bin = self.record_use_bincode;
        let mut save: Option<SaveRequest<E>> = None;
        let mut batch: Vec<E> = Vec::new();
        let n_events = events.len();
        let mut k: usize = 0;
        while k < n_events
            invariant
                0 <= k <= n_events,
                n_events == events@.len(),
                events@ == old(events)@,
                old(self).wf(),
                !old(self).is_replaying,
                simplify == old(self).simplify_pointer_events,
                postproc == old(self).record_apply_postprocessing,
                use_bin == old(self).record_use_bincode,
                self.simplify_pointer_events == old(self).simplify_pointer_events,
                self.record_apply_postprocessing == old(self).record_apply_postprocessing,
                self.record_use_bincode == old(self).record_use_bincode,
                self.replay_file == old(self).replay_file,
                self.should_lookup_replay == old(self).should_lookup_replay,
                self.is_window_open == old(self).is_window_open,
                self.is_replaying == old(self).is_replaying,
                self.replay_index == old(self).replay_index,
                ({
                    let m = tick_events(
                        now@,
                        simplify,
                        postproc,
                        old(self).start_acc(),
                        events@.take(k as int),
                    );
                    &&& self.is_recording == m.recording
                    &&& self.record_is_pointer_moving == m.moving
                    &&& frames_view(self.frame_events@) == m.frames
                    &&& batch@ == m.batch
                    &&& match m.saved {
                        Some(s) => {
                            &&& save matches Some(req)
                            &&& frames_view(req.frames@) == s
                            &&& req.use_bincode == old(self).record_use_bincode
                            &&& req.file_name@ == logfile_name_spec(
                                now.0,
                                old(self).record_use_bincode,
                            )
                        },
                        None => save is None,
                    }
                }),
            decreases n_events - k,
        {
            let ghost m_k = tick_events(
                now@,
                simplify,
                postproc,
                old(self).start_acc(),
                events@.take(k as int),
            );
            let ghost e_spec = events@[k as int];
            if events[k].is_toggle_key() && events[k].is_key_pressed() {
                self.is_recording = !self.is_recording;
                if self.is_recording {
                    self.frame_events.clear();
                    let mut anchor_events: Vec<E> = Vec::new();
                    anchor_events.push(E::pointer_move_to(E::origin()));
                    self.frame_events.push(FrameEvents { time: now, events: anchor_events });
                    proof {
                        assert(frames_view(self.frame_events@) =~= seq![
                            anchor_frame::<E>(now@),
                        ]);
                    }
                } else {
                    if self.record_apply_postprocessing {
                        let mut taken: Vec<FrameEvents<E>> = Vec::new();
                        core::mem::swap(&mut taken, &mut self.frame_events);
                        self.frame_events = apply_event_postprocessing(taken);
                    }
                    let file_name = event_logfile(now, use_bin);
                    let frames_copy = dup_frames(&self.frame_events);
                    save = Some(
                        SaveRequest { file_name, use_bincode: use_bin, frames: frames_copy },
                    );
                }
            }
            if self.is_recording {
                if self.simplify_pointer_events {
                    match events[k].pointer_button_position() {
                        Some(pos) => {
                            batch.push(E::pointer_move_to(pos));
                        },
                        None => {},
                    }
                }
                let keep = self.should_record_event(&events[k]);
                if keep {
                    batch.push(events[k].dup());
                }
            }
            proof {
                assert(events@.take(k + 1 as int).drop_last() =~= events@.take(k as int));
                assert(events@.take(k + 1 as int).last() == e_spec);
                let m_k1 = tick_step(now@, simplify, postproc, m_k, e_spec);
                assert(tick_events(
                    now@,
                    simplify,
                    postproc,
                    old(self).start_acc(),
                    events@.take(k + 1 as int),
                ) == m_k1);
            }
            k += 1;
        }
        proof {
            assert(events@.take(n_events as int) =~= events@);
        }
        if batch.len() > 0 {
            self.frame_events.push(FrameEvents { time: now, events: batch });
            proof {
                let m = tick_events(
                    now@,
                    simplify,
                    postproc,
                    old(self).start_acc(),
                    old(events)@,
                );
                assert(frames_view(self.frame_events@) =~= flush_batch(now@, m));
            }
        }
        save
    }

    /// Start replaying a loaded session: the session becomes the fixed frame
    /// list and the cursor rests on its first frame. A session with no frames
    /// is already finished, so it closes the control window instead.
    pub fn begin_replay(&mut self, frames: Vec<FrameEvents<E>>)
        requires
            old(self).wf(),
        ensures
            final (self).wf(),
            frames@.len() > 0 ==> {
                &&& final (self).is_replaying
                &&& !final (self).is_recording
                &&& final (self).replay_index == 0
                &&& final (self).frame_events@ == frames@
                &&& final (self).is_window_open == old(self).is_window_open
                &&& final (self).record_is_pointer_moving == old(self).record_is_pointer_moving
                &&& Self::same_settings(*final (self), *old(self))
            },
            frames@.len() == 0 ==> Self::is_closed_reset_of(*final (self), *old(self)),
    {
        if frames.len() == 0 {
            self.close_window();
            return ;
        }
        self.is_replaying = true;
        self.is_recording = false;
        self.frame_events = frames;
        self.replay_index = 0;
    }

    /// Digest the outcome of loading a session file: a loaded session starts
    /// the replay as [`Self::begin_replay`] does; a failed load leaves the
    /// whole state exactly as it was.
    pub fn on_replay_loaded(&mut self, loaded: Result<Vec<FrameEvents<E>>, StoreError>)
        requires
            old(self).wf(),
        ensures
            final (self).wf(),
            loaded matches Ok(frames) ==> {
                &&& frames@.len() > 0 ==> {
                    &&& final (self).is_replaying
                    &&& !final (self).is_recording
                    &&& final (self).replay_index == 0
                    &&& final (self).frame_events@ == frames@
                    &&& final (self).is_window_open == old(self).is_window_open
                    &&& Self::same_settings(*final (self), *old(self))
                }
                &&& frames@.len() == 0 ==> Self::is_closed_reset_of(*final (self), *old(self))
            },
            loaded is Err ==> *final (self) == *old(self),
    {
        match loaded {
            Ok(frames) => self.begin_replay(frames),
            Err(_e) => {},
        }
    }
}

impl<E: ReplayEvent> Default for ReplayManager<E> {
    fn default() -> (r: Self)
        ensures
            r.wf(),
            !r.is_window_open,
            !r.is_replaying,
            !r.is_recording,
            r.frame_events@.len() == 0,
            r.replay_index == 0,
    {
        Self::new()
    }
}

/// Byte-wise lexicographic order, as std orders strings.
pub open spec fn lex_le(a: Seq<u8>, b: Seq<u8>) -> bool
    decreases a.len(),
{
    if a.len() == 0 {
        true
    } else if b.len() == 0 {
        false
    } else if a[0] < b[0] {
        true
    } else if a[0] > b[0] {
        false
    } else {
        lex_le(a.skip(1), b.skip(1))
    }
}

/// `lex_le` is total: two byte strings always compare one way or the other.
pub proof fn lemma_lex_le_total(a: Seq<u8>, b: Seq<u8>)
    ensures
        lex_le(a, b) || lex_le(b, a),
    decreases a.len(),
{
    if a.len() > 0 && b.len() > 0 && a[0] == b[0] {
        lemma_lex_le_total(a.skip(1), b.skip(1));
    }
}

fn bytes_lex_le(a: &[u8], b: &[u8]) -> (r: bool)
    ensures
        r == lex_le(a@, b@),
{
    let n = a.len();
    let m = b.len();
    let mut k: usize = 0;
    proof {
        assert(a@.skip(0) =~= a@);
        assert(b@.skip(0) =~= b@);
    }
    loop
        invariant
            0 <= k <= n,
            k <= m,
            n == a@.len(),
            m == b@.len(),
            forall|t: int| 0 <= t < k ==> a@[t] == b@[t],
            lex_le(a@, b@) == lex_le(a@.skip(k as int), b@.skip(k as int)),
        ensures
            lex_le(a@, b@) == if k < n && k < m {
                a@[k as int] < b@[k as int]
            } else {
                k >= n
            },
        decreases n - k,
    {
        if k >= n || k >= m {
            break ;
        }
        if a[k] != b[k] {
            break ;
        }
        proof {
            assert(a@.skip(k as int).skip(1) =~= a@.skip(k + 1 as int));
            assert(b@.skip(k as int).skip(1) =~= b@.skip(k + 1 as int));
        }
        k += 1;
    }
    if k < n && k < m {
        a[k] < b[k]
    } else {
        k >= n
    }
}

fn bytes_has_prefix(b: &[u8], prefix: &[u8]) -> (r: bool)
    ensures
        r == has_prefix(b@, prefix@),
{
    let n = b.len();
    let m = prefix.len();
    if n < m {
        return false;
    }
    let mut k: usize = 0;
    while k < m
        invariant
            0 <= k <= m,
            m <= n,
            n == b@.len(),
            m == prefix@.len(),
            forall|t: int| 0 <= t < k ==> b@[t] == prefix@[t],
        decreases m - k,
    {
        if b[k] != prefix[k] {
            assert(b@.take(prefix@.len() as int)[k as int] != prefix@[k as int]);
            return false;
        }
        k += 1;
    }
    proof {
        assert(b@.take(prefix@.len() as int) =~= prefix@);
    }
    true
}

/// Among the file names that carry the session-file prefix, pick the
/// lexicographically smallest — the stable default offered when no input file
/// was chosen by hand. Names are byte strings; `None` means no name matches.
pub fn pick_default_file(names: &Vec<Vec<u8>>) -> (r: Option<usize>)
    ensures
        r matches Some(i) ==> {
            &&& i < names@.len()
            &&& has_prefix(names@[i as int]@, "egui_replay".spec_bytes())
            &&& forall|j: int|
                0 <= j < names@.len() && has_prefix(names@[j]@, "egui_replay".spec_bytes())
                    ==> lex_le(names@[i as int]@, #[trigger] names@[j]@)
        },
        r is None <==> forall|j: int|
            0 <= j < names@.len() ==> !has_prefix(#[trigger] names@[j]@, "egui_replay".spec_bytes()),
{
    let mut best: Option<usize> = None;
    let mut k: usize = 0;
    while k < names.len()
        invariant
            0 <= k <= names@.len(),
            best matches Some(i) ==> {
                &&& i < k
                &&& has_prefix(names@[i as int]@, "egui_replay".spec_bytes())
                &&& forall|j: int|
                    0 <= j < k && has_prefix(names@[j]@, "egui_replay".spec_bytes()) ==> lex_le(
                        names@[i as int]@,
                        #[trigger] names@[j]@,
                    )
            },
            best is None <==> forall|j: int|
                0 <= j < k ==> !has_prefix(#[trigger] names@[j]@, "egui_replay".spec_bytes()),
        decreases names@.len() - k,
    {
        if bytes_has_prefix(names[k].as_slice(), "egui_replay".as_bytes()) {
            match best {
                None => {
                    proof {
                        lemma_lex_le_refl(names@[k as int]@);
                    }
                    best = Some(k);
                },
                Some(i) => {
                    if bytes_lex_le(names[i].as_slice(), names[k].as_slice()) {
                        proof {
                            assert forall|j: int|
                                0 <= j < k + 1 && has_prefix(
                                    names@[j]@,
                                    "egui_replay".spec_bytes(),
                                ) implies lex_le(names@[i as int]@, #[trigger] names@[j]@) by {}
                        }
                    } else {
                        proof {
                            lemma_lex_le_total(names@[i as int]@, names@[k as int]@);
                        }
                        proof {
                            assert forall|j: int|
                                0 <= j < k + 1 && has_prefix(
                                    names@[j]@,
                                    "egui_replay".spec_bytes(),
                                ) implies lex_le(names@[k as int]@, #[trigger] names@[j]@) by {
                                if j < k {
                                    lemma_lex_le_trans(
                                        names@[k as int]@,
                                        names@[i as int]@,
                                        names@[j]@,
                                    );
                                } else {
                                    lemma_lex_le_refl(names@[k as int]@);
                                }
                            }
                        }
                        best = Some(k);
                    }
                },
            }
        }
        k += 1;
    }
    best
}

/// `lex_le` is reflexive.
pub proof fn lemma_lex_le_refl(a: Seq<u8>)
    ensures
        lex_le(a, a),
    decreases a.len(),
{
    if a.len() > 0 {
        lemma_lex_le_refl(a.skip(1));
    }
}

/// `lex_le` is transitive.
pub proof fn lemma_lex_le_trans(a: Seq<u8>, b: Seq<u8>, c: Seq<u8>)
    requires
        lex_le(a, b),
        lex_le(b, c),
    ensures
        lex_le(a, c),
    decreases a.len(),
{
    if a.len() > 0 && b.len() > 0 && c.len() > 0 && a[0] == b[0] && b[0] == c[0] {
        lemma_lex_le_trans(a.skip(1), b.skip(1), c.skip(1));
    }
}

} // verus!
