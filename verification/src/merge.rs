//! The postprocessing merge pass.
//!
//! After a recording stops, many small frames can be collapsed into fewer,
//! larger ones without changing what a replay delivers: the anchor frame is
//! kept as it is, and the remaining events are regrouped into maximal runs of
//! one classification (semantic pointer moves versus everything else). Each
//! run becomes one frame stamped with the time of the frame that held the
//! run's first event. Pointer moves never share a merged frame with other
//! events, so the gesture's temporal boundaries survive the merge.

use vstd::prelude::*;

use crate::events::{dup_frame, FrameEvents, FrameSnapshot, ReplayEvent, frames_view};

verus! {

/// State of the regrouping pass: the frames already emitted and the run still
/// being accumulated, tagged with its classification.
pub struct MergeAcc<E: ReplayEvent> {
    pub done: Seq<FrameSnapshot<E>>,
    pub group: Option<(bool, FrameSnapshot<E>)>,
}

/// Feed one event of a frame stamped `ftime` into the pass.
pub open spec fn merge_event_step<E: ReplayEvent>(acc: MergeAcc<E>, ftime: int, e: E) -> MergeAcc<
    E,
> {
    let c = e.is_pointer_move();
    match acc.group {
        Some((gc, g)) => {
            if gc == c {
                MergeAcc {
                    done: acc.done,
                    group: Some((gc, FrameSnapshot { time: g.time, events: g.events.push(e) })),
                }
            } else {
                MergeAcc {
                    done: acc.done.push(g),
                    group: Some((c, FrameSnapshot { time: ftime, events: seq![e] })),
                }
            }
        },
        None => MergeAcc {
            done: acc.done,
            group: Some((c, FrameSnapshot { time: ftime, events: seq![e] })),
        },
    }
}

/// Feed the events of one frame, in order.
pub open spec fn merge_events<E: ReplayEvent>(
    acc: MergeAcc<E>,
    ftime: int,
    evs: Seq<E>,
) -> MergeAcc<E>
    decreases evs.len(),
{
    if evs.len() == 0 {
        acc
    } else {
        merge_event_step(merge_events(acc, ftime, evs.drop_last()), ftime, evs.last())
    }
}

/// Feed a sequence of frames, in order.
pub open spec fn merge_frames_acc<E: ReplayEvent>(
    acc: MergeAcc<E>,
    fs: Seq<FrameSnapshot<E>>,
) -> MergeAcc<E>
    decreases fs.len(),
{
    if fs.len() == 0 {
        acc
    } else {
        merge_events(merge_frames_acc(acc, fs.drop_last()), fs.last().time, fs.last().events)
    }
}

/// Emit the run still being accumulated, if any.
pub open spec fn merge_flush<E: ReplayEvent>(acc: MergeAcc<E>) -> Seq<FrameSnapshot<E>> {
    match acc.group {
        Some((_gc, g)) => acc.done.push(g),
        None => acc.done,
    }
}

/// The whole merge: the first frame is the anchor and passes through
/// untouched; the rest is regrouped event by event. An empty input is left
/// alone.
pub open spec fn spec_merge<E: ReplayEvent>(fs: Seq<FrameSnapshot<E>>) -> Seq<FrameSnapshot<E>> {
    if fs.len() == 0 {
        fs
    } else {
        merge_flush(
            merge_frames_acc(MergeAcc { done: seq![fs[0]], group: None }, fs.skip(1)),
        )
    }
}

/// The ordered stream of single events held by a sequence of frames.
pub open spec fn event_stream<E: ReplayEvent>(fs: Seq<FrameSnapshot<E>>) -> Seq<E>
    decreases fs.len(),
{
    if fs.len() == 0 {
        Seq::empty()
    } else {
        event_stream(fs.drop_last()) + fs.last().events
    }
}

/// All events of a frame share one classification.
pub open spec fn frame_uniform<E: ReplayEvent>(f: FrameSnapshot<E>) -> bool {
    forall|a: int, b: int|
        0 <= a < f.events.len() && 0 <= b < f.events.len() ==> f.events[a].is_pointer_move()
            == f.events[b].is_pointer_move()
}

/// The events of the run being accumulated, if any.
pub open spec fn group_events<E: ReplayEvent>(g: Option<(bool, FrameSnapshot<E>)>) -> Seq<E> {
    match g {
        Some((_c, f)) => f.events,
        None => Seq::empty(),
    }
}

/// The run being accumulated is non-empty and matches its classification tag.
pub open spec fn group_ok<E: ReplayEvent>(g: Option<(bool, FrameSnapshot<E>)>) -> bool {
    match g {
        Some((c, f)) => f.events.len() > 0 && forall|k: int|
            0 <= k < f.events.len() ==> f.events[k].is_pointer_move() == c,
        None => true,
    }
}

/// The pass invariant: the anchor sits first among the emitted frames, the
/// emitted frames beyond it plus the open run hold exactly the events fed in
/// so far, in order, and every emitted frame beyond the anchor is a non-empty
/// uniform run.
pub open spec fn merge_inv<E: ReplayEvent>(
    acc: MergeAcc<E>,
    anchor: FrameSnapshot<E>,
    stream: Seq<E>,
) -> bool {
    &&& acc.done.len() >= 1
    &&& acc.done[0] == anchor
    &&& event_stream(acc.done.skip(1)) + group_events(acc.group) == stream
    &&& forall|i: int|
        1 <= i < acc.done.len() ==> frame_uniform(#[trigger] acc.done[i]) && acc.done[i].events.len()
            > 0
    &&& group_ok(acc.group)
}

proof fn lemma_event_stream_push<E: ReplayEvent>(fs: Seq<FrameSnapshot<E>>, f: FrameSnapshot<E>)
    ensures
        event_stream(fs.push(f)) == event_stream(fs) + f.events,
{
    assert(fs.push(f).drop_last() =~= fs);
    assert(fs.push(f).last() == f);
}

proof fn lemma_merge_event_step_inv<E: ReplayEvent>(
    acc: MergeAcc<E>,
    anchor: FrameSnapshot<E>,
    stream: Seq<E>,
    ftime: int,
    e: E,
)
    requires
        merge_inv(acc, anchor, stream),
    ensures
        merge_inv(merge_event_step(acc, ftime, e), anchor, stream.push(e)),
{
    let c = e.is_pointer_move();
    match acc.group {
        Some((gc, g)) => {
            if gc == c {
                let g2 = FrameSnapshot { time: g.time, events: g.events.push(e) };
                assert(event_stream(acc.done.skip(1)) + g2.events =~= stream.push(e));
            } else {
                let acc2 = merge_event_step(acc, ftime, e);
                assert(acc2.done == acc.done.push(g));
                lemma_event_stream_push(acc.done.skip(1), g);
                assert(acc.done.push(g).skip(1) =~= acc.done.skip(1).push(g));
                assert(event_stream(acc2.done.skip(1)) + group_events(acc2.group) =~= stream.push(
                    e,
                ));
                assert(acc2.done[0] == anchor);
                assert(forall|i: int|
                    1 <= i < acc2.done.len() ==> frame_uniform(#[trigger] acc2.done[i])
                        && acc2.done[i].events.len() > 0);
            }
        },
        None => {
            assert(event_stream(acc.done.skip(1)) + seq![e] =~= stream.push(e));
        },
    }
}

proof fn lemma_merge_events_inv<E: ReplayEvent>(
    acc: MergeAcc<E>,
    anchor: FrameSnapshot<E>,
    stream: Seq<E>,
    ftime: int,
    evs: Seq<E>,
)
    requires
        merge_inv(acc, anchor, stream),
    ensures
        merge_inv(merge_events(acc, ftime, evs), anchor, stream + evs),
    decreases evs.len(),
{
    if evs.len() == 0 {
        assert(stream + evs =~= stream);
    } else {
        lemma_merge_events_inv(acc, anchor, stream, ftime, evs.drop_last());
        lemma_merge_event_step_inv(
            merge_events(acc, ftime, evs.drop_last()),
            anchor,
            stream + evs.drop_last(),
            ftime,
            evs.last(),
        );
        assert((stream + evs.drop_last()).push(evs.last()) =~= stream + evs);
    }
}

proof fn lemma_merge_frames_acc_inv<E: ReplayEvent>(
    acc: MergeAcc<E>,
    anchor: FrameSnapshot<E>,
    stream: Seq<E>,
    fs: Seq<FrameSnapshot<E>>,
)
    requires
        merge_inv(acc, anchor, stream),
    ensures
        merge_inv(merge_frames_acc(acc, fs), anchor, stream + event_stream(fs)),
    decreases fs.len(),
{
    if fs.len() == 0 {
        assert(stream + event_stream(fs) =~= stream);
    } else {
        lemma_merge_frames_acc_inv(acc, anchor, stream, fs.drop_last());
        lemma_merge_events_inv(
            merge_frames_acc(acc, fs.drop_last()),
            anchor,
            stream + event_stream(fs.drop_last()),
            fs.last().time,
            fs.last().events,
        );
        assert((stream + event_stream(fs.drop_last())) + fs.last().events =~= stream + event_stream(
            fs,
        ));
    }
}

/// The postprocessing merge preserves the whole ordered event stream: the
/// anchor frame passes through untouched, the events beyond it keep their
/// count and relative order, and no merged frame mixes a pointer-move event
/// with a non-pointer-move event; merged frames beyond the anchor are never
/// empty.
pub proof fn lemma_merge_preserves_stream<E: ReplayEvent>(fs: Seq<FrameSnapshot<E>>)
    requires
        fs.len() > 0,
    ensures
        spec_merge(fs).len() >= 1,
        spec_merge(fs)[0] == fs[0],
        event_stream(spec_merge(fs).skip(1)) == event_stream(fs.skip(1)),
        forall|i: int| 1 <= i < spec_merge(fs).len() ==> frame_uniform(#[trigger] spec_merge(fs)[i]),
        forall|i: int| 1 <= i < spec_merge(fs).len() ==> #[trigger] spec_merge(fs)[i].events.len() > 0,
{
    let acc0 = MergeAcc::<E> { done: seq![fs[0]], group: None };
    assert(acc0.done.skip(1) =~= Seq::<FrameSnapshot<E>>::empty());
    assert(merge_inv(acc0, fs[0], Seq::<E>::empty()));
    lemma_merge_frames_acc_inv(acc0, fs[0], Seq::<E>::empty(), fs.skip(1));
    let acc = merge_frames_acc(acc0, fs.skip(1));
    assert(Seq::<E>::empty() + event_stream(fs.skip(1)) =~= event_stream(fs.skip(1)));
    let merged = spec_merge(fs);
    match acc.group {
        Some((_gc, g)) => {
            lemma_event_stream_push(acc.done.skip(1), g);
            assert(acc.done.push(g).skip(1) =~= acc.done.skip(1).push(g));
            assert(event_stream(merged.skip(1)) =~= event_stream(fs.skip(1)));
        },
        None => {
            assert(event_stream(acc.done.skip(1)) + group_events(acc.group) =~= event_stream(
                acc.done.skip(1),
            ));
        },
    }
}

/// The whole stream, anchor included, is preserved by the merge.
pub proof fn lemma_merge_preserves_whole_stream<E: ReplayEvent>(fs: Seq<FrameSnapshot<E>>)
    requires
        fs.len() > 0,
    ensures
        event_stream(spec_merge(fs)) == event_stream(fs),
{
    lemma_merge_preserves_stream(fs);
    lemma_event_stream_split(spec_merge(fs));
    lemma_event_stream_split(fs);
}

/// A non-empty frame sequence's stream is its first frame's events followed
/// by the stream of the rest.
proof fn lemma_event_stream_split<E: ReplayEvent>(fs: Seq<FrameSnapshot<E>>)
    requires
        fs.len() > 0,
    ensures
        event_stream(fs) == fs[0].events + event_stream(fs.skip(1)),
    decreases fs.len(),
{
    if fs.len() == 1 {
        assert(fs.drop_last() =~= Seq::<FrameSnapshot<E>>::empty());
        assert(fs.skip(1) =~= Seq::<FrameSnapshot<E>>::empty());
        assert(fs[0].events + Seq::<E>::empty() =~= fs[0].events);
        assert(Seq::<E>::empty() + fs.last().events =~= fs.last().events);
    } else {
        lemma_event_stream_split(fs.drop_last());
        assert(fs.drop_last()[0] == fs[0]);
        assert(fs.skip(1).drop_last() =~= fs.drop_last().skip(1));
        assert(fs.skip(1).last() == fs.last());
        assert(fs[0].events + (event_stream(fs.drop_last().skip(1)) + fs.last().events) =~= (
        fs[0].events + event_stream(fs.drop_last().skip(1))) + fs.last().events);
    }
}

/// Frame times never decrease across a sequence of frames.
pub open spec fn times_ordered<E: ReplayEvent>(fs: Seq<FrameSnapshot<E>>) -> bool {
    forall|i: int, j: int| 0 <= i <= j < fs.len() ==> fs[i].time <= fs[j].time
}

/// During the pass, emitted frame times are ordered, the open run is stamped
/// no later than `t`, and no earlier than the last emitted frame.
spec fn time_inv<E: ReplayEvent>(acc: MergeAcc<E>, t: int) -> bool {
    &&& times_ordered(acc.done)
    &&& match acc.group {
        Some((_c, g)) => g.time <= t && (acc.done.len() > 0 ==> acc.done.last().time <= g.time),
        None => acc.done.len() > 0 ==> acc.done.last().time <= t,
    }
}

proof fn lemma_time_inv_weaken<E: ReplayEvent>(acc: MergeAcc<E>, t1: int, t2: int)
    requires
        time_inv(acc, t1),
        t1 <= t2,
    ensures
        time_inv(acc, t2),
{
}

proof fn lemma_time_step<E: ReplayEvent>(acc: MergeAcc<E>, t: int, e: E)
    requires
        time_inv(acc, t),
    ensures
        time_inv(merge_event_step(acc, t, e), t),
{
    let acc2 = merge_event_step(acc, t, e);
    match acc.group {
        Some((gc, g)) => {
            if gc != e.is_pointer_move() {
                assert(times_ordered(acc2.done)) by {
                    assert forall|i: int, j: int| 0 <= i <= j < acc2.done.len() implies acc2.done[i].time
                        <= acc2.done[j].time by {
                        if j < acc.done.len() {
                        } else {
                            if i < acc.done.len() {
                                assert(acc.done[i].time <= acc.done.last().time);
                            }
                        }
                    }
                }
            }
        },
        None => {},
    }
}

proof fn lemma_time_events<E: ReplayEvent>(acc: MergeAcc<E>, t: int, evs: Seq<E>)
    requires
        time_inv(acc, t),
    ensures
        time_inv(merge_events(acc, t, evs), t),
    decreases evs.len(),
{
    if evs.len() > 0 {
        lemma_time_events(acc, t, evs.drop_last());
        lemma_time_step(merge_events(acc, t, evs.drop_last()), t, evs.last());
    }
}

proof fn lemma_time_frames<E: ReplayEvent>(acc: MergeAcc<E>, t0: int, fs: Seq<FrameSnapshot<E>>)
    requires
        time_inv(acc, t0),
        times_ordered(fs),
        fs.len() > 0,
        t0 <= fs[0].time,
    ensures
        time_inv(merge_frames_acc(acc, fs), fs.last().time),
    decreases fs.len(),
{
    if fs.len() == 1 {
        lemma_time_inv_weaken(acc, t0, fs[0].time);
        lemma_time_events(acc, fs.last().time, fs.last().events);
    } else {
        let front = fs.drop_last();
        assert(times_ordered(front)) by {
            assert forall|i: int, j: int| 0 <= i <= j < front.len() implies front[i].time
                <= front[j].time by {
                assert(fs[i].time <= fs[j].time);
            }
        }
        lemma_time_frames(acc, t0, front);
        assert(front.last() == fs[fs.len() - 2]);
        lemma_time_inv_weaken(merge_frames_acc(acc, front), front.last().time, fs.last().time);
        lemma_time_events(merge_frames_acc(acc, front), fs.last().time, fs.last().events);
    }
}

/// The merge keeps frame times non-decreasing, and stamps no merged frame
/// later than the last input frame: every merged frame carries the time of
/// the input frame that held its run's first event, in scan order.
pub proof fn lemma_merge_keeps_times_ordered<E: ReplayEvent>(fs: Seq<FrameSnapshot<E>>)
    requires
        times_ordered(fs),
    ensures
        times_ordered(spec_merge(fs)),
        fs.len() > 0 ==> forall|k: int|
            0 <= k < spec_merge(fs).len() ==> #[trigger] spec_merge(fs)[k].time <= fs.last().time,
{
    if fs.len() == 0 {
        return ;
    }
    let acc0 = MergeAcc::<E> { done: seq![fs[0]], group: None };
    let rest = fs.skip(1);
    let t_end = if rest.len() > 0 {
        rest.last().time
    } else {
        fs[0].time
    };
    assert(time_inv(acc0, fs[0].time));
    if rest.len() > 0 {
        assert(times_ordered(rest)) by {
            assert forall|i: int, j: int| 0 <= i <= j < rest.len() implies rest[i].time
                <= rest[j].time by {
                assert(fs[i + 1].time <= fs[j + 1].time);
            }
        }
        assert(fs[0].time <= rest[0].time);
        lemma_time_frames(acc0, fs[0].time, rest);
        assert(rest.last() == fs.last());
    }
    let acc = merge_frames_acc(acc0, rest);
    assert(time_inv(acc, t_end));
    assert(t_end <= fs.last().time);
    let merged = spec_merge(fs);
    match acc.group {
        Some((_gc, g)) => {
            assert(merged == acc.done.push(g));
            assert forall|i: int, j: int| 0 <= i <= j < merged.len() implies merged[i].time
                <= merged[j].time by {
                if j < acc.done.len() {
                } else {
                    if i < acc.done.len() {
                        assert(acc.done[i].time <= acc.done.last().time);
                    }
                }
            }
            assert forall|k: int| 0 <= k < merged.len() implies merged[k].time <= fs.last().time by {
                assert(merged[k].time <= merged[merged.len() - 1].time);
            }
        },
        None => {
            assert forall|k: int| 0 <= k < merged.len() implies merged[k].time <= fs.last().time by {
                assert(merged[k].time <= acc.done.last().time);
            }
        },
    }
}

/// The classification a non-empty uniform frame carries: that of its first
/// event.
pub open spec fn frame_class<E: ReplayEvent>(f: FrameSnapshot<E>) -> bool {
    f.events[0].is_pointer_move()
}

/// During the pass, emitted runs beyond the anchor alternate classification,
/// and the open run differs from the last emitted one.
spec fn alt_inv<E: ReplayEvent>(acc: MergeAcc<E>) -> bool {
    &&& forall|i: int|
        1 <= i < acc.done.len() - 1 ==> frame_class(#[trigger] acc.done[i]) != frame_class(
            acc.done[i + 1],
        )
    &&& match acc.group {
        Some((c, g)) => {
            &&& g.events.len() > 0
            &&& frame_class(g) == c
            &&& acc.done.len() >= 2 ==> c != frame_class(acc.done.last())
        },
        None => acc.done.len() <= 1,
    }
}

proof fn lemma_alt_step<E: ReplayEvent>(acc: MergeAcc<E>, t: int, e: E)
    requires
        alt_inv(acc),
    ensures
        alt_inv(merge_event_step(acc, t, e)),
{
    let c = e.is_pointer_move();
    let acc2 = merge_event_step(acc, t, e);
    match acc.group {
        Some((gc, g)) => {
            if gc == c {
                let g2 = FrameSnapshot { time: g.time, events: g.events.push(e) };
                assert(g2.events[0] == g.events[0]);
            } else {
                assert(acc2.done == acc.done.push(g));
                assert(acc2.done.last() == g);
                assert forall|i: int| 1 <= i < acc2.done.len() - 1 implies frame_class(
                    #[trigger] acc2.done[i],
                ) != frame_class(acc2.done[i + 1]) by {
                    if i + 1 < acc.done.len() {
                    } else {
                        assert(acc2.done[i] == acc.done.last());
                        assert(acc2.done[i + 1] == g);
                    }
                }
            }
        },
        None => {},
    }
}

proof fn lemma_alt_events<E: ReplayEvent>(acc: MergeAcc<E>, t: int, evs: Seq<E>)
    requires
        alt_inv(acc),
    ensures
        alt_inv(merge_events(acc, t, evs)),
    decreases evs.len(),
{
    if evs.len() > 0 {
        lemma_alt_events(acc, t, evs.drop_last());
        lemma_alt_step(merge_events(acc, t, evs.drop_last()), t, evs.last());
    }
}

proof fn lemma_alt_frames<E: ReplayEvent>(acc: MergeAcc<E>, fs: Seq<FrameSnapshot<E>>)
    requires
        alt_inv(acc),
    ensures
        alt_inv(merge_frames_acc(acc, fs)),
    decreases fs.len(),
{
    if fs.len() > 0 {
        lemma_alt_frames(acc, fs.drop_last());
        lemma_alt_events(merge_frames_acc(acc, fs.drop_last()), fs.last().time, fs.last().events);
    }
}

/// Merged runs are maximal: beyond the anchor frame, two adjacent merged
/// frames never share a classification — events of one classification that
/// were adjacent in the stream always land in one frame.
pub proof fn lemma_merge_runs_maximal<E: ReplayEvent>(fs: Seq<FrameSnapshot<E>>)
    requires
        fs.len() > 0,
    ensures
        forall|i: int|
            1 <= i < spec_merge(fs).len() - 1 ==> frame_class(#[trigger] spec_merge(fs)[i])
                != frame_class(spec_merge(fs)[i + 1]),
{
    let acc0 = MergeAcc::<E> { done: seq![fs[0]], group: None };
    assert(alt_inv(acc0));
    lemma_alt_frames(acc0, fs.skip(1));
    let acc = merge_frames_acc(acc0, fs.skip(1));
    let merged = spec_merge(fs);
    match acc.group {
        Some((c, g)) => {
            assert(merged == acc.done.push(g));
            assert forall|i: int| 1 <= i < merged.len() - 1 implies frame_class(
                #[trigger] merged[i],
            ) != frame_class(merged[i + 1]) by {
                if i + 1 < acc.done.len() {
                } else {
                    assert(merged[i] == acc.done.last());
                    assert(merged[i + 1] == g);
                }
            }
        },
        None => {},
    }
}

/// The concrete run being accumulated, abstracted to its mathematical value.
pub open spec fn group_view<E: ReplayEvent>(g: Option<(bool, FrameEvents<E>)>) -> Option<
    (bool, FrameSnapshot<E>),
> {
    match g {
        Some((c, f)) => Some((c, f@)),
        None => None,
    }
}

/// Collapse consecutive frames into maximal uniform runs, as
/// [`spec_merge`] describes; the anchor frame is emitted unmodified and an
/// empty input is returned unchanged.
pub fn apply_event_postprocessing<E: ReplayEvent>(frames: Vec<FrameEvents<E>>) -> (r: Vec<
    FrameEvents<E>,
>)
    ensures
        frames_view(r@) == spec_merge(frames_view(frames@)),
{
    let ghost fv = frames_view(frames@);
    if frames.len() == 0 {
        assert(frames_view(frames@) =~= spec_merge(fv));
        return frames;
    }
    let ghost acc0 = MergeAcc::<E> { done: seq![fv[0]], group: None };
    let mut merged: Vec<FrameEvents<E>> = Vec::new();
    merged.push(dup_frame(&frames[0]));
    let mut group: Option<(bool, FrameEvents<E>)> = None;
    proof {
        assert(frames_view(merged@) =~= acc0.done);
    }
    let mut i: usize = 1;
    while i < frames.len()
        invariant
            1 <= i <= fv.len(),
            fv == frames_view(frames@),
            fv.len() == frames@.len(),
            ({
                let acc = merge_frames_acc(acc0, fv.skip(1).take(i - 1));
                frames_view(merged@) == acc.done && group_view(group) == acc.group
            }),
        decreases fv.len() - i,
    {
        let ghost acc_pre = merge_frames_acc(acc0, fv.skip(1).take(i - 1));
        let ftime = frames[i].time;
        let evs_len = frames[i].events.len();
        proof {
            assert(fv[i as int] == frames@[i as int]@);
        }
        let mut j: usize = 0;
        while j < evs_len
            invariant
                0 <= j <= evs_len,
                1 <= i < fv.len(),
                fv == frames_view(frames@),
                fv.len() == frames@.len(),
                evs_len == fv[i as int].events.len(),
                ftime@ == fv[i as int].time,
                fv[i as int] == frames@[i as int]@,
                acc_pre == merge_frames_acc(acc0, fv.skip(1).take(i - 1)),
                ({
                    let acc = merge_events(acc_pre, fv[i as int].time, fv[i as int].events.take(
                        j as int,
                    ));
                    frames_view(merged@) == acc.done && group_view(group) == acc.group
                }),
            decreases evs_len - j,
        {
            let ghost acc_j = merge_events(acc_pre, fv[i as int].time, fv[i as int].events.take(
                j as int,
            ));
            let e = frames[i].events[j].dup();
            let is_ptr = e.is_pointer_moved();
            let ghost e_spec = fv[i as int].events[j as int];
            group = match group {
                Some((gc, mut g)) => {
                    if gc == is_ptr {
                        g.events.push(e);
                        Some((gc, g))
                    } else {
                        merged.push(g);
                        let mut run: Vec<E> = Vec::new();
                        run.push(e);
                        Some((is_ptr, FrameEvents { time: ftime, events: run }))
                    }
                },
                None => {
                    let mut run: Vec<E> = Vec::new();
                    run.push(e);
                    Some((is_ptr, FrameEvents { time: ftime, events: run }))
                },
            };
            proof {
                let evs = fv[i as int].events;
                assert(evs.take(j + 1 as int).drop_last() =~= evs.take(j as int));
                assert(evs.take(j + 1 as int).last() == e_spec);
                let acc_j1 = merge_event_step(acc_j, fv[i as int].time, e_spec);
                assert(merge_events(acc_pre, fv[i as int].time, evs.take(j + 1 as int)) == acc_j1);
                match acc_j.group {
                    Some((gc, g)) => {
                        if gc == e_spec.is_pointer_move() {
                            assert(frames_view(merged@) == acc_j1.done);
                            assert(group_view(group)->Some_0.1.events =~= acc_j1.group->Some_0.1.events);
                        } else {
                            assert(frames_view(merged@) =~= acc_j.done.push(g));
                            assert(group_view(group)->Some_0.1.events =~= seq![e_spec]);
                        }
                    },
                    None => {
                        assert(frames_view(merged@) == acc_j1.done);
                        assert(group_view(group)->Some_0.1.events =~= seq![e_spec]);
                    },
                }
                assert(group_view(group) == acc_j1.group);
            }
            j += 1;
        }
        proof {
            let evs = fv[i as int].events;
            assert(evs.take(evs.len() as int) =~= evs);
            let rest = fv.skip(1);
            assert(rest.take(i as int).drop_last() =~= rest.take(i - 1));
            assert(rest.take(i as int).last() == fv[i as int]);
        }
        i += 1;
    }
    proof {
        assert(fv.skip(1).take(fv.len() - 1) =~= fv.skip(1));
    }
    if let Some((_gc, g)) = group {
        merged.push(g);
        proof {
            let acc = merge_frames_acc(acc0, fv.skip(1));
            assert(frames_view(merged@) =~= acc.done.push(acc.group->Some_0.1));
        }
    }
    merged
}

} // verus!
