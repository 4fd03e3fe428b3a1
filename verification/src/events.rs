//! The event abstraction of the record/replay core.
//!
//! The core treats input events as opaque values classified through a small
//! capability set: toggle-key detection, key-press detection, semantic
//! pointer-move detection, coarse toolkit-level motion detection, and the
//! position payload of pointer-button events. A host adapts its own event
//! type to [`ReplayEvent`]; the crate supplies [`SimEvent`], a minimal
//! synthetic event type, for tests and examples.

use vstd::prelude::*;

use crate::timestamp::NanoTimestamp;

verus! {

/// The capability set through which the core reads an input event.
pub trait ReplayEvent: Sized {
    /// The coordinate payload of pointer events; the core never inspects it.
    type Pos;

    /// Whether this event belongs to the designated record toggle key.
    spec fn is_toggle(&self) -> bool;

    /// Whether this event is a key press (rather than a release or a non-key).
    spec fn is_pressed(&self) -> bool;

    /// Whether this event is a semantic pointer move.
    spec fn is_pointer_move(&self) -> bool;

    /// Whether this event is a coarse, toolkit-level motion notification.
    spec fn is_coarse_move(&self) -> bool;

    /// The position of a pointer-button event, `None` for any other event.
    spec fn button_pos(&self) -> Option<Self::Pos>;

    /// The synthetic pointer-move event at a given position.
    spec fn pointer_move_spec(p: Self::Pos) -> Self;

    /// The origin position used to anchor a recording.
    spec fn origin_spec() -> Self::Pos;

    /// A synthetic pointer-move is classified as a semantic pointer move and
    /// as nothing the recorder drops.
    proof fn pointer_move_classified(p: Self::Pos)
        ensures
            Self::pointer_move_spec(p).is_pointer_move(),
            !Self::pointer_move_spec(p).is_toggle(),
            !Self::pointer_move_spec(p).is_coarse_move(),
    ;

    fn is_toggle_key(&self) -> (r: bool)
        ensures
            r == self.is_toggle(),
    ;

    fn is_key_pressed(&self) -> (r: bool)
        ensures
            r == self.is_pressed(),
    ;

    fn is_pointer_moved(&self) -> (r: bool)
        ensures
            r == self.is_pointer_move(),
    ;

    fn is_coarse_pointer_move(&self) -> (r: bool)
        ensures
            r == self.is_coarse_move(),
    ;

    fn pointer_button_position(&self) -> (r: Option<Self::Pos>)
        ensures
            r == self.button_pos(),
    ;

    /// Build the synthetic pointer-move event at `p`.
    fn pointer_move_to(p: Self::Pos) -> (r: Self)
        ensures
            r == Self::pointer_move_spec(p),
    ;

    /// The origin position.
    fn origin() -> (p: Self::Pos)
        ensures
            p == Self::origin_spec(),
    ;

    /// An exact copy of the event.
    fn dup(&self) -> (r: Self)
        ensures
            r == *self,
    ;
}

/// A batch of events recorded or replayed in a single frame.
pub struct FrameEvents<E> {
    pub time: NanoTimestamp,
    pub events: Vec<E>,
}

/// The mathematical value of a frame: its time and its event sequence.
pub struct FrameSnapshot<E> {
    pub time: int,
    pub events: Seq<E>,
}

impl<E> View for FrameEvents<E> {
    type V = FrameSnapshot<E>;

    open spec fn view(&self) -> FrameSnapshot<E> {
        FrameSnapshot { time: self.time@, events: self.events@ }
    }
}

/// The mathematical value of a sequence of frames.
pub open spec fn frames_view<E>(frames: Seq<FrameEvents<E>>) -> Seq<FrameSnapshot<E>> {
    frames.map_values(|f: FrameEvents<E>| f@)
}

/// An exact copy of a frame.
pub fn dup_frame<E: ReplayEvent>(f: &FrameEvents<E>) -> (r: FrameEvents<E>)
    ensures
        r@ == f@,
{
    let mut events: Vec<E> = Vec::new();
    let mut k: usize = 0;
    while k < f.events.len()
        invariant
            0 <= k <= f.events@.len(),
            events@ == f.events@.take(k as int),
        decreases f.events@.len() - k,
    {
        events.push(f.events[k].dup());
        proof {
            assert(events@ =~= f.events@.take(k + 1 as int));
        }
        k += 1;
    }
    proof {
        assert(f.events@.take(f.events@.len() as int) =~= f.events@);
    }
    FrameEvents { time: f.time, events }
}

/// A position on a synthetic screen.
#[derive(Clone, Copy, PartialEq, Eq, Structural, Debug)]
pub struct SimPos {
    pub x: i64,
    pub y: i64,
}

/// A minimal synthetic input event type for tests and examples.
#[derive(Clone, Copy, PartialEq, Eq, Structural, Debug)]
pub enum SimEvent {
    /// A key went down or up; `toggle` marks the designated toggle key.
    Key { toggle: bool, pressed: bool },
    /// The pointer moved to a position (a semantic pointer move).
    PointerMoved(SimPos),
    /// A pointer button went down or up at a position.
    PointerButton { pos: SimPos, pressed: bool },
    /// A coarse, toolkit-level motion notification.
    CoarseMove,
}

impl ReplayEvent for SimEvent {
    type Pos = SimPos;

    open spec fn is_toggle(&self) -> bool {
        match *self {
            SimEvent::Key { toggle, .. } => toggle,
            _ => false,
        }
    }

    open spec fn is_pressed(&self) -> bool {
        match *self {
            SimEvent::Key { pressed, .. } => pressed,
            _ => false,
        }
    }

    open spec fn is_pointer_move(&self) -> bool {
        self is PointerMoved
    }

    open spec fn is_coarse_move(&self) -> bool {
        self is CoarseMove
    }

    open spec fn button_pos(&self) -> Option<SimPos> {
        match *self {
            SimEvent::PointerButton { pos, .. } => Some(pos),
            _ => None,
        }
    }

    open spec fn pointer_move_spec(p: SimPos) -> SimEvent {
        SimEvent::PointerMoved(p)
    }

    open spec fn origin_spec() -> SimPos {
        SimPos { x: 0, y: 0 }
    }

    proof fn pointer_move_classified(p: SimPos) {
    }

    fn is_toggle_key(&self) -> bool {
        match *self {
            SimEvent::Key { toggle, .. } => toggle,
            _ => false,
        }
    }

    fn is_key_pressed(&self) -> bool {
        match *self {
            SimEvent::Key { pressed, .. } => pressed,
            _ => false,
        }
    }

    fn is_pointer_moved(&self) -> bool {
        matches!(*self, SimEvent::PointerMoved(_))
    }

    fn is_coarse_pointer_move(&self) -> bool {
        matches!(*self, SimEvent::CoarseMove)
    }

    fn pointer_button_position(&self) -> Option<SimPos> {
        match *self {
            SimEvent::PointerButton { pos, .. } => Some(pos),
            _ => None,
        }
    }

    fn pointer_move_to(p: SimPos) -> SimEvent {
        SimEvent::PointerMoved(p)
    }

    fn origin() -> SimPos {
        SimPos { x: 0, y: 0 }
    }

    fn dup(&self) -> SimEvent {
        *self
    }
}

} // verus!
