//! The pointer and wheel state machine of the canvas.
//!
//! The machine decides what an event does to the drag state and what it asks
//! of the viewport. It hands the positions on as it got them: the host turns a
//! pan or a zoom into numbers.

use crate::viewport::Point;
use vstd::prelude::*;

verus! {

/// Where the cursor was when the event arrived.
#[derive(Debug, Clone, Copy)]
pub enum Cursor<N> {
    /// Over the canvas, at this screen position.
    Over(Point<N>),
    /// At a known position that is not over the canvas.
    Outside,
    /// The host does not know where the cursor is.
    Unknown,
}

/// What the pointer is doing to the canvas.
#[derive(Debug, Clone, Copy)]
pub enum GraphState<N> {
    Idle,
    /// The button is down; `anchor` is where the pointer was last seen.
    Dragging { anchor: Point<N> },
}

/// An event of the host.
#[derive(Debug, Clone, Copy)]
pub enum Input<N> {
    PointerDown,
    PointerMove,
    PointerUp,
    /// The wheel turned by this amount.
    Wheel(N),
    /// The canvas lost the pointer's focus.
    FocusLost,
}

/// What an event asks of the viewport.
#[derive(Debug, Clone, Copy)]
pub enum Emission<N> {
    Nothing,
    /// Move the centre by the way from `to` back to `from`, in data units.
    Pan { from: Point<N>, to: Point<N> },
    /// Rescale by the wheel's amount, keeping the data point under `cursor` in
    /// place where the cursor is known.
    Zoom { delta_y: N, cursor: Option<Point<N>> },
}

/// The outcome of one event.
#[derive(Debug, Clone, Copy)]
pub struct Transition<N> {
    pub next: GraphState<N>,
    pub emission: Emission<N>,
    /// Whether the canvas used the event. An ignored event is not captured.
    pub captured: bool,
}

/// An event that changes nothing and emits nothing.
pub open spec fn ignored<N>(state: GraphState<N>) -> Transition<N> {
    Transition { next: state, emission: Emission::Nothing, captured: false }
}

/// The transition table.
///
/// Losing focus ends a drag. Any other event counts only with the cursor over
/// the canvas, but for the wheel, which also counts where the cursor is
/// unknown. Button down starts a drag from idle; a move while dragging pans
/// from the anchor to the cursor and takes the cursor as the new anchor; button
/// up ends the drag; the wheel zooms and leaves the drag state alone.
pub open spec fn spec_step<N>(
    state: GraphState<N>,
    input: Input<N>,
    cursor: Cursor<N>,
) -> Transition<N> {
    match (input, cursor) {
        (Input::FocusLost, _) => Transition {
            next: GraphState::Idle,
            emission: Emission::Nothing,
            captured: false,
        },
        (Input::PointerDown, Cursor::Over(position)) => Transition {
            next: match state {
                GraphState::Idle => GraphState::Dragging { anchor: position },
                GraphState::Dragging { .. } => state,
            },
            emission: Emission::Nothing,
            captured: true,
        },
        (Input::PointerMove, Cursor::Over(position)) => match state {
            GraphState::Dragging { anchor } => Transition {
                next: GraphState::Dragging { anchor: position },
                emission: Emission::Pan { from: anchor, to: position },
                captured: true,
            },
            GraphState::Idle => ignored(state),
        },
        (Input::PointerUp, Cursor::Over(_)) => Transition {
            next: GraphState::Idle,
            emission: Emission::Nothing,
            captured: true,
        },
        (Input::Wheel(delta_y), Cursor::Over(position)) => Transition {
            next: state,
            emission: Emission::Zoom { delta_y, cursor: Some(position) },
            captured: true,
        },
        (Input::Wheel(delta_y), Cursor::Unknown) => Transition {
            next: state,
            emission: Emission::Zoom { delta_y, cursor: None },
            captured: true,
        },
        _ => ignored(state),
    }
}

/// Takes one event from `state`.
pub fn step<N: Copy>(state: GraphState<N>, input: Input<N>, cursor: Cursor<N>) -> (transition:
    Transition<N>)
    ensures
        transition == spec_step(state, input, cursor),
{
    let unused = Transition { next: state, emission: Emission::Nothing, captured: false };
    match input {
        Input::FocusLost => Transition {
            next: GraphState::Idle,
            emission: Emission::Nothing,
            captured: false,
        },
        Input::PointerDown => match cursor {
            Cursor::Over(position) => Transition {
                next: match state {
                    GraphState::Idle => GraphState::Dragging { anchor: position },
                    GraphState::Dragging { .. } => state,
                },
                emission: Emission::Nothing,
                captured: true,
            },
            _ => unused,
        },
        Input::PointerMove => match cursor {
            Cursor::Over(position) => match state {
                GraphState::Dragging { anchor } => Transition {
                    next: GraphState::Dragging { anchor: position },
                    emission: Emission::Pan { from: anchor, to: position },
                    captured: true,
                },
                GraphState::Idle => unused,
            },
            _ => unused,
        },
        Input::PointerUp => match cursor {
            Cursor::Over(_) => Transition {
                next: GraphState::Idle,
                emission: Emission::Nothing,
                captured: true,
            },
            _ => unused,
        },
        Input::Wheel(delta_y) => match cursor {
            Cursor::Over(position) => Transition {
                next: state,
                emission: Emission::Zoom { delta_y, cursor: Some(position) },
                captured: true,
            },
            Cursor::Unknown => Transition {
                next: state,
                emission: Emission::Zoom { delta_y, cursor: None },
                captured: true,
            },
            Cursor::Outside => unused,
        },
    }
}

impl<N> Default for GraphState<N> {
    /// A session starts idle.
    fn default() -> (state: Self)
        ensures
            state == GraphState::<N>::Idle,
    {
        GraphState::Idle
    }
}

impl<N: Copy> GraphState<N> {
    /// The state that a session starts in.
    pub fn new() -> (state: Self)
        ensures
            state == GraphState::<N>::Idle,
    {
        GraphState::Idle
    }

    /// Takes `input` and keeps the state that follows.
    pub fn handle(&mut self, input: Input<N>, cursor: Cursor<N>) -> (emission: Emission<N>)
        ensures
            *final(self) == spec_step(*old(self), input, cursor).next,
            emission == spec_step(*old(self), input, cursor).emission,
    {
        let transition = step(*self, input, cursor);
        *self = transition.next;
        transition.emission
    }

    /// The button went down with the cursor at `cursor`.
    pub fn pointer_down(&mut self, cursor: Cursor<N>) -> (emission: Emission<N>)
        ensures
            *final(self) == spec_step(*old(self), Input::PointerDown, cursor).next,
            emission == spec_step(*old(self), Input::PointerDown, cursor).emission,
    {
        self.handle(Input::PointerDown, cursor)
    }

    /// The pointer moved to `cursor`.
    pub fn pointer_move(&mut self, cursor: Cursor<N>) -> (emission: Emission<N>)
        ensures
            *final(self) == spec_step(*old(self), Input::PointerMove, cursor).next,
            emission == spec_step(*old(self), Input::PointerMove, cursor).emission,
    {
        self.handle(Input::PointerMove, cursor)
    }

    /// The button went up with the cursor at `cursor`.
    pub fn pointer_up(&mut self, cursor: Cursor<N>) -> (emission: Emission<N>)
        ensures
            *final(self) == spec_step(*old(self), Input::PointerUp, cursor).next,
            emission == spec_step(*old(self), Input::PointerUp, cursor).emission,
    {
        self.handle(Input::PointerUp, cursor)
    }

    /// The wheel turned by `delta_y` with the cursor at `cursor`.
    pub fn wheel(&mut self, delta_y: N, cursor: Cursor<N>) -> (emission: Emission<N>)
        ensures
            *final(self) == spec_step(*old(self), Input::Wheel(delta_y), cursor).next,
            emission == spec_step(*old(self), Input::Wheel(delta_y), cursor).emission,
    {
        self.handle(Input::Wheel(delta_y), cursor)
    }

    /// The canvas lost the pointer's focus.
    pub fn focus_lost(&mut self)
        ensures
            *final(self) == GraphState::<N>::Idle,
    {
        let _ = self.handle(Input::FocusLost, Cursor::Unknown);
    }
}

} // verus!
