//! The debounced logical pen state and its edge detection.
//!
//! One current and one previous state are kept per session; comparing the
//! two per button yields the rising and falling edges that the dispatcher
//! acts on.
use vstd::prelude::*;

use crate::data::{Data, BUTTON_1, BUTTON_2, BUTTON_3, PEN_DETECTED, PEN_HOVERING, PEN_INIT};
use crate::data::{read_state, spec_read_state};

verus! {

/// The logical pen state decoded from one report.
#[derive(Clone, Copy, Debug)]
pub struct State {
    pub pos: (u16, u16),
    pub hovering: bool,
    pub inited: bool,
    pub detected: bool,
    pub buttons: [bool; 3],
}

/// The logical state that a report decodes to.
pub open spec fn spec_state(d: Data) -> State {
    State {
        pos: (d.pointer_x, d.pointer_y),
        hovering: spec_read_state(d.state, PEN_HOVERING),
        inited: spec_read_state(d.state, PEN_INIT),
        detected: spec_read_state(d.state, PEN_DETECTED),
        buttons: [
            spec_read_state(d.state, BUTTON_1),
            spec_read_state(d.state, BUTTON_2),
            spec_read_state(d.state, BUTTON_3),
        ],
    }
}

impl State {
    /// Decode the bitmask and position of one report into named flags.
    pub fn from_data(data: Data) -> (r: State)
        ensures
            r == spec_state(data),
    {
        let r = State {
            pos: (data.pointer_x, data.pointer_y),
            hovering: read_state(data.state, PEN_HOVERING),
            inited: read_state(data.state, PEN_INIT),
            detected: read_state(data.state, PEN_DETECTED),
            buttons: [
                read_state(data.state, BUTTON_1),
                read_state(data.state, BUTTON_2),
                read_state(data.state, BUTTON_3),
            ],
        };
        proof {
            assert(r.buttons =~= spec_state(data).buttons);
        }
        r
    }

    /// The state at engine start: origin position, no flags, no buttons.
    pub fn initial() -> (r: State)
        ensures
            r == spec_initial(),
    {
        let r = State { pos: (0, 0), hovering: false, inited: false, detected: false, buttons: [
            false,
            false,
            false,
        ] };
        proof {
            assert(r.buttons =~= spec_initial().buttons);
        }
        r
    }
}

/// The state at engine start.
pub open spec fn spec_initial() -> State {
    State { pos: (0, 0), hovering: false, inited: false, detected: false, buttons: [
        false,
        false,
        false,
    ] }
}

/// Whether button `i` changed between two states.
pub open spec fn edge(prev: State, cur: State, i: int) -> bool
    recommends
        0 <= i < 3,
{
    cur.buttons[i] != prev.buttons[i]
}

/// Whether button `i` has a rising (down) edge between two states.
pub open spec fn edge_down(prev: State, cur: State, i: int) -> bool
    recommends
        0 <= i < 3,
{
    !prev.buttons[i] && cur.buttons[i]
}

} // verus!
