//! The device session engine: connection status, the debounced state pair,
//! and the per-report pipeline from raw bytes to input actions.
//!
//! The handler holds the previous logical state; `on_data` decodes one
//! report, emits the pointer move and the button edge actions, and retires
//! the report into the previous state. Connection transitions follow the
//! state machine: not connected, connected, or error, with an error treated
//! as not connected for recovery.
use vstd::prelude::*;

use crate::actions::{
    button_actions, char_actions, edge_actions, modifier_actions, move_actions, report_actions,
    InputAction,
};
use crate::config::{config_ok, Config, KeyBinding};
use crate::data::{Data, REPORT_LEN};
use crate::data::spec_data;
use crate::keys::Key;
use crate::mapper::map_point;
use crate::state::{spec_initial, spec_state, State};

verus! {

/// The connection status of the session.
#[derive(PartialEq, Eq, Structural, Clone, Copy, Debug)]
pub enum TabletStatus {
    NotConnected,
    Connected,
    Error,
}

/// Errors of starting or stopping the handler.
#[derive(PartialEq, Eq, Structural, Clone, Copy, Debug)]
pub enum HandlerError {
    AlreadyStarted,
    NotStarted,
}

/// Errors of one connection attempt.
#[derive(PartialEq, Eq, Structural, Clone, Copy, Debug)]
pub enum TabletError {
    /// No enumerated device matches the descriptor.
    NotFound,
    /// A matching device was found but could not be opened.
    InvalidAccess,
}

/// What processing one report does: a foreign report id leaves the state
/// unchanged and dispatches nothing; otherwise the report decodes to the
/// new state and dispatches its actions against the previous one.
pub open spec fn process_spec(prev: State, buf: Seq<u8>, id: u8, c: crate::config::ConfigView) -> (
    State,
    Seq<InputAction>,
)
    recommends
        buf.len() == REPORT_LEN,
        c.buttons.len() == 3,
{
    if buf[0] != id {
        (prev, Seq::empty())
    } else {
        let st = spec_state(spec_data(buf));
        (st, report_actions(prev, st, c))
    }
}

/// A report whose leading byte is not the expected report id produces no
/// state change and no dispatch call.
pub proof fn lemma_foreign_report_ignored(
    prev: State,
    buf: Seq<u8>,
    id: u8,
    c: crate::config::ConfigView,
)
    requires
        buf.len() == REPORT_LEN,
        buf[0] != id,
    ensures
        process_spec(prev, buf, id, c) == (prev, Seq::<InputAction>::empty()),
{
}

/// The session engine state.
pub struct TabletHandler {
    pub running: bool,
    pub status: TabletStatus,
    pub prev: State,
}

/// Concatenation of action sequences is associative.
proof fn lemma_action_assoc(a: Seq<InputAction>, b: Seq<InputAction>, c: Seq<InputAction>)
    ensures
        a + (b + c) == (a + b) + c,
{
    assert(a + (b + c) =~= (a + b) + c);
}

/// Append the actions of the modifier keys of a binding.
fn push_modifier_actions(out: &mut Vec<InputAction>, m: &Option<Vec<Key>>, down: bool)
    ensures
        final(out)@ == old(out)@ + modifier_actions(
            match *m {
                Some(ks) => Some(ks@),
                None => None,
            },
            down,
        ),
{
    match m {
        Some(ks) => {
            let n: usize = ks.len();
            let mut i: usize = 0;
            while i < n
                invariant
                    0 <= i <= n,
                    n == ks@.len(),
                    out@ == old(out)@ + ks@.subrange(0, i as int).map_values(
                        |k: Key|
                            if down {
                                InputAction::KeyDown { key: k }
                            } else {
                                InputAction::KeyUp { key: k }
                            },
                    ),
                decreases n - i,
            {
                if down {
                    out.push(InputAction::KeyDown { key: ks[i] });
                } else {
                    out.push(InputAction::KeyUp { key: ks[i] });
                }
                proof {
                    let f = |k: Key|
                        if down {
                            InputAction::KeyDown { key: k }
                        } else {
                            InputAction::KeyUp { key: k }
                        };
                    assert(ks@.subrange(0, i + 1).map_values(f) =~= ks@.subrange(
                        0,
                        i as int,
                    ).map_values(f).push(f(ks@[i as int])));
                }
                i = i + 1;
            }
            proof {
                assert(ks@.subrange(0, n as int) =~= ks@);
            }
        },
        None => {
            proof {
                assert(out@ =~= old(out)@ + modifier_actions(None, down));
            }
        },
    }
}

/// Append the action of the character key of a binding.
fn push_char_actions(out: &mut Vec<InputAction>, key: Option<char>, down: bool)
    ensures
        final(out)@ == old(out)@ + char_actions(key, down),
{
    if key.is_some() {
        let c: char = key.unwrap();
        if down {
            out.push(InputAction::CharDown { c });
        } else {
            out.push(InputAction::CharUp { c });
        }
        proof {
            crate::actions::lemma_char_push(old(out)@, out@, key, c, down);
        }
    } else {
        proof {
            crate::actions::lemma_char_push_none(old(out)@, down);
        }
    }
}

/// Append the actions of one button edge.
fn push_edge_actions(out: &mut Vec<InputAction>, b: &KeyBinding, down: bool)
    ensures
        final(out)@ == old(out)@ + edge_actions(b@, down),
{
    match b {
        KeyBinding::Disabled => {
            proof {
                assert(out@ =~= old(out)@ + edge_actions(b@, down));
            }
        },
        KeyBinding::Mouse { button } => {
            if down {
                out.push(InputAction::MouseDown { button: *button });
            } else {
                out.push(InputAction::MouseUp { button: *button });
            }
            proof {
                assert(out@ =~= old(out)@ + edge_actions(b@, down));
            }
        },
        KeyBinding::Keyboard { modifiers, key } => {
            let ghost mid: Seq<InputAction> = old(out)@;
            let ghost mview: Option<Seq<Key>> = match modifiers {
                Some(ks) => Some(ks@),
                None => None,
            };
            push_modifier_actions(out, modifiers, down);
            push_char_actions(out, *key, down);
            proof {
                lemma_action_assoc(mid, modifier_actions(mview, down), char_actions(*key, down));
            }
        },
    }
}

impl TabletHandler {
    /// A fresh handler: stopped, not connected, initial state.
    pub fn new() -> (r: TabletHandler)
        ensures
            !r.running,
            r.status == TabletStatus::NotConnected,
            r.prev == spec_initial(),
    {
        TabletHandler { running: false, status: TabletStatus::NotConnected, prev: State::initial() }
    }

    /// Mark the handler started; refused when it already runs.
    pub fn start(&mut self) -> (r: Option<HandlerError>)
        ensures
            old(self).running ==> r == Some(HandlerError::AlreadyStarted) && *final(self) == *old(self),
            !old(self).running ==> r is None && final(self).running && final(self).status == old(self).status && final(self).prev == old(self).prev,
    {
        if self.running {
            return Some(HandlerError::AlreadyStarted);
        }
        self.running = true;
        None
    }

    /// Mark the handler stopped; refused when it does not run.
    pub fn stop(&mut self) -> (r: Option<HandlerError>)
        ensures
            !old(self).running ==> r == Some(HandlerError::NotStarted) && *final(self) == *old(self),
            old(self).running ==> r is None && !final(self).running && final(self).status == old(self).status && final(self).prev == old(self).prev,
    {
        if !self.running {
            return Some(HandlerError::NotStarted);
        }
        self.running = false;
        None
    }

    /// Whether the handler runs.
    pub fn running(&self) -> (r: bool)
        ensures
            r == self.running,
    {
        self.running
    }

    /// The current connection status.
    pub fn get_status(&self) -> (r: TabletStatus)
        ensures
            r == self.status,
    {
        self.status
    }

    /// Set the connection status.
    pub fn set_status(&mut self, status: TabletStatus)
        ensures
            final(self).status == status,
            final(self).running == old(self).running,
            final(self).prev == old(self).prev,
    {
        self.status = status;
    }

    /// Record the outcome of one discovery and open attempt: no match or
    /// an open failure keeps the session in its current disconnected
    /// state (an error stays observable until the device reconnects), and
    /// an opened device connects the session.
    pub fn on_connect_attempt(&mut self, found: bool, opened: bool) -> (r: Result<
        (),
        TabletError,
    >)
        ensures
            final(self).running == old(self).running,
            final(self).prev == old(self).prev,
            !found ==> r == Err::<(), TabletError>(TabletError::NotFound) && final(self).status
                == old(self).status,
            found && !opened ==> r == Err::<(), TabletError>(TabletError::InvalidAccess) && final(self).status == old(self).status,
            found && opened ==> r == Ok::<(), TabletError>(()) && final(self).status
                == TabletStatus::Connected,
    {
        if !found {
            Err(TabletError::NotFound)
        } else if !opened {
            Err(TabletError::InvalidAccess)
        } else {
            self.status = TabletStatus::Connected;
            Ok(())
        }
    }

    /// Record a failed blocking read: the session enters the error state
    /// and the outer loop will retry discovery.
    pub fn on_read_error(&mut self)
        ensures
            final(self).status == TabletStatus::Error,
            final(self).running == old(self).running,
            final(self).prev == old(self).prev,
    {
        self.status = TabletStatus::Error;
    }

    /// Process one report against a configuration snapshot: decode, emit
    /// the pointer move and the button edges, and retire the report into
    /// the previous state.
    pub fn on_data(&mut self, buffer: &[u8], expected_id: u8, config: &Config) -> (r: Vec<
        InputAction,
    >)
        requires
            buffer@.len() == REPORT_LEN,
            config_ok(config@),
        ensures
            final(self).running == old(self).running,
            final(self).status == old(self).status,
            (final(self).prev, r@) == process_spec(
                old(self).prev,
                buffer@,
                expected_id,
                config@,
            ),
    {
        if buffer[0] != expected_id {
            let r: Vec<InputAction> = Vec::new();
            proof {
                assert(r@ =~= Seq::<InputAction>::empty());
            }
            return r;
        }
        let data = Data::from_bytes(buffer);
        let state = State::from_data(data);
        let mut acts: Vec<InputAction> = Vec::new();
        if (state.inited || state.hovering) && config.hover_enabled || state.buttons[0] {
            let (x, y) = map_point(state.pos, &config.mapping, &config.screen, &config.matrix);
            acts.push(InputAction::MouseMoveTo { x, y });
        }
        proof {
            assert(acts@ =~= move_actions(state, config@));
        }
        let ghost with_move: Seq<InputAction> = acts@;
        proof {
            assert(config@.buttons[0] == config.buttons@[0]@);
            assert(config@.buttons[1] == config.buttons@[1]@);
            assert(config@.buttons[2] == config.buttons@[2]@);
        }
        if state.buttons[0] != self.prev.buttons[0] && config.buttons[0].enabled {
            push_edge_actions(&mut acts, &config.buttons[0].binding, state.buttons[0]);
        }
        proof {
            assert(acts@ == with_move + button_actions(self.prev, state, config@, 0));
        }
        let ghost with_b0: Seq<InputAction> = acts@;
        if state.buttons[1] != self.prev.buttons[1] && config.buttons[1].enabled {
            push_edge_actions(&mut acts, &config.buttons[1].binding, state.buttons[1]);
        }
        proof {
            assert(acts@ == with_b0 + button_actions(self.prev, state, config@, 1));
        }
        let ghost with_b1: Seq<InputAction> = acts@;
        if state.buttons[2] != self.prev.buttons[2] && config.buttons[2].enabled {
            push_edge_actions(&mut acts, &config.buttons[2].binding, state.buttons[2]);
        }
        proof {
            assert(acts@ == with_b1 + button_actions(self.prev, state, config@, 2));
            assert(acts@ =~= report_actions(self.prev, state, config@));
        }
        self.prev = state;
        acts
    }
}
















} // verus!
