//! Input actions: what one hardware report asks the injection sink to do,
//! and how button edges resolve to them.
use vstd::prelude::*;

use crate::config::{ConfigView, KeyBindingView};
use crate::keys::{Key, MouseButton};
use crate::mapper::{map_x, map_y};
use crate::state::State;

verus! {

/// One synthetic input operation handed to the injection sink.
#[derive(PartialEq, Eq, Structural, Clone, Copy, Debug)]
pub enum InputAction {
    /// Move the pointer to a screen position.
    MouseMoveTo { x: i32, y: i32 },
    /// Press a mouse button.
    MouseDown { button: MouseButton },
    /// Release a mouse button.
    MouseUp { button: MouseButton },
    /// Press a named key.
    KeyDown { key: Key },
    /// Release a named key.
    KeyUp { key: Key },
    /// Press the key that types a character.
    CharDown { c: char },
    /// Release the key that types a character.
    CharUp { c: char },
}

/// The actions of the modifier keys of a binding, in list order.
pub open spec fn modifier_actions(m: Option<Seq<Key>>, down: bool) -> Seq<InputAction> {
    match m {
        None => Seq::empty(),
        Some(ks) => ks.map_values(
            |k: Key|
                if down {
                    InputAction::KeyDown { key: k }
                } else {
                    InputAction::KeyUp { key: k }
                },
        ),
    }
}

/// The actions of the character key of a binding.
pub open spec fn char_actions(c: Option<char>, down: bool) -> Seq<InputAction> {
    if c is Some {
        if down {
            seq![InputAction::CharDown { c: c->0 }]
        } else {
            seq![InputAction::CharUp { c: c->0 }]
        }
    } else {
        Seq::empty()
    }
}

/// How one edge of a button resolves: nothing when disabled, one mouse
/// action, or the modifier keys in order followed by the character key.
pub open spec fn edge_actions(b: KeyBindingView, down: bool) -> Seq<InputAction> {
    match b {
        KeyBindingView::Disabled => Seq::empty(),
        KeyBindingView::Mouse { button } => if down {
            seq![InputAction::MouseDown { button }]
        } else {
            seq![InputAction::MouseUp { button }]
        },
        KeyBindingView::Keyboard { modifiers, key } => modifier_actions(modifiers, down)
            + char_actions(key, down),
    }
}

/// Whether the current state asks for a pointer move: contact or hovering
/// with hover movement enabled, or the first button held.
pub open spec fn move_gate(cur: State, c: ConfigView) -> bool {
    (cur.inited || cur.hovering) && c.hover_enabled || cur.buttons[0]
}

/// The pointer-move actions of one report.
pub open spec fn move_actions(cur: State, c: ConfigView) -> Seq<InputAction> {
    if move_gate(cur, c) {
        seq![
            InputAction::MouseMoveTo {
                x: map_x(cur.pos, c.mapping, c.screen, c.matrix) as i32,
                y: map_y(cur.pos, c.mapping, c.screen, c.matrix) as i32,
            },
        ]
    } else {
        Seq::empty()
    }
}

/// The dispatch of button `i`: its edge actions when the button changed
/// and is enabled, else nothing.
pub open spec fn button_actions(prev: State, cur: State, c: ConfigView, i: int) -> Seq<InputAction>
    recommends
        0 <= i < 3,
        c.buttons.len() == 3,
{
    if cur.buttons[i] != prev.buttons[i] && c.buttons[i].enabled {
        edge_actions(c.buttons[i].binding, cur.buttons[i])
    } else {
        Seq::empty()
    }
}

/// Everything one report dispatches: the pointer move, then each button's
/// edge actions once, in button order.
pub open spec fn report_actions(prev: State, cur: State, c: ConfigView) -> Seq<InputAction>
    recommends
        c.buttons.len() == 3,
{
    move_actions(cur, c) + button_actions(prev, cur, c, 0) + button_actions(prev, cur, c, 1)
        + button_actions(prev, cur, c, 2)
}

/// A dispatch action for button `i` occurs exactly when the button changed
/// between the previous and the current state: an unchanged button
/// dispatches nothing, and a changed, enabled button dispatches its edge
/// actions exactly once, with the direction of the transition.
pub proof fn lemma_edge_dispatch(prev: State, cur: State, c: ConfigView, i: int)
    requires
        0 <= i < 3,
        c.buttons.len() == 3,
    ensures
        cur.buttons[i] == prev.buttons[i] ==> button_actions(prev, cur, c, i)
            == Seq::<InputAction>::empty(),
        button_actions(prev, cur, c, i) != Seq::<InputAction>::empty() ==> cur.buttons[i]
            != prev.buttons[i],
        cur.buttons[i] != prev.buttons[i] && c.buttons[i].enabled ==> button_actions(
            prev,
            cur,
            c,
            i,
        ) == edge_actions(c.buttons[i].binding, cur.buttons[i]),
        cur.buttons[i] != prev.buttons[i] && c.buttons[i].enabled && !prev.buttons[i]
            ==> button_actions(prev, cur, c, i) == edge_actions(c.buttons[i].binding, true),
        cur.buttons[i] != prev.buttons[i] && c.buttons[i].enabled && prev.buttons[i]
            ==> button_actions(prev, cur, c, i) == edge_actions(c.buttons[i].binding, false),
{
}

/// Pushing the character-key action extends a sequence by the binding's
/// character actions.
pub proof fn lemma_char_push(
    pre: Seq<InputAction>,
    post: Seq<InputAction>,
    k: Option<char>,
    ch: char,
    down: bool,
)
    requires
        k == Some(ch),
        down ==> post == pre.push(InputAction::CharDown { c: ch }),
        !down ==> post == pre.push(InputAction::CharUp { c: ch }),
    ensures
        post == pre + char_actions(k, down),
{
    if down {
        assert(post =~= pre + char_actions(k, down));
    } else {
        assert(post =~= pre + char_actions(k, down));
    }
}

/// Not pushing anything leaves a sequence extended by the empty character
/// actions of an absent binding character.
pub proof fn lemma_char_push_none(pre: Seq<InputAction>, down: bool)
    ensures
        pre == pre + char_actions(None, down),
{
    assert(pre =~= pre + char_actions(None, down));
}


} // verus!
