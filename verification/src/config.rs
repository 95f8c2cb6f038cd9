//! The live configuration: hover gating, per-button bindings, the mapping
//! and screen areas, and the affine matrix.
//!
//! A configuration is replaced wholesale, never mutated field by field, so
//! every reader sees one internally consistent snapshot. `config_ok` is the
//! validity policy enforced when a configuration is loaded: three buttons,
//! printable binding characters, a mapping area of nonzero extent, and
//! matrix entries within `MATRIX_LIMIT`.
use vstd::prelude::*;

use crate::area::Area;
use crate::keys::{Key, MouseButton};
use crate::mapper::{matrix_ok, Matrix, FIXED_ONE};

verus! {

/// What a pen button does when pressed or released.
#[derive(Clone, Debug)]
pub enum KeyBinding {
    /// The button is bound to nothing.
    Disabled,
    /// The button acts as a mouse button.
    Mouse { button: MouseButton },
    /// The button presses modifier keys and then a character key.
    Keyboard { modifiers: Option<Vec<Key>>, key: Option<char> },
}

/// The mathematical value of a `KeyBinding`.
#[verifier::ext_equal]
pub enum KeyBindingView {
    Disabled,
    Mouse { button: MouseButton },
    Keyboard { modifiers: Option<Seq<Key>>, key: Option<char> },
}

impl View for KeyBinding {
    type V = KeyBindingView;

    open spec fn view(&self) -> KeyBindingView {
        match self {
            KeyBinding::Disabled => KeyBindingView::Disabled,
            KeyBinding::Mouse { button } => KeyBindingView::Mouse { button: *button },
            KeyBinding::Keyboard { modifiers, key } => KeyBindingView::Keyboard {
                modifiers: match modifiers {
                    Some(m) => Some(m@),
                    None => None,
                },
                key: *key,
            },
        }
    }
}

/// One pen button: an enable flag and the binding it triggers.
#[derive(Clone, Debug)]
pub struct ButtonBinding {
    pub enabled: bool,
    pub binding: KeyBinding,
}

/// The mathematical value of a `ButtonBinding`.
#[verifier::ext_equal]
pub struct ButtonBindingView {
    pub enabled: bool,
    pub binding: KeyBindingView,
}

impl View for ButtonBinding {
    type V = ButtonBindingView;

    open spec fn view(&self) -> ButtonBindingView {
        ButtonBindingView { enabled: self.enabled, binding: self.binding@ }
    }
}

/// The driver configuration.
#[derive(Clone, Debug)]
pub struct Config {
    pub hover_enabled: bool,
    pub buttons: [ButtonBinding; 3],
    pub mapping: Area,
    pub screen: Area,
    pub matrix: Matrix,
}

/// The mathematical value of a `Config`.
#[verifier::ext_equal]
pub struct ConfigView {
    pub hover_enabled: bool,
    pub buttons: Seq<ButtonBindingView>,
    pub mapping: Area,
    pub screen: Area,
    pub matrix: Matrix,
}

impl View for Config {
    type V = ConfigView;

    open spec fn view(&self) -> ConfigView {
        ConfigView {
            hover_enabled: self.hover_enabled,
            buttons: self.buttons@.map_values(|b: ButtonBinding| b@),
            mapping: self.mapping,
            screen: self.screen,
            matrix: self.matrix,
        }
    }
}

/// Errors of loading or saving a configuration.
#[derive(PartialEq, Eq, Structural, Clone, Copy, Debug)]
pub enum ConfigError {
    /// The source is larger than the accepted bound.
    TooLarge,
    /// The source is not a configuration in the accepted form.
    JsonParse,
    /// Reading or writing the backing file failed.
    Io,
}

/// A character accepted as a binding key: any character but the control
/// characters, which no key types. The quote and the backslash are stored
/// in their escaped JSON form, everything else in its UTF-8 form.
pub open spec fn key_char_ok(c: char) -> bool {
    c as int >= 32
}

/// Validity of one binding.
pub open spec fn binding_ok(b: KeyBindingView) -> bool {
    match b {
        KeyBindingView::Keyboard { modifiers: _, key } => match key {
            Some(c) => key_char_ok(c),
            None => true,
        },
        _ => true,
    }
}

/// Validity of a configuration; established on load and preserved by the
/// store.
pub open spec fn config_ok(c: ConfigView) -> bool {
    &&& c.buttons.len() == 3
    &&& forall|i: int| 0 <= i < 3 ==> binding_ok(#[trigger] c.buttons[i].binding)
    &&& c.mapping.width >= 1
    &&& c.mapping.height >= 1
    &&& matrix_ok(c.matrix)
}

/// Element-wise equality of two key lists.
fn keys_eq(a: &Vec<Key>, b: &Vec<Key>) -> (r: bool)
    ensures
        r == (a@ == b@),
{
    if a.len() != b.len() {
        return false;
    }
    let n: usize = a.len();
    let mut i: usize = 0;
    while i < n
        invariant
            0 <= i <= n,
            n == a@.len() == b@.len(),
            forall|k: int| 0 <= k < i ==> a@[k] == b@[k],
        decreases n - i,
    {
        if a[i] != b[i] {
            return false;
        }
        i = i + 1;
    }
    proof {
        assert(a@ =~= b@);
    }
    true
}

/// Equality of two bindings, by value.
pub fn key_binding_eq(a: &KeyBinding, b: &KeyBinding) -> (r: bool)
    ensures
        r == (a@ == b@),
{
    match (a, b) {
        (KeyBinding::Disabled, KeyBinding::Disabled) => true,
        (KeyBinding::Mouse { button: ba }, KeyBinding::Mouse { button: bb }) => ba == bb,
        (
            KeyBinding::Keyboard { modifiers: ma, key: ka },
            KeyBinding::Keyboard { modifiers: mb, key: kb },
        ) => {
            let keys_same: bool = match (ka, kb) {
                (Some(ca), Some(cb)) => *ca == *cb,
                (None, None) => true,
                _ => false,
            };
            let mods_same: bool = match (ma, mb) {
                (Some(va), Some(vb)) => keys_eq(va, vb),
                (None, None) => true,
                _ => false,
            };
            proof {
                if keys_same && mods_same {
                    assert(a@ =~= b@);
                }
            }
            keys_same && mods_same
        },
        _ => false,
    }
}

/// Equality of two configurations, by value.
pub fn config_eq(a: &Config, b: &Config) -> (r: bool)
    ensures
        r == (a@ == b@),
{
    let mut same: bool = a.hover_enabled == b.hover_enabled && a.mapping == b.mapping && a.screen
        == b.screen && a.matrix == b.matrix;
    let mut i: usize = 0;
    while i < 3
        invariant
            0 <= i <= 3,
            same ==> (a.hover_enabled == b.hover_enabled && a.mapping == b.mapping && a.screen
                == b.screen && a.matrix == b.matrix),
            same ==> forall|k: int| 0 <= k < i ==> a@.buttons[k] == b@.buttons[k],
            !same ==> a@ != b@,
        decreases 3 - i,
    {
        if same {
            let ab: &ButtonBinding = &a.buttons[i];
            let bb: &ButtonBinding = &b.buttons[i];
            if ab.enabled != bb.enabled || !key_binding_eq(&ab.binding, &bb.binding) {
                proof {
                    assert(a@.buttons[i as int] == a.buttons@[i as int]@);
                    assert(b@.buttons[i as int] == b.buttons@[i as int]@);
                }
                same = false;
            } else {
                proof {
                    assert(a@.buttons[i as int] == a.buttons@[i as int]@);
                    assert(b@.buttons[i as int] == b.buttons@[i as int]@);
                    assert(a@.buttons[i as int] =~= b@.buttons[i as int]);
                }
            }
        }
        i = i + 1;
    }
    proof {
        if same {
            assert(a@.buttons =~= b@.buttons);
            assert(a@ =~~= b@);
        }
    }
    same
}

/// The built-in fallback configuration: hover movement enabled, the first
/// button a left mouse click, the others disabled, a square mapping area,
/// a 1920 by 1080 screen, and the identity matrix.
pub open spec fn spec_default_config() -> ConfigView {
    ConfigView {
        hover_enabled: true,
        buttons: seq![
            ButtonBindingView {
                enabled: true,
                binding: KeyBindingView::Mouse { button: MouseButton::Left },
            },
            ButtonBindingView { enabled: false, binding: KeyBindingView::Disabled },
            ButtonBindingView { enabled: false, binding: KeyBindingView::Disabled },
        ],
        mapping: Area { x: 0, y: 0, width: 32767, height: 32767 },
        screen: Area { x: 0, y: 0, width: 1920, height: 1080 },
        matrix: Matrix { m0: FIXED_ONE, m1: 0, m2: 0, m3: FIXED_ONE },
    }
}

impl Default for Config {
    /// The built-in fallback configuration used when no file can be loaded.
    fn default() -> (r: Config)
        ensures
            r@ == spec_default_config(),
            config_ok(r@),
    {
        let r = Config {
            hover_enabled: true,
            buttons: [
                ButtonBinding {
                    enabled: true,
                    binding: KeyBinding::Mouse { button: MouseButton::Left },
                },
                ButtonBinding { enabled: false, binding: KeyBinding::Disabled },
                ButtonBinding { enabled: false, binding: KeyBinding::Disabled },
            ],
            mapping: Area { x: 0, y: 0, width: 32767, height: 32767 },
            screen: Area { x: 0, y: 0, width: 1920, height: 1080 },
            matrix: Matrix { m0: FIXED_ONE, m1: 0, m2: 0, m3: FIXED_ONE },
        };
        proof {
            assert(r@.buttons =~= spec_default_config().buttons);
            assert(r@ =~~= spec_default_config());
        }
        r
    }
}

/// Copy a key list element by element.
fn copy_keys(v: &Vec<Key>) -> (r: Vec<Key>)
    ensures
        r@ == v@,
{
    let mut out: Vec<Key> = Vec::new();
    let n: usize = v.len();
    let mut i: usize = 0;
    while i < n
        invariant
            0 <= i <= n,
            n == v@.len(),
            out@ == v@.subrange(0, i as int),
        decreases n - i,
    {
        out.push(v[i]);
        proof {
            assert(v@.subrange(0, i as int).push(v@[i as int]) =~= v@.subrange(0, i + 1));
        }
        i = i + 1;
    }
    proof {
        assert(v@.subrange(0, n as int) =~= v@);
    }
    out
}

impl KeyBinding {
    /// A value-equal copy of this binding.
    pub fn duplicate(&self) -> (r: KeyBinding)
        ensures
            r@ == self@,
    {
        match self {
            KeyBinding::Disabled => KeyBinding::Disabled,
            KeyBinding::Mouse { button } => KeyBinding::Mouse { button: *button },
            KeyBinding::Keyboard { modifiers, key } => {
                let m: Option<Vec<Key>> = match modifiers {
                    Some(v) => Some(copy_keys(v)),
                    None => None,
                };
                let r = KeyBinding::Keyboard { modifiers: m, key: *key };
                proof {
                    assert(r@ =~~= self@);
                }
                r
            },
        }
    }
}

impl ButtonBinding {
    /// A value-equal copy of this button entry.
    pub fn duplicate(&self) -> (r: ButtonBinding)
        ensures
            r@ == self@,
    {
        ButtonBinding { enabled: self.enabled, binding: self.binding.duplicate() }
    }
}

impl Config {
    /// A value-equal copy of this configuration.
    pub fn duplicate(&self) -> (r: Config)
        ensures
            r@ == self@,
    {
        let r = Config {
            hover_enabled: self.hover_enabled,
            buttons: [
                self.buttons[0].duplicate(),
                self.buttons[1].duplicate(),
                self.buttons[2].duplicate(),
            ],
            mapping: self.mapping,
            screen: self.screen,
            matrix: self.matrix,
        };
        proof {
            assert(r@.buttons =~= self@.buttons);
            assert(r@ =~~= self@);
        }
        r
    }
}

} // verus!
