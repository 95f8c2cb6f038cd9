//! The configuration codec: the stored JSON form of a `Config` and its
//! parser.
//!
//! The serializer emits a fixed field order with no whitespace; the parser
//! accepts the same form with optional whitespace between tokens and
//! enforces the validity policy `config_ok` on load. `lemma_config_round_trip`
//! states that parsing a serialized configuration yields it back.
use vstd::prelude::*;

use crate::area::Area;
use crate::codec::{
    lemma_sp_bool_ser, lemma_sp_char_str_ser, lemma_sp_fixed_ser, lemma_sp_key_ser,
    lemma_sp_mouse_button_ser, lemma_sp_u16_ser, p_bool, p_char_str, p_fixed, p_key,
    p_mouse_button, p_tok, p_u16, ser_bool, ser_char_str, ser_key, ser_mouse_button, sp_bool,
    sp_char_str, sp_fixed, sp_key, sp_mouse_button, sp_tok, sp_u16, val_match,
};
use crate::config::{
    binding_ok, config_ok, ButtonBinding, ButtonBindingView, Config, ConfigError, ConfigView,
    KeyBinding, KeyBindingView,
};
use crate::json::{
    is_ws, lemma_concat_window, lemma_sp_ws_noop, lemma_subrange_split, lit, push_int, push_lit,
    push_nat, ser_int, ser_nat, skip_ws, sp_ws,
};
use crate::keys::Key;
use crate::mapper::Matrix;

verus! {

/// Largest accepted size of a stored configuration, in bytes.
pub const MAX_CONFIG_LEN: usize = 1048576;

/// Serialized form of an optional binding character.
pub open spec fn ser_opt_char(c: Option<char>) -> Seq<u8> {
    match c {
        Some(ch) => ser_char_str(ch),
        None => lit("null"),
    }
}

/// Serialized form of the modifier keys after the first.
pub open spec fn ser_keys_rest(ks: Seq<Key>) -> Seq<u8>
    decreases ks.len(),
{
    if ks.len() == 0 {
        Seq::empty()
    } else {
        lit(",") + ser_key(ks[0]) + ser_keys_rest(ks.drop_first())
    }
}

/// Serialized form of a modifier key list body.
pub open spec fn ser_keys(ks: Seq<Key>) -> Seq<u8> {
    if ks.len() == 0 {
        Seq::empty()
    } else {
        ser_key(ks[0]) + ser_keys_rest(ks.drop_first())
    }
}

/// Serialized form of an optional modifier key list.
pub open spec fn ser_opt_keys(m: Option<Seq<Key>>) -> Seq<u8> {
    match m {
        Some(ks) => lit("[") + ser_keys(ks) + lit("]"),
        None => lit("null"),
    }
}

/// Serialized form of a binding.
pub open spec fn ser_binding(b: KeyBindingView) -> Seq<u8> {
    match b {
        KeyBindingView::Disabled => lit("{") + lit("\"mode\":") + lit("\"Disabled\"") + lit("}"),
        KeyBindingView::Mouse { button } => lit("{") + lit("\"mode\":") + lit("\"Mouse\"") + lit(
            ",",
        ) + lit("\"button\":") + ser_mouse_button(button) + lit("}"),
        KeyBindingView::Keyboard { modifiers, key } => lit("{") + lit("\"mode\":") + lit(
            "\"Keyboard\"",
        ) + lit(",") + lit("\"modifiers\":") + ser_opt_keys(modifiers) + lit(",") + lit("\"key\":")
            + ser_opt_char(key) + lit("}"),
    }
}

/// Serialized form of one button entry.
pub open spec fn ser_button_binding(b: ButtonBindingView) -> Seq<u8> {
    lit("{") + lit("\"enabled\":") + ser_bool(b.enabled) + lit(",") + lit("\"binding\":")
        + ser_binding(b.binding) + lit("}")
}

/// Serialized form of an area.
pub open spec fn ser_area(a: Area) -> Seq<u8> {
    lit("{") + lit("\"x\":") + ser_nat(a.x as int) + lit(",") + lit("\"y\":") + ser_nat(a.y as int)
        + lit(",") + lit("\"width\":") + ser_nat(a.width as int) + lit(",") + lit("\"height\":")
        + ser_nat(a.height as int) + lit("}")
}

/// Serialized form of the matrix array.
pub open spec fn ser_matrix(m: Matrix) -> Seq<u8> {
    lit("[") + ser_int(m.m0 as int) + lit(",") + ser_int(m.m1 as int) + lit(",") + ser_int(
        m.m2 as int,
    ) + lit(",") + ser_int(m.m3 as int) + lit("]")
}

/// Serialized form of the configuration fields after the button list.
pub open spec fn ser_config_tail(c: ConfigView) -> Seq<u8> {
    lit(",") + lit("\"mapping\":") + ser_area(c.mapping) + lit(",") + lit("\"screen\":")
        + ser_area(c.screen) + lit(",") + lit("\"matrix\":") + ser_matrix(c.matrix) + lit("}")
}

/// Serialized form of the three button entries and the closing bracket.
pub open spec fn ser_buttons3(c: ConfigView) -> Seq<u8>
    recommends
        c.buttons.len() == 3,
{
    ser_button_binding(c.buttons[0]) + lit(",") + ser_button_binding(c.buttons[1]) + lit(",")
        + ser_button_binding(c.buttons[2]) + lit("]")
}

/// Serialized form of the whole configuration: the opening fields, the
/// button list, then the tail `ser_config_tail`.
pub open spec fn ser_config(c: ConfigView) -> Seq<u8>
    recommends
        c.buttons.len() == 3,
{
    lit("{") + lit("\"hover_enabled\":") + ser_bool(c.hover_enabled) + lit(",") + lit(
        "\"buttons\":",
    ) + lit("[") + ser_buttons3(c) + ser_config_tail(c)
}

/// Append the serialized form of an optional binding character.
fn push_opt_char(out: &mut Vec<u8>, c: &Option<char>)
    ensures
        final(out)@ == old(out)@ + ser_opt_char(*c),
{
    match c {
        Some(ch) => {
            out.push(34);
            crate::codec::push_char_esc(out, *ch);
            out.push(34);
            proof {
                assert(out@ =~= old(out)@ + ser_char_str(*ch));
            }
        },
        None => {
            push_lit(out, "null");
        },
    }
}

/// Append the serialized name of one key.
fn push_key(out: &mut Vec<u8>, k: Key)
    ensures
        final(out)@ == old(out)@ + ser_key(k),
{
    match k {
        Key::Alt => push_lit(out, "\"Alt\""),
        Key::Control => push_lit(out, "\"Control\""),
        Key::Shift => push_lit(out, "\"Shift\""),
        Key::Meta => push_lit(out, "\"Meta\""),
        Key::Tab => push_lit(out, "\"Tab\""),
        Key::Space => push_lit(out, "\"Space\""),
        Key::Return => push_lit(out, "\"Return\""),
        Key::Escape => push_lit(out, "\"Escape\""),
        Key::Backspace => push_lit(out, "\"Backspace\""),
        Key::Delete => push_lit(out, "\"Delete\""),
    }
}

/// Append the serialized names of the keys after the first.
fn push_keys_rest(out: &mut Vec<u8>, ks: &Vec<Key>, from: usize)
    requires
        from <= ks@.len(),
    ensures
        final(out)@ == old(out)@ + ser_keys_rest(ks@.skip(from as int)),
    decreases ks@.len() - from,
{
    if from < ks.len() {
        push_lit(out, ",");
        push_key(out, ks[from]);
        push_keys_rest(out, ks, from + 1);
        proof {
            let rem = ks@.skip(from as int);
            assert(rem[0] == ks@[from as int]);
            assert(rem.drop_first() =~= ks@.skip(from + 1));
            assert(out@ =~= old(out)@ + ser_keys_rest(rem));
        }
    } else {
        proof {
            assert(ks@.skip(from as int).len() == 0);
            assert(out@ =~= old(out)@ + ser_keys_rest(ks@.skip(from as int)));
        }
    }
}

/// Append the serialized form of an optional modifier key list.
fn push_opt_keys(out: &mut Vec<u8>, m: &Option<Vec<Key>>)
    ensures
        final(out)@ == old(out)@ + ser_opt_keys(
            match *m {
                Some(ks) => Some(ks@),
                None => None,
            },
        ),
{
    match m {
        Some(ks) => {
            push_lit(out, "[");
            if ks.len() > 0 {
                push_key(out, ks[0]);
                push_keys_rest(out, ks, 1);
                proof {
                    assert(ks@.skip(1) =~= ks@.drop_first());
                }
            }
            push_lit(out, "]");
            proof {
                assert(out@ =~= old(out)@ + ser_opt_keys(Some(ks@)));
            }
        },
        None => {
            push_lit(out, "null");
        },
    }
}

/// Append the serialized form of a binding.
#[verifier::rlimit(50)]
fn push_binding(out: &mut Vec<u8>, b: &KeyBinding)
    requires
        binding_ok(b@),
    ensures
        final(out)@ == old(out)@ + ser_binding(b@),
{
    match b {
        KeyBinding::Disabled => {
            push_lit(out, "{");
            push_lit(out, "\"mode\":");
            push_lit(out, "\"Disabled\"");
            push_lit(out, "}");
            proof {
                crate::json::lemma_add_assoc(old(out)@, lit("{"), lit("\"mode\":"));
                crate::json::lemma_add_assoc(old(out)@, (lit("{") + lit("\"mode\":")), lit("\"Disabled\""));
                crate::json::lemma_add_assoc(old(out)@, ((lit("{") + lit("\"mode\":")) + lit("\"Disabled\"")), lit("}"));
            }
        },
        KeyBinding::Mouse { button } => {
            push_lit(out, "{");
            push_lit(out, "\"mode\":");
            push_lit(out, "\"Mouse\"");
            push_lit(out, ",");
            push_lit(out, "\"button\":");
            match button {
                crate::keys::MouseButton::Left => push_lit(out, "\"Left\""),
                crate::keys::MouseButton::Middle => push_lit(out, "\"Middle\""),
                crate::keys::MouseButton::Right => push_lit(out, "\"Right\""),
                crate::keys::MouseButton::Back => push_lit(out, "\"Back\""),
                crate::keys::MouseButton::Forward => push_lit(out, "\"Forward\""),
                crate::keys::MouseButton::ScrollUp => push_lit(out, "\"ScrollUp\""),
                crate::keys::MouseButton::ScrollDown => push_lit(out, "\"ScrollDown\""),
                crate::keys::MouseButton::ScrollLeft => push_lit(out, "\"ScrollLeft\""),
                crate::keys::MouseButton::ScrollRight => push_lit(out, "\"ScrollRight\""),
            }
            push_lit(out, "}");
            proof {
                assert(out@ == old(out)@ + lit("{") + lit("\"mode\":") + lit("\"Mouse\"") + lit(
                    ",",
                ) + lit("\"button\":") + ser_mouse_button(*button) + lit("}"));
                crate::json::lemma_add_assoc(old(out)@, lit("{"), lit("\"mode\":"));
                crate::json::lemma_add_assoc(old(out)@, (lit("{") + lit("\"mode\":")), lit("\"Mouse\""));
                crate::json::lemma_add_assoc(old(out)@, ((lit("{") + lit("\"mode\":")) + lit("\"Mouse\"")), lit(","));
                crate::json::lemma_add_assoc(old(out)@, (((lit("{") + lit("\"mode\":")) + lit("\"Mouse\"")) + lit(",")), lit("\"button\":"));
                crate::json::lemma_add_assoc(old(out)@, ((((lit("{") + lit("\"mode\":")) + lit("\"Mouse\"")) + lit(",")) + lit("\"button\":")), ser_mouse_button(*button));
                crate::json::lemma_add_assoc(old(out)@, (((((lit("{") + lit("\"mode\":")) + lit("\"Mouse\"")) + lit(",")) + lit("\"button\":")) + ser_mouse_button(*button)), lit("}"));
            }
        },
        KeyBinding::Keyboard { modifiers, key } => {
            push_lit(out, "{");
            push_lit(out, "\"mode\":");
            push_lit(out, "\"Keyboard\"");
            push_lit(out, ",");
            push_lit(out, "\"modifiers\":");
            push_opt_keys(out, modifiers);
            push_lit(out, ",");
            push_lit(out, "\"key\":");
            push_opt_char(out, key);
            push_lit(out, "}");
            proof {
                let mview: Option<Seq<Key>> = match modifiers {
                    Some(ks) => Some(ks@),
                    None => None,
                };
                crate::json::lemma_add_assoc(old(out)@, lit("{"), lit("\"mode\":"));
                crate::json::lemma_add_assoc(old(out)@, (lit("{") + lit("\"mode\":")), lit("\"Keyboard\""));
                crate::json::lemma_add_assoc(old(out)@, ((lit("{") + lit("\"mode\":")) + lit("\"Keyboard\"")), lit(","));
                crate::json::lemma_add_assoc(old(out)@, (((lit("{") + lit("\"mode\":")) + lit("\"Keyboard\"")) + lit(",")), lit("\"modifiers\":"));
                crate::json::lemma_add_assoc(old(out)@, ((((lit("{") + lit("\"mode\":")) + lit("\"Keyboard\"")) + lit(",")) + lit("\"modifiers\":")), ser_opt_keys(mview));
                crate::json::lemma_add_assoc(old(out)@, (((((lit("{") + lit("\"mode\":")) + lit("\"Keyboard\"")) + lit(",")) + lit("\"modifiers\":")) + ser_opt_keys(mview)), lit(","));
                crate::json::lemma_add_assoc(old(out)@, ((((((lit("{") + lit("\"mode\":")) + lit("\"Keyboard\"")) + lit(",")) + lit("\"modifiers\":")) + ser_opt_keys(mview)) + lit(",")), lit("\"key\":"));
                crate::json::lemma_add_assoc(old(out)@, (((((((lit("{") + lit("\"mode\":")) + lit("\"Keyboard\"")) + lit(",")) + lit("\"modifiers\":")) + ser_opt_keys(mview)) + lit(",")) + lit("\"key\":")), ser_opt_char(*key));
                crate::json::lemma_add_assoc(old(out)@, ((((((((lit("{") + lit("\"mode\":")) + lit("\"Keyboard\"")) + lit(",")) + lit("\"modifiers\":")) + ser_opt_keys(mview)) + lit(",")) + lit("\"key\":")) + ser_opt_char(*key)), lit("}"));
            }
        },
    }
}

/// Append the serialized form of one button entry.
fn push_button_binding(out: &mut Vec<u8>, b: &ButtonBinding)
    requires
        binding_ok(b@.binding),
    ensures
        final(out)@ == old(out)@ + ser_button_binding(b@),
{
    push_lit(out, "{");
    push_lit(out, "\"enabled\":");
    if b.enabled {
        push_lit(out, "true");
    } else {
        push_lit(out, "false");
    }
    push_lit(out, ",");
    push_lit(out, "\"binding\":");
    push_binding(out, &b.binding);
    push_lit(out, "}");
    proof {
        assert(out@ =~= old(out)@ + ser_button_binding(b@));
    }
}

/// Append the serialized form of an area.
fn push_area(out: &mut Vec<u8>, a: &Area)
    ensures
        final(out)@ == old(out)@ + ser_area(*a),
{
    push_lit(out, "{");
    push_lit(out, "\"x\":");
    push_nat(out, a.x as u64);
    push_lit(out, ",");
    push_lit(out, "\"y\":");
    push_nat(out, a.y as u64);
    push_lit(out, ",");
    push_lit(out, "\"width\":");
    push_nat(out, a.width as u64);
    push_lit(out, ",");
    push_lit(out, "\"height\":");
    push_nat(out, a.height as u64);
    push_lit(out, "}");
    proof {
        assert(out@ =~= old(out)@ + ser_area(*a));
    }
}

/// Append the serialized button list.
#[verifier::rlimit(50)]
fn push_buttons3(out: &mut Vec<u8>, c: &Config)
    requires
        config_ok(c@),
    ensures
        final(out)@ == old(out)@ + ser_buttons3(c@),
{
    proof {
        assert(c@.buttons[0] == c.buttons@[0]@);
        assert(c@.buttons[1] == c.buttons@[1]@);
        assert(c@.buttons[2] == c.buttons@[2]@);
    }
    push_button_binding(out, &c.buttons[0]);
    push_lit(out, ",");
    push_button_binding(out, &c.buttons[1]);
    push_lit(out, ",");
    push_button_binding(out, &c.buttons[2]);
    push_lit(out, "]");
    proof {
        crate::json::lemma_add_assoc(old(out)@, ser_button_binding(c@.buttons[0]), lit(","));
        crate::json::lemma_add_assoc(old(out)@, (ser_button_binding(c@.buttons[0]) + lit(",")),
            ser_button_binding(c@.buttons[1]));
        crate::json::lemma_add_assoc(old(out)@, ((ser_button_binding(c@.buttons[0]) + lit(","))
            + ser_button_binding(c@.buttons[1])), lit(","));
        crate::json::lemma_add_assoc(old(out)@, (((ser_button_binding(c@.buttons[0]) + lit(","))
            + ser_button_binding(c@.buttons[1])) + lit(",")), ser_button_binding(c@.buttons[2]));
        crate::json::lemma_add_assoc(old(out)@, ((((ser_button_binding(c@.buttons[0]) + lit(","))
            + ser_button_binding(c@.buttons[1])) + lit(",")) + ser_button_binding(c@.buttons[2])),
            lit("]"));
    }
}

/// Append the serialized configuration fields after the button list.
#[verifier::rlimit(50)]
fn push_config_tail(out: &mut Vec<u8>, c: &Config)
    requires
        crate::mapper::matrix_ok(c@.matrix),
    ensures
        final(out)@ == old(out)@ + ser_config_tail(c@),
{
    push_lit(out, ",");
    push_lit(out, "\"mapping\":");
    push_area(out, &c.mapping);
    push_lit(out, ",");
    push_lit(out, "\"screen\":");
    push_area(out, &c.screen);
    push_lit(out, ",");
    push_lit(out, "\"matrix\":");
    push_matrix(out, &c.matrix);
    push_lit(out, "}");
    proof {
        crate::json::lemma_add_assoc(old(out)@, lit(","), lit("\"mapping\":"));
        crate::json::lemma_add_assoc(old(out)@, (lit(",") + lit("\"mapping\":")), ser_area(
            c@.mapping,
        ));
        crate::json::lemma_add_assoc(old(out)@, ((lit(",") + lit("\"mapping\":")) + ser_area(
            c@.mapping,
        )), lit(","));
        crate::json::lemma_add_assoc(old(out)@, (((lit(",") + lit("\"mapping\":")) + ser_area(
            c@.mapping,
        )) + lit(",")), lit("\"screen\":"));
        crate::json::lemma_add_assoc(old(out)@, ((((lit(",") + lit("\"mapping\":")) + ser_area(
            c@.mapping,
        )) + lit(",")) + lit("\"screen\":")), ser_area(c@.screen));
        crate::json::lemma_add_assoc(old(out)@, (((((lit(",") + lit("\"mapping\":")) + ser_area(
            c@.mapping,
        )) + lit(",")) + lit("\"screen\":")) + ser_area(c@.screen)), lit(","));
        crate::json::lemma_add_assoc(old(out)@, ((((((lit(",") + lit("\"mapping\":")) + ser_area(
            c@.mapping,
        )) + lit(",")) + lit("\"screen\":")) + ser_area(c@.screen)) + lit(",")), lit(
            "\"matrix\":",
        ));
        crate::json::lemma_add_assoc(old(out)@, (((((((lit(",") + lit("\"mapping\":")) + ser_area(
            c@.mapping,
        )) + lit(",")) + lit("\"screen\":")) + ser_area(c@.screen)) + lit(",")) + lit(
            "\"matrix\":",
        )), ser_matrix(c@.matrix));
        crate::json::lemma_add_assoc(old(out)@, ((((((((lit(",") + lit("\"mapping\":")) + ser_area(
            c@.mapping,
        )) + lit(",")) + lit("\"screen\":")) + ser_area(c@.screen)) + lit(",")) + lit(
            "\"matrix\":",
        )) + ser_matrix(c@.matrix)), lit("}"));
    }
}

/// Append the serialized matrix array.
fn push_matrix(out: &mut Vec<u8>, m: &Matrix)
    requires
        crate::mapper::matrix_ok(*m),
    ensures
        final(out)@ == old(out)@ + ser_matrix(*m),
{
    push_lit(out, "[");
    push_int(out, m.m0);
    push_lit(out, ",");
    push_int(out, m.m1);
    push_lit(out, ",");
    push_int(out, m.m2);
    push_lit(out, ",");
    push_int(out, m.m3);
    push_lit(out, "]");
    proof {
        assert(out@ =~= old(out)@ + ser_matrix(*m));
    }
}

/// Serialize a configuration into its stored byte form.
#[verifier::rlimit(50)]
pub fn serialize_config(c: &Config) -> (r: Vec<u8>)
    requires
        config_ok(c@),
    ensures
        r@ == ser_config(c@),
{
    let mut out: Vec<u8> = Vec::new();
    push_lit(&mut out, "{");
    push_lit(&mut out, "\"hover_enabled\":");
    if c.hover_enabled {
        push_lit(&mut out, "true");
    } else {
        push_lit(&mut out, "false");
    }
    push_lit(&mut out, ",");
    push_lit(&mut out, "\"buttons\":");
    push_lit(&mut out, "[");
    push_buttons3(&mut out, c);
    push_config_tail(&mut out, c);
    proof {
        let e: Seq<u8> = Seq::<u8>::empty();
        crate::json::lemma_add_assoc(e, lit("{"), lit("\"hover_enabled\":"));
        crate::json::lemma_add_assoc(e, (lit("{") + lit("\"hover_enabled\":")), ser_bool(
            c@.hover_enabled,
        ));
        crate::json::lemma_add_assoc(e, ((lit("{") + lit("\"hover_enabled\":")) + ser_bool(
            c@.hover_enabled,
        )), lit(","));
        crate::json::lemma_add_assoc(e, (((lit("{") + lit("\"hover_enabled\":")) + ser_bool(
            c@.hover_enabled,
        )) + lit(",")), lit("\"buttons\":"));
        crate::json::lemma_add_assoc(e, ((((lit("{") + lit("\"hover_enabled\":")) + ser_bool(
            c@.hover_enabled,
        )) + lit(",")) + lit("\"buttons\":")), lit("["));
        crate::json::lemma_add_assoc(e, (((((lit("{") + lit("\"hover_enabled\":")) + ser_bool(
            c@.hover_enabled,
        )) + lit(",")) + lit("\"buttons\":")) + lit("[")), ser_buttons3(c@));
        crate::json::lemma_add_assoc(e, ((((((lit("{") + lit("\"hover_enabled\":")) + ser_bool(
            c@.hover_enabled,
        )) + lit(",")) + lit("\"buttons\":")) + lit("[")) + ser_buttons3(c@)), ser_config_tail(
            c@,
        ));
        assert(e + ser_config(c@) =~= ser_config(c@));
    }
    out
}

/// Positions returned by a token parse stay inside the input.
pub proof fn lemma_sp_tok_bounds(s: Seq<u8>, i: int, l: Seq<u8>)
    requires
        0 <= i <= s.len(),
    ensures
        match sp_tok(s, i, l) {
            Some(j) => i <= j <= s.len(),
            None => true,
        },
{
    crate::json::lemma_sp_ws_bounds(s, i);
}

/// Positions returned by a key-name parse stay inside the input.
pub proof fn lemma_sp_key_bounds(s: Seq<u8>, i: int)
    requires
        0 <= i <= s.len(),
    ensures
        match sp_key(s, i) {
            Some((k, j)) => i <= j <= s.len(),
            None => true,
        },
{
    lemma_sp_tok_bounds(s, i, lit("\"Alt\""));
    lemma_sp_tok_bounds(s, i, lit("\"Control\""));
    lemma_sp_tok_bounds(s, i, lit("\"Shift\""));
    lemma_sp_tok_bounds(s, i, lit("\"Meta\""));
    lemma_sp_tok_bounds(s, i, lit("\"Tab\""));
    lemma_sp_tok_bounds(s, i, lit("\"Space\""));
    lemma_sp_tok_bounds(s, i, lit("\"Return\""));
    lemma_sp_tok_bounds(s, i, lit("\"Escape\""));
    lemma_sp_tok_bounds(s, i, lit("\"Backspace\""));
    lemma_sp_tok_bounds(s, i, lit("\"Delete\""));
}

/// Parse of the modifier keys after the first, with the distance to the
/// end of the input as termination fuel.
pub open spec fn sp_keys_more(s: Seq<u8>, i: int, acc: Seq<Key>, fuel: nat) -> Option<
    (Seq<Key>, int),
>
    decreases fuel,
{
    match sp_tok(s, i, lit("]")) {
        Some(j) => Some((acc, j)),
        None => if fuel == 0 {
            None
        } else {
            match sp_tok(s, i, lit(",")) {
                Some(j) => match sp_key(s, j) {
                    Some((k, j2)) => sp_keys_more(s, j2, acc.push(k), (fuel - 1) as nat),
                    None => None,
                },
                None => None,
            }
        },
    }
}

/// Parse of a modifier key list body, after its opening bracket.
pub open spec fn sp_keys(s: Seq<u8>, i: int) -> Option<(Seq<Key>, int)> {
    match sp_tok(s, i, lit("]")) {
        Some(j) => Some((Seq::empty(), j)),
        None => match sp_key(s, i) {
            Some((k, j)) => sp_keys_more(s, j, seq![k], s.len()),
            None => None,
        },
    }
}

/// The list parse does not depend on the fuel, once the fuel covers the
/// remaining input.
pub proof fn lemma_sp_keys_more_fuel(s: Seq<u8>, i: int, acc: Seq<Key>, f1: nat, f2: nat)
    requires
        0 <= i <= s.len(),
        f1 >= s.len() - i,
        f2 >= s.len() - i,
    ensures
        sp_keys_more(s, i, acc, f1) == sp_keys_more(s, i, acc, f2),
    decreases f1 + f2,
{
    crate::lits::lits_punct();
    crate::json::lemma_sp_ws_bounds(s, i);
    match sp_tok(s, i, lit("]")) {
        Some(_j) => {},
        None => {
            if f1 == 0 || f2 == 0 {
                assert(i == s.len());
            } else {
                match sp_tok(s, i, lit(",")) {
                    Some(j) => {
                        match sp_key(s, j) {
                            Some((k, j2)) => {
                                lemma_sp_key_bounds(s, j);
                                lemma_sp_keys_more_fuel(
                                    s,
                                    j2,
                                    acc.push(k),
                                    (f1 - 1) as nat,
                                    (f2 - 1) as nat,
                                );
                            },
                            None => {},
                        }
                    },
                    None => {},
                }
            }
        },
    }
}

/// Agreement between an executable key-list result and its mirror.
pub open spec fn keys_match(
    r: Option<(Vec<Key>, usize)>,
    sp: Option<(Seq<Key>, int)>,
    n: int,
) -> bool {
    match (r, sp) {
        (Some((v, j)), Some((sv, sj))) => v@ == sv && j as int == sj && j as int <= n,
        (None, None) => true,
        _ => false,
    }
}

/// Parse a modifier key list body, after its opening bracket.
pub fn p_keys(s: &[u8], i: usize) -> (r: Option<(Vec<Key>, usize)>)
    requires
        i <= s@.len(),
    ensures
        keys_match(r, sp_keys(s@, i as int), s@.len() as int),
{
    match p_tok(s, i, "]") {
        Some(e) => {
            let empty: Vec<Key> = Vec::new();
            proof {
                assert(empty@ =~= Seq::<Key>::empty());
            }
            return Some((empty, e));
        },
        None => {},
    }
    let (first, start) = match p_key(s, i) {
        None => {
            return None;
        },
        Some((k, j)) => (k, j),
    };
    let mut acc: Vec<Key> = Vec::new();
    acc.push(first);
    let mut pos: usize = start;
    proof {
        assert(acc@ =~= seq![first]);
        lemma_sp_keys_more_fuel(
            s@,
            pos as int,
            acc@,
            s@.len(),
            (s@.len() - pos as int) as nat,
        );
    }
    loop
        invariant
            pos <= s@.len(),
            sp_keys(s@, i as int) == sp_keys_more(
                s@,
                pos as int,
                acc@,
                (s@.len() - pos as int) as nat,
            ),
        decreases s@.len() - pos,
    {
        match p_tok(s, pos, "]") {
            Some(e) => {
                return Some((acc, e));
            },
            None => {},
        }
        let j2: usize = match p_tok(s, pos, ",") {
            None => {
                return None;
            },
            Some(j) => j,
        };
        proof {
            crate::lits::lits_punct();
            crate::json::lemma_sp_ws_bounds(s@, pos as int);
            assert(j2 >= pos + 1);
        }
        match p_key(s, j2) {
            None => {
                return None;
            },
            Some((k, j3)) => {
                proof {
                    lemma_sp_key_bounds(s@, j2 as int);
                    let f: nat = (s@.len() - pos as int) as nat;
                    assert(sp_keys_more(s@, pos as int, acc@, f) == sp_keys_more(
                        s@,
                        j3 as int,
                        acc@.push(k),
                        (f - 1) as nat,
                    ));
                    lemma_sp_keys_more_fuel(
                        s@,
                        j3 as int,
                        acc@.push(k),
                        (f - 1) as nat,
                        (s@.len() - j3 as int) as nat,
                    );
                }
                acc.push(k);
                pos = j3;
            },
        }
    }
}

/// Parse of an optional binding character.
pub open spec fn sp_opt_char(s: Seq<u8>, i: int) -> Option<(Option<char>, int)> {
    match sp_tok(s, i, lit("null")) {
        Some(j) => Some((None, j)),
        None => match sp_char_str(s, i) {
            Some((c, j)) => Some((Some(c), j)),
            None => None,
        },
    }
}

/// Parse an optional binding character.
pub fn p_opt_char(s: &[u8], i: usize) -> (r: Option<(Option<char>, usize)>)
    requires
        i <= s@.len(),
    ensures
        val_match(r, sp_opt_char(s@, i as int), s@.len() as int),
{
    match p_tok(s, i, "null") {
        Some(j) => Some((None, j)),
        None => match p_char_str(s, i) {
            Some((c, j)) => Some((Some(c), j)),
            None => None,
        },
    }
}

/// The value of an optional key vector.
pub open spec fn view_opt_keys(m: Option<Vec<Key>>) -> Option<Seq<Key>> {
    match m {
        Some(v) => Some(v@),
        None => None,
    }
}

/// Parse of an optional modifier key list.
pub open spec fn sp_opt_keys(s: Seq<u8>, i: int) -> Option<(Option<Seq<Key>>, int)> {
    match sp_tok(s, i, lit("null")) {
        Some(j) => Some((None, j)),
        None => match sp_tok(s, i, lit("[")) {
            Some(j) => match sp_keys(s, j) {
                Some((ks, j2)) => Some((Some(ks), j2)),
                None => None,
            },
            None => None,
        },
    }
}

/// Parse an optional modifier key list.
pub fn p_opt_keys(s: &[u8], i: usize) -> (r: Option<(Option<Vec<Key>>, usize)>)
    requires
        i <= s@.len(),
    ensures
        match (r, sp_opt_keys(s@, i as int)) {
            (Some((v, j)), Some((sv, sj))) => view_opt_keys(v) == sv && j as int == sj && j
                <= s@.len(),
            (None, None) => true,
            _ => false,
        },
{
    match p_tok(s, i, "null") {
        Some(j) => Some((None, j)),
        None => match p_tok(s, i, "[") {
            Some(j) => match p_keys(s, j) {
                Some((ks, j2)) => Some((Some(ks), j2)),
                None => None,
            },
            None => None,
        },
    }
}

/// Parse of a binding object.
pub open spec fn sp_binding(s: Seq<u8>, i: int) -> Option<(KeyBindingView, int)> {
    match sp_tok(s, i, lit("{")) {
        None => None,
        Some(i1) => match sp_tok(s, i1, lit("\"mode\":")) {
            None => None,
            Some(i2) => match sp_tok(s, i2, lit("\"Disabled\"")) {
                Some(i3) => match sp_tok(s, i3, lit("}")) {
                    Some(i4) => Some((KeyBindingView::Disabled, i4)),
                    None => None,
                },
                None => match sp_tok(s, i2, lit("\"Mouse\"")) {
                    Some(i3) => match sp_tok(s, i3, lit(",")) {
                        None => None,
                        Some(i4) => match sp_tok(s, i4, lit("\"button\":")) {
                            None => None,
                            Some(i5) => match sp_mouse_button(s, i5) {
                                None => None,
                                Some((b, i6)) => match sp_tok(s, i6, lit("}")) {
                                    None => None,
                                    Some(i7) => Some((KeyBindingView::Mouse { button: b }, i7)),
                                },
                            },
                        },
                    },
                    None => match sp_tok(s, i2, lit("\"Keyboard\"")) {
                        None => None,
                        Some(i3) => match sp_tok(s, i3, lit(",")) {
                            None => None,
                            Some(i4) => match sp_tok(s, i4, lit("\"modifiers\":")) {
                                None => None,
                                Some(i5) => match sp_opt_keys(s, i5) {
                                    None => None,
                                    Some((m, i6)) => match sp_tok(s, i6, lit(",")) {
                                        None => None,
                                        Some(i7) => match sp_tok(s, i7, lit("\"key\":")) {
                                            None => None,
                                            Some(i8) => match sp_opt_char(s, i8) {
                                                None => None,
                                                Some((c, i9)) => match sp_tok(s, i9, lit("}")) {
                                                    None => None,
                                                    Some(i10) => Some(
                                                        (
                                                            KeyBindingView::Keyboard {
                                                                modifiers: m,
                                                                key: c,
                                                            },
                                                            i10,
                                                        ),
                                                    ),
                                                },
                                            },
                                        },
                                    },
                                },
                            },
                        },
                    },
                },
            },
        },
    }
}

/// Parse a binding object.
pub fn p_binding(s: &[u8], i: usize) -> (r: Option<(KeyBinding, usize)>)
    requires
        i <= s@.len(),
    ensures
        match (r, sp_binding(s@, i as int)) {
            (Some((v, j)), Some((sv, sj))) => v@ == sv && j as int == sj && j <= s@.len(),
            (None, None) => true,
            _ => false,
        },
{
    let i1: usize = match p_tok(s, i, "{") {
        None => {
            return None;
        },
        Some(j) => j,
    };
    let i2: usize = match p_tok(s, i1, "\"mode\":") {
        None => {
            return None;
        },
        Some(j) => j,
    };
    match p_tok(s, i2, "\"Disabled\"") {
        Some(i3) => {
            return match p_tok(s, i3, "}") {
                Some(i4) => Some((KeyBinding::Disabled, i4)),
                None => None,
            };
        },
        None => {},
    }
    match p_tok(s, i2, "\"Mouse\"") {
        Some(i3) => {
            let i4: usize = match p_tok(s, i3, ",") {
                None => {
                    return None;
                },
                Some(j) => j,
            };
            let i5: usize = match p_tok(s, i4, "\"button\":") {
                None => {
                    return None;
                },
                Some(j) => j,
            };
            let (b, i6) = match p_mouse_button(s, i5) {
                None => {
                    return None;
                },
                Some(x) => x,
            };
            return match p_tok(s, i6, "}") {
                Some(i7) => Some((KeyBinding::Mouse { button: b }, i7)),
                None => None,
            };
        },
        None => {},
    }
    let i3: usize = match p_tok(s, i2, "\"Keyboard\"") {
        None => {
            return None;
        },
        Some(j) => j,
    };
    let i4: usize = match p_tok(s, i3, ",") {
        None => {
            return None;
        },
        Some(j) => j,
    };
    let i5: usize = match p_tok(s, i4, "\"modifiers\":") {
        None => {
            return None;
        },
        Some(j) => j,
    };
    let (m, i6) = match p_opt_keys(s, i5) {
        None => {
            return None;
        },
        Some(x) => x,
    };
    let i7: usize = match p_tok(s, i6, ",") {
        None => {
            return None;
        },
        Some(j) => j,
    };
    let i8: usize = match p_tok(s, i7, "\"key\":") {
        None => {
            return None;
        },
        Some(j) => j,
    };
    let (c, i9) = match p_opt_char(s, i8) {
        None => {
            return None;
        },
        Some(x) => x,
    };
    match p_tok(s, i9, "}") {
        Some(i10) => Some((KeyBinding::Keyboard { modifiers: m, key: c }, i10)),
        None => None,
    }
}

/// Parse of one button entry.
pub open spec fn sp_button_binding(s: Seq<u8>, i: int) -> Option<(ButtonBindingView, int)> {
    match sp_tok(s, i, lit("{")) {
        None => None,
        Some(i1) => match sp_tok(s, i1, lit("\"enabled\":")) {
            None => None,
            Some(i2) => match sp_bool(s, i2) {
                None => None,
                Some((e, i3)) => match sp_tok(s, i3, lit(",")) {
                    None => None,
                    Some(i4) => match sp_tok(s, i4, lit("\"binding\":")) {
                        None => None,
                        Some(i5) => match sp_binding(s, i5) {
                            None => None,
                            Some((b, i6)) => match sp_tok(s, i6, lit("}")) {
                                None => None,
                                Some(i7) => Some(
                                    (ButtonBindingView { enabled: e, binding: b }, i7),
                                ),
                            },
                        },
                    },
                },
            },
        },
    }
}

/// Parse one button entry.
pub fn p_button_binding(s: &[u8], i: usize) -> (r: Option<(ButtonBinding, usize)>)
    requires
        i <= s@.len(),
    ensures
        match (r, sp_button_binding(s@, i as int)) {
            (Some((v, j)), Some((sv, sj))) => v@ == sv && j as int == sj && j <= s@.len(),
            (None, None) => true,
            _ => false,
        },
{
    let i1: usize = match p_tok(s, i, "{") {
        None => {
            return None;
        },
        Some(j) => j,
    };
    let i2: usize = match p_tok(s, i1, "\"enabled\":") {
        None => {
            return None;
        },
        Some(j) => j,
    };
    let (e, i3) = match p_bool(s, i2) {
        None => {
            return None;
        },
        Some(x) => x,
    };
    let i4: usize = match p_tok(s, i3, ",") {
        None => {
            return None;
        },
        Some(j) => j,
    };
    let i5: usize = match p_tok(s, i4, "\"binding\":") {
        None => {
            return None;
        },
        Some(j) => j,
    };
    let (b, i6) = match p_binding(s, i5) {
        None => {
            return None;
        },
        Some(x) => x,
    };
    match p_tok(s, i6, "}") {
        Some(i7) => Some((ButtonBinding { enabled: e, binding: b }, i7)),
        None => None,
    }
}

/// Parse of an area object.
pub open spec fn sp_area(s: Seq<u8>, i: int) -> Option<(Area, int)> {
    match sp_tok(s, i, lit("{")) {
        None => None,
        Some(i1) => match sp_tok(s, i1, lit("\"x\":")) {
            None => None,
            Some(i2) => match sp_u16(s, i2) {
                None => None,
                Some((x, i3)) => match sp_tok(s, i3, lit(",")) {
                    None => None,
                    Some(i4) => match sp_tok(s, i4, lit("\"y\":")) {
                        None => None,
                        Some(i5) => match sp_u16(s, i5) {
                            None => None,
                            Some((y, i6)) => match sp_tok(s, i6, lit(",")) {
                                None => None,
                                Some(i7) => match sp_tok(s, i7, lit("\"width\":")) {
                                    None => None,
                                    Some(i8) => match sp_u16(s, i8) {
                                        None => None,
                                        Some((w, i9)) => match sp_tok(s, i9, lit(",")) {
                                            None => None,
                                            Some(i10) => match sp_tok(s, i10, lit("\"height\":")) {
                                                None => None,
                                                Some(i11) => match sp_u16(s, i11) {
                                                    None => None,
                                                    Some((h, i12)) => match sp_tok(
                                                        s,
                                                        i12,
                                                        lit("}"),
                                                    ) {
                                                        None => None,
                                                        Some(i13) => Some(
                                                            (
                                                                Area {
                                                                    x: x,
                                                                    y: y,
                                                                    width: w,
                                                                    height: h,
                                                                },
                                                                i13,
                                                            ),
                                                        ),
                                                    },
                                                },
                                            },
                                        },
                                    },
                                },
                            },
                        },
                    },
                },
            },
        },
    }
}

/// Parse an area object.
pub fn p_area(s: &[u8], i: usize) -> (r: Option<(Area, usize)>)
    requires
        i <= s@.len(),
    ensures
        val_match(r, sp_area(s@, i as int), s@.len() as int),
{
    let i1: usize = match p_tok(s, i, "{") {
        None => {
            return None;
        },
        Some(j) => j,
    };
    let i2: usize = match p_tok(s, i1, "\"x\":") {
        None => {
            return None;
        },
        Some(j) => j,
    };
    let (x, i3) = match p_u16(s, i2) {
        None => {
            return None;
        },
        Some(v) => v,
    };
    let i4: usize = match p_tok(s, i3, ",") {
        None => {
            return None;
        },
        Some(j) => j,
    };
    let i5: usize = match p_tok(s, i4, "\"y\":") {
        None => {
            return None;
        },
        Some(j) => j,
    };
    let (y, i6) = match p_u16(s, i5) {
        None => {
            return None;
        },
        Some(v) => v,
    };
    let i7: usize = match p_tok(s, i6, ",") {
        None => {
            return None;
        },
        Some(j) => j,
    };
    let i8: usize = match p_tok(s, i7, "\"width\":") {
        None => {
            return None;
        },
        Some(j) => j,
    };
    let (w, i9) = match p_u16(s, i8) {
        None => {
            return None;
        },
        Some(v) => v,
    };
    let i10: usize = match p_tok(s, i9, ",") {
        None => {
            return None;
        },
        Some(j) => j,
    };
    let i11: usize = match p_tok(s, i10, "\"height\":") {
        None => {
            return None;
        },
        Some(j) => j,
    };
    let (h, i12) = match p_u16(s, i11) {
        None => {
            return None;
        },
        Some(v) => v,
    };
    match p_tok(s, i12, "}") {
        Some(i13) => Some((Area { x: x, y: y, width: w, height: h }, i13)),
        None => None,
    }
}

/// Parse of the matrix array.
pub open spec fn sp_matrix(s: Seq<u8>, i: int) -> Option<(Matrix, int)> {
    match sp_tok(s, i, lit("[")) {
        None => None,
        Some(i1) => match sp_fixed(s, i1) {
            None => None,
            Some((m0, i2)) => match sp_tok(s, i2, lit(",")) {
                None => None,
                Some(i3) => match sp_fixed(s, i3) {
                    None => None,
                    Some((m1, i4)) => match sp_tok(s, i4, lit(",")) {
                        None => None,
                        Some(i5) => match sp_fixed(s, i5) {
                            None => None,
                            Some((m2, i6)) => match sp_tok(s, i6, lit(",")) {
                                None => None,
                                Some(i7) => match sp_fixed(s, i7) {
                                    None => None,
                                    Some((m3, i8)) => match sp_tok(s, i8, lit("]")) {
                                        None => None,
                                        Some(i9) => Some(
                                            (Matrix { m0: m0, m1: m1, m2: m2, m3: m3 }, i9),
                                        ),
                                    },
                                },
                            },
                        },
                    },
                },
            },
        },
    }
}

/// Parse the matrix array.
pub fn p_matrix(s: &[u8], i: usize) -> (r: Option<(Matrix, usize)>)
    requires
        i <= s@.len(),
    ensures
        val_match(r, sp_matrix(s@, i as int), s@.len() as int),
{
    let i1: usize = match p_tok(s, i, "[") {
        None => {
            return None;
        },
        Some(j) => j,
    };
    let (m0, i2) = match p_fixed(s, i1) {
        None => {
            return None;
        },
        Some(v) => v,
    };
    let i3: usize = match p_tok(s, i2, ",") {
        None => {
            return None;
        },
        Some(j) => j,
    };
    let (m1, i4) = match p_fixed(s, i3) {
        None => {
            return None;
        },
        Some(v) => v,
    };
    let i5: usize = match p_tok(s, i4, ",") {
        None => {
            return None;
        },
        Some(j) => j,
    };
    let (m2, i6) = match p_fixed(s, i5) {
        None => {
            return None;
        },
        Some(v) => v,
    };
    let i7: usize = match p_tok(s, i6, ",") {
        None => {
            return None;
        },
        Some(j) => j,
    };
    let (m3, i8) = match p_fixed(s, i7) {
        None => {
            return None;
        },
        Some(v) => v,
    };
    match p_tok(s, i8, "]") {
        Some(i9) => Some((Matrix { m0: m0, m1: m1, m2: m2, m3: m3 }, i9)),
        None => None,
    }
}

/// Parse of the three button entries and the closing bracket of the
/// button list.
pub open spec fn sp_buttons3(s: Seq<u8>, i: int) -> Option<
    ((ButtonBindingView, ButtonBindingView, ButtonBindingView), int),
> {
    match sp_button_binding(s, i) {
        None => None,
        Some((b0, i1)) => match sp_tok(s, i1, lit(",")) {
            None => None,
            Some(i2) => match sp_button_binding(s, i2) {
                None => None,
                Some((b1, i3)) => match sp_tok(s, i3, lit(",")) {
                    None => None,
                    Some(i4) => match sp_button_binding(s, i4) {
                        None => None,
                        Some((b2, i5)) => match sp_tok(s, i5, lit("]")) {
                            None => None,
                            Some(i6) => Some(((b0, b1, b2), i6)),
                        },
                    },
                },
            },
        },
    }
}

/// Parse of the whole configuration object.
pub open spec fn sp_config(s: Seq<u8>, i: int) -> Option<(ConfigView, int)> {
    match sp_tok(s, i, lit("{")) {
        None => None,
        Some(i1) => match sp_tok(s, i1, lit("\"hover_enabled\":")) {
            None => None,
            Some(i2) => match sp_bool(s, i2) {
                None => None,
                Some((hv, i3)) => match sp_tok(s, i3, lit(",")) {
                    None => None,
                    Some(i4) => match sp_tok(s, i4, lit("\"buttons\":")) {
                        None => None,
                        Some(i5) => match sp_tok(s, i5, lit("[")) {
                            None => None,
                            Some(i6) => match sp_buttons3(s, i6) {
                                None => None,
                                Some(((b0, b1, b2), i12)) => sp_config_tail(
                                    s,
                                    i12,
                                    hv,
                                    b0,
                                    b1,
                                    b2,
                                ),
                            },
                        },
                    },
                },
            },
        },
    }
}

/// Parse of the configuration fields after the button list.
pub open spec fn sp_config_tail(
    s: Seq<u8>,
    i: int,
    hv: bool,
    b0: ButtonBindingView,
    b1: ButtonBindingView,
    b2: ButtonBindingView,
) -> Option<(ConfigView, int)> {
    match sp_tok(s, i, lit(",")) {
        None => None,
        Some(i1) => match sp_tok(s, i1, lit("\"mapping\":")) {
            None => None,
            Some(i2) => match sp_area(s, i2) {
                None => None,
                Some((mp, i3)) => match sp_tok(s, i3, lit(",")) {
                    None => None,
                    Some(i4) => match sp_tok(s, i4, lit("\"screen\":")) {
                        None => None,
                        Some(i5) => match sp_area(s, i5) {
                            None => None,
                            Some((sc, i6)) => match sp_tok(s, i6, lit(",")) {
                                None => None,
                                Some(i7) => match sp_tok(s, i7, lit("\"matrix\":")) {
                                    None => None,
                                    Some(i8) => match sp_matrix(s, i8) {
                                        None => None,
                                        Some((mx, i9)) => match sp_tok(s, i9, lit("}")) {
                                            None => None,
                                            Some(i10) => Some(
                                                (
                                                    ConfigView {
                                                        hover_enabled: hv,
                                                        buttons: seq![b0, b1, b2],
                                                        mapping: mp,
                                                        screen: sc,
                                                        matrix: mx,
                                                    },
                                                    i10,
                                                ),
                                            ),
                                        },
                                    },
                                },
                            },
                        },
                    },
                },
            },
        },
    }
}

/// Parse the whole configuration object.
#[verifier::rlimit(60)]
pub fn p_config(s: &[u8], i: usize) -> (r: Option<(Config, usize)>)
    requires
        i <= s@.len(),
    ensures
        match (r, sp_config(s@, i as int)) {
            (Some((v, j)), Some((sv, sj))) => v@ == sv && j as int == sj && j <= s@.len(),
            (None, None) => true,
            _ => false,
        },
{
    let i1: usize = match p_tok(s, i, "{") {
        None => {
            return None;
        },
        Some(j) => j,
    };
    let i2: usize = match p_tok(s, i1, "\"hover_enabled\":") {
        None => {
            return None;
        },
        Some(j) => j,
    };
    let (hv, i3) = match p_bool(s, i2) {
        None => {
            return None;
        },
        Some(v) => v,
    };
    let i4: usize = match p_tok(s, i3, ",") {
        None => {
            return None;
        },
        Some(j) => j,
    };
    let i5: usize = match p_tok(s, i4, "\"buttons\":") {
        None => {
            return None;
        },
        Some(j) => j,
    };
    let i6: usize = match p_tok(s, i5, "[") {
        None => {
            return None;
        },
        Some(j) => j,
    };
    let ((b0, b1, b2), i12) = match p_buttons3(s, i6) {
        None => {
            return None;
        },
        Some(v) => v,
    };
    p_config_tail(s, i12, hv, b0, b1, b2)
}

/// Parse the three button entries and the closing bracket.
fn p_buttons3(s: &[u8], i: usize) -> (r: Option<
    ((ButtonBinding, ButtonBinding, ButtonBinding), usize),
>)
    requires
        i <= s@.len(),
    ensures
        match (r, sp_buttons3(s@, i as int)) {
            (Some(((v0, v1, v2), j)), Some(((s0, s1, s2), sj))) => v0@ == s0 && v1@ == s1 && v2@
                == s2 && j as int == sj && j <= s@.len(),
            (None, None) => true,
            _ => false,
        },
{
    let (b0, i7) = match p_button_binding(s, i) {
        None => {
            return None;
        },
        Some(v) => v,
    };
    let i8: usize = match p_tok(s, i7, ",") {
        None => {
            return None;
        },
        Some(j) => j,
    };
    let (b1, i9) = match p_button_binding(s, i8) {
        None => {
            return None;
        },
        Some(v) => v,
    };
    let i10: usize = match p_tok(s, i9, ",") {
        None => {
            return None;
        },
        Some(j) => j,
    };
    let (b2, i11) = match p_button_binding(s, i10) {
        None => {
            return None;
        },
        Some(v) => v,
    };
    match p_tok(s, i11, "]") {
        None => None,
        Some(i12) => Some(((b0, b1, b2), i12)),
    }
}

/// Parse the configuration fields after the button list.
#[verifier::rlimit(100)]
fn p_config_tail(s: &[u8], i12: usize, hv: bool, b0: ButtonBinding, b1: ButtonBinding, b2: ButtonBinding) -> (r: Option<
    (Config, usize),
>)
    requires
        i12 <= s@.len(),
    ensures
        match (r, sp_config_tail(s@, i12 as int, hv, b0@, b1@, b2@)) {
            (Some((v, j)), Some((sv, sj))) => v@ == sv && j as int == sj && j <= s@.len(),
            (None, None) => true,
            _ => false,
        },
{
    let i13: usize = match p_tok(s, i12, ",") {
        None => {
            return None;
        },
        Some(j) => j,
    };
    let i14: usize = match p_tok(s, i13, "\"mapping\":") {
        None => {
            return None;
        },
        Some(j) => j,
    };
    let (mp, i15) = match p_area(s, i14) {
        None => {
            return None;
        },
        Some(v) => v,
    };
    let i16: usize = match p_tok(s, i15, ",") {
        None => {
            return None;
        },
        Some(j) => j,
    };
    let i17: usize = match p_tok(s, i16, "\"screen\":") {
        None => {
            return None;
        },
        Some(j) => j,
    };
    let (sc, i18) = match p_area(s, i17) {
        None => {
            return None;
        },
        Some(v) => v,
    };
    let i19: usize = match p_tok(s, i18, ",") {
        None => {
            return None;
        },
        Some(j) => j,
    };
    let i20: usize = match p_tok(s, i19, "\"matrix\":") {
        None => {
            return None;
        },
        Some(j) => j,
    };
    let (mx, i21) = match p_matrix(s, i20) {
        None => {
            return None;
        },
        Some(v) => v,
    };
    match p_tok(s, i21, "}") {
        Some(i22) => {
            let cfg = Config {
                hover_enabled: hv,
                buttons: [b0, b1, b2],
                mapping: mp,
                screen: sc,
                matrix: mx,
            };
            proof {
                match sp_config_tail(s@, i12 as int, hv, b0@, b1@, b2@) {
                    Some((sv, _sj)) => {
                        assert(cfg@.buttons =~= sv.buttons);
                        assert(cfg@ =~~= sv);
                    },
                    None => {},
                }
            }
            Some((cfg, i22))
        },
        None => None,
    }
}

/// A token whose window is matched at `j` parses to the position after it.
pub proof fn lemma_tok_win(s: Seq<u8>, j: int, l: Seq<u8>)
    requires
        0 <= j,
        j + l.len() <= s.len(),
        s.subrange(j, j + l.len() as int) == l,
        l.len() >= 1,
        !is_ws(l[0]),
    ensures
        sp_tok(s, j, l) == Some(j + l.len() as int),
{
    assert(s.subrange(j, j + l.len() as int)[0] == s[j]);
    lemma_sp_ws_noop(s, j);
    crate::json::lemma_sp_lit_ser(s, j, l);
}

/// Parsing a serialized optional binding character yields it back.
pub proof fn lemma_sp_opt_char_ser(s: Seq<u8>, i: int, c: Option<char>)
    requires
        match c {
            Some(ch) => crate::config::key_char_ok(ch),
            None => true,
        },
        0 <= i,
        i + ser_opt_char(c).len() <= s.len(),
        s.subrange(i, i + ser_opt_char(c).len() as int) == ser_opt_char(c),
    ensures
        sp_opt_char(s, i) == Some((c, i + ser_opt_char(c).len() as int)),
{
    crate::lits::lits_words();
    let w: Seq<u8> = ser_opt_char(c);
    assert(s.subrange(i, i + w.len() as int)[0] == s[i]);
    match c {
        None => {
            assert(!is_ws(s[i]));
            lemma_sp_ws_noop(s, i);
            crate::json::lemma_sp_lit_ser(s, i, lit("null"));
        },
        Some(ch) => {
            assert(w[0] == 34u8);
            assert(!is_ws(s[i]));
            lemma_sp_ws_noop(s, i);
            crate::json::lemma_lit_mismatch(s, i, lit("null"), w, 0);
            lemma_sp_char_str_ser(s, i, ch);
        },
    }
}

/// Parsing the serialized keys after the first, closed by a bracket,
/// appends them to the accumulator.
#[verifier::rlimit(60)]
pub proof fn lemma_sp_keys_more_ser(s: Seq<u8>, i: int, acc: Seq<Key>, rem: Seq<Key>, fuel: nat)
    requires
        0 <= i,
        i + ser_keys_rest(rem).len() + 1 <= s.len(),
        s.subrange(i, i + ser_keys_rest(rem).len() + 1) == ser_keys_rest(rem) + lit("]"),
        fuel >= s.len() - i,
    ensures
        sp_keys_more(s, i, acc, fuel) == Some(
            (acc + rem, i + ser_keys_rest(rem).len() + 1),
        ),
    decreases rem.len(),
{
    crate::lits::lits_punct();
    let w: Seq<u8> = ser_keys_rest(rem) + lit("]");
    assert(s.subrange(i, i + w.len() as int)[0] == s[i]);
    if rem.len() == 0 {
        assert(w =~= lit("]"));
        assert(!is_ws(s[i]));
        lemma_sp_ws_noop(s, i);
        crate::json::lemma_sp_lit_ser(s, i, lit("]"));
        assert(acc + rem =~= acc);
    } else {
        let kw: Seq<u8> = ser_key(rem[0]);
        let rest: Seq<u8> = ser_keys_rest(rem.drop_first());
        assert(ser_keys_rest(rem) == lit(",") + kw + rest);
        assert(w =~= lit(",") + (kw + (rest + lit("]"))));
        assert(!is_ws(s[i]));
        lemma_sp_ws_noop(s, i);
        assert(w.subrange(0, 1) =~= lit(","));
        lemma_subrange_split(s, i, w, 0, lit(","));
        crate::json::lemma_lit_mismatch(s, i, lit("]"), lit(","), 0);
        crate::json::lemma_sp_lit_ser(s, i, lit(","));
        assert(w.subrange(1, 1 + kw.len() as int) =~= kw);
        lemma_subrange_split(s, i, w, 1, kw);
        lemma_sp_key_ser(s, i + 1, rem[0]);
        let j2: int = i + 1 + kw.len();
        assert(w.subrange(1 + kw.len() as int, w.len() as int) =~= rest + lit("]"));
        lemma_subrange_split(s, i, w, 1 + kw.len() as int, rest + lit("]"));
        assert(fuel > 0);
        lemma_sp_keys_more_ser(s, j2, acc.push(rem[0]), rem.drop_first(), (fuel - 1) as nat);
        assert(acc.push(rem[0]) + rem.drop_first() =~= acc + rem);
    }
}

/// Parsing a serialized key list body, closed by a bracket, yields the
/// keys back.
#[verifier::rlimit(60)]
pub proof fn lemma_sp_keys_ser(s: Seq<u8>, i: int, ks: Seq<Key>)
    requires
        0 <= i,
        i + ser_keys(ks).len() + 1 <= s.len(),
        s.subrange(i, i + ser_keys(ks).len() + 1) == ser_keys(ks) + lit("]"),
    ensures
        sp_keys(s, i) == Some((ks, i + ser_keys(ks).len() + 1)),
{
    crate::lits::lits_punct();
    crate::lits::lits_keys();
    let w: Seq<u8> = ser_keys(ks) + lit("]");
    assert(s.subrange(i, i + w.len() as int)[0] == s[i]);
    if ks.len() == 0 {
        assert(w =~= lit("]"));
        assert(!is_ws(s[i]));
        lemma_sp_ws_noop(s, i);
        crate::json::lemma_sp_lit_ser(s, i, lit("]"));
    } else {
        let kw: Seq<u8> = ser_key(ks[0]);
        let rest: Seq<u8> = ser_keys_rest(ks.drop_first());
        assert(ser_keys(ks) == kw + rest);
        assert(w[0] == kw[0]);
        assert(kw[0] == 34u8) by {
            match ks[0] {
                Key::Alt => {},
                Key::Control => {},
                Key::Shift => {},
                Key::Meta => {},
                Key::Tab => {},
                Key::Space => {},
                Key::Return => {},
                Key::Escape => {},
                Key::Backspace => {},
                Key::Delete => {},
            }
        }
        assert(!is_ws(s[i]));
        lemma_sp_ws_noop(s, i);
        assert(w.subrange(0, kw.len() as int) =~= kw);
        lemma_subrange_split(s, i, w, 0, kw);
        crate::json::lemma_lit_mismatch(s, i, lit("]"), kw, 0);
        lemma_sp_key_ser(s, i, ks[0]);
        assert(w.subrange(kw.len() as int, w.len() as int) =~= rest + lit("]"));
        lemma_subrange_split(s, i, w, kw.len() as int, rest + lit("]"));
        let j: int = i + kw.len();
        lemma_sp_key_bounds(s, i);
        lemma_sp_keys_more_ser(s, j, seq![ks[0]], ks.drop_first(), s.len());
        lemma_sp_keys_more_fuel(s, j, seq![ks[0]], s.len(), s.len());
        assert(seq![ks[0]] + ks.drop_first() =~= ks);
    }
}

/// Parsing a serialized optional key list yields it back.
pub proof fn lemma_sp_opt_keys_ser(s: Seq<u8>, i: int, m: Option<Seq<Key>>)
    requires
        0 <= i,
        i + ser_opt_keys(m).len() <= s.len(),
        s.subrange(i, i + ser_opt_keys(m).len() as int) == ser_opt_keys(m),
    ensures
        sp_opt_keys(s, i) == Some((m, i + ser_opt_keys(m).len() as int)),
{
    crate::lits::lits_words();
    crate::lits::lits_punct();
    let w: Seq<u8> = ser_opt_keys(m);
    assert(s.subrange(i, i + w.len() as int)[0] == s[i]);
    match m {
        None => {
            assert(!is_ws(s[i]));
            lemma_sp_ws_noop(s, i);
            crate::json::lemma_sp_lit_ser(s, i, lit("null"));
        },
        Some(ks) => {
            assert(w[0] == 91u8);
            assert(!is_ws(s[i]));
            lemma_sp_ws_noop(s, i);
            crate::json::lemma_lit_mismatch(s, i, lit("null"), w, 0);
            assert(w.subrange(0, 1) =~= lit("["));
            lemma_subrange_split(s, i, w, 0, lit("["));
            crate::json::lemma_sp_lit_ser(s, i, lit("["));
            assert(w.subrange(1, w.len() as int) =~= ser_keys(ks) + lit("]"));
            lemma_subrange_split(s, i, w, 1, ser_keys(ks) + lit("]"));
            lemma_sp_keys_ser(s, i + 1, ks);
        },
    }
}

/// Parsing one serialized binding variant yields it back.
#[verifier::rlimit(100)]
#[verifier::spinoff_prover]
proof fn lemma_sp_binding_ser_disabled(s: Seq<u8>, i: int, b: KeyBindingView)
    requires
        b matches KeyBindingView::Disabled,
        binding_ok(b),
        0 <= i,
        i + ser_binding(b).len() <= s.len(),
        s.subrange(i, i + ser_binding(b).len() as int) == ser_binding(b),
    ensures
        sp_binding(s, i) == Some((b, i + ser_binding(b).len() as int)),
{
    crate::lits::lits_punct();
    crate::lits::lits_modes();
    crate::lits::lits_binding_fields();
    match b {
        KeyBindingView::Disabled => {
            let o0: int = 0;
            let o1: int = o0 + lit("{").len();
            let o2: int = o1 + lit("\"mode\":").len();
            let o3: int = o2 + lit("\"Disabled\"").len();
            let o4: int = o3 + lit("}").len();
            lemma_concat_window(s, i, ((lit("{") + lit("\"mode\":")) + lit("\"Disabled\"")), lit("}"));
            lemma_concat_window(s, i, (lit("{") + lit("\"mode\":")), lit("\"Disabled\""));
            lemma_concat_window(s, i, lit("{"), lit("\"mode\":"));
            lemma_tok_win(s, i + o0, lit("{"));
            lemma_tok_win(s, i + o1, lit("\"mode\":"));
            lemma_tok_win(s, i + o2, lit("\"Disabled\""));
            lemma_tok_win(s, i + o3, lit("}"));
        },
        _ => {},
    }
}

/// Parsing one serialized binding variant yields it back.
#[verifier::rlimit(100)]
#[verifier::spinoff_prover]
proof fn lemma_sp_binding_ser_mouse(s: Seq<u8>, i: int, b: KeyBindingView)
    requires
        b matches KeyBindingView::Mouse { button },
        binding_ok(b),
        0 <= i,
        i + ser_binding(b).len() <= s.len(),
        s.subrange(i, i + ser_binding(b).len() as int) == ser_binding(b),
    ensures
        sp_binding(s, i) == Some((b, i + ser_binding(b).len() as int)),
{
    crate::lits::lits_punct();
    crate::lits::lits_modes();
    crate::lits::lits_binding_fields();
    match b {
        KeyBindingView::Mouse { button } => {
            let o0: int = 0;
            let o1: int = o0 + lit("{").len();
            let o2: int = o1 + lit("\"mode\":").len();
            let o3: int = o2 + lit("\"Mouse\"").len();
            let o4: int = o3 + lit(",").len();
            let o5: int = o4 + lit("\"button\":").len();
            let o6: int = o5 + ser_mouse_button(button).len();
            let o7: int = o6 + lit("}").len();
            lemma_concat_window(s, i, (((((lit("{") + lit("\"mode\":")) + lit("\"Mouse\"")) + lit(",")) + lit("\"button\":")) + ser_mouse_button(button)), lit("}"));
            lemma_concat_window(s, i, ((((lit("{") + lit("\"mode\":")) + lit("\"Mouse\"")) + lit(",")) + lit("\"button\":")), ser_mouse_button(button));
            lemma_concat_window(s, i, (((lit("{") + lit("\"mode\":")) + lit("\"Mouse\"")) + lit(",")), lit("\"button\":"));
            lemma_concat_window(s, i, ((lit("{") + lit("\"mode\":")) + lit("\"Mouse\"")), lit(","));
            lemma_concat_window(s, i, (lit("{") + lit("\"mode\":")), lit("\"Mouse\""));
            lemma_concat_window(s, i, lit("{"), lit("\"mode\":"));
            lemma_tok_win(s, i + o0, lit("{"));
            lemma_tok_win(s, i + o1, lit("\"mode\":"));
            assert(s.subrange(i + o2, i + o3)[0] == s[i + o2]);
            assert(!is_ws(s[i + o2]));
            lemma_sp_ws_noop(s, i + o2);
            crate::json::lemma_lit_mismatch(s, i + o2, lit("\"Disabled\""), lit("\"Mouse\""), 1);
            lemma_tok_win(s, i + o2, lit("\"Mouse\""));
            lemma_tok_win(s, i + o3, lit(","));
            lemma_tok_win(s, i + o4, lit("\"button\":"));
            lemma_sp_mouse_button_ser(s, i + o5, button);
            lemma_tok_win(s, i + o6, lit("}"));
        },
        _ => {},
    }
}

/// Parsing one serialized binding variant yields it back.
#[verifier::rlimit(100)]
#[verifier::spinoff_prover]
proof fn lemma_sp_binding_ser_keyboard(s: Seq<u8>, i: int, b: KeyBindingView)
    requires
        b matches KeyBindingView::Keyboard { modifiers, key },
        binding_ok(b),
        0 <= i,
        i + ser_binding(b).len() <= s.len(),
        s.subrange(i, i + ser_binding(b).len() as int) == ser_binding(b),
    ensures
        sp_binding(s, i) == Some((b, i + ser_binding(b).len() as int)),
{
    crate::lits::lits_punct();
    crate::lits::lits_modes();
    crate::lits::lits_binding_fields();
    match b {
        KeyBindingView::Keyboard { modifiers, key } => {
            let o0: int = 0;
            let o1: int = o0 + lit("{").len();
            let o2: int = o1 + lit("\"mode\":").len();
            let o3: int = o2 + lit("\"Keyboard\"").len();
            let o4: int = o3 + lit(",").len();
            let o5: int = o4 + lit("\"modifiers\":").len();
            let o6: int = o5 + ser_opt_keys(modifiers).len();
            let o7: int = o6 + lit(",").len();
            let o8: int = o7 + lit("\"key\":").len();
            let o9: int = o8 + ser_opt_char(key).len();
            let o10: int = o9 + lit("}").len();
            lemma_concat_window(s, i, ((((((((lit("{") + lit("\"mode\":")) + lit("\"Keyboard\"")) + lit(",")) + lit("\"modifiers\":")) + ser_opt_keys(modifiers)) + lit(",")) + lit("\"key\":")) + ser_opt_char(key)), lit("}"));
            lemma_concat_window(s, i, (((((((lit("{") + lit("\"mode\":")) + lit("\"Keyboard\"")) + lit(",")) + lit("\"modifiers\":")) + ser_opt_keys(modifiers)) + lit(",")) + lit("\"key\":")), ser_opt_char(key));
            lemma_concat_window(s, i, ((((((lit("{") + lit("\"mode\":")) + lit("\"Keyboard\"")) + lit(",")) + lit("\"modifiers\":")) + ser_opt_keys(modifiers)) + lit(",")), lit("\"key\":"));
            lemma_concat_window(s, i, (((((lit("{") + lit("\"mode\":")) + lit("\"Keyboard\"")) + lit(",")) + lit("\"modifiers\":")) + ser_opt_keys(modifiers)), lit(","));
            lemma_concat_window(s, i, ((((lit("{") + lit("\"mode\":")) + lit("\"Keyboard\"")) + lit(",")) + lit("\"modifiers\":")), ser_opt_keys(modifiers));
            lemma_concat_window(s, i, (((lit("{") + lit("\"mode\":")) + lit("\"Keyboard\"")) + lit(",")), lit("\"modifiers\":"));
            lemma_concat_window(s, i, ((lit("{") + lit("\"mode\":")) + lit("\"Keyboard\"")), lit(","));
            lemma_concat_window(s, i, (lit("{") + lit("\"mode\":")), lit("\"Keyboard\""));
            lemma_concat_window(s, i, lit("{"), lit("\"mode\":"));
            lemma_tok_win(s, i + o0, lit("{"));
            lemma_tok_win(s, i + o1, lit("\"mode\":"));
            assert(s.subrange(i + o2, i + o3)[0] == s[i + o2]);
            assert(!is_ws(s[i + o2]));
            lemma_sp_ws_noop(s, i + o2);
            crate::json::lemma_lit_mismatch(s, i + o2, lit("\"Disabled\""), lit("\"Keyboard\""), 1);
            crate::json::lemma_lit_mismatch(s, i + o2, lit("\"Mouse\""), lit("\"Keyboard\""), 1);
            lemma_tok_win(s, i + o2, lit("\"Keyboard\""));
            lemma_tok_win(s, i + o3, lit(","));
            lemma_tok_win(s, i + o4, lit("\"modifiers\":"));
            lemma_sp_opt_keys_ser(s, i + o5, modifiers);
            lemma_tok_win(s, i + o6, lit(","));
            lemma_tok_win(s, i + o7, lit("\"key\":"));
            lemma_sp_opt_char_ser(s, i + o8, key);
            lemma_tok_win(s, i + o9, lit("}"));
        },
        _ => {},
    }
}

/// Parsing a serialized binding yields it back.
pub proof fn lemma_sp_binding_ser(s: Seq<u8>, i: int, b: KeyBindingView)
    requires
        binding_ok(b),
        0 <= i,
        i + ser_binding(b).len() <= s.len(),
        s.subrange(i, i + ser_binding(b).len() as int) == ser_binding(b),
    ensures
        sp_binding(s, i) == Some((b, i + ser_binding(b).len() as int)),
{
    match b {
        KeyBindingView::Disabled => lemma_sp_binding_ser_disabled(s, i, b),
        KeyBindingView::Mouse { button } => lemma_sp_binding_ser_mouse(s, i, b),
        KeyBindingView::Keyboard { modifiers, key } => lemma_sp_binding_ser_keyboard(s, i, b),
    }
}

/// Parsing a serialized button entry yields it back.
#[verifier::rlimit(50)]
pub proof fn lemma_sp_button_binding_ser(s: Seq<u8>, i: int, b: ButtonBindingView)
    requires
        binding_ok(b.binding),
        0 <= i,
        i + ser_button_binding(b).len() <= s.len(),
        s.subrange(i, i + ser_button_binding(b).len() as int) == ser_button_binding(b),
    ensures
        sp_button_binding(s, i) == Some((b, i + ser_button_binding(b).len() as int)),
{
    crate::lits::lits_punct();
    crate::lits::lits_binding_fields();
    let o0: int = 0;
    let o1: int = o0 + lit("{").len();
    let o2: int = o1 + lit("\"enabled\":").len();
    let o3: int = o2 + ser_bool(b.enabled).len();
    let o4: int = o3 + lit(",").len();
    let o5: int = o4 + lit("\"binding\":").len();
    let o6: int = o5 + ser_binding(b.binding).len();
    let o7: int = o6 + lit("}").len();
    lemma_concat_window(s, i, (((((lit("{") + lit("\"enabled\":")) + ser_bool(b.enabled)) + lit(",")) + lit("\"binding\":")) + ser_binding(b.binding)), lit("}"));
    lemma_concat_window(s, i, ((((lit("{") + lit("\"enabled\":")) + ser_bool(b.enabled)) + lit(",")) + lit("\"binding\":")), ser_binding(b.binding));
    lemma_concat_window(s, i, (((lit("{") + lit("\"enabled\":")) + ser_bool(b.enabled)) + lit(",")), lit("\"binding\":"));
    lemma_concat_window(s, i, ((lit("{") + lit("\"enabled\":")) + ser_bool(b.enabled)), lit(","));
    lemma_concat_window(s, i, (lit("{") + lit("\"enabled\":")), ser_bool(b.enabled));
    lemma_concat_window(s, i, lit("{"), lit("\"enabled\":"));
    lemma_tok_win(s, i + o0, lit("{"));
    lemma_tok_win(s, i + o1, lit("\"enabled\":"));
    lemma_sp_bool_ser(s, i + o2, b.enabled);
    lemma_tok_win(s, i + o3, lit(","));
    lemma_tok_win(s, i + o4, lit("\"binding\":"));
    lemma_sp_binding_ser(s, i + o5, b.binding);
    lemma_tok_win(s, i + o6, lit("}"));
    assert(sp_button_binding(s, i) == Some((ButtonBindingView { enabled: b.enabled, binding: b.binding }, i + ser_button_binding(b).len() as int)));
}

/// Parsing a serialized area yields it back.
#[verifier::rlimit(60)]
pub proof fn lemma_sp_area_ser(s: Seq<u8>, i: int, a: Area)
    requires
        0 <= i,
        i + ser_area(a).len() <= s.len(),
        s.subrange(i, i + ser_area(a).len() as int) == ser_area(a),
    ensures
        sp_area(s, i) == Some((a, i + ser_area(a).len() as int)),
{
    crate::lits::lits_punct();
    crate::lits::lits_area_fields();
    let o0: int = 0;
    let o1: int = o0 + lit("{").len();
    let o2: int = o1 + lit("\"x\":").len();
    let o3: int = o2 + ser_nat(a.x as int).len();
    let o4: int = o3 + lit(",").len();
    let o5: int = o4 + lit("\"y\":").len();
    let o6: int = o5 + ser_nat(a.y as int).len();
    let o7: int = o6 + lit(",").len();
    let o8: int = o7 + lit("\"width\":").len();
    let o9: int = o8 + ser_nat(a.width as int).len();
    let o10: int = o9 + lit(",").len();
    let o11: int = o10 + lit("\"height\":").len();
    let o12: int = o11 + ser_nat(a.height as int).len();
    let o13: int = o12 + lit("}").len();
    lemma_concat_window(s, i, (((((((((((lit("{") + lit("\"x\":")) + ser_nat(a.x as int)) + lit(",")) + lit("\"y\":")) + ser_nat(a.y as int)) + lit(",")) + lit("\"width\":")) + ser_nat(a.width as int)) + lit(",")) + lit("\"height\":")) + ser_nat(a.height as int)), lit("}"));
    lemma_concat_window(s, i, ((((((((((lit("{") + lit("\"x\":")) + ser_nat(a.x as int)) + lit(",")) + lit("\"y\":")) + ser_nat(a.y as int)) + lit(",")) + lit("\"width\":")) + ser_nat(a.width as int)) + lit(",")) + lit("\"height\":")), ser_nat(a.height as int));
    lemma_concat_window(s, i, (((((((((lit("{") + lit("\"x\":")) + ser_nat(a.x as int)) + lit(",")) + lit("\"y\":")) + ser_nat(a.y as int)) + lit(",")) + lit("\"width\":")) + ser_nat(a.width as int)) + lit(",")), lit("\"height\":"));
    lemma_concat_window(s, i, ((((((((lit("{") + lit("\"x\":")) + ser_nat(a.x as int)) + lit(",")) + lit("\"y\":")) + ser_nat(a.y as int)) + lit(",")) + lit("\"width\":")) + ser_nat(a.width as int)), lit(","));
    lemma_concat_window(s, i, (((((((lit("{") + lit("\"x\":")) + ser_nat(a.x as int)) + lit(",")) + lit("\"y\":")) + ser_nat(a.y as int)) + lit(",")) + lit("\"width\":")), ser_nat(a.width as int));
    lemma_concat_window(s, i, ((((((lit("{") + lit("\"x\":")) + ser_nat(a.x as int)) + lit(",")) + lit("\"y\":")) + ser_nat(a.y as int)) + lit(",")), lit("\"width\":"));
    lemma_concat_window(s, i, (((((lit("{") + lit("\"x\":")) + ser_nat(a.x as int)) + lit(",")) + lit("\"y\":")) + ser_nat(a.y as int)), lit(","));
    lemma_concat_window(s, i, ((((lit("{") + lit("\"x\":")) + ser_nat(a.x as int)) + lit(",")) + lit("\"y\":")), ser_nat(a.y as int));
    lemma_concat_window(s, i, (((lit("{") + lit("\"x\":")) + ser_nat(a.x as int)) + lit(",")), lit("\"y\":"));
    lemma_concat_window(s, i, ((lit("{") + lit("\"x\":")) + ser_nat(a.x as int)), lit(","));
    lemma_concat_window(s, i, (lit("{") + lit("\"x\":")), ser_nat(a.x as int));
    lemma_concat_window(s, i, lit("{"), lit("\"x\":"));
    lemma_tok_win(s, i + o0, lit("{"));
    lemma_tok_win(s, i + o1, lit("\"x\":"));
    assert(s.subrange(i + o3, i + o4)[0] == s[i + o3]);
    lemma_sp_u16_ser(s, i + o2, a.x);
    lemma_tok_win(s, i + o3, lit(","));
    lemma_tok_win(s, i + o4, lit("\"y\":"));
    assert(s.subrange(i + o6, i + o7)[0] == s[i + o6]);
    lemma_sp_u16_ser(s, i + o5, a.y);
    lemma_tok_win(s, i + o6, lit(","));
    lemma_tok_win(s, i + o7, lit("\"width\":"));
    assert(s.subrange(i + o9, i + o10)[0] == s[i + o9]);
    lemma_sp_u16_ser(s, i + o8, a.width);
    lemma_tok_win(s, i + o9, lit(","));
    lemma_tok_win(s, i + o10, lit("\"height\":"));
    assert(s.subrange(i + o12, i + o13)[0] == s[i + o12]);
    lemma_sp_u16_ser(s, i + o11, a.height);
    lemma_tok_win(s, i + o12, lit("}"));
    assert(sp_area(s, i) == Some((Area { x: a.x, y: a.y, width: a.width, height: a.height }, i + ser_area(a).len() as int)));
}

/// Parsing a serialized matrix yields it back.
#[verifier::rlimit(60)]
pub proof fn lemma_sp_matrix_ser(s: Seq<u8>, i: int, m: Matrix)
    requires
        crate::mapper::matrix_ok(m),
        0 <= i,
        i + ser_matrix(m).len() <= s.len(),
        s.subrange(i, i + ser_matrix(m).len() as int) == ser_matrix(m),
    ensures
        sp_matrix(s, i) == Some((m, i + ser_matrix(m).len() as int)),
{
    crate::lits::lits_punct();
    let o0: int = 0;
    let o1: int = o0 + lit("[").len();
    let o2: int = o1 + ser_int(m.m0 as int).len();
    let o3: int = o2 + lit(",").len();
    let o4: int = o3 + ser_int(m.m1 as int).len();
    let o5: int = o4 + lit(",").len();
    let o6: int = o5 + ser_int(m.m2 as int).len();
    let o7: int = o6 + lit(",").len();
    let o8: int = o7 + ser_int(m.m3 as int).len();
    let o9: int = o8 + lit("]").len();
    lemma_concat_window(s, i, (((((((lit("[") + ser_int(m.m0 as int)) + lit(",")) + ser_int(m.m1 as int)) + lit(",")) + ser_int(m.m2 as int)) + lit(",")) + ser_int(m.m3 as int)), lit("]"));
    lemma_concat_window(s, i, ((((((lit("[") + ser_int(m.m0 as int)) + lit(",")) + ser_int(m.m1 as int)) + lit(",")) + ser_int(m.m2 as int)) + lit(",")), ser_int(m.m3 as int));
    lemma_concat_window(s, i, (((((lit("[") + ser_int(m.m0 as int)) + lit(",")) + ser_int(m.m1 as int)) + lit(",")) + ser_int(m.m2 as int)), lit(","));
    lemma_concat_window(s, i, ((((lit("[") + ser_int(m.m0 as int)) + lit(",")) + ser_int(m.m1 as int)) + lit(",")), ser_int(m.m2 as int));
    lemma_concat_window(s, i, (((lit("[") + ser_int(m.m0 as int)) + lit(",")) + ser_int(m.m1 as int)), lit(","));
    lemma_concat_window(s, i, ((lit("[") + ser_int(m.m0 as int)) + lit(",")), ser_int(m.m1 as int));
    lemma_concat_window(s, i, (lit("[") + ser_int(m.m0 as int)), lit(","));
    lemma_concat_window(s, i, lit("["), ser_int(m.m0 as int));
    lemma_tok_win(s, i + o0, lit("["));
    assert(s.subrange(i + o2, i + o3)[0] == s[i + o2]);
    lemma_sp_fixed_ser(s, i + o1, m.m0);
    lemma_tok_win(s, i + o2, lit(","));
    assert(s.subrange(i + o4, i + o5)[0] == s[i + o4]);
    lemma_sp_fixed_ser(s, i + o3, m.m1);
    lemma_tok_win(s, i + o4, lit(","));
    assert(s.subrange(i + o6, i + o7)[0] == s[i + o6]);
    lemma_sp_fixed_ser(s, i + o5, m.m2);
    lemma_tok_win(s, i + o6, lit(","));
    assert(s.subrange(i + o8, i + o9)[0] == s[i + o8]);
    lemma_sp_fixed_ser(s, i + o7, m.m3);
    lemma_tok_win(s, i + o8, lit("]"));
}

/// Parsing the serialized configuration tail yields the fields back.
#[verifier::rlimit(100)]
#[verifier::spinoff_prover]
pub proof fn lemma_sp_config_tail_ser(s: Seq<u8>, i: int, c: ConfigView)
    requires
        c.buttons.len() == 3,
        crate::mapper::matrix_ok(c.matrix),
        0 <= i,
        i + ser_config_tail(c).len() <= s.len(),
        s.subrange(i, i + ser_config_tail(c).len() as int) == ser_config_tail(c),
    ensures
        sp_config_tail(s, i, c.hover_enabled, c.buttons[0], c.buttons[1], c.buttons[2]) == Some((c, i + ser_config_tail(c).len() as int)),
{
    crate::lits::lits_punct();
    crate::lits::lits_config_fields();
    let o0: int = 0;
    let o1: int = o0 + lit(",").len();
    let o2: int = o1 + lit("\"mapping\":").len();
    let o3: int = o2 + ser_area(c.mapping).len();
    let o4: int = o3 + lit(",").len();
    let o5: int = o4 + lit("\"screen\":").len();
    let o6: int = o5 + ser_area(c.screen).len();
    let o7: int = o6 + lit(",").len();
    let o8: int = o7 + lit("\"matrix\":").len();
    let o9: int = o8 + ser_matrix(c.matrix).len();
    let o10: int = o9 + lit("}").len();
    lemma_concat_window(s, i, ((((((((lit(",") + lit("\"mapping\":")) + ser_area(c.mapping)) + lit(",")) + lit("\"screen\":")) + ser_area(c.screen)) + lit(",")) + lit("\"matrix\":")) + ser_matrix(c.matrix)), lit("}"));
    lemma_concat_window(s, i, (((((((lit(",") + lit("\"mapping\":")) + ser_area(c.mapping)) + lit(",")) + lit("\"screen\":")) + ser_area(c.screen)) + lit(",")) + lit("\"matrix\":")), ser_matrix(c.matrix));
    lemma_concat_window(s, i, ((((((lit(",") + lit("\"mapping\":")) + ser_area(c.mapping)) + lit(",")) + lit("\"screen\":")) + ser_area(c.screen)) + lit(",")), lit("\"matrix\":"));
    lemma_concat_window(s, i, (((((lit(",") + lit("\"mapping\":")) + ser_area(c.mapping)) + lit(",")) + lit("\"screen\":")) + ser_area(c.screen)), lit(","));
    lemma_concat_window(s, i, ((((lit(",") + lit("\"mapping\":")) + ser_area(c.mapping)) + lit(",")) + lit("\"screen\":")), ser_area(c.screen));
    lemma_concat_window(s, i, (((lit(",") + lit("\"mapping\":")) + ser_area(c.mapping)) + lit(",")), lit("\"screen\":"));
    lemma_concat_window(s, i, ((lit(",") + lit("\"mapping\":")) + ser_area(c.mapping)), lit(","));
    lemma_concat_window(s, i, (lit(",") + lit("\"mapping\":")), ser_area(c.mapping));
    lemma_concat_window(s, i, lit(","), lit("\"mapping\":"));
    lemma_tok_win(s, i + o0, lit(","));
    lemma_tok_win(s, i + o1, lit("\"mapping\":"));
    lemma_sp_area_ser(s, i + o2, c.mapping);
    lemma_tok_win(s, i + o3, lit(","));
    lemma_tok_win(s, i + o4, lit("\"screen\":"));
    lemma_sp_area_ser(s, i + o5, c.screen);
    lemma_tok_win(s, i + o6, lit(","));
    lemma_tok_win(s, i + o7, lit("\"matrix\":"));
    lemma_sp_matrix_ser(s, i + o8, c.matrix);
    lemma_tok_win(s, i + o9, lit("}"));
    assert(seq![c.buttons[0], c.buttons[1], c.buttons[2]] =~= c.buttons);
}

/// Parsing the serialized button list yields the three entries back.
#[verifier::rlimit(60)]
pub proof fn lemma_sp_buttons3_ser(s: Seq<u8>, i: int, c: ConfigView)
    requires
        config_ok(c),
        0 <= i,
        i + ser_buttons3(c).len() <= s.len(),
        s.subrange(i, i + ser_buttons3(c).len() as int) == ser_buttons3(c),
    ensures
        sp_buttons3(s, i) == Some(((c.buttons[0], c.buttons[1], c.buttons[2]), i + ser_buttons3(c).len() as int)),
{
    crate::lits::lits_punct();
    let o0: int = 0;
    let o1: int = o0 + ser_button_binding(c.buttons[0]).len();
    let o2: int = o1 + lit(",").len();
    let o3: int = o2 + ser_button_binding(c.buttons[1]).len();
    let o4: int = o3 + lit(",").len();
    let o5: int = o4 + ser_button_binding(c.buttons[2]).len();
    let o6: int = o5 + lit("]").len();
    lemma_concat_window(s, i, ((((ser_button_binding(c.buttons[0]) + lit(",")) + ser_button_binding(c.buttons[1])) + lit(",")) + ser_button_binding(c.buttons[2])), lit("]"));
    lemma_concat_window(s, i, (((ser_button_binding(c.buttons[0]) + lit(",")) + ser_button_binding(c.buttons[1])) + lit(",")), ser_button_binding(c.buttons[2]));
    lemma_concat_window(s, i, ((ser_button_binding(c.buttons[0]) + lit(",")) + ser_button_binding(c.buttons[1])), lit(","));
    lemma_concat_window(s, i, (ser_button_binding(c.buttons[0]) + lit(",")), ser_button_binding(c.buttons[1]));
    lemma_concat_window(s, i, ser_button_binding(c.buttons[0]), lit(","));
    lemma_sp_button_binding_ser(s, i + o0, c.buttons[0]);
    lemma_tok_win(s, i + o1, lit(","));
    lemma_sp_button_binding_ser(s, i + o2, c.buttons[1]);
    lemma_tok_win(s, i + o3, lit(","));
    lemma_sp_button_binding_ser(s, i + o4, c.buttons[2]);
    lemma_tok_win(s, i + o5, lit("]"));
}

/// Parsing the serialized form of a valid configuration yields it back.
/// The windows of the eight parts of a serialized configuration.
#[verifier::rlimit(100)]
#[verifier::spinoff_prover]
proof fn lemma_config_windows(s: Seq<u8>, i: int, c: ConfigView)
    requires
        0 <= i,
        i + ser_config(c).len() <= s.len(),
        s.subrange(i, i + ser_config(c).len() as int) == ser_config(c),
    ensures
        ({
            let o1 = i + lit("{").len();
            let o2 = o1 + lit("\"hover_enabled\":").len();
            let o3 = o2 + ser_bool(c.hover_enabled).len();
            let o4 = o3 + lit(",").len();
            let o5 = o4 + lit("\"buttons\":").len();
            let o6 = o5 + lit("[").len();
            let o7 = o6 + ser_buttons3(c).len();
            let o8 = o7 + ser_config_tail(c).len();
            &&& s.subrange(i, o1 as int) == lit("{")
            &&& s.subrange(o1, o2) == lit("\"hover_enabled\":")
            &&& s.subrange(o2, o3) == ser_bool(c.hover_enabled)
            &&& s.subrange(o3, o4) == lit(",")
            &&& s.subrange(o4, o5) == lit("\"buttons\":")
            &&& s.subrange(o5, o6) == lit("[")
            &&& s.subrange(o6, o7) == ser_buttons3(c)
            &&& s.subrange(o7, o8) == ser_config_tail(c)
        }),
{
    let w: Seq<u8> = ser_config(c);
    lemma_concat_window(
        s,
        i,
        ((((((lit("{") + lit("\"hover_enabled\":")) + ser_bool(c.hover_enabled)) + lit(","))
            + lit("\"buttons\":")) + lit("[")) + ser_buttons3(c)),
        ser_config_tail(c),
    );
    lemma_concat_window(
        s,
        i,
        (((((lit("{") + lit("\"hover_enabled\":")) + ser_bool(c.hover_enabled)) + lit(","))
            + lit("\"buttons\":")) + lit("[")),
        ser_buttons3(c),
    );
    lemma_concat_window(
        s,
        i,
        ((((lit("{") + lit("\"hover_enabled\":")) + ser_bool(c.hover_enabled)) + lit(","))
            + lit("\"buttons\":")),
        lit("["),
    );
    lemma_concat_window(
        s,
        i,
        (((lit("{") + lit("\"hover_enabled\":")) + ser_bool(c.hover_enabled)) + lit(",")),
        lit("\"buttons\":"),
    );
    lemma_concat_window(
        s,
        i,
        ((lit("{") + lit("\"hover_enabled\":")) + ser_bool(c.hover_enabled)),
        lit(","),
    );
    lemma_concat_window(s, i, (lit("{") + lit("\"hover_enabled\":")), ser_bool(c.hover_enabled));
    lemma_concat_window(s, i, lit("{"), lit("\"hover_enabled\":"));
}

/// Parsing the serialized form of a valid configuration yields it back.
#[verifier::rlimit(100)]
#[verifier::spinoff_prover]
pub proof fn lemma_sp_config_ser(s: Seq<u8>, i: int, c: ConfigView)
    requires
        config_ok(c),
        0 <= i,
        i + ser_config(c).len() <= s.len(),
        s.subrange(i, i + ser_config(c).len() as int) == ser_config(c),
    ensures
        sp_config(s, i) == Some((c, i + ser_config(c).len() as int)),
{
    crate::lits::lits_punct();
    crate::lits::lits_config_fields();
    lemma_config_windows(s, i, c);
    let o1: int = i + lit("{").len();
    let o2: int = o1 + lit("\"hover_enabled\":").len();
    let o3: int = o2 + ser_bool(c.hover_enabled).len();
    let o4: int = o3 + lit(",").len();
    let o5: int = o4 + lit("\"buttons\":").len();
    let o6: int = o5 + lit("[").len();
    let o7: int = o6 + ser_buttons3(c).len();
    let o8: int = o7 + ser_config_tail(c).len();
    lemma_tok_win(s, i, lit("{"));
    lemma_tok_win(s, o1, lit("\"hover_enabled\":"));
    lemma_sp_bool_ser(s, o2, c.hover_enabled);
    lemma_tok_win(s, o3, lit(","));
    lemma_tok_win(s, o4, lit("\"buttons\":"));
    lemma_tok_win(s, o5, lit("["));
    lemma_sp_buttons3_ser(s, o6, c);
    lemma_sp_config_tail_ser(s, o7, c);
}

/// Round trip: parsing the serialized form of a valid configuration
/// yields an equal configuration, for every field and every binding kind.
#[verifier::rlimit(100)]
#[verifier::spinoff_prover]
pub proof fn lemma_config_round_trip(c: ConfigView)
    requires
        config_ok(c),
    ensures
        parse_config_spec(ser_config(c)) == Some(c),
{
    let s: Seq<u8> = ser_config(c);
    assert(s.subrange(0, s.len() as int) =~= s);
    lemma_sp_config_ser(s, 0, c);
    assert(sp_ws(s, s.len() as int) == s.len());
}

/// Values produced by the binding parser satisfy the validity policy.
pub proof fn lemma_sp_binding_valid(s: Seq<u8>, i: int)
    ensures
        match sp_binding(s, i) {
            Some((b, j)) => binding_ok(b),
            None => true,
        },
{
}

/// Values produced by the button-entry parser have valid bindings.
pub proof fn lemma_sp_button_binding_valid(s: Seq<u8>, i: int)
    ensures
        match sp_button_binding(s, i) {
            Some((b, j)) => binding_ok(b.binding),
            None => true,
        },
{
    match sp_tok(s, i, lit("{")) {
        None => {},
        Some(i1) => match sp_tok(s, i1, lit("\"enabled\":")) {
            None => {},
            Some(i2) => match sp_bool(s, i2) {
                None => {},
                Some((_e, i3)) => match sp_tok(s, i3, lit(",")) {
                    None => {},
                    Some(i4) => match sp_tok(s, i4, lit("\"binding\":")) {
                        None => {},
                        Some(i5) => {
                            lemma_sp_binding_valid(s, i5);
                        },
                    },
                },
            },
        },
    }
}

/// Values produced by the button-list parser have valid bindings.
pub proof fn lemma_sp_buttons3_valid(s: Seq<u8>, i: int)
    ensures
        match sp_buttons3(s, i) {
            Some(((b0, b1, b2), j)) => binding_ok(b0.binding) && binding_ok(b1.binding)
                && binding_ok(b2.binding),
            None => true,
        },
{
    lemma_sp_button_binding_valid(s, i);
    match sp_button_binding(s, i) {
        None => {},
        Some((_b0, i1)) => match sp_tok(s, i1, lit(",")) {
            None => {},
            Some(i2) => {
                lemma_sp_button_binding_valid(s, i2);
                match sp_button_binding(s, i2) {
                    None => {},
                    Some((_b1, i3)) => match sp_tok(s, i3, lit(",")) {
                        None => {},
                        Some(i4) => {
                            lemma_sp_button_binding_valid(s, i4);
                        },
                    },
                }
            },
        },
    }
}

/// The fields of a parsed configuration tail: the buttons are the ones
/// handed in, and the matrix entries are within bounds.
proof fn lemma_sp_config_tail_fields(
    s: Seq<u8>,
    i: int,
    hv: bool,
    b0: ButtonBindingView,
    b1: ButtonBindingView,
    b2: ButtonBindingView,
)
    ensures
        match sp_config_tail(s, i, hv, b0, b1, b2) {
            Some((c, j)) => c.buttons == seq![b0, b1, b2] && crate::mapper::matrix_ok(c.matrix),
            None => true,
        },
{
}

/// Values produced by the configuration parser have three buttons, valid
/// bindings, and a matrix within bounds.
#[verifier::rlimit(100)]
pub proof fn lemma_sp_config_valid(s: Seq<u8>, i: int)
    ensures
        match sp_config(s, i) {
            Some((c, j)) => c.buttons.len() == 3 && (forall|k: int|
                0 <= k < 3 ==> binding_ok(#[trigger] c.buttons[k].binding))
                && crate::mapper::matrix_ok(c.matrix),
            None => true,
        },
{
    match sp_tok(s, i, lit("{")) {
        None => {},
        Some(i1) => match sp_tok(s, i1, lit("\"hover_enabled\":")) {
            None => {},
            Some(i2) => match sp_bool(s, i2) {
                None => {},
                Some((hv, i3)) => match sp_tok(s, i3, lit(",")) {
                    None => {},
                    Some(i4) => match sp_tok(s, i4, lit("\"buttons\":")) {
                        None => {},
                        Some(i5) => match sp_tok(s, i5, lit("[")) {
                            None => {},
                            Some(i6) => {
                                lemma_sp_buttons3_valid(s, i6);
                                match sp_buttons3(s, i6) {
                                    None => {},
                                    Some(((b0, b1, b2), i12)) => {
                                        lemma_sp_config_tail_fields(s, i12, hv, b0, b1, b2);
                                        match sp_config_tail(s, i12, hv, b0, b1, b2) {
                                            None => {},
                                            Some((c, _j)) => {
                                                assert(c.buttons[0] == b0);
                                                assert(c.buttons[1] == b1);
                                                assert(c.buttons[2] == b2);
                                            },
                                        }
                                    },
                                }
                            },
                        },
                    },
                },
            },
        },
    }
}

/// The meaning of a stored configuration: the parsed value, if the whole
/// input is one valid configuration object.
pub open spec fn parse_config_spec(s: Seq<u8>) -> Option<ConfigView> {
    match sp_config(s, 0) {
        Some((c, j)) => if sp_ws(s, j) == s.len() && config_ok(c) {
            Some(c)
        } else {
            None
        },
        None => None,
    }
}

/// Load a configuration from the bytes of its stored form.
///
/// A source longer than `MAX_CONFIG_LEN` is refused as oversized without
/// being parsed; otherwise the input must be exactly one configuration
/// object, and the validity policy `config_ok` is enforced.
pub fn load_from_content(content: &[u8]) -> (r: Result<Config, ConfigError>)
    ensures
        content@.len() > MAX_CONFIG_LEN ==> r == Err::<Config, ConfigError>(ConfigError::TooLarge),
        content@.len() <= MAX_CONFIG_LEN ==> match parse_config_spec(content@) {
            Some(c) => r matches Ok(cfg) && cfg@ == c && config_ok(cfg@),
            None => r == Err::<Config, ConfigError>(ConfigError::JsonParse),
        },
{
    if content.len() > MAX_CONFIG_LEN {
        return Err(ConfigError::TooLarge);
    }
    match p_config(content, 0) {
        None => Err(ConfigError::JsonParse),
        Some((cfg, j)) => {
            let e: usize = skip_ws(content, j);
            if e != content.len() {
                return Err(ConfigError::JsonParse);
            }
            if cfg.mapping.width >= 1 && cfg.mapping.height >= 1 {
                proof {
                    lemma_sp_config_valid(content@, 0);
                }
                Ok(cfg)
            } else {
                Err(ConfigError::JsonParse)
            }
        },
    }
}

impl Config {
    /// Load a configuration from the bytes of its stored form; see
    /// `load_from_content`.
    pub fn load_from_content(content: &[u8]) -> (r: Result<Config, ConfigError>)
        ensures
            content@.len() > MAX_CONFIG_LEN ==> r == Err::<Config, ConfigError>(
                ConfigError::TooLarge,
            ),
            content@.len() <= MAX_CONFIG_LEN ==> match parse_config_spec(content@) {
                Some(c) => r matches Ok(cfg) && cfg@ == c && config_ok(cfg@),
                None => r == Err::<Config, ConfigError>(ConfigError::JsonParse),
            },
    {
        load_from_content(content)
    }
}

} // verus!
