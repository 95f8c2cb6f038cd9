//! Concrete byte values of the tokens that the codec emits and matches.
//!
//! The parser lemmas need to tell one token from another byte by byte; these
//! proof functions expose the bytes of each string literal once, so that the
//! round-trip proofs can reason about mismatches and first bytes.
use vstd::prelude::*;

use crate::json::lit;

verus! {

/// Structural tokens.
pub proof fn lits_punct()
    ensures
        lit("{") =~= seq![123u8],
        lit("}") =~= seq![125u8],
        lit("[") =~= seq![91u8],
        lit("]") =~= seq![93u8],
        lit(",") =~= seq![44u8],
        lit("\"") =~= seq![34u8],
{
    reveal_strlit("{");
    assert(vstd::utf8::is_ascii_chars(("{")@)) by {
        assert forall|i: int| 0 <= i < ("{")@.len() implies '\0' <= #[trigger] ("{")@[i] <= '\u{7f}' by {}
    }
    vstd::string::is_ascii_spec_bytes("{");
    reveal_strlit("}");
    assert(vstd::utf8::is_ascii_chars(("}")@)) by {
        assert forall|i: int| 0 <= i < ("}")@.len() implies '\0' <= #[trigger] ("}")@[i] <= '\u{7f}' by {}
    }
    vstd::string::is_ascii_spec_bytes("}");
    reveal_strlit("[");
    assert(vstd::utf8::is_ascii_chars(("[")@)) by {
        assert forall|i: int| 0 <= i < ("[")@.len() implies '\0' <= #[trigger] ("[")@[i] <= '\u{7f}' by {}
    }
    vstd::string::is_ascii_spec_bytes("[");
    reveal_strlit("]");
    assert(vstd::utf8::is_ascii_chars(("]")@)) by {
        assert forall|i: int| 0 <= i < ("]")@.len() implies '\0' <= #[trigger] ("]")@[i] <= '\u{7f}' by {}
    }
    vstd::string::is_ascii_spec_bytes("]");
    reveal_strlit(",");
    assert(vstd::utf8::is_ascii_chars((",")@)) by {
        assert forall|i: int| 0 <= i < (",")@.len() implies '\0' <= #[trigger] (",")@[i] <= '\u{7f}' by {}
    }
    vstd::string::is_ascii_spec_bytes(",");
    reveal_strlit("\"");
    assert(vstd::utf8::is_ascii_chars(("\"")@)) by {
        assert forall|i: int| 0 <= i < ("\"")@.len() implies '\0' <= #[trigger] ("\"")@[i] <= '\u{7f}' by {}
    }
    vstd::string::is_ascii_spec_bytes("\"");
}

/// Bare keywords.
pub proof fn lits_words()
    ensures
        lit("null") =~= seq![110u8, 117u8, 108u8, 108u8],
        lit("true") =~= seq![116u8, 114u8, 117u8, 101u8],
        lit("false") =~= seq![102u8, 97u8, 108u8, 115u8, 101u8],
{
    reveal_strlit("null");
    assert(vstd::utf8::is_ascii_chars(("null")@)) by {
        assert forall|i: int| 0 <= i < ("null")@.len() implies '\0' <= #[trigger] ("null")@[i] <= '\u{7f}' by {}
    }
    vstd::string::is_ascii_spec_bytes("null");
    reveal_strlit("true");
    assert(vstd::utf8::is_ascii_chars(("true")@)) by {
        assert forall|i: int| 0 <= i < ("true")@.len() implies '\0' <= #[trigger] ("true")@[i] <= '\u{7f}' by {}
    }
    vstd::string::is_ascii_spec_bytes("true");
    reveal_strlit("false");
    assert(vstd::utf8::is_ascii_chars(("false")@)) by {
        assert forall|i: int| 0 <= i < ("false")@.len() implies '\0' <= #[trigger] ("false")@[i] <= '\u{7f}' by {}
    }
    vstd::string::is_ascii_spec_bytes("false");
}

/// Field tokens of the configuration object.
pub proof fn lits_config_fields()
    ensures
        lit("\"hover_enabled\":") =~= seq![34u8, 104u8, 111u8, 118u8, 101u8, 114u8, 95u8, 101u8, 110u8, 97u8, 98u8, 108u8, 101u8, 100u8, 34u8, 58u8],
        lit("\"buttons\":") =~= seq![34u8, 98u8, 117u8, 116u8, 116u8, 111u8, 110u8, 115u8, 34u8, 58u8],
        lit("\"mapping\":") =~= seq![34u8, 109u8, 97u8, 112u8, 112u8, 105u8, 110u8, 103u8, 34u8, 58u8],
        lit("\"screen\":") =~= seq![34u8, 115u8, 99u8, 114u8, 101u8, 101u8, 110u8, 34u8, 58u8],
        lit("\"matrix\":") =~= seq![34u8, 109u8, 97u8, 116u8, 114u8, 105u8, 120u8, 34u8, 58u8],
{
    reveal_strlit("\"hover_enabled\":");
    assert(vstd::utf8::is_ascii_chars(("\"hover_enabled\":")@)) by {
        assert forall|i: int| 0 <= i < ("\"hover_enabled\":")@.len() implies '\0' <= #[trigger] ("\"hover_enabled\":")@[i] <= '\u{7f}' by {}
    }
    vstd::string::is_ascii_spec_bytes("\"hover_enabled\":");
    reveal_strlit("\"buttons\":");
    assert(vstd::utf8::is_ascii_chars(("\"buttons\":")@)) by {
        assert forall|i: int| 0 <= i < ("\"buttons\":")@.len() implies '\0' <= #[trigger] ("\"buttons\":")@[i] <= '\u{7f}' by {}
    }
    vstd::string::is_ascii_spec_bytes("\"buttons\":");
    reveal_strlit("\"mapping\":");
    assert(vstd::utf8::is_ascii_chars(("\"mapping\":")@)) by {
        assert forall|i: int| 0 <= i < ("\"mapping\":")@.len() implies '\0' <= #[trigger] ("\"mapping\":")@[i] <= '\u{7f}' by {}
    }
    vstd::string::is_ascii_spec_bytes("\"mapping\":");
    reveal_strlit("\"screen\":");
    assert(vstd::utf8::is_ascii_chars(("\"screen\":")@)) by {
        assert forall|i: int| 0 <= i < ("\"screen\":")@.len() implies '\0' <= #[trigger] ("\"screen\":")@[i] <= '\u{7f}' by {}
    }
    vstd::string::is_ascii_spec_bytes("\"screen\":");
    reveal_strlit("\"matrix\":");
    assert(vstd::utf8::is_ascii_chars(("\"matrix\":")@)) by {
        assert forall|i: int| 0 <= i < ("\"matrix\":")@.len() implies '\0' <= #[trigger] ("\"matrix\":")@[i] <= '\u{7f}' by {}
    }
    vstd::string::is_ascii_spec_bytes("\"matrix\":");
}

/// Field tokens of an area object.
pub proof fn lits_area_fields()
    ensures
        lit("\"x\":") =~= seq![34u8, 120u8, 34u8, 58u8],
        lit("\"y\":") =~= seq![34u8, 121u8, 34u8, 58u8],
        lit("\"width\":") =~= seq![34u8, 119u8, 105u8, 100u8, 116u8, 104u8, 34u8, 58u8],
        lit("\"height\":") =~= seq![34u8, 104u8, 101u8, 105u8, 103u8, 104u8, 116u8, 34u8, 58u8],
{
    reveal_strlit("\"x\":");
    assert(vstd::utf8::is_ascii_chars(("\"x\":")@)) by {
        assert forall|i: int| 0 <= i < ("\"x\":")@.len() implies '\0' <= #[trigger] ("\"x\":")@[i] <= '\u{7f}' by {}
    }
    vstd::string::is_ascii_spec_bytes("\"x\":");
    reveal_strlit("\"y\":");
    assert(vstd::utf8::is_ascii_chars(("\"y\":")@)) by {
        assert forall|i: int| 0 <= i < ("\"y\":")@.len() implies '\0' <= #[trigger] ("\"y\":")@[i] <= '\u{7f}' by {}
    }
    vstd::string::is_ascii_spec_bytes("\"y\":");
    reveal_strlit("\"width\":");
    assert(vstd::utf8::is_ascii_chars(("\"width\":")@)) by {
        assert forall|i: int| 0 <= i < ("\"width\":")@.len() implies '\0' <= #[trigger] ("\"width\":")@[i] <= '\u{7f}' by {}
    }
    vstd::string::is_ascii_spec_bytes("\"width\":");
    reveal_strlit("\"height\":");
    assert(vstd::utf8::is_ascii_chars(("\"height\":")@)) by {
        assert forall|i: int| 0 <= i < ("\"height\":")@.len() implies '\0' <= #[trigger] ("\"height\":")@[i] <= '\u{7f}' by {}
    }
    vstd::string::is_ascii_spec_bytes("\"height\":");
}

/// Field tokens of a button binding object.
pub proof fn lits_binding_fields()
    ensures
        lit("\"enabled\":") =~= seq![34u8, 101u8, 110u8, 97u8, 98u8, 108u8, 101u8, 100u8, 34u8, 58u8],
        lit("\"binding\":") =~= seq![34u8, 98u8, 105u8, 110u8, 100u8, 105u8, 110u8, 103u8, 34u8, 58u8],
        lit("\"mode\":") =~= seq![34u8, 109u8, 111u8, 100u8, 101u8, 34u8, 58u8],
        lit("\"button\":") =~= seq![34u8, 98u8, 117u8, 116u8, 116u8, 111u8, 110u8, 34u8, 58u8],
        lit("\"modifiers\":") =~= seq![34u8, 109u8, 111u8, 100u8, 105u8, 102u8, 105u8, 101u8, 114u8, 115u8, 34u8, 58u8],
        lit("\"key\":") =~= seq![34u8, 107u8, 101u8, 121u8, 34u8, 58u8],
{
    reveal_strlit("\"enabled\":");
    assert(vstd::utf8::is_ascii_chars(("\"enabled\":")@)) by {
        assert forall|i: int| 0 <= i < ("\"enabled\":")@.len() implies '\0' <= #[trigger] ("\"enabled\":")@[i] <= '\u{7f}' by {}
    }
    vstd::string::is_ascii_spec_bytes("\"enabled\":");
    reveal_strlit("\"binding\":");
    assert(vstd::utf8::is_ascii_chars(("\"binding\":")@)) by {
        assert forall|i: int| 0 <= i < ("\"binding\":")@.len() implies '\0' <= #[trigger] ("\"binding\":")@[i] <= '\u{7f}' by {}
    }
    vstd::string::is_ascii_spec_bytes("\"binding\":");
    reveal_strlit("\"mode\":");
    assert(vstd::utf8::is_ascii_chars(("\"mode\":")@)) by {
        assert forall|i: int| 0 <= i < ("\"mode\":")@.len() implies '\0' <= #[trigger] ("\"mode\":")@[i] <= '\u{7f}' by {}
    }
    vstd::string::is_ascii_spec_bytes("\"mode\":");
    reveal_strlit("\"button\":");
    assert(vstd::utf8::is_ascii_chars(("\"button\":")@)) by {
        assert forall|i: int| 0 <= i < ("\"button\":")@.len() implies '\0' <= #[trigger] ("\"button\":")@[i] <= '\u{7f}' by {}
    }
    vstd::string::is_ascii_spec_bytes("\"button\":");
    reveal_strlit("\"modifiers\":");
    assert(vstd::utf8::is_ascii_chars(("\"modifiers\":")@)) by {
        assert forall|i: int| 0 <= i < ("\"modifiers\":")@.len() implies '\0' <= #[trigger] ("\"modifiers\":")@[i] <= '\u{7f}' by {}
    }
    vstd::string::is_ascii_spec_bytes("\"modifiers\":");
    reveal_strlit("\"key\":");
    assert(vstd::utf8::is_ascii_chars(("\"key\":")@)) by {
        assert forall|i: int| 0 <= i < ("\"key\":")@.len() implies '\0' <= #[trigger] ("\"key\":")@[i] <= '\u{7f}' by {}
    }
    vstd::string::is_ascii_spec_bytes("\"key\":");
}

/// Names of the binding modes.
pub proof fn lits_modes()
    ensures
        lit("\"Disabled\"") =~= seq![34u8, 68u8, 105u8, 115u8, 97u8, 98u8, 108u8, 101u8, 100u8, 34u8],
        lit("\"Mouse\"") =~= seq![34u8, 77u8, 111u8, 117u8, 115u8, 101u8, 34u8],
        lit("\"Keyboard\"") =~= seq![34u8, 75u8, 101u8, 121u8, 98u8, 111u8, 97u8, 114u8, 100u8, 34u8],
{
    reveal_strlit("\"Disabled\"");
    assert(vstd::utf8::is_ascii_chars(("\"Disabled\"")@)) by {
        assert forall|i: int| 0 <= i < ("\"Disabled\"")@.len() implies '\0' <= #[trigger] ("\"Disabled\"")@[i] <= '\u{7f}' by {}
    }
    vstd::string::is_ascii_spec_bytes("\"Disabled\"");
    reveal_strlit("\"Mouse\"");
    assert(vstd::utf8::is_ascii_chars(("\"Mouse\"")@)) by {
        assert forall|i: int| 0 <= i < ("\"Mouse\"")@.len() implies '\0' <= #[trigger] ("\"Mouse\"")@[i] <= '\u{7f}' by {}
    }
    vstd::string::is_ascii_spec_bytes("\"Mouse\"");
    reveal_strlit("\"Keyboard\"");
    assert(vstd::utf8::is_ascii_chars(("\"Keyboard\"")@)) by {
        assert forall|i: int| 0 <= i < ("\"Keyboard\"")@.len() implies '\0' <= #[trigger] ("\"Keyboard\"")@[i] <= '\u{7f}' by {}
    }
    vstd::string::is_ascii_spec_bytes("\"Keyboard\"");
}

/// Names of the modifier keys.
pub proof fn lits_keys()
    ensures
        lit("\"Alt\"") =~= seq![34u8, 65u8, 108u8, 116u8, 34u8],
        lit("\"Control\"") =~= seq![34u8, 67u8, 111u8, 110u8, 116u8, 114u8, 111u8, 108u8, 34u8],
        lit("\"Shift\"") =~= seq![34u8, 83u8, 104u8, 105u8, 102u8, 116u8, 34u8],
        lit("\"Meta\"") =~= seq![34u8, 77u8, 101u8, 116u8, 97u8, 34u8],
        lit("\"Tab\"") =~= seq![34u8, 84u8, 97u8, 98u8, 34u8],
        lit("\"Space\"") =~= seq![34u8, 83u8, 112u8, 97u8, 99u8, 101u8, 34u8],
        lit("\"Return\"") =~= seq![34u8, 82u8, 101u8, 116u8, 117u8, 114u8, 110u8, 34u8],
        lit("\"Escape\"") =~= seq![34u8, 69u8, 115u8, 99u8, 97u8, 112u8, 101u8, 34u8],
        lit("\"Backspace\"") =~= seq![34u8, 66u8, 97u8, 99u8, 107u8, 115u8, 112u8, 97u8, 99u8, 101u8, 34u8],
        lit("\"Delete\"") =~= seq![34u8, 68u8, 101u8, 108u8, 101u8, 116u8, 101u8, 34u8],
{
    reveal_strlit("\"Alt\"");
    assert(vstd::utf8::is_ascii_chars(("\"Alt\"")@)) by {
        assert forall|i: int| 0 <= i < ("\"Alt\"")@.len() implies '\0' <= #[trigger] ("\"Alt\"")@[i] <= '\u{7f}' by {}
    }
    vstd::string::is_ascii_spec_bytes("\"Alt\"");
    reveal_strlit("\"Control\"");
    assert(vstd::utf8::is_ascii_chars(("\"Control\"")@)) by {
        assert forall|i: int| 0 <= i < ("\"Control\"")@.len() implies '\0' <= #[trigger] ("\"Control\"")@[i] <= '\u{7f}' by {}
    }
    vstd::string::is_ascii_spec_bytes("\"Control\"");
    reveal_strlit("\"Shift\"");
    assert(vstd::utf8::is_ascii_chars(("\"Shift\"")@)) by {
        assert forall|i: int| 0 <= i < ("\"Shift\"")@.len() implies '\0' <= #[trigger] ("\"Shift\"")@[i] <= '\u{7f}' by {}
    }
    vstd::string::is_ascii_spec_bytes("\"Shift\"");
    reveal_strlit("\"Meta\"");
    assert(vstd::utf8::is_ascii_chars(("\"Meta\"")@)) by {
        assert forall|i: int| 0 <= i < ("\"Meta\"")@.len() implies '\0' <= #[trigger] ("\"Meta\"")@[i] <= '\u{7f}' by {}
    }
    vstd::string::is_ascii_spec_bytes("\"Meta\"");
    reveal_strlit("\"Tab\"");
    assert(vstd::utf8::is_ascii_chars(("\"Tab\"")@)) by {
        assert forall|i: int| 0 <= i < ("\"Tab\"")@.len() implies '\0' <= #[trigger] ("\"Tab\"")@[i] <= '\u{7f}' by {}
    }
    vstd::string::is_ascii_spec_bytes("\"Tab\"");
    reveal_strlit("\"Space\"");
    assert(vstd::utf8::is_ascii_chars(("\"Space\"")@)) by {
        assert forall|i: int| 0 <= i < ("\"Space\"")@.len() implies '\0' <= #[trigger] ("\"Space\"")@[i] <= '\u{7f}' by {}
    }
    vstd::string::is_ascii_spec_bytes("\"Space\"");
    reveal_strlit("\"Return\"");
    assert(vstd::utf8::is_ascii_chars(("\"Return\"")@)) by {
        assert forall|i: int| 0 <= i < ("\"Return\"")@.len() implies '\0' <= #[trigger] ("\"Return\"")@[i] <= '\u{7f}' by {}
    }
    vstd::string::is_ascii_spec_bytes("\"Return\"");
    reveal_strlit("\"Escape\"");
    assert(vstd::utf8::is_ascii_chars(("\"Escape\"")@)) by {
        assert forall|i: int| 0 <= i < ("\"Escape\"")@.len() implies '\0' <= #[trigger] ("\"Escape\"")@[i] <= '\u{7f}' by {}
    }
    vstd::string::is_ascii_spec_bytes("\"Escape\"");
    reveal_strlit("\"Backspace\"");
    assert(vstd::utf8::is_ascii_chars(("\"Backspace\"")@)) by {
        assert forall|i: int| 0 <= i < ("\"Backspace\"")@.len() implies '\0' <= #[trigger] ("\"Backspace\"")@[i] <= '\u{7f}' by {}
    }
    vstd::string::is_ascii_spec_bytes("\"Backspace\"");
    reveal_strlit("\"Delete\"");
    assert(vstd::utf8::is_ascii_chars(("\"Delete\"")@)) by {
        assert forall|i: int| 0 <= i < ("\"Delete\"")@.len() implies '\0' <= #[trigger] ("\"Delete\"")@[i] <= '\u{7f}' by {}
    }
    vstd::string::is_ascii_spec_bytes("\"Delete\"");
}

/// Names of the mouse buttons.
pub proof fn lits_mouse_buttons()
    ensures
        lit("\"Left\"") =~= seq![34u8, 76u8, 101u8, 102u8, 116u8, 34u8],
        lit("\"Middle\"") =~= seq![34u8, 77u8, 105u8, 100u8, 100u8, 108u8, 101u8, 34u8],
        lit("\"Right\"") =~= seq![34u8, 82u8, 105u8, 103u8, 104u8, 116u8, 34u8],
        lit("\"Back\"") =~= seq![34u8, 66u8, 97u8, 99u8, 107u8, 34u8],
        lit("\"Forward\"") =~= seq![34u8, 70u8, 111u8, 114u8, 119u8, 97u8, 114u8, 100u8, 34u8],
        lit("\"ScrollUp\"") =~= seq![34u8, 83u8, 99u8, 114u8, 111u8, 108u8, 108u8, 85u8, 112u8, 34u8],
        lit("\"ScrollDown\"") =~= seq![34u8, 83u8, 99u8, 114u8, 111u8, 108u8, 108u8, 68u8, 111u8, 119u8, 110u8, 34u8],
        lit("\"ScrollLeft\"") =~= seq![34u8, 83u8, 99u8, 114u8, 111u8, 108u8, 108u8, 76u8, 101u8, 102u8, 116u8, 34u8],
        lit("\"ScrollRight\"") =~= seq![34u8, 83u8, 99u8, 114u8, 111u8, 108u8, 108u8, 82u8, 105u8, 103u8, 104u8, 116u8, 34u8],
{
    reveal_strlit("\"Left\"");
    assert(vstd::utf8::is_ascii_chars(("\"Left\"")@)) by {
        assert forall|i: int| 0 <= i < ("\"Left\"")@.len() implies '\0' <= #[trigger] ("\"Left\"")@[i] <= '\u{7f}' by {}
    }
    vstd::string::is_ascii_spec_bytes("\"Left\"");
    reveal_strlit("\"Middle\"");
    assert(vstd::utf8::is_ascii_chars(("\"Middle\"")@)) by {
        assert forall|i: int| 0 <= i < ("\"Middle\"")@.len() implies '\0' <= #[trigger] ("\"Middle\"")@[i] <= '\u{7f}' by {}
    }
    vstd::string::is_ascii_spec_bytes("\"Middle\"");
    reveal_strlit("\"Right\"");
    assert(vstd::utf8::is_ascii_chars(("\"Right\"")@)) by {
        assert forall|i: int| 0 <= i < ("\"Right\"")@.len() implies '\0' <= #[trigger] ("\"Right\"")@[i] <= '\u{7f}' by {}
    }
    vstd::string::is_ascii_spec_bytes("\"Right\"");
    reveal_strlit("\"Back\"");
    assert(vstd::utf8::is_ascii_chars(("\"Back\"")@)) by {
        assert forall|i: int| 0 <= i < ("\"Back\"")@.len() implies '\0' <= #[trigger] ("\"Back\"")@[i] <= '\u{7f}' by {}
    }
    vstd::string::is_ascii_spec_bytes("\"Back\"");
    reveal_strlit("\"Forward\"");
    assert(vstd::utf8::is_ascii_chars(("\"Forward\"")@)) by {
        assert forall|i: int| 0 <= i < ("\"Forward\"")@.len() implies '\0' <= #[trigger] ("\"Forward\"")@[i] <= '\u{7f}' by {}
    }
    vstd::string::is_ascii_spec_bytes("\"Forward\"");
    reveal_strlit("\"ScrollUp\"");
    assert(vstd::utf8::is_ascii_chars(("\"ScrollUp\"")@)) by {
        assert forall|i: int| 0 <= i < ("\"ScrollUp\"")@.len() implies '\0' <= #[trigger] ("\"ScrollUp\"")@[i] <= '\u{7f}' by {}
    }
    vstd::string::is_ascii_spec_bytes("\"ScrollUp\"");
    reveal_strlit("\"ScrollDown\"");
    assert(vstd::utf8::is_ascii_chars(("\"ScrollDown\"")@)) by {
        assert forall|i: int| 0 <= i < ("\"ScrollDown\"")@.len() implies '\0' <= #[trigger] ("\"ScrollDown\"")@[i] <= '\u{7f}' by {}
    }
    vstd::string::is_ascii_spec_bytes("\"ScrollDown\"");
    reveal_strlit("\"ScrollLeft\"");
    assert(vstd::utf8::is_ascii_chars(("\"ScrollLeft\"")@)) by {
        assert forall|i: int| 0 <= i < ("\"ScrollLeft\"")@.len() implies '\0' <= #[trigger] ("\"ScrollLeft\"")@[i] <= '\u{7f}' by {}
    }
    vstd::string::is_ascii_spec_bytes("\"ScrollLeft\"");
    reveal_strlit("\"ScrollRight\"");
    assert(vstd::utf8::is_ascii_chars(("\"ScrollRight\"")@)) by {
        assert forall|i: int| 0 <= i < ("\"ScrollRight\"")@.len() implies '\0' <= #[trigger] ("\"ScrollRight\"")@[i] <= '\u{7f}' by {}
    }
    vstd::string::is_ascii_spec_bytes("\"ScrollRight\"");
}

} // verus!
