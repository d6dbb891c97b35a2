//! X11 housekeeping decisions: reading a window title property.
use vstd::prelude::*;

verus! {

/// `String::from_utf8`: `Ok` exactly when `bytes` is valid UTF-8 (as vstd
/// defines it), and then the decoded characters.
#[verifier::external_body]
fn utf8_string(bytes: Vec<u8>) -> (s: Option<String>)
    ensures
        match s {
            Some(t) => vstd::utf8::valid_utf8(bytes@) && t@ == vstd::utf8::decode_utf8(bytes@),
            None => !vstd::utf8::valid_utf8(bytes@),
        },
{
    String::from_utf8(bytes).ok()
}

/// A window title read from a property reply: only an 8-bit, non-empty,
/// valid UTF-8 value is a title.
pub fn title_from_property(format: u8, value: Vec<u8>) -> (t: Option<String>)
    ensures
        match t {
            Some(s) => format == 8 && value@.len() > 0 && vstd::utf8::valid_utf8(value@) && s@
                == vstd::utf8::decode_utf8(value@),
            None => format != 8 || value@.len() == 0 || !vstd::utf8::valid_utf8(value@),
        },
{
    if format != 8 || value.len() == 0 {
        return None;
    }
    utf8_string(value)
}

/// The data of a `_NET_WM_STATE` client message that adds `state`
/// (action 1 = add).
pub fn add_state_message(state: u32) -> (d: [u32; 5])
    ensures
        d@ == seq![1u32, state, 0u32, 0u32, 0u32],
{
    let d = [1u32, state, 0, 0, 0];
    assert(d@ =~= seq![1u32, state, 0u32, 0u32, 0u32]);
    d
}

} // verus!
