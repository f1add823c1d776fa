//! Handing text to the clipboard of the terminal.
use crate::base64;
use vstd::prelude::*;

verus! {

/// The sequence that puts `bytes` on the clipboard of the terminal.
pub fn clipboard_sequence(bytes: &Vec<u8>) -> (r: String)
    requires
        bytes@.len() <= usize::MAX - 3,
    ensures
        r@ == "\x1b]52;c;"@ + base64::base64_of(bytes@) + "\x07"@,
{
    let mut out = String::new();
    out.push_str("\x1b]52;c;");
    let encoded = base64::encode(bytes);
    out.push_str(encoded.as_str());
    out.push_str("\x07");
    assert(out@ =~= "\x1b]52;c;"@ + base64::base64_of(bytes@) + "\x07"@);
    out
}

} // verus!
