//! How the end of one run of the measurement tool becomes its outcome.
use vstd::prelude::*;
use vstd::utf8::{decode_utf8, valid_utf8};

verus! {

/// What `String::from_utf8_lossy` makes of some bytes.
pub uninterp spec fn lossy_text(b: Seq<u8>) -> Seq<char>;

/// Relies on `String::from_utf8_lossy`: the bytes read as UTF-8, with each
/// invalid sequence replaced; valid UTF-8 is decoded as it is.
#[verifier::external_body]
fn decode_lossy(b: &Vec<u8>) -> (r: String)
    ensures
        r@ == lossy_text(b@),
        valid_utf8(b@) ==> r@ == decode_utf8(b@),
{
    String::from_utf8_lossy(b).into_owned()
}

/// The message of a run whose tool exited with failure, given what the tool
/// wrote to its error stream.
pub open spec fn tool_failure(stderr_text: Seq<char>) -> Seq<char> {
    "execute command failed: "@ + stderr_text
}

/// The message of a failed run, from the tool's error text.
pub fn failure_message(stderr_text: &str) -> (r: String)
    ensures
        r@ == tool_failure(stderr_text@),
{
    let mut m = String::from_str("execute command failed: ");
    m.append(stderr_text);
    m
}

/// The outcome of a run whose tool exited: success when its exit status says
/// so, otherwise a failure carrying its error output.
pub fn tool_outcome(success: bool, stderr: &Vec<u8>) -> (r: Result<(), String>)
    ensures
        success ==> r is Ok,
        !success ==> r is Err && r->Err_0@ == tool_failure(lossy_text(stderr@)),
{
    if success {
        Ok(())
    } else {
        let text = decode_lossy(stderr);
        Err(failure_message(text.as_str()))
    }
}

} // verus!
