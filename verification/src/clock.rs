use vstd::prelude::*;

verus! {

/// Reads the wall clock with the `chrono` crate: `Local::now` for the time
/// in the machine's zone and `DateTime::format` with `%H:%M:%S` for its text.
/// The result changes from call to call, so nothing is claimed of it. Like
/// `chrono`, this does not return on a machine whose clock stands before 1970.
#[verifier::external_body]
pub(crate) fn clock_text() -> (now: String) {
    chrono::Local::now().format("%H:%M:%S").to_string()
}

} // verus!
