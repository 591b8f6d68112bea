//! The text of a change notification.
//!
//! The notifier boundary sends a human-readable alert when the observed
//! value changes. Its transport is the binary's business; the subject line
//! and the message body — the part with meaning — are composed here, so
//! that what the operator reads is pinned to the old and the new value.

use vstd::prelude::*;
use vstd::string::StringExecFns;

verus! {

/// The subject line of a change notification.
pub fn notification_subject() -> (r: String)
    ensures
        r@ == "The price has changed"@,
{
    String::from_str("The price has changed")
}

/// The body of a change notification, naming the value that was acted on
/// before and the value just observed.
pub fn notification_body(previous: &str, current: &str) -> (r: String)
    ensures
        r@ == "The price has changed from "@ + previous@ + " to "@ + current@ + "!"@,
{
    let mut r = String::from_str("The price has changed from ");
    r.append(previous);
    r.append(" to ");
    r.append(current);
    r.append("!");
    r
}

} // verus!
