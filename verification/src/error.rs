//! The ways in which provisioning can fail.

use vstd::prelude::*;

verus! {

/// Why a step could not be completed.
#[derive(Clone, Copy, Debug, PartialEq, Eq, Structural)]
pub enum Error {
    /// A tool could not be started or ended with a failure status.
    ToolInvocation,
    /// What a tool printed does not have the expected shape.
    Schema,
    /// The configuration cannot be carried out on this machine.
    Config,
    /// Key material is unreadable, is not UTF-8 or is not armored.
    KeyFile,
    /// The PIN was refused or the payload could not be decrypted.
    Decryption,
    /// A device did not appear within the retry budget.
    Timeout,
    /// The card service is gone for good.
    Service,
}

} // verus!
