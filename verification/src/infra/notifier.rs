use vstd::prelude::*;

verus! {

/// Placeholder notifier until a real adapter (e.g. Discord) exists: it only logs each
/// confirmation request, so the confirmation service has a real port to call meanwhile.
#[derive(Clone, Copy, Debug, PartialEq, Eq, Structural)]
pub struct LoggingNotifier;

} // verus!
