use vstd::prelude::*;

verus! {

/// The command-line surface: one positional argument, the user identifier
/// whose events are fetched.
pub struct Cli {
    pub user: String,
}

} // verus!
