use vstd::prelude::*;

verus! {

/// The providers whose repositories can be tracked.
#[derive(Clone, Copy, Debug, PartialEq, Eq, Structural)]
pub enum GitProvider {
    AzureDevOps,
}

} // verus!
